//! What the text helpers promise of every input: numbers can be read back, and
//! a text is its pieces joined again.
use vstd::prelude::*;
use crate::text;

verus! {

/// The number that decimal digits denote, most significant first.
pub open spec fn decimal_value(digits: Seq<char>) -> int
    decreases digits.len(),
{
    if digits.len() == 0 {
        0
    } else {
        10 * decimal_value(digits.drop_last()) + (digits.last() as int - '0' as int)
    }
}

/// The value of a lower-case hexadecimal digit.
pub open spec fn hex_value_of(c: char) -> int {
    if '0' <= c <= '9' {
        c as int - '0' as int
    } else {
        10 + c as int - 'a' as int
    }
}

/// The number that hexadecimal digits denote, most significant first.
pub open spec fn hexadecimal_value(digits: Seq<char>) -> int
    decreases digits.len(),
{
    if digits.len() == 0 {
        0
    } else {
        16 * hexadecimal_value(digits.drop_last()) + hex_value_of(digits.last())
    }
}

/// The decimal notation of a number is made of decimal digits, denotes that
/// number, and has no leading zero but that of zero itself.
pub proof fn law_decimal_reads_back(n: nat)
    ensures
        decimal_value(text::decimal(n)) == n,
        text::decimal(n).len() > 0,
        forall|i: int|
            0 <= i < text::decimal(n).len() ==> '0' <= #[trigger] text::decimal(n)[i] <= '9',
        n > 0 ==> text::decimal(n)[0] != '0',
    decreases n,
{
    if n < 10 {
        assert(text::decimal(n).drop_last() =~= Seq::empty());
        assert(decimal_value(Seq::<char>::empty()) == 0);
    } else {
        law_decimal_reads_back(n / 10);
        assert(text::decimal(n).drop_last() =~= text::decimal(n / 10));
    }
}

/// The hexadecimal notation of a number is made of lower-case hexadecimal
/// digits, denotes that number, and has no leading zero but that of zero
/// itself.
pub proof fn law_hexadecimal_reads_back(n: nat)
    ensures
        hexadecimal_value(text::hexadecimal(n)) == n,
        text::hexadecimal(n).len() > 0,
        forall|i: int|
            0 <= i < text::hexadecimal(n).len() ==> {
                let c = #[trigger] text::hexadecimal(n)[i];
                '0' <= c <= '9' || 'a' <= c <= 'f'
            },
        n > 0 ==> text::hexadecimal(n)[0] != '0',
    decreases n,
{
    if n < 16 {
        assert(text::hexadecimal(n).drop_last() =~= Seq::empty());
        assert(hexadecimal_value(Seq::<char>::empty()) == 0);
    } else {
        law_hexadecimal_reads_back(n / 16);
        assert(text::hexadecimal(n).drop_last() =~= text::hexadecimal(n / 16));
    }
}

/// The notation of a negative number is a minus sign and the notation of its
/// opposite; any other number has its decimal notation.
pub proof fn law_minus_sign(n: nat)
    ensures
        text::signed_decimal(n as int) == text::decimal(n),
        n > 0 ==> text::signed_decimal(-n) == seq!['-'] + text::decimal(n),
{
    reveal_strlit("-");
    assert("-"@ =~= seq!['-']);
}

/// Joining adds the separator between the parts and nowhere else: a single
/// part stands by itself, and two lists are joined by one separator.
pub proof fn law_separator_stands_between(
    first: Seq<Seq<char>>,
    second: Seq<Seq<char>>,
    part: Seq<char>,
    sep: Seq<char>,
)
    requires
        first.len() > 0,
        second.len() > 0,
    ensures
        text::separated(Seq::empty(), sep) == Seq::<char>::empty(),
        text::separated(seq![part], sep) == part,
        text::separated(first + second, sep) == text::separated(first, sep) + sep
            + text::separated(second, sep),
    decreases second.len(),
{
    let both = first + second;
    assert(both.drop_last() =~= first + second.drop_last());
    assert(both.last() == second.last());
    if second.len() == 1 {
        assert(first + second.drop_last() =~= first);
    } else {
        law_separator_stands_between(first, second.drop_last(), part, sep);
        let front = text::separated(first, sep);
        let middle = text::separated(second.drop_last(), sep);
        assert(front + sep + middle + sep + second.last() =~= front + sep + (middle + sep
            + second.last()));
    }
}

/// The pieces of a text hold no separator, and joined by it they are the text.
pub proof fn law_pieces_join_to_the_text(s: Seq<char>, sep: char)
    ensures
        text::pieces(s, sep).len() > 0,
        forall|i: int|
            0 <= i < text::pieces(s, sep).len() ==> !(#[trigger] text::pieces(s, sep)[i]).contains(
                sep,
            ),
        text::separated(text::pieces(s, sep), seq![sep]) == s,
        text::pieces(s, sep).len() == 1 <==> !s.contains(sep),
    decreases s.len(),
{
    let all = text::pieces(s, sep);
    if s.len() == 0 {
        assert(all =~= seq![Seq::<char>::empty()]);
    } else {
        let front = s.drop_last();
        let before = text::pieces(front, sep);
        law_pieces_join_to_the_text(front, sep);
        assert(s =~= front.push(s.last()));
        if s.last() == sep {
            assert(s[s.len() - 1] == sep);
            assert(all.drop_last() =~= before);
            assert(front + seq![sep] + Seq::empty() =~= s);
            assert(!Seq::<char>::empty().contains(sep));
        } else {
            let last = before.last();
            assert(!before[before.len() - 1].contains(sep));
            assert forall|i: int| 0 <= i < all.len() implies !(#[trigger] all[i]).contains(
                sep,
            ) by {
                if i == all.len() - 1 {
                    assert(all[i] == last.push(s.last()));
                    assert forall|j: int| 0 <= j < all[i].len() implies all[i][j] != sep by {
                        if j < last.len() {
                            assert(last[j] != sep);
                        }
                    }
                } else {
                    assert(all[i] == before[i]);
                }
            }
            assert(all.drop_last() =~= before.drop_last());
            if before.len() == 1 {
                assert(before[0] == front);
            } else {
                let start = text::separated(before.drop_last(), seq![sep]);
                assert(start + seq![sep] + last.push(s.last()) =~= (start + seq![sep]
                    + last).push(s.last()));
            }
            if s.contains(sep) {
                let i = choose|i: int| 0 <= i < s.len() && s[i] == sep;
                assert(front[i] == sep);
            }
            if front.contains(sep) {
                let i = choose|i: int| 0 <= i < front.len() && front[i] == sep;
                assert(s[i] == sep);
            }
        }
    }
}

/// The texts of a list are those of its strings, in order.
pub proof fn law_texts_of_a_list(list: Seq<String>, i: int)
    ensures
        text::texts(list).len() == list.len(),
        0 <= i < list.len() ==> text::texts(list)[i] == list[i]@,
{
}

} // verus!
