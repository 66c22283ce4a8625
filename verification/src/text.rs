//! Text helpers: decimal numbers, quoting, and string building.
use vstd::prelude::*;

verus! {

/// `String::push`: the standard library documents that it appends the given
/// character to the end of the string; nothing else changes.
pub assume_specification[ String::push ](s: &mut String, c: char)
    ensures
        final(s)@ == old(s)@.push(c),
;

/// What `format!("{:?}", text)` makes of a text: it stands between double
/// quotes, with the characters escaped that the standard library escapes.
pub uninterp spec fn debug_quoted(text: Seq<char>) -> Seq<char>;

/// The standard library's `Debug` formatting of a `str` (`format!("{:?}")`):
/// the result depends on the text alone.
#[verifier::external_body]
pub(crate) fn quoted(text: &str) -> (r: String)
    ensures
        r@ == debug_quoted(text@),
{
    format!("{text:?}")
}

/// The character of the decimal digit `d`.
pub open spec fn digit(d: int) -> char {
    (48 + d) as char
}

/// The decimal notation of `n`, without leading zeros.
pub open spec fn decimal(n: nat) -> Seq<char>
    decreases n,
{
    if n < 10 {
        seq![digit(n as int)]
    } else {
        decimal(n / 10).push(digit((n % 10) as int))
    }
}

/// The decimal notation of `n`.
pub fn decimal_text(n: u64) -> (r: String)
    ensures
        r@ == decimal(n as nat),
    decreases n,
{
    let mut out = if n < 10 {
        String::new()
    } else {
        decimal_text(n / 10)
    };
    let d: u8 = 48 + (n % 10) as u8;
    out.push(d as char);
    proof {
        if n < 10 {
            assert(out@ =~= seq![digit(n as int)]);
        }
    }
    out
}

/// The character of the hexadecimal digit `d`, in lower case.
pub open spec fn hex_digit(d: int) -> char {
    if d < 10 {
        (48 + d) as char
    } else {
        (87 + d) as char
    }
}

/// The hexadecimal notation of `n` in lower case, without leading zeros.
pub open spec fn hexadecimal(n: nat) -> Seq<char>
    decreases n,
{
    if n < 16 {
        seq![hex_digit(n as int)]
    } else {
        hexadecimal(n / 16).push(hex_digit((n % 16) as int))
    }
}

/// The hexadecimal notation of `n` in lower case.
pub fn hex_text(n: u64) -> (r: String)
    ensures
        r@ == hexadecimal(n as nat),
    decreases n,
{
    let mut out = if n < 16 {
        String::new()
    } else {
        hex_text(n / 16)
    };
    let low: u8 = (n % 16) as u8;
    let d: u8 = if low < 10 {
        48 + low
    } else {
        87 + low
    };
    out.push(d as char);
    proof {
        if n < 16 {
            assert(out@ =~= seq![hex_digit(n as int)]);
        }
    }
    out
}

/// `first` followed by `second`.
pub(crate) fn joined(first: &str, second: &str) -> (r: String)
    ensures
        r@ == first@ + second@,
{
    first.to_owned().concat(second)
}

/// The texts of a list of strings.
pub open spec fn texts(list: Seq<String>) -> Seq<Seq<char>> {
    list.map_values(|s: String| s@)
}

/// The parts one after the other, with `sep` between them.
pub open spec fn separated(parts: Seq<Seq<char>>, sep: Seq<char>) -> Seq<char>
    decreases parts.len(),
{
    if parts.len() == 0 {
        Seq::empty()
    } else if parts.len() == 1 {
        parts[0]
    } else {
        separated(parts.drop_last(), sep) + sep + parts.last()
    }
}

/// The parts one after the other, with `sep` between them.
pub(crate) fn join_texts(parts: &Vec<String>, sep: &str) -> (r: String)
    ensures
        r@ == separated(texts(parts@), sep@),
{
    let mut out = String::new();
    let ghost all = texts(parts@);
    let mut i: usize = 0;
    assert(out@ =~= separated(all.take(0), sep@));
    while i < parts.len()
        invariant
            i <= parts@.len(),
            all == texts(parts@),
            all.len() == parts@.len(),
            out@ == separated(all.take(i as int), sep@),
        decreases parts@.len() - i,
    {
        let ghost before = out@;
        if i > 0 {
            out.append(sep);
        }
        out.append(parts[i].as_str());
        proof {
            assert(all.take(i + 1).drop_last() =~= all.take(i as int));
            assert(all.take(i + 1).last() == parts@[i as int]@);
            if i == 0 {
                assert(out@ =~= parts@[0]@);
                assert(all.take(1)[0] == parts@[0]@);
            } else {
                assert(out@ =~= before + sep@ + parts@[i as int]@);
            }
        }
        i = i + 1;
    }
    assert(all.take(i as int) =~= all);
    out
}

/// Different numbers have different decimal notations.
pub proof fn law_decimal_is_injective(a: nat, b: nat)
    requires
        decimal(a) == decimal(b),
    ensures
        a == b,
    decreases a,
{
    let da = decimal(a);
    let db = decimal(b);
    assert(da.last() == digit((a % 10) as int));
    assert(db.last() == digit((b % 10) as int));
    lemma_decimal_len(a);
    lemma_decimal_len(b);
    if a >= 10 && b >= 10 {
        assert(da.drop_last() =~= decimal(a / 10));
        assert(db.drop_last() =~= decimal(b / 10));
        law_decimal_is_injective(a / 10, b / 10);
    }
}

proof fn lemma_decimal_len(n: nat)
    ensures
        decimal(n).len() >= 1,
        n >= 10 <==> decimal(n).len() >= 2,
    decreases n,
{
    if n >= 10 {
        lemma_decimal_len(n / 10);
    }
}

pub(crate) proof fn lemma_short_decimal(n: nat)
    ensures
        n < 10 ==> decimal(n).len() == 1,
        10 <= n < 100 ==> decimal(n).len() == 2,
{
    if n >= 10 {
        assert(decimal(n) == decimal(n / 10).push(digit((n % 10) as int)));
    }
}

/// The decimal notation of an integer, with a minus sign where it is
/// negative.
pub open spec fn signed_decimal(n: int) -> Seq<char> {
    if n < 0 {
        "-"@ + decimal((-n) as nat)
    } else {
        decimal(n as nat)
    }
}

/// The decimal notation of an integer.
pub(crate) fn signed_text(n: i64) -> (r: String)
    ensures
        r@ == signed_decimal(n as int),
{
    if n >= 0 {
        decimal_text(n as u64)
    } else {
        let magnitude: u64 = (-(n as i128)) as u64;
        joined("-", decimal_text(magnitude).as_str())
    }
}

/// Whether two texts are equal.
pub(crate) fn same_text(a: &str, b: &str) -> (r: bool)
    ensures
        r == (a@ == b@),
{
    a.to_owned() == b.to_owned()
}

/// The pieces of a text between the occurrences of `sep`: always one more
/// than there are occurrences.
pub open spec fn pieces(text: Seq<char>, sep: char) -> Seq<Seq<char>>
    decreases text.len(),
{
    if text.len() == 0 {
        seq![Seq::empty()]
    } else {
        let before = pieces(text.drop_last(), sep);
        if text.last() == sep {
            before.push(Seq::empty())
        } else {
            before.drop_last().push(before.last().push(text.last()))
        }
    }
}

/// The pieces of a text between the occurrences of `sep`.
pub(crate) fn split_text(text: &str, sep: char) -> (r: Vec<String>)
    ensures
        texts(r@) == pieces(text@, sep),
{
    let n: usize = text.unicode_len();
    let mut done: Vec<String> = Vec::new();
    let mut current = String::new();
    let mut i: usize = 0;
    assert(texts(done@).push(current@) =~= pieces(text@.take(0), sep));
    while i < n
        invariant
            i <= n,
            n == text@.len(),
            texts(done@).push(current@) == pieces(text@.take(i as int), sep),
        decreases n - i,
    {
        let c: char = text.get_char(i);
        let ghost whole = texts(done@).push(current@);
        let ghost taken = text@.take(i + 1);
        proof {
            assert(taken.drop_last() =~= text@.take(i as int));
            assert(taken.last() == c);
            assert(whole.drop_last() =~= texts(done@));
            assert(whole.last() == current@);
        }
        if c == sep {
            let ghost before = done@;
            done.push(current);
            current = String::new();
            assert(texts(done@) =~= whole);
            assert(texts(done@).push(current@) =~= pieces(taken, sep));
        } else {
            current.push(c);
            assert(texts(done@).push(current@) =~= pieces(taken, sep));
        }
        i = i + 1;
    }
    assert(text@.take(n as int) =~= text@);
    let ghost whole = texts(done@).push(current@);
    done.push(current);
    assert(texts(done@) =~= whole);
    done
}

/// Whether `c` occurs in a text.
pub(crate) fn has_char(text: &str, c: char) -> (r: bool)
    ensures
        r == text@.contains(c),
{
    let n: usize = text.unicode_len();
    let mut i: usize = 0;
    while i < n
        invariant
            i <= n,
            n == text@.len(),
            forall|j: int| 0 <= j < i ==> text@[j] != c,
        decreases n - i,
    {
        if text.get_char(i) == c {
            assert(text@[i as int] == c);
            return true;
        }
        i = i + 1;
    }
    false
}

} // verus!
