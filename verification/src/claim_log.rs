//! The lines logged when the keybindings were claimed, so that a config that
//! resolved to no grab, or a keymap without Super, is never silent.
use vstd::prelude::*;
use crate::keyboard;
use crate::keyboard::GrabStats;
use crate::text;

verus! {

/// A binding whose keysym resolved nowhere: its name and the keysym.
pub open spec fn missing_entry(m: (Seq<char>, u32)) -> Seq<char> {
    m.0 + " (0x"@ + text::hexadecimal(m.1 as nat) + ")"@
}

/// A keycode that carries Super: its number and the name of its keysym.
pub open spec fn mod4_entry(m: (u8, Seq<char>)) -> Seq<char> {
    text::decimal(m.0 as nat) + " ("@ + m.1 + ")"@
}

/// The line that counts the grabs, and names what is missing at its end.
pub open spec fn grab_line(
    bindings: nat,
    grabs: nat,
    holes: nat,
    missing: Seq<(Seq<char>, u32)>,
) -> Seq<char> {
    let counts = "tessera: grabbed "@ + text::decimal(grabs) + " lock-variant grabs for "@
        + text::decimal(bindings) + " bindings; "@ + text::decimal(holes)
        + " keycodes with NoSymbol keysym"@;
    if missing.len() == 0 {
        counts
    } else {
        counts + "; missing: "@ + text::separated(
            missing.map_values(|m: (Seq<char>, u32)| missing_entry(m)),
            ", "@,
        )
    }
}

/// The line that says which keys carry Super.
pub open spec fn mod4_line(mod4: Seq<(u8, Seq<char>)>) -> Seq<char> {
    if mod4.len() == 0 {
        "tessera: WARNING: no keycode mapped to Mod4"@
    } else {
        "tessera: mod4 keycodes: "@ + text::separated(
            mod4.map_values(|m: (u8, Seq<char>)| mod4_entry(m)),
            ", "@,
        )
    }
}

/// The lines of the claim: the counts, the Super keys, and a last one where
/// nothing was grabbed.
pub open spec fn claim_lines(
    bindings: nat,
    grabs: nat,
    holes: nat,
    missing: Seq<(Seq<char>, u32)>,
    mod4: Seq<(u8, Seq<char>)>,
) -> Seq<Seq<char>> {
    let lines = seq![grab_line(bindings, grabs, holes, missing), mod4_line(mod4)];
    if grabs == 0 {
        lines.push("tessera: no keybinding grabbed from config"@)
    } else {
        lines
    }
}

fn missing_entries(missing: &Vec<(String, u32)>) -> (r: Vec<String>)
    ensures
        text::texts(r@) == keyboard::named_missing(missing@).map_values(
            |m: (Seq<char>, u32)| missing_entry(m),
        ),
{
    let ghost all = keyboard::named_missing(missing@).map_values(
        |m: (Seq<char>, u32)| missing_entry(m),
    );
    let mut out: Vec<String> = Vec::new();
    let mut i: usize = 0;
    while i < missing.len()
        invariant
            i <= missing@.len(),
            all == keyboard::named_missing(missing@).map_values(
                |m: (Seq<char>, u32)| missing_entry(m),
            ),
            text::texts(out@) == all.take(i as int),
        decreases missing@.len() - i,
    {
        let ghost before = text::texts(out@);
        let mut entry = text::joined(missing[i].0.as_str(), " (0x");
        entry.append(text::hex_text(missing[i].1 as u64).as_str());
        entry.append(")");
        out.push(entry);
        assert(text::texts(out@) =~= before.push(entry@));
        assert(all.take(i + 1) =~= all.take(i as int).push(all[i as int]));
        i = i + 1;
    }
    assert(all.take(i as int) =~= all);
    out
}

fn mod4_entries(mod4: &Vec<(u8, String)>) -> (r: Vec<String>)
    ensures
        text::texts(r@) == keyboard::named_keycodes(mod4@).map_values(
            |m: (u8, Seq<char>)| mod4_entry(m),
        ),
{
    let ghost all = keyboard::named_keycodes(mod4@).map_values(
        |m: (u8, Seq<char>)| mod4_entry(m),
    );
    let mut out: Vec<String> = Vec::new();
    let mut i: usize = 0;
    while i < mod4.len()
        invariant
            i <= mod4@.len(),
            all == keyboard::named_keycodes(mod4@).map_values(
                |m: (u8, Seq<char>)| mod4_entry(m),
            ),
            text::texts(out@) == all.take(i as int),
        decreases mod4@.len() - i,
    {
        let ghost before = text::texts(out@);
        let mut entry = text::joined(text::decimal_text(mod4[i].0 as u64).as_str(), " (");
        entry.append(mod4[i].1.as_str());
        entry.append(")");
        out.push(entry);
        assert(text::texts(out@) =~= before.push(entry@));
        assert(all.take(i + 1) =~= all.take(i as int).push(all[i as int]));
        i = i + 1;
    }
    assert(all.take(i as int) =~= all);
    out
}

/// The lines to log once the keybindings were grabbed: `holes` keycodes have
/// no keysym at all, `mod4` are the keycodes that carry Super.
pub fn claim_log(stats: &GrabStats, holes: usize, mod4: &Vec<(u8, String)>) -> (r: Vec<String>)
    ensures
        text::texts(r@) == claim_lines(
            stats.bindings as nat,
            stats.grabs as nat,
            holes as nat,
            keyboard::named_missing(stats.missing@),
            keyboard::named_keycodes(mod4@),
        ),
{
    let mut line = text::joined(
        "tessera: grabbed ",
        text::decimal_text(stats.grabs as u64).as_str(),
    );
    line.append(" lock-variant grabs for ");
    line.append(text::decimal_text(stats.bindings as u64).as_str());
    line.append(" bindings; ");
    line.append(text::decimal_text(holes as u64).as_str());
    line.append(" keycodes with NoSymbol keysym");
    if stats.missing.len() > 0 {
        line.append("; missing: ");
        line.append(text::join_texts(&missing_entries(&stats.missing), ", ").as_str());
    }
    let keys = if mod4.len() == 0 {
        "tessera: WARNING: no keycode mapped to Mod4".to_owned()
    } else {
        text::joined(
            "tessera: mod4 keycodes: ",
            text::join_texts(&mod4_entries(mod4), ", ").as_str(),
        )
    };
    let ghost first = line@;
    let ghost second = keys@;
    let mut lines: Vec<String> = vec![line, keys];
    assert(text::texts(lines@) =~= seq![first, second]);
    if stats.grabs == 0 {
        lines.push("tessera: no keybinding grabbed from config".to_owned());
        assert(text::texts(lines@) =~= seq![first, second].push(
            "tessera: no keybinding grabbed from config"@,
        ));
    }
    lines
}

/// The first line counts the grabs, the bindings and the holes of the keymap,
/// in that order; bindings without a key follow with commas between them, each
/// with its keysym in hexadecimal.
pub proof fn law_first_line_counts_grabs(
    bindings: nat,
    grabs: nat,
    holes: nat,
    missing: Seq<(Seq<char>, u32)>,
    next: (Seq<char>, u32),
)
    requires
        missing.len() > 0,
    ensures
        grab_line(bindings, grabs, holes, Seq::empty()) == "tessera: grabbed "@ + text::decimal(
            grabs,
        ) + " lock-variant grabs for "@ + text::decimal(bindings) + " bindings; "@ + text::decimal(
            holes,
        ) + " keycodes with NoSymbol keysym"@,
        grab_line(bindings, grabs, holes, seq![next]) == grab_line(
            bindings,
            grabs,
            holes,
            Seq::empty(),
        ) + "; missing: "@ + (next.0 + " (0x"@ + text::hexadecimal(next.1 as nat) + ")"@),
        grab_line(bindings, grabs, holes, missing.push(next)) == grab_line(
            bindings,
            grabs,
            holes,
            missing,
        ) + ", "@ + (next.0 + " (0x"@ + text::hexadecimal(next.1 as nat) + ")"@),
{
    let entry = |m: (Seq<char>, u32)| missing_entry(m);
    assert(seq![next].map_values(entry) =~= seq![missing_entry(next)]);
    let before = missing.map_values(entry);
    assert(missing.push(next).map_values(entry) =~= before.push(missing_entry(next)));
    assert(before.push(missing_entry(next)).drop_last() =~= before);
    let counts = grab_line(bindings, grabs, holes, Seq::empty());
    assert(grab_line(bindings, grabs, holes, missing.push(next)) =~= counts + "; missing: "@ + (
    text::separated(before, ", "@) + ", "@ + missing_entry(next)));
}

/// The second line names the keys that carry Super, each by its keycode and
/// its name, with commas between them, or warns that there is none.
pub proof fn law_second_line_names_super_keys(mod4: Seq<(u8, Seq<char>)>, next: (u8, Seq<char>))
    requires
        mod4.len() > 0,
    ensures
        mod4_line(Seq::empty()) == "tessera: WARNING: no keycode mapped to Mod4"@,
        mod4_line(seq![next]) == "tessera: mod4 keycodes: "@ + (text::decimal(next.0 as nat) + " ("@
            + next.1 + ")"@),
        mod4_line(mod4.push(next)) == mod4_line(mod4) + ", "@ + (text::decimal(next.0 as nat)
            + " ("@ + next.1 + ")"@),
{
    let entry = |m: (u8, Seq<char>)| mod4_entry(m);
    assert(seq![next].map_values(entry) =~= seq![mod4_entry(next)]);
    let before = mod4.map_values(entry);
    assert(mod4.push(next).map_values(entry) =~= before.push(mod4_entry(next)));
    assert(before.push(mod4_entry(next)).drop_last() =~= before);
    assert(mod4_line(mod4.push(next)) =~= "tessera: mod4 keycodes: "@ + (text::separated(
        before,
        ", "@,
    ) + ", "@ + mod4_entry(next)));
}

/// The log is those two lines, and a third exactly where nothing was grabbed.
pub proof fn law_third_line_means_no_grab(
    bindings: nat,
    grabs: nat,
    holes: nat,
    missing: Seq<(Seq<char>, u32)>,
    mod4: Seq<(u8, Seq<char>)>,
)
    ensures
        ({
            let lines = claim_lines(bindings, grabs, holes, missing, mod4);
            &&& lines[0] == grab_line(bindings, grabs, holes, missing)
            &&& lines[1] == mod4_line(mod4)
            &&& grabs > 0 ==> lines.len() == 2
            &&& grabs == 0 ==> lines.len() == 3 && lines[2]
                == "tessera: no keybinding grabbed from config"@
        }),
{
}

} // verus!
