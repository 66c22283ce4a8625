//! Keybinding lookup: which command a key combination stands for.
use vstd::prelude::*;
use crate::command::Command;
use crate::config;
use crate::config::{Config, Keybindings};
use crate::decode;
use crate::event::KeyCombo;
use crate::geometry::{Direction, WorkspaceId};
use crate::text;

verus! {

/// A command for each combination of `combos`, numbered from 1.
pub open spec fn switching(combos: Seq<KeyCombo>) -> Seq<(KeyCombo, Command)> {
    Seq::new(
        combos.len(),
        |i: int| (combos[i], Command::SwitchWorkspace((i + 1) as WorkspaceId)),
    )
}

/// A command for each combination of `combos`, numbered from 1.
pub open spec fn moving(combos: Seq<KeyCombo>) -> Seq<(KeyCombo, Command)> {
    Seq::new(
        combos.len(),
        |i: int| (combos[i], Command::MoveToWorkspace((i + 1) as WorkspaceId)),
    )
}

impl Keybindings {
    /// The bindings with their commands, in the order in which they are
    /// tried.
    pub open spec fn commands(&self) -> Seq<(KeyCombo, Command)> {
        seq![
            (self.terminal, Command::SpawnTerminal),
            (self.focus_next, Command::FocusNext),
            (self.focus_prev, Command::FocusPrev),
            (self.close, Command::CloseFocused),
            (self.toggle_layout, Command::ToggleLayout),
            (self.launcher, Command::SpawnLauncher),
            (self.workspace_next, Command::CycleWorkspace(1)),
            (self.workspace_prev, Command::CycleWorkspace(-1 as i8)),
            (self.focus_left, Command::FocusDirection(Direction::Left)),
            (self.focus_down, Command::FocusDirection(Direction::Down)),
            (self.focus_up, Command::FocusDirection(Direction::Up)),
            (self.focus_right, Command::FocusDirection(Direction::Right)),
        ] + switching(self.workspace@) + moving(self.move_to_workspace@)
    }
}

/// The command of the first entry with this combination.
pub open spec fn first_bound(table: Seq<(KeyCombo, Command)>, combo: KeyCombo) -> Option<Command>
    decreases table.len(),
{
    if table.len() == 0 {
        None
    } else {
        match first_bound(table.drop_last(), combo) {
            Some(c) => Some(c),
            None => if table.last().0 == combo {
                Some(table.last().1)
            } else {
                None
            },
        }
    }
}

fn command_table(k: &Keybindings) -> (r: Vec<(KeyCombo, Command)>)
    ensures
        r@ == k.commands(),
{
    let mut table: Vec<(KeyCombo, Command)> = vec![
        (k.terminal, Command::SpawnTerminal),
        (k.focus_next, Command::FocusNext),
        (k.focus_prev, Command::FocusPrev),
        (k.close, Command::CloseFocused),
        (k.toggle_layout, Command::ToggleLayout),
        (k.launcher, Command::SpawnLauncher),
        (k.workspace_next, Command::CycleWorkspace(1)),
        (k.workspace_prev, Command::CycleWorkspace(-1)),
        (k.focus_left, Command::FocusDirection(Direction::Left)),
        (k.focus_down, Command::FocusDirection(Direction::Down)),
        (k.focus_up, Command::FocusDirection(Direction::Up)),
        (k.focus_right, Command::FocusDirection(Direction::Right)),
    ];
    let ghost scalars = table@;
    let mut i: usize = 0;
    while i < 10
        invariant
            i <= 10,
            table@ == scalars + switching(k.workspace@).take(i as int),
        decreases 10 - i,
    {
        table.push((k.workspace[i], Command::SwitchWorkspace(i as WorkspaceId + 1)));
        assert(table@ =~= scalars + switching(k.workspace@).take(i + 1));
        i = i + 1;
    }
    let ghost upper = table@;
    i = 0;
    while i < 10
        invariant
            i <= 10,
            table@ == upper + moving(k.move_to_workspace@).take(i as int),
        decreases 10 - i,
    {
        table.push((k.move_to_workspace[i], Command::MoveToWorkspace(i as WorkspaceId + 1)));
        assert(table@ =~= upper + moving(k.move_to_workspace@).take(i + 1));
        i = i + 1;
    }
    assert(table@ =~= k.commands());
    table
}

/// Pure keybinding lookup: the [`Command`] bound to `combo` under `cfg`, if
/// any. `workspace[i]` maps to workspace `i + 1` (Super+0, index 9, maps to
/// workspace 10).
pub fn command_for_key(cfg: &Config, combo: KeyCombo) -> (r: Option<Command>)
    ensures
        r == first_bound(cfg.keybindings.commands(), combo),
{
    let table = command_table(&cfg.keybindings);
    let mut found: Option<Command> = None;
    let mut i: usize = 0;
    while i < table.len()
        invariant
            i <= table@.len(),
            found == first_bound(table@.take(i as int), combo),
        decreases table@.len() - i,
    {
        let (bound, cmd) = table[i];
        assert(table@.take(i + 1).drop_last() =~= table@.take(i as int));
        if found.is_none() && bound == combo {
            found = Some(cmd);
        }
        i = i + 1;
    }
    assert(table@.take(i as int) =~= table@);
    found
}

/// The first match is one of the entries, and there is none only where no
/// entry matches.
pub proof fn lemma_first_bound(table: Seq<(KeyCombo, Command)>, combo: KeyCombo)
    ensures
        match first_bound(table, combo) {
            Some(cmd) => table.contains((combo, cmd)),
            None => forall|i: int| 0 <= i < table.len() ==> (#[trigger] table[i]).0 != combo,
        },
    decreases table.len(),
{
    if table.len() > 0 {
        let front = table.drop_last();
        lemma_first_bound(front, combo);
        match first_bound(front, combo) {
            Some(cmd) => {
                let i = choose|i: int| 0 <= i < front.len() && front[i] == (combo, cmd);
                assert(table[i] == (combo, cmd));
            },
            None => {
                if table.last().0 == combo {
                    assert(table[table.len() - 1] == (combo, table.last().1));
                } else {
                    assert forall|i: int| 0 <= i < table.len() implies (#[trigger] table[i]).0
                        != combo by {
                        if i < front.len() {
                            assert(front[i].0 != combo);
                        }
                    }
                }
            },
        }
    }
}

/// Lookup and registry agree: a combination stands for a command exactly when
/// some named binding has it. So every binding that is grabbed does
/// something, and nothing else does.
pub proof fn law_bound_iff_named(k: Keybindings, combo: KeyCombo)
    ensures
        first_bound(k.commands(), combo) is Some <==> exists|i: int|
            0 <= i < k.registry().len() && (#[trigger] k.registry()[i]).1 == combo,
{
    let table = k.commands();
    let names = k.registry();
    lemma_first_bound(table, combo);
    if let Some(cmd) = first_bound(table, combo) {
        let i = choose|i: int| 0 <= i < table.len() && table[i] == (combo, cmd);
        let j = if i == 6 {
            7
        } else if i == 7 {
            6
        } else {
            i
        };
        assert(names[j].1 == combo);
    } else {
        assert forall|i: int| 0 <= i < names.len() implies (#[trigger] names[i]).1 != combo by {
            let j = if i == 6 {
                7
            } else if i == 7 {
                6
            } else {
                i
            };
            assert(table[j].0 != combo);
            assert(table[j].0 == names[i].1);
        }
    }
}

/// No two default bindings share a combination, so each one reaches its own
/// command.
pub proof fn law_default_bindings_are_distinct(k: Keybindings, i: int, j: int)
    requires
        k.is_default(),
        0 <= i < j < k.commands().len(),
    ensures
        k.commands()[i].0 != k.commands()[j].0,
{
    let table = k.commands();
    assert(table.len() == 32);
    if 12 <= i < 22 {
        assert(table[i].0 == k.workspace@[i - 12]);
    }
    if 12 <= j < 22 {
        assert(table[j].0 == k.workspace@[j - 12]);
    }
    if 22 <= i < 32 {
        assert(table[i].0 == k.move_to_workspace@[i - 22]);
    }
    if 22 <= j < 32 {
        assert(table[j].0 == k.move_to_workspace@[j - 22]);
    }
}

/// The length of a name, with its first and its fourth-last character: enough
/// to tell the names without a number apart.
spec fn outline(name: Seq<char>) -> (nat, char, char) {
    (name.len(), name[0], name[name.len() - 4])
}

proof fn lemma_numbered_names(prefix: Seq<char>, a: nat, b: nat)
    requires
        prefix + text::decimal(a) == prefix + text::decimal(b),
    ensures
        a == b,
{
    let x = prefix + text::decimal(a);
    let y = prefix + text::decimal(b);
    assert(x.skip(prefix.len() as int) =~= text::decimal(a));
    assert(y.skip(prefix.len() as int) =~= text::decimal(b));
    text::law_decimal_is_injective(a, b);
}

proof fn lemma_outlines(k: Keybindings, i: int)
    requires
        0 <= i < 32,
    ensures
        i < 12 ==> outline(k.registry()[i].0) == seq![
            (8nat, 't', 'i'),
            (10nat, 'f', 'n'),
            (10nat, 'f', 'p'),
            (5nat, 'c', 'l'),
            (13nat, 't', 'y'),
            (8nat, 'l', 'c'),
            (14nat, 'w', 'p'),
            (14nat, 'w', 'n'),
            (10nat, 'f', 'l'),
            (10nat, 'f', 'd'),
            (8nat, 'f', 's'),
            (11nat, 'f', 'i'),
        ][i],
        12 <= i < 22 ==> k.registry()[i].0 == "workspace-"@ + text::decimal((i - 11) as nat),
        22 <= i < 32 ==> k.registry()[i].0 == "move-to-workspace-"@ + text::decimal(
            (i - 21) as nat,
        ),
        12 <= i < 32 ==> {
            let name = k.registry()[i].0;
            &&& 11 <= name.len() <= 12 || 19 <= name.len() <= 20
            &&& name.len() <= 12 <==> i < 22
            &&& name[0] == 'w' || name[0] == 'm'
        },
{
    reveal_strlit("terminal");
    reveal_strlit("focus_next");
    reveal_strlit("focus_prev");
    reveal_strlit("close");
    reveal_strlit("toggle_layout");
    reveal_strlit("launcher");
    reveal_strlit("workspace_prev");
    reveal_strlit("workspace_next");
    reveal_strlit("focus_left");
    reveal_strlit("focus_down");
    reveal_strlit("focus_up");
    reveal_strlit("focus_right");
    reveal_strlit("workspace-");
    reveal_strlit("move-to-workspace-");
    text::lemma_short_decimal(if i < 22 {
        (i - 11) as nat
    } else {
        (i - 21) as nat
    });
}

/// No two bindings share a claim-log name.
pub proof fn law_binding_names_are_distinct(k: Keybindings, i: int, j: int)
    requires
        0 <= i < j < k.registry().len(),
    ensures
        k.registry()[i].0 != k.registry()[j].0,
{
    lemma_outlines(k, i);
    lemma_outlines(k, j);
    if 12 <= i && j < 22 && k.registry()[i].0 == k.registry()[j].0 {
        lemma_numbered_names("workspace-"@, (i - 11) as nat, (j - 11) as nat);
    }
    if 22 <= i && k.registry()[i].0 == k.registry()[j].0 {
        lemma_numbered_names("move-to-workspace-"@, (i - 21) as nat, (j - 21) as nat);
    }
}

/// Every default binding's key has a name in the key dictionary.
pub proof fn law_default_keys_have_names(k: Keybindings, i: int)
    requires
        k.is_default(),
        0 <= i < k.registry().len(),
    ensures
        exists|d: int|
            0 <= d < decode::key_dictionary().len() && (#[trigger] decode::key_dictionary()[d]).1
                == k.registry()[i].1.key,
{
    let words = decode::key_dictionary();
    let key = k.registry()[i].1.key;
    if 12 <= i < 22 {
        assert(k.registry()[i].1 == k.workspace@[i - 12]);
    }
    if 22 <= i {
        assert(k.registry()[i].1 == k.move_to_workspace@[i - 22]);
    }
    assert(words[0].1 == config::KEY_RETURN);
    assert(words[5].1 == config::KEY_SPACE);
    assert(words[6].1 == config::KEY_H);
    assert(words[7].1 == config::KEY_J);
    assert(words[8].1 == config::KEY_K);
    assert(words[9].1 == config::KEY_L);
    assert(words[10].1 == config::KEY_Q);
    if 12 <= i {
        let digit = if i < 22 {
            i - 12
        } else {
            i - 22
        };
        assert(words[11 + digit].1 == key);
    }
}

} // verus!
