//! Which command each binding stands for, and the name that it is logged
//! under.
use vstd::prelude::*;
use crate::bindings;
use crate::command::Command;
use crate::config;
use crate::config::Keybindings;
use crate::event::KeyCombo;
use crate::geometry::{Direction, WorkspaceId};
use crate::text;

verus! {

/// Whether a combination is that of one of the bindings that are not
/// numbered.
pub open spec fn unnumbered(k: Keybindings, combo: KeyCombo) -> bool {
    ||| combo == k.terminal
    ||| combo == k.focus_next
    ||| combo == k.focus_prev
    ||| combo == k.close
    ||| combo == k.toggle_layout
    ||| combo == k.launcher
    ||| combo == k.workspace_next
    ||| combo == k.workspace_prev
    ||| combo == k.focus_left
    ||| combo == k.focus_down
    ||| combo == k.focus_up
    ||| combo == k.focus_right
}

proof fn lemma_first_match(table: Seq<(KeyCombo, Command)>, combo: KeyCombo, i: int)
    requires
        0 <= i < table.len(),
        table[i].0 == combo,
        forall|j: int| 0 <= j < i ==> (#[trigger] table[j]).0 != combo,
    ensures
        bindings::first_bound(table, combo) == Some(table[i].1),
    decreases table.len(),
{
    let front = table.drop_last();
    if i == table.len() - 1 {
        lemma_no_match(front, combo);
    } else {
        lemma_first_match(front, combo, i);
    }
}

proof fn lemma_no_match(table: Seq<(KeyCombo, Command)>, combo: KeyCombo)
    requires
        forall|j: int| 0 <= j < table.len() ==> (#[trigger] table[j]).0 != combo,
    ensures
        bindings::first_bound(table, combo) is None,
    decreases table.len(),
{
    if table.len() > 0 {
        lemma_no_match(table.drop_last(), combo);
        assert(table[table.len() - 1].0 != combo);
    }
}

/// A key combination does what the binding of that combination is named for.
/// Where several bindings share it, the one that stands first here counts.
#[verifier::spinoff_prover]
#[verifier::rlimit(60)]
pub proof fn law_bindings_do_what_they_are_named_for(k: Keybindings, combo: KeyCombo)
    ensures
        ({
            let bound = bindings::first_bound(k.commands(), combo);
            if combo == k.terminal {
                bound == Some(Command::SpawnTerminal)
            } else if combo == k.focus_next {
                bound == Some(Command::FocusNext)
            } else if combo == k.focus_prev {
                bound == Some(Command::FocusPrev)
            } else if combo == k.close {
                bound == Some(Command::CloseFocused)
            } else if combo == k.toggle_layout {
                bound == Some(Command::ToggleLayout)
            } else if combo == k.launcher {
                bound == Some(Command::SpawnLauncher)
            } else if combo == k.workspace_next {
                bound == Some(Command::CycleWorkspace(1))
            } else if combo == k.workspace_prev {
                bound == Some(Command::CycleWorkspace(-1 as i8))
            } else if combo == k.focus_left {
                bound == Some(Command::FocusDirection(Direction::Left))
            } else if combo == k.focus_down {
                bound == Some(Command::FocusDirection(Direction::Down))
            } else if combo == k.focus_up {
                bound == Some(Command::FocusDirection(Direction::Up))
            } else if combo == k.focus_right {
                bound == Some(Command::FocusDirection(Direction::Right))
            } else {
                true
            }
        }),
{
    if combo == k.terminal {
        lemma_first_match(k.commands(), combo, 0);
    } else if combo == k.focus_next {
        lemma_first_match(k.commands(), combo, 1);
    } else if combo == k.focus_prev {
        lemma_first_match(k.commands(), combo, 2);
    } else if combo == k.close {
        lemma_first_match(k.commands(), combo, 3);
    } else if combo == k.toggle_layout {
        lemma_first_match(k.commands(), combo, 4);
    } else if combo == k.launcher {
        lemma_first_match(k.commands(), combo, 5);
    } else if combo == k.workspace_next {
        lemma_first_match(k.commands(), combo, 6);
    } else if combo == k.workspace_prev {
        lemma_first_match(k.commands(), combo, 7);
    } else if combo == k.focus_left {
        lemma_first_match(k.commands(), combo, 8);
    } else if combo == k.focus_down {
        lemma_first_match(k.commands(), combo, 9);
    } else if combo == k.focus_up {
        lemma_first_match(k.commands(), combo, 10);
    } else if combo == k.focus_right {
        lemma_first_match(k.commands(), combo, 11);
    }
}

/// Where no other binding has it, the combination at place `i` of the
/// workspace digits switches to workspace `i + 1`, and that of the move digits
/// sends the focused window there; the first place counts.
pub proof fn law_digits_name_their_workspace(k: Keybindings, combo: KeyCombo, i: int)
    requires
        !unnumbered(k, combo),
        0 <= i < 10,
    ensures
        k.workspace@[i] == combo && (forall|j: int| 0 <= j < i ==> k.workspace@[j] != combo)
            ==> bindings::first_bound(k.commands(), combo) == Some(
            Command::SwitchWorkspace((i + 1) as WorkspaceId),
        ),
        k.move_to_workspace@[i] == combo && (forall|j: int|
            0 <= j < i ==> k.move_to_workspace@[j] != combo) && (forall|j: int|
            0 <= j < 10 ==> k.workspace@[j] != combo) ==> bindings::first_bound(
            k.commands(),
            combo,
        ) == Some(Command::MoveToWorkspace((i + 1) as WorkspaceId)),
{
    let table = k.commands();
    if k.workspace@[i] == combo && (forall|j: int| 0 <= j < i ==> k.workspace@[j] != combo) {
        assert forall|j: int| 0 <= j < 12 + i implies (#[trigger] table[j]).0 != combo by {
            if j >= 12 {
                assert(table[j].0 == k.workspace@[j - 12]);
            }
        }
        lemma_first_match(table, combo, 12 + i);
    }
    if k.move_to_workspace@[i] == combo && (forall|j: int|
        0 <= j < i ==> k.move_to_workspace@[j] != combo) && (forall|j: int|
        0 <= j < 10 ==> k.workspace@[j] != combo) {
        assert forall|j: int| 0 <= j < 22 + i implies (#[trigger] table[j]).0 != combo by {
            if j >= 22 {
                assert(table[j].0 == k.move_to_workspace@[j - 22]);
            } else if j >= 12 {
                assert(table[j].0 == k.workspace@[j - 12]);
            }
        }
        lemma_first_match(table, combo, 22 + i);
    }
}

/// A combination that no binding has does nothing.
pub proof fn law_other_combinations_do_nothing(k: Keybindings, combo: KeyCombo)
    requires
        !unnumbered(k, combo),
        forall|i: int|
            0 <= i < 10 ==> #[trigger] k.workspace@[i] != combo,
        forall|i: int|
            0 <= i < 10 ==> #[trigger] k.move_to_workspace@[i] != combo,
    ensures
        bindings::first_bound(k.commands(), combo) is None,
{
    let table = k.commands();
    assert forall|j: int| 0 <= j < table.len() implies (#[trigger] table[j]).0 != combo by {
        if j >= 22 {
            assert(table[j].0 == k.move_to_workspace@[j - 22]);
        } else if j >= 12 {
            assert(table[j].0 == k.workspace@[j - 12]);
        }
    }
    lemma_no_match(table, combo);
}

/// The bindings are grabbed in this order and logged under these names: those
/// that are not numbered, then the workspace digits from 1 to 10, then the
/// move digits from 1 to 10.
pub proof fn law_bindings_are_logged_under_their_names(k: Keybindings, i: int)
    ensures
        k.registry().len() == 32,
        k.registry()[0] == ("terminal"@, k.terminal),
        k.registry()[1] == ("focus_next"@, k.focus_next),
        k.registry()[2] == ("focus_prev"@, k.focus_prev),
        k.registry()[3] == ("close"@, k.close),
        k.registry()[4] == ("toggle_layout"@, k.toggle_layout),
        k.registry()[5] == ("launcher"@, k.launcher),
        k.registry()[6] == ("workspace_prev"@, k.workspace_prev),
        k.registry()[7] == ("workspace_next"@, k.workspace_next),
        k.registry()[8] == ("focus_left"@, k.focus_left),
        k.registry()[9] == ("focus_down"@, k.focus_down),
        k.registry()[10] == ("focus_up"@, k.focus_up),
        k.registry()[11] == ("focus_right"@, k.focus_right),
        0 <= i < 10 ==> k.registry()[12 + i] == (
            "workspace-"@ + text::decimal((i + 1) as nat),
            k.workspace@[i],
        ),
        0 <= i < 10 ==> k.registry()[22 + i] == (
            "move-to-workspace-"@ + text::decimal((i + 1) as nat),
            k.move_to_workspace@[i],
        ),
{
}

/// The contents of a list of named bindings are its names and combinations, in
/// order.
pub proof fn law_contents_of_binding_lists(pairs: Seq<(String, KeyCombo)>, i: int)
    ensures
        config::named(pairs).len() == pairs.len(),
        0 <= i < pairs.len() ==> config::named(pairs)[i] == (pairs[i].0@, pairs[i].1),
{
}

} // verus!
