//! What each lifecycle event and each command does to the windows: their
//! states, where they stand, and where the focus goes.
use vstd::prelude::*;
use crate::command::Command;
use crate::event::EventView;
use crate::geometry::WindowId;
use crate::window;
use crate::window::{CommandEffect, WindowState, Windows};
use crate::workspace_effects;
use crate::workspace_laws;
use crate::workspace_model;
use crate::workspace_model::Desktops;

verus! {

/// No window other than `w` changes its state from `m` to `n`.
pub open spec fn other_states_unchanged(m: Windows, n: Windows, w: WindowId) -> bool {
    forall|x: WindowId| x != w ==> #[trigger] n.state(x) == m.state(x)
}

/// `n` differs from `m` in the state of `w` at most.
pub open spec fn only_state_changed(m: Windows, n: Windows, w: WindowId) -> bool {
    n.desks == m.desks && other_states_unchanged(m, n, w)
}

// ---------------------------------------------------------------------------
// Lifecycle
// ---------------------------------------------------------------------------

/// A MapRequest for a window never seen or removed puts it in front of the
/// current workspace, focused, and has it managed. An iconified window is
/// managed again where it stands. Any other request changes nothing.
pub proof fn law_map_request_takes_in_new_windows(m: Windows, w: WindowId)
    requires
        m.inv(),
    ensures
        ({
            let n = m.map_requested(w);
            &&& other_states_unchanged(m, n, w)
            &&& m.state(w) == WindowState::Unmanaged ==> {
                &&& n.state(w) == WindowState::Managing
                &&& n.desks.visible() == seq![w] + m.desks.visible()
                &&& n.desks.focused() == Some(w)
            }
            &&& m.state(w) == WindowState::UnmanagePending ==> n.state(w) == WindowState::Managed
                && n.desks == m.desks
            &&& m.state(w) == WindowState::Managing || m.state(w) == WindowState::Managed ==> n
                == m
        }),
{
    let n = m.map_requested(w);
    assert forall|x: WindowId| x != w implies #[trigger] n.state(x) == m.state(x) by {}
    if m.state(w) == WindowState::Unmanaged {
        assert(!m.desks.holds(w));
        workspace_model::law_attach_keeps_order(m.desks, w);
        if m.desks.spaces.len() == 0 {
            workspace_effects::law_attach_opens_the_first_workspace(m.desks, w);
            assert(m.desks.visible() =~= Seq::<WindowId>::empty());
            assert(seq![w] + m.desks.visible() =~= seq![w]);
        } else {
            workspace_effects::law_attach_puts_in_front(m.desks, w);
            let c = m.desks.at(m.desks.current);
            assert(m.desks.has(m.desks.current));
            assert(m.desks.spaces[c].id == m.desks.current);
            assert(!m.desks.visible().contains(w)) by {
                if m.desks.visible().contains(w) {
                    assert(m.desks.spaces[c].windows.contains(w));
                }
            }
        }
    }
}

/// A window whose frame is up is managed and announced, once; in any other
/// state nothing happens.
pub proof fn law_managed_is_announced_once(m: Windows, w: WindowId)
    ensures
        m.state(w) == WindowState::Managing ==> {
            let n = m.now_managed(w);
            &&& n.state(w) == WindowState::Managed
            &&& other_states_unchanged(m, n, w)
            &&& n.desks == m.desks.publishing(EventView::WindowManaged(w))
            &&& n.now_managed(w) == n
        },
        m.state(w) != WindowState::Managing ==> m.now_managed(w) == m,
{
}

/// An UnmapNotify hides a managed window without moving it or the focus; in
/// any other state nothing happens.
pub proof fn law_unmap_only_hides(m: Windows, w: WindowId)
    ensures
        m.state(w) == WindowState::Managed ==> m.unmapped(w).state(w)
            == WindowState::UnmanagePending && only_state_changed(m, m.unmapped(w), w),
        m.state(w) != WindowState::Managed ==> m.unmapped(w) == m,
{
}

/// When the focused window dies, the focus falls to the most recent window of
/// what is then the current workspace. A workspace that keeps windows stays
/// current, and they keep their order.
#[verifier::spinoff_prover]
#[verifier::rlimit(50)]
pub proof fn law_focus_falls_to_the_most_recent_window(m: Windows, w: WindowId)
    requires
        m.inv(),
        m.desks.focused() == Some(w),
        m.state(w) == WindowState::Managed || m.state(w) == WindowState::UnmanagePending,
    ensures
        ({
            let n = m.destroyed(w);
            &&& n.state(w) == WindowState::Unmanaged
            &&& other_states_unchanged(m, n, w)
            &&& n.desks.focused() == workspace_effects::front(n.desks.visible())
            &&& m.desks.visible().len() > 1 ==> {
                &&& n.desks.current == m.desks.current
                &&& n.desks.visible() == m.desks.visible().filter(|x: WindowId| x != w)
                &&& n.desks.visible().len() == m.desks.visible().len() - 1
                &&& n.desks.published == m.desks.published.push(EventView::WindowUnmapped(w))
            }
            &&& m.desks.visible().len() == 1 ==> {
                &&& n.desks.current == m.desks.detached(w).current
                &&& n.desks.visible() == m.desks.detached(w).visible()
                &&& n.desks.published == m.desks.detached(w).published.push(
                    EventView::WindowUnmapped(w),
                )
            }
        }),
{
    let d = m.desks;
    let c = d.current;
    assert(d.has(c));
    let i = d.at(c);
    assert(d.spaces[i].id == c);
    assert(d.spaces[i].inv());
    assert(d.space(c).windows.contains(w));
    workspace_model::law_detach_keeps_order(d, w);
    let left = d.detached(w);
    let gone = left.publishing(EventView::WindowUnmapped(w));
    workspace_model::lemma_publishing(left, EventView::WindowUnmapped(w));
    if d.visible().len() > 1 {
        workspace_effects::law_detach_leaves_the_others(d, w, c);
        assert(left.current == c);
        assert(gone.focused() is None);
        assert(gone.visible() == left.visible());
        lemma_repair(gone);
    } else {
        assert(d.visible() =~= seq![w]) by {
            let k = choose|k: int| 0 <= k < d.visible().len() && d.visible()[k] == w;
        }
        if d.spaces.len() > 1 {
            workspace_effects::law_emptied_workspace_hands_over_to_the_most_recent(d, w);
        } else {
            workspace_effects::law_only_workspace_stays(d, w);
        }
        lemma_repair(gone);
    }
}

/// A focus repaired on a workspace with windows is on its front window.
proof fn lemma_repair(d: Desktops)
    requires
        d.inv(),
    ensures
        d.focused() is Some ==> window::repaired(d) == d,
        d.focused() is None ==> window::repaired(d).focused() == workspace_effects::front(
            d.visible(),
        ),
        window::repaired(d).visible() == d.visible(),
        window::repaired(d).current == d.current,
        window::repaired(d).published == d.published,
{
    if d.focused() is None && d.visible().len() > 0 {
        let w = d.visible()[0];
        assert(d.has(d.current));
        let c = d.at(d.current);
        assert(d.spaces[c].id == d.current);
        assert(d.space(d.current).windows.contains(w));
        workspace_effects::law_attach_puts_in_front(d, w);
        workspace_model::law_attach_keeps_order(d, w);
    }
}

/// When a window without the focus dies, the focus stays, and so does what is
/// seen but for the window itself.
#[verifier::spinoff_prover]
#[verifier::rlimit(50)]
pub proof fn law_other_deaths_leave_the_focus(m: Windows, w: WindowId)
    requires
        m.inv(),
        m.desks.focused() != Some(w),
        m.desks.focused() is Some,
        m.state(w) == WindowState::Managed || m.state(w) == WindowState::UnmanagePending,
    ensures
        ({
            let n = m.destroyed(w);
            &&& n.state(w) == WindowState::Unmanaged
            &&& other_states_unchanged(m, n, w)
            &&& n.desks.current == m.desks.current
            &&& n.desks.focused() == m.desks.focused()
            &&& n.desks.visible() == m.desks.visible().filter(|x: WindowId| x != w)
            &&& n.desks.published.last() == EventView::WindowUnmapped(w)
            &&& !n.desks.holds(w)
        }),
{
    let d = m.desks;
    let c = d.current;
    assert(d.has(c));
    let i = d.at(c);
    assert(d.spaces[i].id == c);
    assert(d.spaces[i].inv());
    window::law_unmanaged_at_most_once(m, w);
    workspace_model::law_detach_keeps_order(d, w);
    let left = d.detached(w);
    workspace_model::lemma_publishing(left, EventView::WindowUnmapped(w));
    if d.visible().contains(w) {
        assert(d.visible().len() > 1) by {
            let a = choose|a: int| 0 <= a < d.visible().len() && d.visible()[a] == w;
            let f = d.focused()->Some_0;
            assert(d.visible().contains(f));
            let b = choose|b: int| 0 <= b < d.visible().len() && d.visible()[b] == f;
            assert(a != b);
        }
        workspace_effects::law_detach_leaves_the_others(d, w, c);
    } else {
        lemma_filter_all(d.visible(), w);
        if d.holds(w) {
            let h = choose|h: int|
                0 <= h < d.spaces.len() && (#[trigger] d.spaces[h]).windows.contains(w);
            let id = d.spaces[h].id;
            workspace_model::lemma_at(d, h);
            assert(id != c);
            if d.space(id).windows.len() > 1 {
                workspace_effects::law_detach_leaves_the_others(d, w, id);
            } else {
                assert(d.space(id).windows =~= seq![w]) by {
                    let k = choose|k: int|
                        0 <= k < d.space(id).windows.len() && d.space(id).windows[k] == w;
                }
                workspace_effects::law_emptied_background_workspace_closes(d, w, id);
            }
            assert(left.has(c) && left.space(c) == d.space(c));
        }
    }
}

proof fn lemma_filter_all(s: Seq<u32>, x: u32)
    requires
        !s.contains(x),
    ensures
        s.filter(|y: u32| y != x) == s,
    decreases s.len(),
{
    reveal(Seq::filter);
    if s.len() > 0 {
        let head = s.drop_last();
        assert(!head.contains(x)) by {
            if head.contains(x) {
                let i = choose|i: int| 0 <= i < head.len() && head[i] == x;
                assert(s[i] == x);
            }
        }
        assert(s.contains(s.last()));
        lemma_filter_all(head, x);
        assert(s =~= head.push(s.last()));
    }
}

// ---------------------------------------------------------------------------
// Cycling
// ---------------------------------------------------------------------------

/// Cycling through the `n` windows of the current workspace, the focus on the
/// `i`-th: forward to the one after it, or from the last to the first;
/// backward to the one before it, or from the first to the last. Nothing but
/// the focus changes.
#[verifier::spinoff_prover]
#[verifier::rlimit(50)]
pub proof fn law_cycle_goes_to_the_neighbour(m: Windows, i: int)
    requires
        m.inv(),
        m.desks.visible().len() >= 2,
        0 <= i < m.desks.visible().len(),
        m.desks.focused() == Some(m.desks.visible()[i]),
    ensures
        ({
            let windows = m.desks.visible();
            let n = windows.len() as int;
            &&& m.cycled(1).desks.focused() == Some(windows[if i + 1 < n {
                i + 1
            } else {
                0
            }])
            &&& m.cycled(-1).desks.focused() == Some(windows[if i > 0 {
                i - 1
            } else {
                n - 1
            }])
            &&& only_focus_moved(m, m.cycled(1))
            &&& only_focus_moved(m, m.cycled(-1))
        }),
{
    let windows = m.desks.visible();
    let n = windows.len() as int;
    assert(m.desks.spaces[m.desks.at(m.desks.current)].inv());
    window::law_cycle_back_undoes_cycle(m, 1);
    window::law_cycle_back_undoes_cycle(m, -1);
    let f = windows[i];
    assert(windows.contains(f));
    windows.index_of_first_ensures(f);
    assert(windows.index_of_first(f)->Some_0 == i);
    if i + 1 < n {
        vstd::arithmetic::div_mod::lemma_small_mod((i + 1) as nat, n as nat);
    } else {
        vstd::arithmetic::div_mod::lemma_mod_self_0(n);
    }
    if i > 0 {
        vstd::arithmetic::div_mod::lemma_small_mod((i - 1) as nat, n as nat);
    } else {
        vstd::arithmetic::div_mod::lemma_mod_add_multiples_vanish(-1, n);
        vstd::arithmetic::div_mod::lemma_small_mod((n - 1) as nat, n as nat);
    }
    lemma_cycle_moves_focus_only(m, 1);
    lemma_cycle_moves_focus_only(m, -1);
}

/// `n` is `m` but for the focus of the current workspace.
pub open spec fn only_focus_moved(m: Windows, n: Windows) -> bool {
    &&& n.states == m.states
    &&& n.desks.current == m.desks.current
    &&& n.desks.visible() == m.desks.visible()
    &&& n.desks.ids() == m.desks.ids()
    &&& n.desks.mru == m.desks.mru
    &&& n.desks.published == m.desks.published
    &&& n.desks.next_id == m.desks.next_id
    &&& workspace_effects::others_unchanged(m.desks, n.desks, m.desks.current)
}

proof fn lemma_cycle_moves_focus_only(m: Windows, dir: int)
    requires
        m.inv(),
        m.desks.visible().len() >= 2,
    ensures
        only_focus_moved(m, m.cycled(dir)),
{
    let d = m.desks;
    let windows = d.visible();
    let n = windows.len() as int;
    window::law_cycle_keeps_order(m, dir);
    let w = window::cycle_target(windows, d.focused(), dir)->Some_0;
    let start = if d.focused() is Some && windows.contains(d.focused()->Some_0) {
        windows.index_of_first(d.focused()->Some_0)->Some_0
    } else if dir > 0 {
        -1
    } else {
        n
    };
    vstd::arithmetic::div_mod::lemma_mod_bound(start + dir, n);
    assert(windows[(start + dir) % n] == w);
    assert(windows.contains(w));
    assert(d.has(d.current));
    assert(d.space(d.current).windows.contains(w));
    workspace_effects::law_focus_changes_one_focus(d, w, d.current);
}

/// With windows but no focus, cycling forward starts at the front and cycling
/// backward at the back; with fewer than two windows it does nothing.
pub proof fn law_cycle_without_a_focus(m: Windows)
    requires
        m.inv(),
        m.desks.focused() is None || m.desks.visible().len() < 2,
    ensures
        m.desks.visible().len() < 2 ==> m.cycled(1) == m && m.cycled(-1) == m,
        m.desks.visible().len() >= 2 ==> {
            let windows = m.desks.visible();
            &&& m.cycled(1).desks.focused() == Some(windows[0])
            &&& m.cycled(-1).desks.focused() == Some(windows[windows.len() - 1])
            &&& only_focus_moved(m, m.cycled(1))
            &&& only_focus_moved(m, m.cycled(-1))
        },
{
    if m.desks.visible().len() >= 2 {
        let d = m.desks;
        let windows = d.visible();
        let n = windows.len() as int;
        lemma_cycle_moves_focus_only(m, 1);
        lemma_cycle_moves_focus_only(m, -1);
        vstd::arithmetic::div_mod::lemma_small_mod(0, n as nat);
        vstd::arithmetic::div_mod::lemma_small_mod((n - 1) as nat, n as nat);
        assert(d.has(d.current));
        assert(windows.contains(windows[0]) && windows.contains(windows[n - 1]));
        workspace_effects::law_focus_changes_one_focus(d, windows[0], d.current);
        workspace_effects::law_focus_changes_one_focus(d, windows[n - 1], d.current);
    }
}

// ---------------------------------------------------------------------------
// Commands
// ---------------------------------------------------------------------------

/// What each command does: focus commands move the focus one place along,
/// workspace commands switch or step, a move sends the focused window without
/// following it; what is left to the display changes nothing here. A command
/// is applied exactly when it changes something.
pub proof fn law_commands_do_what_they_say(m: Windows, id: u32, step: i8)
    requires
        m.inv(),
    ensures
        m.commanded(Command::FocusNext).0 == m.cycled(1),
        m.commanded(Command::FocusPrev).0 == m.cycled(-1),
        (m.commanded(Command::FocusNext).1 == CommandEffect::Applied) == (m.desks.visible().len()
            >= 2),
        (m.commanded(Command::FocusPrev).1 == CommandEffect::Applied) == (m.desks.visible().len()
            >= 2),
        m.commanded(Command::SwitchWorkspace(id)).0 == (Windows {
            desks: m.desks.switched(id),
            ..m
        }),
        (m.commanded(Command::SwitchWorkspace(id)).1 == CommandEffect::Applied) == (id
            != m.desks.current),
        m.desks.relative(step as int) matches Some(next) ==> m.commanded(
            Command::CycleWorkspace(step),
        ).0 == (Windows { desks: m.desks.switched(next), ..m }),
        m.desks.relative(step as int) is None ==> m.commanded(Command::CycleWorkspace(step)) == (
            m,
            CommandEffect::Ignored,
        ),
        m.desks.focused() matches Some(f) ==> m.commanded(Command::MoveToWorkspace(id)).0 == (
        Windows { desks: m.desks.moved(f, id), ..m }),
        m.desks.focused() is None ==> m.commanded(Command::MoveToWorkspace(id)) == (
            m,
            CommandEffect::Ignored,
        ),
        m.commanded(Command::SpawnTerminal) == (m, CommandEffect::SpawnTerminal),
        m.commanded(Command::SpawnLauncher) == (m, CommandEffect::SpawnLauncher),
        m.commanded(Command::CloseFocused) == (m, CommandEffect::CloseFocused),
        m.commanded(Command::ToggleLayout) == (m, CommandEffect::Unsupported),
{
}

/// A move command sends the focused window to the front of the named
/// workspace and stays where it is.
pub proof fn law_move_command_does_not_follow(m: Windows, id: u32)
    requires
        m.inv(),
        m.desks.focused() is Some,
        m.desks.has(id) || id < u32::MAX,
        id != m.desks.current,
        m.desks.current != 0,
    ensures
        ({
            let w = m.desks.focused()->Some_0;
            let (n, effect) = m.commanded(Command::MoveToWorkspace(id));
            &&& effect == CommandEffect::Applied
            &&& n.desks.current == m.desks.current
            &&& n.desks.visible() == m.desks.visible().filter(|x: WindowId| x != w)
            &&& n.desks.focused() == workspace_effects::front(n.desks.visible())
            &&& n.desks.has(id)
            &&& n.desks.space(id).windows[0] == w
            &&& n.desks.space(id).focus == Some(w)
        }),
{
    let d = m.desks;
    let w = d.focused()->Some_0;
    let c = d.current;
    assert(d.has(c));
    assert(d.spaces[d.at(c)].id == c);
    assert(d.spaces[d.at(c)].inv());
    assert(d.space(c).windows.contains(w));
    workspace_effects::law_move_takes_the_window_along(d, w, c, id);
}

/// A workspace command shows the named workspace; a window on it is not
/// moved.
pub proof fn law_switch_command_shows_the_workspace(m: Windows, id: u32)
    requires
        m.inv(),
        m.desks.has(id) || id < u32::MAX,
        id != m.desks.current,
    ensures
        ({
            let (n, effect) = m.commanded(Command::SwitchWorkspace(id));
            &&& effect == CommandEffect::Applied
            &&& n.desks.current == id
            &&& n.desks.focused() == workspace_effects::front(n.desks.visible())
            &&& m.desks.has(id) ==> n.desks.visible() == m.desks.space(id).windows
            &&& !m.desks.has(id) ==> n.desks.visible().len() == 0
            &&& n.states == m.states
        }),
{
    workspace_model::law_switch_keeps_order(m.desks, id);
    workspace_laws::law_switch_moves_no_window(m.desks, id);
}

/// A window that was never seen counts as unmanaged; any other is in the state
/// that it was last put in.
pub proof fn law_unseen_windows_are_unmanaged(m: Windows, w: WindowId, other: WindowId)
    ensures
        !m.states.dom().contains(w) ==> m.state(w) == WindowState::Unmanaged,
        m.states.dom().contains(w) ==> m.state(w) == m.states[w],
        forall|s: WindowState| #[trigger]
            m.with_state(w, s).state(w) == s && m.with_state(w, s).desks == m.desks && (other != w
                ==> m.with_state(w, s).state(other) == m.state(other)),
{
}

/// The death of a window that is not managed, or not yet, changes nothing.
pub proof fn law_deaths_of_strangers_are_ignored(m: Windows, w: WindowId)
    requires
        m.state(w) == WindowState::Unmanaged || m.state(w) == WindowState::Managing,
    ensures
        m.destroyed(w) == m,
{
}

/// A managed or iconified window that dies is unmanaged and stands on no
/// workspace any more, which is announced.
pub proof fn law_dead_windows_are_forgotten(m: Windows, w: WindowId)
    requires
        m.inv(),
        m.state(w) == WindowState::Managed || m.state(w) == WindowState::UnmanagePending,
    ensures
        m.destroyed(w).state(w) == WindowState::Unmanaged,
        !m.destroyed(w).desks.holds(w),
        m.destroyed(w).desks.published.contains(EventView::WindowUnmapped(w)),
        other_states_unchanged(m, m.destroyed(w), w),
{
    let gone = m.desks.detached(w).publishing(EventView::WindowUnmapped(w));
    let n = gone.published.len() - 1;
    assert(gone.published[n] == EventView::WindowUnmapped(w));
    let d = m.destroyed(w).desks;
    if m.desks.focused() == Some(w) && gone.focused() is None && gone.visible().len() > 0 {
        assert(gone.spaces.len() > 0);
        assert(d.published == gone.published);
    }
    assert(d.published[n] == EventView::WindowUnmapped(w));
    window::law_lifecycle_keeps_order(m, w);
}

} // verus!
