//! Where a directional focus move goes, in plain screen coordinates.
use vstd::prelude::*;
use crate::geometry;
use crate::geometry::{Direction, Placement, Rect, WindowId};

verus! {

/// Whether `c` lies wholly on that side of `f`.
pub open spec fn lies(f: Rect, c: Rect, dir: Direction) -> bool {
    match dir {
        Direction::Right => f.x + f.w <= c.x,
        Direction::Left => c.x + c.w <= f.x,
        Direction::Down => f.y + f.h <= c.y,
        Direction::Up => c.y + c.h <= f.y,
    }
}

/// Whether a pixel row (for a move to the side) or a pixel column (for a move
/// up or down) crosses both rectangles.
pub open spec fn faces(f: Rect, c: Rect, dir: Direction, lane: int) -> bool {
    match dir {
        Direction::Right | Direction::Left => f.y <= lane < f.y + f.h && c.y <= lane < c.y + c.h,
        Direction::Down | Direction::Up => f.x <= lane < f.x + f.w && c.x <= lane < c.x + c.w,
    }
}

/// Whether focus can move from `f` to `c`: another window, not empty, wholly
/// on that side, with a row or column in common.
pub open spec fn reachable(f: Placement, c: Placement, dir: Direction) -> bool {
    &&& c.window != f.window
    &&& c.rect.w > 0
    &&& c.rect.h > 0
    &&& lies(f.rect, c.rect, dir)
    &&& exists|lane: int| faces(f.rect, c.rect, dir, lane)
}

/// How far along that side the near edge of `c` is.
pub open spec fn distance(c: Rect, dir: Direction) -> int {
    match dir {
        Direction::Right => c.x as int,
        Direction::Left => -(c.x + c.w),
        Direction::Down => c.y as int,
        Direction::Up => -(c.y + c.h),
    }
}

/// Whether `c` comes before `o`: it is nearer, or as near and further up (for
/// a move to the side) or further left (for a move up or down), or there too
/// and with the smaller id.
pub open spec fn comes_first(c: Placement, o: Placement, dir: Direction) -> bool {
    let start = |r: Rect| match dir {
        Direction::Right | Direction::Left => r.y,
        Direction::Down | Direction::Up => r.x,
    };
    ||| distance(c.rect, dir) < distance(o.rect, dir)
    ||| distance(c.rect, dir) == distance(o.rect, dir) && start(c.rect) < start(o.rect)
    ||| distance(c.rect, dir) == distance(o.rect, dir) && start(c.rect) == start(o.rect) && c.window
        <= o.window
}

proof fn lemma_reachable(f: Placement, c: Placement, dir: Direction)
    requires
        f.rect.w > 0,
        f.rect.h > 0,
    ensures
        geometry::admitted(f, c, dir) <==> reachable(f, c, dir),
{
    let (a, b) = match dir {
        Direction::Right | Direction::Left => (f.rect.y as int, c.rect.y as int),
        Direction::Down | Direction::Up => (f.rect.x as int, c.rect.x as int),
    };
    let lane = if a >= b {
        a
    } else {
        b
    };
    if geometry::admitted(f, c, dir) {
        assert(faces(f.rect, c.rect, dir, lane));
    }
}

/// A focus move goes to the window that comes first among those that can be
/// reached, and nowhere if there is none.
pub proof fn law_focus_moves_to_the_nearest(
    ps: Seq<Placement>,
    f: Placement,
    dir: Direction,
    r: Option<WindowId>,
)
    requires
        geometry::distinct_windows(ps),
        ps.contains(f),
        f.rect.w > 0,
        f.rect.h > 0,
        geometry::is_neighbour(ps, f.window, dir, r),
    ensures
        match r {
            None => forall|c: Placement| #[trigger] ps.contains(c) ==> !reachable(f, c, dir),
            Some(w) => exists|c: Placement| #[trigger]
                ps.contains(c) && c.window == w && reachable(f, c, dir) && forall|o: Placement|
                    #[trigger] ps.contains(o) && reachable(f, o, dir) ==> comes_first(c, o, dir),
        },
{
    let at = choose|i: int| 0 <= i < ps.len() && ps[i] == f;
    geometry::lemma_placement_of_first(ps, f.window, at);
    assert forall|c: Placement| #[trigger] ps.contains(c) implies (geometry::admitted(f, c, dir)
        <==> reachable(f, c, dir)) by {
        lemma_reachable(f, c, dir);
    }
    if let Some(w) = r {
        let c = choose|c: Placement| #[trigger]
            geometry::best_candidate(ps, f, dir, c) && c.window == w;
        assert(ps.contains(c) && reachable(f, c, dir));
        assert forall|o: Placement| #[trigger] ps.contains(o) && reachable(f, o, dir) implies
            comes_first(c, o, dir) by {
            assert(geometry::ranks_before(f, c, o, dir));
        }
    }
}

/// From a window that is not placed, or placed with no size, focus does not
/// move.
pub proof fn law_hidden_windows_have_no_neighbour(
    ps: Seq<Placement>,
    focused: WindowId,
    dir: Direction,
    r: Option<WindowId>,
)
    requires
        geometry::is_neighbour(ps, focused, dir, r),
        forall|p: Placement| #[trigger]
            ps.contains(p) && p.window == focused ==> p.rect.w == 0 || p.rect.h == 0,
    ensures
        r is None,
{
    if r is Some {
        let f = geometry::placement_of(ps, focused)->Some_0;
        lemma_placed(ps, focused);
        assert(ps.contains(f) && f.window == focused);
    }
}

proof fn lemma_placed(ps: Seq<Placement>, w: WindowId)
    ensures
        geometry::placement_of(ps, w) matches Some(p) ==> ps.contains(p) && p.window == w,
    decreases ps.len(),
{
    if ps.len() > 0 {
        let front = ps.drop_last();
        lemma_placed(front, w);
        if let Some(p) = geometry::placement_of(front, w) {
            let i = choose|i: int| 0 <= i < front.len() && front[i] == p;
            assert(ps[i] == p);
        } else {
            assert(ps[ps.len() - 1] == ps.last());
        }
    }
}

} // verus!
