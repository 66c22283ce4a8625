use tessera::geometry::resolve_direction;
use tessera::layout::DEFAULT_MASTER_RATIO;
use tessera::{Direction, Layout, MasterStack, Placement, Rect};

const AREA: Rect = Rect {
    x: 0,
    y: 0,
    w: 800,
    h: 600,
};

fn goldens() -> Vec<Placement> {
    MasterStack::new(DEFAULT_MASTER_RATIO, 2, 0).arrange(&[1, 2, 3], AREA, 0)
}

#[test]
fn resolve_direction_over_the_master_stack_goldens() {
    let p = goldens();
    assert_eq!(resolve_direction(&p, 1, Direction::Right), Some(2));
    assert_eq!(resolve_direction(&p, 1, Direction::Left), None);
    assert_eq!(resolve_direction(&p, 1, Direction::Down), None);
    assert_eq!(resolve_direction(&p, 1, Direction::Up), None);
    assert_eq!(resolve_direction(&p, 2, Direction::Left), Some(1));
    assert_eq!(resolve_direction(&p, 2, Direction::Down), Some(3));
    assert_eq!(resolve_direction(&p, 2, Direction::Up), None);
    assert_eq!(resolve_direction(&p, 2, Direction::Right), None);
    assert_eq!(resolve_direction(&p, 3, Direction::Left), Some(1));
    assert_eq!(resolve_direction(&p, 3, Direction::Up), Some(2));
}

#[test]
fn resolve_direction_breaks_the_stack_tie_by_topmost() {
    let master = Placement {
        window: 1,
        rect: Rect {
            x: 2,
            y: 2,
            w: 396,
            h: 596,
        },
        border: 2,
    };
    let top = Placement {
        window: 2,
        rect: Rect {
            x: 402,
            y: 2,
            w: 396,
            h: 296,
        },
        border: 2,
    };
    let bottom = Placement {
        window: 3,
        rect: Rect {
            x: 402,
            y: 302,
            w: 396,
            h: 296,
        },
        border: 2,
    };
    let placements = vec![master, top, bottom];
    assert_eq!(resolve_direction(&placements, 1, Direction::Right), Some(2));
}

#[test]
fn resolve_direction_admits_a_touching_edge_at_zero_border() {
    let p = MasterStack::new(DEFAULT_MASTER_RATIO, 0, 0).arrange(&[1, 2, 3], AREA, 0);
    assert_eq!(resolve_direction(&p, 1, Direction::Right), Some(2));
}

#[test]
fn resolve_direction_returns_none_without_a_candidate() {
    let solo = MasterStack::new(DEFAULT_MASTER_RATIO, 2, 0).arrange(&[1], AREA, 0);
    for dir in [
        Direction::Left,
        Direction::Right,
        Direction::Up,
        Direction::Down,
    ] {
        assert_eq!(resolve_direction(&solo, 1, dir), None);
    }
}

#[test]
fn resolve_direction_ignores_zero_size_placements() {
    let visible = Placement {
        window: 1,
        rect: Rect {
            x: 0,
            y: 0,
            w: 100,
            h: 100,
        },
        border: 0,
    };
    let zero_w = Placement {
        window: 2,
        rect: Rect {
            x: 100,
            y: 0,
            w: 0,
            h: 100,
        },
        border: 0,
    };
    let zero_h = Placement {
        window: 3,
        rect: Rect {
            x: 0,
            y: 100,
            w: 100,
            h: 0,
        },
        border: 0,
    };
    assert_eq!(
        resolve_direction(&[visible, zero_w], 1, Direction::Right),
        None,
        "a zero-width candidate must never be returned"
    );
    assert_eq!(
        resolve_direction(&[visible, zero_h], 1, Direction::Down),
        None,
        "a zero-height candidate must never be returned"
    );
    assert_eq!(
        resolve_direction(&[zero_w, visible], 2, Direction::Right),
        None,
        "a zero-size FOCUSED placement must resolve to None, not panic"
    );
}

#[test]
fn resolve_direction_is_invariant_under_input_permutation() {
    const PERMUTATIONS: [[usize; 3]; 6] = [
        [0, 1, 2],
        [0, 2, 1],
        [1, 0, 2],
        [1, 2, 0],
        [2, 0, 1],
        [2, 1, 0],
    ];
    let placements = goldens();
    for perm in PERMUTATIONS {
        let shuffled: Vec<Placement> = perm.iter().map(|&i| placements[i]).collect();
        for dir in [
            Direction::Left,
            Direction::Right,
            Direction::Up,
            Direction::Down,
        ] {
            for focused in [1u32, 2, 3] {
                assert_eq!(
                    resolve_direction(&placements, focused, dir),
                    resolve_direction(&shuffled, focused, dir),
                    "permutation {perm:?} changed the {dir:?} target from window {focused}"
                );
            }
        }
    }
}

#[test]
fn directional_focus_does_not_wrap_and_ignores_unknown_windows() {
    let p = goldens();
    assert_eq!(resolve_direction(&p, 2, Direction::Right), None);
    assert_eq!(resolve_direction(&p, 3, Direction::Down), None);
    assert_eq!(resolve_direction(&p, 42, Direction::Left), None);
    assert_eq!(resolve_direction(&[], 1, Direction::Left), None);
}

#[test]
fn from_the_master_focus_only_moves_right_to_the_top_of_the_stack() {
    let placed = MasterStack::new(500, 2, 3).arrange(&[7, 8, 9], AREA, 1);
    assert_eq!(placed[0].window, 8);
    assert_eq!(resolve_direction(&placed, 8, Direction::Right), Some(7));
    for dir in [Direction::Left, Direction::Up, Direction::Down] {
        assert_eq!(resolve_direction(&placed, 8, dir), None);
    }
}
