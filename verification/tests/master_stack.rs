use tessera::layout::DEFAULT_MASTER_RATIO;
use tessera::{Layout, MasterStack, Placement, Rect, WindowId};

const AREA: Rect = Rect {
    x: 0,
    y: 0,
    w: 800,
    h: 600,
};

fn ms() -> MasterStack {
    MasterStack::new(DEFAULT_MASTER_RATIO, 2, 0)
}

fn p(window: WindowId, x: i32, y: i32, w: u16, h: u16) -> Placement {
    Placement {
        window,
        rect: Rect { x, y, w, h },
        border: 2,
    }
}

#[test]
fn name_identifies_the_layout() {
    assert_eq!(ms().name(), "master-stack");
}

#[test]
fn golden_zero_windows() {
    assert_eq!(ms().arrange(&[], AREA, 0), Vec::<Placement>::new());
}

#[test]
fn golden_one_window_fills_master() {
    let out = ms().arrange(&[1], AREA, 0);
    assert_eq!(out, vec![p(1, 0, 0, 800, 600)]);
}

#[test]
fn golden_two_windows_master_and_stack() {
    let out = ms().arrange(&[1, 2], AREA, 0);
    assert_eq!(out, vec![p(1, 0, 0, 400, 600), p(2, 400, 0, 400, 600)]);
}

#[test]
fn golden_three_windows_tile_stack_vertically() {
    let out = ms().arrange(&[1, 2, 3], AREA, 0);
    assert_eq!(
        out,
        vec![
            p(1, 0, 0, 400, 600),
            p(2, 400, 0, 400, 300),
            p(3, 400, 300, 400, 300),
        ]
    );
}

#[test]
fn focus_index_selects_the_master_window() {
    let out = ms().arrange(&[1, 2, 3], AREA, 2);
    assert_eq!(
        out,
        vec![
            p(3, 0, 0, 400, 600),
            p(1, 400, 0, 400, 300),
            p(2, 400, 300, 400, 300),
        ]
    );
}

#[test]
fn gaps_shrink_every_cell_by_the_gap_on_all_four_sides() {
    let out = MasterStack::new(DEFAULT_MASTER_RATIO, 2, 3).arrange(&[1, 2], AREA, 0);
    let (master, stack) = (out[0].rect, out[1].rect);
    assert_eq!(
        out,
        vec![p(1, 3, 3, 394, 594), p(2, 403, 3, 394, 594)],
        "gaps 3 must inset both cells by 3 on every side"
    );
    assert_eq!(
        stack.x - (master.x + i32::from(master.w)),
        6,
        "two adjacent windows are 2 * gaps apart"
    );
    assert_eq!(master.x - AREA.x, 3, "the area edge keeps a single gap");
    assert_eq!(
        (AREA.x + i32::from(AREA.w)) - (stack.x + i32::from(stack.w)),
        3,
        "the area edge keeps a single gap"
    );
}

#[test]
fn gaps_clamp_to_zero_size_inside_the_area_when_wider_than_the_cell() {
    let area = Rect {
        x: 10,
        y: 20,
        w: 8,
        h: 6,
    };
    let out = MasterStack::new(DEFAULT_MASTER_RATIO, 2, 40).arrange(&[1], area, 0);
    assert_eq!(out, vec![p(1, 18, 26, 0, 0)]);
    assert_eq!(out[0].rect.x, area.x + i32::from(area.w));
    assert_eq!(out[0].rect.y, area.y + i32::from(area.h));
}

#[test]
fn default_layout_matches_the_config_defaults() {
    assert_eq!(
        MasterStack::default().arrange(&[1, 2], AREA, 0),
        MasterStack::new(DEFAULT_MASTER_RATIO, 2, 3).arrange(&[1, 2], AREA, 0)
    );
}

fn rects_overlap(a: Rect, b: Rect) -> bool {
    (a.x as i64) < (b.x as i64 + b.w as i64)
        && (b.x as i64) < (a.x as i64 + a.w as i64)
        && (a.y as i64) < (b.y as i64 + b.h as i64)
        && (b.y as i64) < (a.y as i64 + a.h as i64)
}

#[test]
fn arrange_places_inside_disjoint_and_covering() {
    let mut seed: u64 = 0x9e37_79b9_7f4a_7c15;
    let mut draw = |low: u64, high: u64| -> u64 {
        seed = seed
            .wrapping_mul(6364136223846793005)
            .wrapping_add(1442695040888963407);
        low + (seed >> 33) % (high - low + 1)
    };
    for _ in 0..512 {
        let count = draw(0, 4) as usize;
        let windows: Vec<WindowId> = (0..count).map(|_| draw(1, 8) as u32).collect();
        let area = Rect {
            x: draw(0, 511) as i32,
            y: draw(0, 511) as i32,
            w: draw(128, 1024) as u16,
            h: draw(128, 1024) as u16,
        };
        let focus = draw(0, 4) as usize;
        let border = draw(0, 4) as u16;
        let gaps = draw(0, 16) as u16;
        let ratio = draw(100, 900) as u32;
        let out = MasterStack::new(ratio, border, gaps).arrange(&windows, area, focus);

        let mut ids: Vec<u32> = out.iter().map(|p| p.window).collect();
        ids.sort_unstable();
        let mut want: Vec<u32> = windows.clone();
        want.sort_unstable();
        assert_eq!(ids, want);

        for p in &out {
            assert!(p.rect.x >= area.x && p.rect.y >= area.y);
            assert!(p.rect.w <= area.w && p.rect.h <= area.h);
            assert!((p.rect.x as i64 + p.rect.w as i64) <= (area.x as i64 + area.w as i64));
            assert!((p.rect.y as i64 + p.rect.h as i64) <= (area.y as i64 + area.h as i64));
        }

        for i in 0..out.len() {
            for j in (i + 1)..out.len() {
                assert!(!rects_overlap(out[i].rect, out[j].rect));
            }
        }

        if windows.is_empty() {
            assert!(out.is_empty());
        } else if gaps == 0 {
            let total: u64 = out
                .iter()
                .map(|p| p.rect.w as u64 * p.rect.h as u64)
                .sum();
            assert_eq!(total, area.w as u64 * area.h as u64);
        }
    }
}

#[test]
fn gapless_placements_tile_the_area_with_nothing_left_over() {
    let area = Rect {
        x: 5,
        y: 7,
        w: 61,
        h: 43,
    };
    for n in 1..=4usize {
        let windows: Vec<WindowId> = (1..=n as u32).collect();
        let out = MasterStack::new(DEFAULT_MASTER_RATIO, 2, 0).arrange(&windows, area, 0);
        for px in area.x..(area.x + i32::from(area.w)) {
            for py in area.y..(area.y + i32::from(area.h)) {
                let hits = out
                    .iter()
                    .filter(|p| {
                        px >= p.rect.x
                            && px < p.rect.x + i32::from(p.rect.w)
                            && py >= p.rect.y
                            && py < p.rect.y + i32::from(p.rect.h)
                    })
                    .count();
                assert_eq!(
                    hits, 1,
                    "({px},{py}) is covered {hits} times with {n} windows"
                );
            }
        }
    }
}

#[test]
fn a_ratio_other_than_half_moves_the_split() {
    let out = MasterStack::new(600, 2, 0).arrange(&[1, 2], AREA, 0);
    assert_eq!(out, vec![p(1, 0, 0, 480, 600), p(2, 480, 0, 320, 600)]);
}

#[test]
fn neighbours_stand_two_gaps_apart_and_edges_one() {
    let area = Rect {
        x: 0,
        y: 0,
        w: 800,
        h: 600,
    };
    let rects: Vec<Rect> = MasterStack::new(500, 2, 3)
        .arrange(&[1, 2, 3], area, 0)
        .iter()
        .map(|p| p.rect)
        .collect();
    let rect = |x: i32, y: i32, w: u16, h: u16| Rect { x, y, w, h };
    assert_eq!(
        rects,
        vec![
            rect(3, 3, 394, 594),
            rect(403, 3, 394, 294),
            rect(403, 303, 394, 294),
        ]
    );
}
