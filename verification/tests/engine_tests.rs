use blotch::Config;
use blotch::Loc;
use blotch::generate;
use blotch::growth_width;
use blotch::isqrt;
use blotch::seed_width;

fn config(size: usize, num_centers: usize, num_lookback: usize, ssn: u64, ssd: u64, csn: u64,
    csd: u64) -> Config {
    Config {
        size,
        num_centers,
        num_lookback,
        start_spread_num: ssn,
        start_spread_den: ssd,
        cont_spread_num: csn,
        cont_spread_den: csd,
    }
}

#[test]
fn isqrt_matches_known_roots() {
    assert_eq!(isqrt(0), 0);
    assert_eq!(isqrt(1), 1);
    assert_eq!(isqrt(3), 1);
    assert_eq!(isqrt(4), 2);
    assert_eq!(isqrt(195075), 441);
    assert_eq!(isqrt(u64::MAX), 4294967295);
}

#[test]
fn seed_width_follows_the_fraction() {
    assert_eq!(seed_width(config(1000, 20, 1000, 1, 2, 1, 10)), 500);
    assert_eq!(seed_width(config(5, 1, 1, 0, 1, 0, 1)), 0);
    assert_eq!(seed_width(config(7, 1, 1, 1, 3, 1, 1)), 2);
}

#[test]
fn growth_width_is_at_least_one_and_scales_with_color_distance() {
    // cont_spread = 0: always the minimum width 1.
    assert_eq!(growth_width(config(5, 1, 1, 0, 1, 0, 1), 0), 1);
    assert_eq!(growth_width(config(5, 1, 1, 0, 1, 0, 1), 195075), 1);
    // cont_spread = 1/10 at the maximum color distance: floor(441 / 10).
    assert_eq!(growth_width(config(5, 1, 1, 0, 1, 1, 10), 195075), 44);
    // cont_spread = 1: exactly the rounded-down color distance.
    assert_eq!(growth_width(config(5, 1, 1, 0, 1, 1, 1), 100), 10);
}

#[test]
fn seeding_only_run_fills_every_cell() {
    // All placements happen in the seeding phase; the growth paths never run.
    for seed in [0u64, 1, 19, 1234] {
        let grid = generate(config(4, 16, 4, 1, 2, 1, 10), seed);
        for x in 0..4 {
            for y in 0..4 {
                let p = grid.get(Loc { x, y }).expect("every cell is filled");
                assert_eq!(p.loc, Loc { x, y });
                assert!(p.center.x < 4 && p.center.y < 4);
            }
        }
    }
}

#[test]
fn mixed_run_fills_every_cell_in_bounds() {
    let size = 6;
    let grid = generate(config(size, 2, 5, 1, 2, 1, 10), 42);
    for x in 0..size {
        for y in 0..size {
            let p = grid.get(Loc { x, y }).expect("every cell is filled");
            assert_eq!(p.loc, Loc { x, y });
            assert!(p.center.x < size && p.center.y < size);
        }
    }
}

#[test]
fn equal_seeds_give_identical_grids() {
    let cfg = config(8, 3, 5, 1, 2, 1, 10);
    let a = generate(cfg, 77);
    let b = generate(cfg, 77);
    for x in 0..8 {
        for y in 0..8 {
            let pa = a.get(Loc { x, y }).expect("filled");
            let pb = b.get(Loc { x, y }).expect("filled");
            assert_eq!(pa.color, pb.color);
            assert_eq!(pa.loc, pb.loc);
            assert_eq!(pa.center, pb.center);
        }
    }
}

#[test]
fn different_seeds_differ_somewhere() {
    let cfg = config(8, 3, 5, 1, 2, 1, 10);
    let a = generate(cfg, 1);
    let b = generate(cfg, 2);
    let mut differs = false;
    for x in 0..8 {
        for y in 0..8 {
            if a.get(Loc { x, y }) != b.get(Loc { x, y }) {
                differs = true;
            }
        }
    }
    assert!(differs);
}

#[test]
fn degenerate_spreads_run_to_completion() {
    // One seed, lookback of one, zero jitter everywhere: the seed's center
    // equals its own location and every growth width is max(1, 0) = 1.
    let cfg = config(5, 1, 1, 0, 1, 0, 1);
    assert_eq!(seed_width(cfg), 0);
    assert_eq!(growth_width(cfg, 40000), 1);
    let grid = generate(cfg, 3);
    for x in 0..5 {
        for y in 0..5 {
            let p = grid.get(Loc { x, y }).expect("every cell is filled");
            assert_eq!(p.loc, Loc { x, y });
            assert!(p.center.x < 5 && p.center.y < 5);
        }
    }
}
