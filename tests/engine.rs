use fluid_sim::clock::timestamp;
use fluid_sim::grid::{input_slot, output_slot, scene, seed_grid, Cell, Domain};
use fluid_sim::perf::Performance;
use fluid_sim::state::{Dispatch, State};
use fluid_sim::view::View;

fn domain(w: u32, h: u32) -> Domain {
    Domain::new(w, h).unwrap()
}

fn in_disc(cx: i64, cy: i64, x: i64, y: i64) -> bool {
    (y - cx) * (y - cx) + (x - cy) * (x - cy) < 256
}

/// Runs a whole tick, reading the clock values in turn (the last one repeats).
fn run_tick(s: &mut State, clock: &[u64]) -> Vec<Dispatch> {
    let mut run = s.begin_tick();
    let mut out = Vec::new();
    let mut k = 0;
    loop {
        let now = clock[k.min(clock.len() - 1)];
        k += 1;
        let d = s.tick(&mut run, now);
        out.push(d);
        if d == Dispatch::Done {
            return out;
        }
    }
}

#[test]
fn seed_invariant() {
    let d = domain(256, 256);
    let g = seed_grid(d);
    assert_eq!(g.len(), 3 * 256 * 256);
    let right = g[d.cell_index(0, 64, 128)];
    assert_eq!(right, Cell { pressure: 1, velocity_x: 1, velocity_y: 0 });
    let left = g[d.cell_index(0, 192, 128)];
    assert_eq!(left, Cell { pressure: 1, velocity_x: -1, velocity_y: 0 });
    assert_eq!(g[d.cell_index(0, 0, 0)], Cell::zero());
}

#[test]
fn seed_holds_exactly_the_two_discs() {
    for (w, h) in [(256u32, 256u32), (200, 150), (1, 1), (300, 130)] {
        let d = domain(w, h);
        let g = seed_grid(d);
        assert_eq!(g.len(), 3 * (w * h) as usize);
        for (i, c) in g.iter().enumerate() {
            let n = (w * h) as usize;
            let expected = if i >= n {
                Cell::zero()
            } else {
                let x = (i % w as usize) as i64;
                let y = (i / w as usize) as i64;
                if in_disc(128, 192, x, y) {
                    Cell { pressure: 1, velocity_x: -1, velocity_y: 0 }
                } else if in_disc(128, 64, x, y) {
                    Cell { pressure: 1, velocity_x: 1, velocity_y: 0 }
                } else {
                    Cell::zero()
                }
            };
            assert_eq!(*c, expected, "cell {i} of {w}x{h}");
        }
    }
}

#[test]
fn seed_disc_sizes() {
    let g = seed_grid(domain(256, 256));
    let right = g.iter().filter(|c| c.velocity_x == 1).count();
    let left = g.iter().filter(|c| c.velocity_x == -1).count();
    // Lattice points strictly inside a circle of radius 16.
    assert_eq!(right, 793);
    assert_eq!(left, 793);
    assert!(g.iter().all(|c| c.velocity_y == 0));
}

#[test]
fn seed_of_empty_domain() {
    assert!(seed_grid(domain(0, 0)).is_empty());
    let g = seed_grid(domain(8, 8));
    assert!(g.iter().all(|c| *c == Cell::zero()));
}

#[test]
fn scene_keeps_other_fields_and_cells() {
    let d = domain(256, 256);
    let mut cells = vec![Cell { pressure: 5, velocity_x: 7, velocity_y: 3 }; 3 * 256 * 256];
    scene(&mut cells, d);
    let inside = cells[d.cell_index(0, 64, 128)];
    assert_eq!(inside, Cell { pressure: 1, velocity_x: 1, velocity_y: 3 });
    let outside = cells[d.cell_index(0, 0, 0)];
    assert_eq!(outside, Cell { pressure: 5, velocity_x: 7, velocity_y: 3 });
    let other_slot = cells[d.cell_index(1, 64, 128)];
    assert_eq!(other_slot, Cell { pressure: 5, velocity_x: 7, velocity_y: 3 });
}

#[test]
fn domain_too_large_is_refused() {
    assert!(Domain::new(u32::MAX, u32::MAX).is_none());
    let d = domain(256, 128);
    assert_eq!((d.width(), d.height()), (256, 128));
    assert_eq!(d.buffer_len(), 3 * 256 * 128);
}

#[test]
fn cell_index_layout() {
    let d = domain(10, 4);
    assert_eq!(d.cell_index(0, 0, 0), 0);
    assert_eq!(d.cell_index(0, 3, 2), 23);
    assert_eq!(d.cell_index(1, 3, 2), 63);
    assert_eq!(d.cell_index(2, 9, 3), 119);
}

#[test]
fn workgroup_counts() {
    assert_eq!(domain(256, 256).workgroups(), (32, 32, 1));
    assert_eq!(domain(250, 9).workgroups(), (32, 2, 1));
    assert_eq!(domain(1, 0).workgroups(), (1, 0, 1));
}

#[test]
fn slots_follow_tick_parity() {
    for t in [0u32, 1, 2, 3, 10, 11, u32::MAX - 1, u32::MAX] {
        assert_eq!(input_slot(t), t % 2);
        assert_eq!(output_slot(t), ((t as u64 + 1) % 2) as u32);
        assert_ne!(input_slot(t), output_slot(t));
        assert_eq!(output_slot(t), input_slot(t.wrapping_add(1)));
    }
}

#[test]
fn tick_counting() {
    let mut s = State::new(domain(256, 256));
    s.iterations = 2;
    s.divergence = 10;
    let ds = run_tick(&mut s, &[0]);
    assert_eq!(s.tick, 22);
    assert_eq!(ds.len(), 23);
    // One divergence sample and one advance sample per physics step, one
    // total sample per tick.
    assert_eq!(s.perf.sample_counts(), (2, 2, 1));
}

#[test]
fn tick_dispatch_order() {
    let mut s = State::new(domain(16, 16));
    s.iterations = 2;
    s.divergence = 2;
    s.tick = 5;
    let ds = run_tick(&mut s, &[0]);
    assert_eq!(
        ds,
        vec![
            Dispatch::Divergence { tick: 5 },
            Dispatch::Divergence { tick: 6 },
            Dispatch::Advance { tick: 7 },
            Dispatch::Divergence { tick: 8 },
            Dispatch::Divergence { tick: 9 },
            Dispatch::Advance { tick: 10 },
            Dispatch::Done,
        ]
    );
    assert_eq!(s.tick, 11);
}

#[test]
fn tick_without_sweeps() {
    let mut s = State::new(domain(16, 16));
    s.iterations = 5;
    s.divergence = 0;
    let ds = run_tick(&mut s, &[0]);
    assert_eq!(s.tick, 5);
    assert!(ds[..5].iter().all(|d| matches!(d, Dispatch::Advance { .. })));
    assert_eq!(s.perf.sample_counts(), (0, 5, 1));
}

#[test]
fn tick_counter_wraps() {
    let mut s = State::new(domain(16, 16));
    s.divergence = 1;
    s.tick = u32::MAX;
    let ds = run_tick(&mut s, &[0]);
    assert_eq!(ds[0], Dispatch::Divergence { tick: u32::MAX });
    assert_eq!(ds[1], Dispatch::Advance { tick: 0 });
    assert_eq!(s.tick, 1);
}

#[test]
fn tick_timings() {
    let mut s = State::new(domain(16, 16));
    s.iterations = 2;
    s.divergence = 2;
    // Calls: div, div, adv (sweeps 0..30), advance done at 50 and second
    // step begins, div, div, adv (sweeps 50..90), advance done at 100.
    let ds = run_tick(&mut s, &[0, 10, 30, 50, 60, 90, 100]);
    assert_eq!(ds.len(), 7);
    assert_eq!(s.perf.sample_counts(), (2, 2, 1));
    // Divergence: 30/2 = 15 and 40/2 = 20; advance: 20 and 10; total 100/2.
    assert_eq!(s.perf.avg_divergence(), Some(17));
    assert_eq!(s.perf.avg_advance(), Some(15));
    assert_eq!(s.perf.avg_total(), Some(50));
}

#[test]
fn done_stays_done() {
    let mut s = State::new(domain(16, 16));
    let mut run = s.begin_tick();
    while s.tick(&mut run, 0) != Dispatch::Done {}
    let t = s.tick;
    assert_eq!(s.tick(&mut run, 9), Dispatch::Done);
    assert_eq!(s.tick, t);
    assert_eq!(s.perf.sample_counts(), (1, 1, 1));
}

#[test]
fn reset_restores_seed() {
    let d = domain(256, 256);
    let mut s = State::new(d);
    s.running = true;
    run_tick(&mut s, &[0]);
    run_tick(&mut s, &[0]);
    assert_eq!(s.tick, 22);
    let g = s.reset();
    assert_eq!(g, seed_grid(d));
    assert_eq!(s.tick, 0);
    assert!(!s.running);
    // Samples survive a reset.
    assert_eq!(s.perf.sample_counts(), (2, 2, 2));
}

#[test]
fn reset_twice_matches_once() {
    let mut s = State::new(domain(64, 300));
    s.tick = 17;
    let once = s.reset();
    let twice = s.reset();
    assert_eq!(once, twice);
    assert_eq!(s.tick, 0);
    assert!(!s.running);
}

#[test]
fn view_cycling() {
    let mut v = View::Pressure;
    let mut seen = Vec::new();
    for _ in 0..3 {
        v.next();
        seen.push(v);
    }
    assert_eq!(seen, vec![View::Velocity, View::Pressure, View::Velocity]);
    let mut d = View::Divergance;
    d.next();
    assert_eq!(d, View::Pressure);
}

#[test]
fn view_names_and_codes() {
    assert_eq!(View::Pressure.name(), "Pressure");
    assert_eq!(View::Velocity.name(), "Velocity");
    assert_eq!(View::Divergance.name(), "Divergence");
    assert_eq!(View::Pressure.code(), 0);
    assert_eq!(View::Velocity.code(), 1);
    assert_eq!(View::Divergance.code(), 2);
}

#[test]
fn keys_of_a_frame() {
    let mut s = State::new(domain(32, 32));
    assert!(s.on_keys(true, false, false).is_none());
    assert!(s.running);
    assert!(s.on_keys(false, false, true).is_none());
    assert_eq!(s.view, View::Velocity);
    s.tick = 40;
    let g = s.on_keys(true, true, true);
    assert_eq!(g, Some(seed_grid(domain(32, 32))));
    assert!(!s.running);
    assert_eq!(s.tick, 0);
    assert_eq!(s.view, View::Pressure);
    s.on_keys(false, false, true);
    s.on_keys(false, false, true);
    s.on_keys(false, false, true);
    assert_eq!(s.view, View::Velocity);
}

#[test]
fn fresh_state_defaults() {
    let s = State::new(domain(256, 256));
    assert_eq!(s.tick, 0);
    assert_eq!(s.divergence, 10);
    assert_eq!(s.iterations, 1);
    assert!(!s.running);
    assert_eq!(s.view, View::Pressure);
    assert_eq!(s.contours, 1);
    assert!(s.perf.is_empty());
}

#[test]
fn render_tick_is_last_dispatch() {
    let mut s = State::new(domain(8, 8));
    assert_eq!(s.render_tick(), u32::MAX);
    s.tick = 22;
    assert_eq!(s.render_tick(), 21);
}

#[test]
fn rings_keep_last_sixty_four() {
    let mut p = Performance::new();
    assert!(p.is_empty());
    assert_eq!(p.avg_divergence(), None);
    for i in 0..100u64 {
        p.measure_divergence(i);
    }
    assert_eq!(p.sample_counts(), (64, 0, 0));
    assert!(!p.is_empty());
    // Samples 36..=99 remain: their mean is 67.5, rounded down.
    assert_eq!(p.avg_divergence(), Some(67));
    assert_eq!(p.avg_advance(), None);
}

#[test]
fn ring_means() {
    let mut p = Performance::new();
    p.measure_advance(1);
    p.measure_advance(2);
    p.measure_total(u64::MAX);
    p.measure_total(u64::MAX);
    assert_eq!(p.avg_advance(), Some(1));
    assert_eq!(p.avg_total(), Some(u64::MAX));
    assert_eq!(p.sample_counts(), (0, 2, 2));
}

#[test]
fn timestamp_reads_the_clock() {
    // Later than 2020-09-13.
    assert!(timestamp() > 1_600_000_000);
}
