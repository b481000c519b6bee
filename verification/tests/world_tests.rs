use rust_pipes::config::{Config, ConfigError};
use rust_pipes::rng::StdRng;
use rust_pipes::space::Color;
use rust_pipes::world::{check_time_step, phase_of, world_update_tick, Phase, World};

fn palette() -> Vec<Color> {
    vec![
        Color { r: 255, g: 0, b: 0 },
        Color { r: 0, g: 255, b: 0 },
        Color { r: 0, g: 0, b: 255 },
    ]
}

fn base_config() -> Config {
    Config {
        size_x: 10,
        size_y: 10,
        size_z: 10,
        max_pipes: 3,
        spawn_chance: 10000,
        turn_chance: 2000,
        max_gen_time: 1000,
        max_freeze_time: 1000,
        max_cycle_time: 3000,
        single_run: false,
        palette: palette(),
    }
}

fn alive_count(world: &World) -> usize {
    let mut n = 0;
    for i in 0..world.active_pipes_count() {
        if world.is_pipe_alive(i) {
            n += 1;
        }
    }
    n
}

#[test]
fn construction_rejects_zero_extent() {
    let mut cfg = base_config();
    cfg.size_y = 0;
    assert_eq!(World::new(&cfg).err(), Some(ConfigError::ZeroExtent));
}

#[test]
fn construction_rejects_oversized_extent() {
    let mut cfg = base_config();
    cfg.size_z = 100000;
    assert_eq!(World::new(&cfg).err(), Some(ConfigError::ExtentTooLarge));
}

#[test]
fn construction_rejects_invalid_chance() {
    let mut cfg = base_config();
    cfg.turn_chance = 10001;
    assert_eq!(World::new(&cfg).err(), Some(ConfigError::InvalidChance));
}

#[test]
fn construction_rejects_non_monotonic_thresholds() {
    let mut cfg = base_config();
    cfg.max_gen_time = 2500;
    assert_eq!(
        World::new(&cfg).err(),
        Some(ConfigError::NonMonotonicThresholds)
    );
    let mut cfg = base_config();
    cfg.max_freeze_time = 0;
    assert_eq!(
        World::new(&cfg).err(),
        Some(ConfigError::NonMonotonicThresholds)
    );
}

#[test]
fn construction_rejects_oversized_time() {
    let mut cfg = base_config();
    cfg.max_cycle_time = u64::MAX;
    assert_eq!(World::new(&cfg).err(), Some(ConfigError::TimeTooLarge));
}

#[test]
fn construction_rejects_empty_palette() {
    let mut cfg = base_config();
    cfg.palette = Vec::new();
    assert_eq!(World::new(&cfg).err(), Some(ConfigError::EmptyPalette));
}

#[test]
fn construction_rejects_oversized_palette() {
    let mut cfg = base_config();
    cfg.palette = vec![Color { r: 1, g: 2, b: 3 }; 5000];
    assert_eq!(World::new(&cfg).err(), Some(ConfigError::PaletteTooLarge));
}

#[test]
fn error_descriptions_are_not_empty() {
    let errors = [
        ConfigError::ZeroExtent,
        ConfigError::ExtentTooLarge,
        ConfigError::InvalidChance,
        ConfigError::NonMonotonicThresholds,
        ConfigError::TimeTooLarge,
        ConfigError::EmptyPalette,
        ConfigError::PaletteTooLarge,
    ];
    for e in errors {
        assert!(!e.describe().is_empty());
    }
}

#[test]
fn fresh_world_is_empty_and_not_complete() {
    let world = World::new(&base_config()).unwrap();
    assert_eq!(world.active_pipes_count(), 0);
    assert!(!world.is_gen_complete());
    assert_eq!(world.new_pipe_chance(), 10000);
}

// Single free cell: the spawned pipe finds every direction blocked by the
// grid bounds and dies on the very next tick.
#[test]
fn pipe_in_single_cell_world_dies_next_tick() {
    let mut cfg = base_config();
    cfg.size_x = 1;
    cfg.size_y = 1;
    cfg.size_z = 1;
    cfg.max_pipes = 1;
    cfg.spawn_chance = 10000;
    let mut world = World::new(&cfg).unwrap();
    let mut rng = StdRng::with_seed(11);

    let t1 = world_update_tick(&mut world, &mut rng, 0, &cfg);
    let spawn = t1.spawn.expect("a pipe must spawn in the free cell");
    assert_eq!(spawn.start_node.x, 0);
    assert_eq!(spawn.start_node.y, 0);
    assert_eq!(spawn.start_node.z, 0);
    assert_eq!(world.active_pipes_count(), 1);
    assert!(world.is_pipe_alive(0));

    let t2 = world_update_tick(&mut world, &mut rng, 0, &cfg);
    assert!(!world.is_pipe_alive(0));
    assert_eq!(t2.deltas.len(), 1);
    assert_eq!(t2.deltas[0].last_node, t2.deltas[0].current_node);
    // The grid is packed: the spawn attempt runs out of retries and is
    // skipped for the tick instead of blocking.
    assert!(t2.spawn.is_none());

    // A dead pipe is an idempotent no-op, not an error.
    let t3 = world_update_tick(&mut world, &mut rng, 0, &cfg);
    assert!(!world.is_pipe_alive(0));
    assert_eq!(t3.deltas[0].last_node, t3.deltas[0].current_node);
}

// Certain spawning with a cap of three: the population reaches exactly
// three and a fourth tick spawns nothing.
#[test]
fn population_reaches_cap_and_stops() {
    let cfg = base_config();
    let mut world = World::new(&cfg).unwrap();
    let mut rng = StdRng::with_seed(21);
    for expected in 1..=3usize {
        let t = world_update_tick(&mut world, &mut rng, 0, &cfg);
        assert!(t.spawn.is_some());
        assert_eq!(alive_count(&world), expected);
    }
    let t4 = world_update_tick(&mut world, &mut rng, 0, &cfg);
    assert!(t4.spawn.is_none());
    assert_eq!(alive_count(&world), 3);
}

#[test]
fn alive_population_never_exceeds_cap() {
    let cfg = base_config();
    let mut world = World::new(&cfg).unwrap();
    let mut rng = StdRng::with_seed(31);
    for _ in 0..200 {
        world_update_tick(&mut world, &mut rng, 0, &cfg);
        assert!(alive_count(&world) <= cfg.max_pipes);
    }
}

// Thresholds grow 1 s, freeze 1 s, cycle 3 s: freeze-now at 1.5 s kills
// everything, idle at 2.5 s, reset request at 3.1 s.
#[test]
fn lifecycle_phases_follow_elapsed_time() {
    let cfg = base_config();
    let mut world = World::new(&cfg).unwrap();
    let mut rng = StdRng::with_seed(41);
    for _ in 0..3 {
        world_update_tick(&mut world, &mut rng, 0, &cfg);
    }
    assert!(alive_count(&world) > 0);

    assert_eq!(phase_of(1500, &cfg), Phase::FreezeNow);
    let t = world_update_tick(&mut world, &mut rng, 1500, &cfg);
    assert!(!t.reset);
    assert!(world.is_gen_complete());
    assert_eq!(alive_count(&world), 0);

    assert_eq!(phase_of(2500, &cfg), Phase::Idle);
    let t = world_update_tick(&mut world, &mut rng, 2500, &cfg);
    assert!(!t.reset);
    assert_eq!(t.deltas.len(), 0);
    assert!(t.spawn.is_none());

    assert_eq!(phase_of(3100, &cfg), Phase::ResetRequested);
    let t = world_update_tick(&mut world, &mut rng, 3100, &cfg);
    assert!(t.reset);
}

#[test]
fn phase_boundaries_are_inclusive_on_the_left() {
    let cfg = base_config();
    assert_eq!(phase_of(0, &cfg), Phase::Growing);
    assert_eq!(phase_of(999, &cfg), Phase::Growing);
    assert_eq!(phase_of(1000, &cfg), Phase::FreezeNow);
    assert_eq!(phase_of(1999, &cfg), Phase::FreezeNow);
    assert_eq!(phase_of(2000, &cfg), Phase::Idle);
    assert_eq!(phase_of(2999, &cfg), Phase::Idle);
    assert_eq!(phase_of(3000, &cfg), Phase::ResetRequested);
}

// The freeze fires exactly once: a second check in the same window changes
// nothing and kills nothing again.
#[test]
fn freeze_fires_only_once() {
    let cfg = base_config();
    let mut world = World::new(&cfg).unwrap();
    let mut rng = StdRng::with_seed(51);
    for _ in 0..3 {
        world_update_tick(&mut world, &mut rng, 0, &cfg);
    }
    let first = check_time_step(1200, &cfg, &mut world);
    assert!(!first);
    assert!(world.is_gen_complete());
    assert_eq!(alive_count(&world), 0);
    let count = world.active_pipes_count();

    let second = check_time_step(1800, &cfg, &mut world);
    assert!(!second);
    assert!(world.is_gen_complete());
    assert_eq!(world.active_pipes_count(), count);
    assert_eq!(alive_count(&world), 0);
}

// The reset signal fires exactly at and after the cycle threshold, and
// single-run mode suppresses it entirely.
#[test]
fn reset_fires_iff_cycle_elapsed_and_not_single_run() {
    let cfg = base_config();
    let mut world = World::new(&cfg).unwrap();
    assert!(!check_time_step(2999, &cfg, &mut world));
    assert!(check_time_step(3000, &cfg, &mut world));
    assert!(check_time_step(1_000_000, &cfg, &mut world));

    let mut single = base_config();
    single.single_run = true;
    let mut world = World::new(&single).unwrap();
    assert!(!check_time_step(3000, &single, &mut world));
    assert!(!check_time_step(1_000_000, &single, &mut world));
}

// Two worlds with the same seed and the same elapsed-time sequence produce
// identical deltas, spawns and reset signals, tick for tick.
#[test]
fn same_seed_gives_identical_runs() {
    let cfg = base_config();
    let mut wa = World::new(&cfg).unwrap();
    let mut wb = World::new(&cfg).unwrap();
    let mut ra = StdRng::with_seed(777);
    let mut rb = StdRng::with_seed(777);
    for step in 0..60u64 {
        let elapsed = step * 60;
        let ta = world_update_tick(&mut wa, &mut ra, elapsed, &cfg);
        let tb = world_update_tick(&mut wb, &mut rb, elapsed, &cfg);
        assert_eq!(ta.deltas, tb.deltas);
        assert_eq!(ta.spawn, tb.spawn);
        assert_eq!(ta.reset, tb.reset);
        assert_eq!(wa.active_pipes_count(), wb.active_pipes_count());
        for i in 0..wa.active_pipes_count() {
            assert_eq!(wa.is_pipe_alive(i), wb.is_pipe_alive(i));
        }
    }
}

#[test]
fn different_seeds_eventually_differ() {
    let cfg = base_config();
    let mut wa = World::new(&cfg).unwrap();
    let mut wb = World::new(&cfg).unwrap();
    let mut ra = StdRng::with_seed(1);
    let mut rb = StdRng::with_seed(2);
    let mut differed = false;
    for _ in 0..30 {
        let ta = world_update_tick(&mut wa, &mut ra, 0, &cfg);
        let tb = world_update_tick(&mut wb, &mut rb, 0, &cfg);
        if ta.deltas != tb.deltas || ta.spawn != tb.spawn {
            differed = true;
        }
    }
    assert!(differed);
}

// No two alive pipes ever hold the same cell: every tick's deltas report
// pairwise distinct head cells for the alive pipes.
#[test]
fn alive_pipes_never_share_a_cell() {
    let mut cfg = base_config();
    cfg.size_x = 4;
    cfg.size_y = 4;
    cfg.size_z = 4;
    cfg.max_pipes = 6;
    cfg.spawn_chance = 8000;
    cfg.turn_chance = 5000;
    let mut world = World::new(&cfg).unwrap();
    let mut rng = StdRng::with_seed(91);
    for _ in 0..120 {
        let t = world_update_tick(&mut world, &mut rng, 0, &cfg);
        let mut heads: Vec<_> = Vec::new();
        for (i, d) in t.deltas.iter().enumerate() {
            if world.is_pipe_alive(i) {
                heads.push(d.current_node);
            }
        }
        for a in 0..heads.len() {
            for b in (a + 1)..heads.len() {
                assert_ne!(heads[a], heads[b]);
            }
        }
    }
}

// Once a pipe reports dead it stays dead for the rest of the generation.
#[test]
fn death_is_monotonic_across_ticks() {
    let mut cfg = base_config();
    cfg.size_x = 3;
    cfg.size_y = 3;
    cfg.size_z = 3;
    cfg.max_pipes = 5;
    let mut world = World::new(&cfg).unwrap();
    let mut rng = StdRng::with_seed(101);
    let mut dead: Vec<usize> = Vec::new();
    for _ in 0..150 {
        world_update_tick(&mut world, &mut rng, 0, &cfg);
        for &i in &dead {
            assert!(!world.is_pipe_alive(i));
        }
        for i in 0..world.active_pipes_count() {
            if !world.is_pipe_alive(i) && !dead.contains(&i) {
                dead.push(i);
            }
        }
    }
    // In a 3x3x3 box with several pipes some must have died by now.
    assert!(!dead.is_empty());
}

// A pipe that moved reports the move; a turn shows up as differing last
// and current directions on the same delta.
#[test]
fn deltas_report_moves_and_turns() {
    let cfg = base_config();
    let mut world = World::new(&cfg).unwrap();
    let mut rng = StdRng::with_seed(61);
    let mut saw_move = false;
    let mut saw_turn = false;
    for _ in 0..80 {
        let t = world_update_tick(&mut world, &mut rng, 0, &cfg);
        for d in &t.deltas {
            if d.last_node != d.current_node {
                saw_move = true;
                if d.last_dir != d.current_dir {
                    saw_turn = true;
                }
            }
        }
    }
    assert!(saw_move);
    assert!(saw_turn);
}

#[test]
fn no_stepping_or_spawning_after_freeze() {
    let cfg = base_config();
    let mut world = World::new(&cfg).unwrap();
    let mut rng = StdRng::with_seed(71);
    for _ in 0..3 {
        world_update_tick(&mut world, &mut rng, 0, &cfg);
    }
    world_update_tick(&mut world, &mut rng, 1500, &cfg);
    assert!(world.is_gen_complete());
    let count = world.active_pipes_count();
    for _ in 0..10 {
        let t = world_update_tick(&mut world, &mut rng, 1600, &cfg);
        assert_eq!(t.deltas.len(), 0);
        assert!(t.spawn.is_none());
        assert_eq!(world.active_pipes_count(), count);
    }
}
