//! The engine's guarantees, stated and proved as laws over the world model.
//!
//! Each law speaks of the same spec-level functions that the executable
//! functions' contracts are pinned to, so together they describe every run
//! of the engine.

use vstd::prelude::*;

use crate::config::{spec_valid_config, Config};
use crate::world::{
    count_alive, lemma_count_alive_bounds, lemma_step_all_props, spec_phase, spec_spawn_pipe,
    spec_spawn_step, spec_time_step, spec_update_tick, wf_world_model, Phase, WorldModel,
};

verus! {

/// Grid occupancy is exclusive: in a well-formed world no two pipes — in
/// particular no two alive pipes — ever hold the same cell at the same
/// time. Every world operation preserves well-formedness, so this holds at
/// every tick.
pub proof fn lemma_no_shared_cell(m: WorldModel, i: int, j: int)
    requires
        wf_world_model(m),
        0 <= i < m.pipes.len(),
        0 <= j < m.pipes.len(),
        i != j,
    ensures
        m.pipes[i].current != m.pipes[j].current,
{
}

/// Pipe death is monotonic: a pipe that is dead going into a tick is still
/// dead after it, whatever the tick did.
pub proof fn lemma_death_monotonic(m: WorldModel, s: u64, cfg: Config, elapsed_ms: u64, i: int)
    requires
        0 <= i < m.pipes.len(),
        !m.pipes[i].alive,
    ensures
        !spec_update_tick(m, s, cfg, elapsed_ms).0.pipes[i].alive,
{
    let stepped = if m.gen_complete {
        (m, s, Seq::<crate::pipe::StepDelta>::empty())
    } else {
        crate::world::spec_step_all(m, s, m.pipes.len() as int)
    };
    lemma_step_all_props(m, s, m.pipes.len() as int);
    let m1 = stepped.0;
    assert(!m1.pipes[i].alive);
    let spawned = spec_spawn_step(m1, stepped.1);
    let m2 = spawned.0;
    assert(!m2.pipes[i].alive);
    let m3 = spec_time_step(m2, cfg, elapsed_ms).0;
    assert(!m3.pipes[i].alive);
}

/// Determinism: the outcome of a tick is a function of the world model, the
/// generator state, the configuration and the elapsed time, and of nothing
/// else — two worlds with the same seed, fed the same elapsed-time
/// sequence, produce identical deltas, spawns and reset signals. The
/// executable tick's contract pins its result to `spec_update_tick`, so
/// this congruence is the whole statement.
pub proof fn lemma_tick_deterministic(
    ma: WorldModel,
    mb: WorldModel,
    sa: u64,
    sb: u64,
    cfg_a: Config,
    cfg_b: Config,
    ea: u64,
    eb: u64,
)
    requires
        ma == mb,
        sa == sb,
        cfg_a == cfg_b,
        ea == eb,
    ensures
        spec_update_tick(ma, sa, cfg_a, ea) == spec_update_tick(mb, sb, cfg_b, eb),
{
}

/// The alive population never exceeds the configured cap in a well-formed
/// world; every world operation preserves well-formedness.
pub proof fn lemma_population_bounded(m: WorldModel)
    requires
        wf_world_model(m),
    ensures
        0 <= count_alive(m.pipes) <= m.max_pipes,
{
    lemma_count_alive_bounds(m.pipes);
}

/// The freeze kills every currently alive pipe exactly once: a lifecycle
/// check in the freeze window marks the generation complete and kills all
/// pipes in one stroke, and any later check — at the same or any other
/// elapsed time — changes the world no further.
pub proof fn lemma_freeze_fires_once(m: WorldModel, cfg: Config, e1: u64, e2: u64)
    requires
        spec_phase(e1, cfg) == Phase::FreezeNow,
        !m.gen_complete,
    ensures
        ({
            let m1 = spec_time_step(m, cfg, e1).0;
            &&& m1.gen_complete
            &&& forall|i: int| 0 <= i < m1.pipes.len() ==> !m1.pipes[i].alive
            &&& spec_time_step(m1, cfg, e2).0 == m1
        }),
{
}

/// The reset signal fires if and only if the elapsed time has reached
/// `max_cycle_time`, and is suppressed entirely in single-run mode.
pub proof fn lemma_reset_signal(m: WorldModel, cfg: Config, elapsed_ms: u64)
    requires
        spec_valid_config(cfg),
    ensures
        spec_time_step(m, cfg, elapsed_ms).1 == (elapsed_ms >= cfg.max_cycle_time
            && !cfg.single_run),
{
}

/// A spawn only ever happens while the alive population is below the cap,
/// and raises the count by exactly one; when no spawn happens the count is
/// unchanged. Together with `lemma_population_bounded` this keeps the
/// population within the cap forever.
pub proof fn lemma_spawn_respects_cap(m: WorldModel, s: u64)
    requires
        wf_world_model(m),
    ensures
        count_alive(spec_spawn_step(m, s).0.pipes) <= m.max_pipes,
{
    if !m.gen_complete && crate::rng::spec_bool_draw(s, m.spawn_chance) && count_alive(m.pipes)
        < m.max_pipes {
        let s1 = crate::rng::spec_state_after(s);
        let r = spec_spawn_pipe(m, s1);
        if r.0.pipes.len() == m.pipes.len() + 1 {
            let p = r.0.pipes.last();
            crate::world::lemma_count_alive_push(m.pipes, p);
            assert(r.0.pipes.drop_last() =~= m.pipes);
        }
    }
}

} // verus!
