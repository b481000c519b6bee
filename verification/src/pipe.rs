//! A single growing pipe and its one-tick growth step.
//!
//! Each tick an alive pipe picks a candidate order over the six directions —
//! with the configured turn chance it first tries a uniformly chosen turn,
//! then straight ahead, then the remaining directions in canonical order;
//! otherwise straight ahead first — and moves into the first free in-bounds
//! neighbor. If no direction leads to a free cell the pipe dies; that is its
//! only death condition. The whole step is pinned to a spec-level function
//! of the pipe, the grid model and the generator state, which is what makes
//! the engine deterministic.

use vstd::prelude::*;

use crate::grid::{free_at, Grid, GridModel};
use crate::rng::{
    spec_bool_draw, spec_state_after, spec_uniform_draw, StdRng, PROB_DENOM,
};
use crate::space::{
    lemma_dir_index_roundtrip, spec_dir_from_index, spec_nth_other, spec_step, Color, Direction,
    Node, MAX_EXTENT,
};

verus! {

/// A single growing path through the grid.
#[derive(Clone, Copy, PartialEq, Eq, Structural, Debug)]
pub struct Pipe {
    /// Cell holding the head of the pipe.
    pub current: Node,
    /// Cell the head moved from on the last successful step.
    pub previous: Node,
    /// Direction of the last successful step.
    pub current_dir: Direction,
    /// Direction of the step before that.
    pub previous_dir: Direction,
    /// Color the renderer draws this pipe with.
    pub color: Color,
    /// Whether the pipe is still growing; once false it stays false.
    pub alive: bool,
    /// Number of successful growth steps taken (saturating).
    pub steps: u32,
}

/// Per-pipe, per-tick report of positional and directional change, consumed
/// by an external renderer. Equal last and current node signals that nothing
/// moved and no geometry is to be emitted.
#[derive(Clone, Copy, PartialEq, Eq, Structural, Debug)]
pub struct StepDelta {
    pub last_node: Node,
    pub current_node: Node,
    pub last_dir: Direction,
    pub current_dir: Direction,
    pub pipe_color: Color,
}

/// The delta of a pipe that made no move this tick.
pub open spec fn no_change_delta(p: Pipe) -> StepDelta {
    StepDelta {
        last_node: p.current,
        current_node: p.current,
        last_dir: p.current_dir,
        current_dir: p.current_dir,
        pipe_color: p.color,
    }
}

/// The turn decision drawn from generator state `s`: `None` to try straight
/// ahead first, `Some(t)` to first try the `t`-th of the five other
/// directions.
pub open spec fn spec_turn_draw(s: u64, turn_chance: u32) -> Option<u32> {
    if spec_bool_draw(s, turn_chance) {
        Some(spec_uniform_draw(spec_state_after(s), 5))
    } else {
        None
    }
}

/// Generator state after the turn decision of `spec_turn_draw`.
pub open spec fn spec_state_after_turn_draw(s: u64, turn_chance: u32) -> u64 {
    if spec_bool_draw(s, turn_chance) {
        spec_state_after(spec_state_after(s))
    } else {
        spec_state_after(s)
    }
}

/// First direction at canonical position `i` or later that is neither
/// skipped nor blocked, scanning upward.
pub open spec fn first_canonical_free(
    m: GridModel,
    from: Node,
    skip1: Direction,
    skip2: Direction,
    i: int,
) -> Option<Direction>
    decreases 6 - i,
{
    if i < 0 || i >= 6 {
        None
    } else {
        let d = spec_dir_from_index(i);
        if d != skip1 && d != skip2 && free_at(m, spec_step(from, d)) {
            Some(d)
        } else {
            first_canonical_free(m, from, skip1, skip2, i + 1)
        }
    }
}

/// The direction the pipe accepts, given the grid, its heading and the turn
/// decision: the first candidate in the documented order whose target cell
/// is free, or `None` if all six directions are blocked.
pub open spec fn spec_chosen_dir(
    m: GridModel,
    from: Node,
    cur: Direction,
    draw: Option<u32>,
) -> Option<Direction> {
    match draw {
        Some(t) => {
            let td = spec_nth_other(cur, t as int);
            if free_at(m, spec_step(from, td)) {
                Some(td)
            } else if free_at(m, spec_step(from, cur)) {
                Some(cur)
            } else {
                first_canonical_free(m, from, td, cur, 0)
            }
        },
        None => {
            if free_at(m, spec_step(from, cur)) {
                Some(cur)
            } else {
                first_canonical_free(m, from, cur, cur, 0)
            }
        },
    }
}

/// The step counter after one successful step, saturating at its maximum.
pub open spec fn spec_inc_steps(steps: u32) -> u32 {
    if steps == u32::MAX {
        steps
    } else {
        (steps + 1) as u32
    }
}

/// Outcome of one pipe step at the model level.
pub ghost struct PipeStepRes {
    pub pipe: Pipe,
    pub grid: GridModel,
    pub state: u64,
    pub delta: StepDelta,
}

/// One tick of a single pipe as a function of the pipe, the grid model and
/// the generator state. A dead pipe is an idempotent no-op that draws
/// nothing from the generator.
pub open spec fn spec_pipe_step(p: Pipe, m: GridModel, s: u64, turn_chance: u32) -> PipeStepRes {
    if !p.alive {
        PipeStepRes { pipe: p, grid: m, state: s, delta: no_change_delta(p) }
    } else {
        let draw = spec_turn_draw(s, turn_chance);
        let s2 = spec_state_after_turn_draw(s, turn_chance);
        match spec_chosen_dir(m, p.current, p.current_dir, draw) {
            Some(d) => {
                let target = spec_step(p.current, d);
                PipeStepRes {
                    pipe: Pipe {
                        previous: p.current,
                        current: target,
                        previous_dir: p.current_dir,
                        current_dir: d,
                        steps: spec_inc_steps(p.steps),
                        ..p
                    },
                    grid: GridModel { occ: m.occ.insert(target), ..m },
                    state: s2,
                    delta: StepDelta {
                        last_node: p.current,
                        current_node: target,
                        last_dir: p.current_dir,
                        current_dir: d,
                        pipe_color: p.color,
                    },
                }
            },
            None => PipeStepRes {
                pipe: Pipe { alive: false, ..p },
                grid: m,
                state: s2,
                delta: no_change_delta(p),
            },
        }
    }
}

/// A canonical scan that found a direction found a free, unskipped one; one
/// that found none left no such direction at or after its start.
pub proof fn lemma_fcf_characterize(
    m: GridModel,
    from: Node,
    skip1: Direction,
    skip2: Direction,
    i: int,
)
    requires
        0 <= i,
    ensures
        first_canonical_free(m, from, skip1, skip2, i) matches Some(d) ==> d != skip1 && d
            != skip2 && free_at(m, spec_step(from, d)),
        first_canonical_free(m, from, skip1, skip2, i) is None ==> forall|j: int|
            i <= j < 6 ==> (spec_dir_from_index(j) == skip1 || spec_dir_from_index(j) == skip2
                || !free_at(m, spec_step(from, spec_dir_from_index(j)))),
        (forall|j: int|
            i <= j < 6 ==> (spec_dir_from_index(j) == skip1 || spec_dir_from_index(j) == skip2
                || !free_at(m, spec_step(from, spec_dir_from_index(j)))))
            ==> first_canonical_free(m, from, skip1, skip2, i) is None,
    decreases 6 - i,
{
    if 0 <= i < 6 {
        lemma_fcf_characterize(m, from, skip1, skip2, i + 1);
    }
}

/// The accepted direction, when there is one, always leads to a free cell.
pub proof fn lemma_chosen_free(m: GridModel, from: Node, cur: Direction, draw: Option<u32>)
    ensures
        spec_chosen_dir(m, from, cur, draw) matches Some(d) ==> free_at(m, spec_step(from, d)),
{
    match draw {
        Some(t) => {
            lemma_fcf_characterize(m, from, spec_nth_other(cur, t as int), cur, 0);
        },
        None => {
            lemma_fcf_characterize(m, from, cur, cur, 0);
        },
    }
}

/// A pipe finds no direction exactly when every one of the six adjacent
/// cells is blocked — the only way a pipe dies.
pub proof fn lemma_chosen_none_iff_enclosed(
    m: GridModel,
    from: Node,
    cur: Direction,
    draw: Option<u32>,
)
    ensures
        spec_chosen_dir(m, from, cur, draw) is None <==> forall|d: Direction|
            !free_at(m, spec_step(from, d)),
{
    let skip1 = match draw {
        Some(t) => spec_nth_other(cur, t as int),
        None => cur,
    };
    lemma_fcf_characterize(m, from, skip1, cur, 0);
    if spec_chosen_dir(m, from, cur, draw) is None {
        assert forall|d: Direction| !free_at(m, spec_step(from, d)) by {
            lemma_dir_index_roundtrip(d);
        }
    } else {
        let d = spec_chosen_dir(m, from, cur, draw)->Some_0;
        lemma_dir_index_roundtrip(d);
        lemma_chosen_free(m, from, cur, draw);
    }
}

/// Scans the canonical direction order for the first free target, skipping
/// two directions that were already tried.
fn first_canonical_free_exec(
    grid: &Grid,
    from: Node,
    skip1: Direction,
    skip2: Direction,
) -> (r: Option<Direction>)
    requires
        grid.wf(),
        0 <= from.x <= MAX_EXTENT,
        0 <= from.y <= MAX_EXTENT,
        0 <= from.z <= MAX_EXTENT,
    ensures
        r == first_canonical_free(grid.model(), from, skip1, skip2, 0),
{
    let mut i: u32 = 0;
    while i < 6
        invariant
            grid.wf(),
            0 <= from.x <= MAX_EXTENT,
            0 <= from.y <= MAX_EXTENT,
            0 <= from.z <= MAX_EXTENT,
            i <= 6,
            first_canonical_free(grid.model(), from, skip1, skip2, 0) == first_canonical_free(
                grid.model(),
                from,
                skip1,
                skip2,
                i as int,
            ),
        decreases 6 - i,
    {
        let d = Direction::from_index(i);
        if d != skip1 && d != skip2 {
            let target = from.step(d);
            if grid.is_free(target) {
                return Some(d);
            }
        }
        i = i + 1;
    }
    None
}

/// Picks the direction the pipe accepts this tick, in the documented
/// candidate order.
fn choose_direction(grid: &Grid, from: Node, cur: Direction, draw: Option<u32>) -> (r: Option<
    Direction,
>)
    requires
        grid.wf(),
        0 <= from.x <= MAX_EXTENT,
        0 <= from.y <= MAX_EXTENT,
        0 <= from.z <= MAX_EXTENT,
        draw matches Some(t) ==> t < 5,
    ensures
        r == spec_chosen_dir(grid.model(), from, cur, draw),
{
    match draw {
        Some(t) => {
            let td = cur.nth_other(t);
            if grid.is_free(from.step(td)) {
                Some(td)
            } else if grid.is_free(from.step(cur)) {
                Some(cur)
            } else {
                first_canonical_free_exec(grid, from, td, cur)
            }
        },
        None => {
            if grid.is_free(from.step(cur)) {
                Some(cur)
            } else {
                first_canonical_free_exec(grid, from, cur, cur)
            }
        },
    }
}

impl Pipe {
    /// Attempts one growth step against the grid: the result, the grid's new
    /// occupancy and the generator's new state are exactly the ones given by
    /// `spec_pipe_step` on the old values.
    #[verifier::rlimit(60)]
    pub fn step(self, grid: &mut Grid, rng: &mut StdRng, turn_chance: u32) -> (r: (Pipe, StepDelta))
        requires
            old(grid).wf(),
            self.alive,
            old(grid).model().occ.contains(self.current),
            turn_chance <= PROB_DENOM,
        ensures
            final(grid).wf(),
            ({
                let res = spec_pipe_step(
                    self,
                    old(grid).model(),
                    old(rng).state_spec(),
                    turn_chance,
                );
                &&& r.0 == res.pipe
                &&& r.1 == res.delta
                &&& final(grid).model() == res.grid
                &&& final(rng).state_spec() == res.state
            }),
    {
        proof {
            grid.lemma_wf_model();
            assert(old(grid).model().occ.contains(self.current));
            assert(crate::grid::in_bounds_model(grid.model(), self.current));
        }
        let draw: Option<u32> = if rng.random_bool(turn_chance) {
            Some(rng.choose_uniform(5))
        } else {
            None
        };
        let chosen = choose_direction(grid, self.current, self.current_dir, draw);
        match chosen {
            Some(d) => {
                proof {
                    lemma_chosen_free(
                        grid.model(),
                        self.current,
                        self.current_dir,
                        draw,
                    );
                }
                let target = self.current.step(d);
                grid.occupy(target);
                let stepped = Pipe {
                    previous: self.current,
                    current: target,
                    previous_dir: self.current_dir,
                    current_dir: d,
                    steps: if self.steps < u32::MAX {
                        self.steps + 1
                    } else {
                        self.steps
                    },
                    ..self
                };
                let delta = StepDelta {
                    last_node: self.current,
                    current_node: target,
                    last_dir: self.current_dir,
                    current_dir: d,
                    pipe_color: self.color,
                };
                (stepped, delta)
            },
            None => {
                let died = Pipe { alive: false, ..self };
                let delta = StepDelta {
                    last_node: self.current,
                    current_node: self.current,
                    last_dir: self.current_dir,
                    current_dir: self.current_dir,
                    pipe_color: self.color,
                };
                (died, delta)
            },
        }
    }
}

} // verus!
