//! The world: grid, pipe collection, spawning policy and lifecycle.
//!
//! The world owns the grid and all pipes exclusively. Its invariant ties
//! every pipe head to an occupied cell and keeps all heads pairwise
//! distinct, so no two pipes can ever share a cell; the number of alive
//! pipes never exceeds the configured cap. Every mutating operation is
//! pinned to a spec-level function of the old model and the generator
//! state, which makes a whole tick reproducible bit-for-bit from the seed.

use vstd::prelude::*;

use crate::config::{spec_valid_config, spec_validate, Config, ConfigError, MAX_PALETTE};
use crate::grid::{free_at, in_bounds_model, wf_grid_model, Grid, GridModel};
use crate::pipe::{lemma_chosen_free, spec_pipe_step, Pipe, StepDelta};
use crate::rng::{
    spec_bool_draw, spec_state_after, spec_uniform_draw, StdRng, PROB_DENOM,
};
use crate::space::{spec_dir_from_index, Color, Direction, Node};

verus! {

/// Reported when a new pipe is created, for the renderer to seed an
/// initial joint marker.
#[derive(Clone, Copy, PartialEq, Eq, Structural, Debug)]
pub struct SpawnEvent {
    pub start_node: Node,
    pub color: Color,
}

/// Lifecycle phase of a generation, derived from elapsed time alone.
#[derive(Clone, Copy, PartialEq, Eq, Structural, Debug)]
pub enum Phase {
    /// Pipes step and spawn normally.
    Growing,
    /// Growth ends: the freeze fires once and kills every alive pipe.
    FreezeNow,
    /// Nothing happens; the scene rests until the cycle ends.
    Idle,
    /// The driver is asked to discard the world and start a new generation.
    ResetRequested,
}

/// Abstract state of a world.
#[verifier::ext_equal]
pub ghost struct WorldModel {
    pub grid: GridModel,
    pub pipes: Seq<Pipe>,
    pub gen_complete: bool,
    pub max_pipes: int,
    pub spawn_chance: u32,
    pub turn_chance: u32,
    pub palette: Seq<Color>,
}

/// Number of alive pipes in a collection.
pub open spec fn count_alive(pipes: Seq<Pipe>) -> int
    decreases pipes.len(),
{
    if pipes.len() == 0 {
        0
    } else {
        count_alive(pipes.drop_last()) + if pipes.last().alive {
            1int
        } else {
            0int
        }
    }
}

/// The alive count lies between zero and the collection size.
pub proof fn lemma_count_alive_bounds(pipes: Seq<Pipe>)
    ensures
        0 <= count_alive(pipes) <= pipes.len(),
    decreases pipes.len(),
{
    if pipes.len() > 0 {
        lemma_count_alive_bounds(pipes.drop_last());
    }
}

/// Replacing one pipe changes the alive count by the difference of the two
/// pipes' liveness.
pub proof fn lemma_count_alive_update(pipes: Seq<Pipe>, i: int, p: Pipe)
    requires
        0 <= i < pipes.len(),
    ensures
        count_alive(pipes.update(i, p)) == count_alive(pipes) + (if p.alive {
            1int
        } else {
            0int
        }) - (if pipes[i].alive {
            1int
        } else {
            0int
        }),
    decreases pipes.len(),
{
    let updated = pipes.update(i, p);
    if i == pipes.len() - 1 {
        assert(updated.drop_last() =~= pipes.drop_last());
    } else {
        assert(updated.drop_last() =~= pipes.drop_last().update(i, p));
        lemma_count_alive_update(pipes.drop_last(), i, p);
    }
}

/// Appending one pipe adds its liveness to the alive count.
pub proof fn lemma_count_alive_push(pipes: Seq<Pipe>, p: Pipe)
    ensures
        count_alive(pipes.push(p)) == count_alive(pipes) + if p.alive {
            1int
        } else {
            0int
        },
{
    assert(pipes.push(p).drop_last() =~= pipes);
}

/// The world invariant: a well-formed grid, every pipe head on an occupied
/// in-bounds cell, all heads pairwise distinct, chances within range, a
/// usable palette, and an alive population within the configured cap.
pub open spec fn wf_world_model(m: WorldModel) -> bool {
    &&& wf_grid_model(m.grid)
    &&& forall|i: int|
        0 <= i < m.pipes.len() ==> m.grid.occ.contains(#[trigger] m.pipes[i].current)
    &&& forall|i: int, j: int|
        0 <= i < j < m.pipes.len() ==> (#[trigger] m.pipes[i]).current != (
        #[trigger] m.pipes[j]).current
    &&& m.spawn_chance <= PROB_DENOM
    &&& m.turn_chance <= PROB_DENOM
    &&& 1 <= m.palette.len() <= MAX_PALETTE
    &&& 0 <= m.max_pipes
    &&& count_alive(m.pipes) <= m.max_pipes
}

/// The model a fresh world is built with from an accepted configuration.
pub open spec fn spec_initial_model(cfg: Config) -> WorldModel {
    WorldModel {
        grid: GridModel {
            size_x: cfg.size_x as int,
            size_y: cfg.size_y as int,
            size_z: cfg.size_z as int,
            occ: Set::<Node>::empty(),
        },
        pipes: Seq::empty(),
        gen_complete: false,
        max_pipes: cfg.max_pipes as int,
        spawn_chance: cfg.spawn_chance,
        turn_chance: cfg.turn_chance,
        palette: cfg.palette@,
    }
}

/// Replacing pipe `i` by the outcome of one pipe step keeps the world
/// invariant.
pub proof fn lemma_pipe_step_preserves_wf(m: WorldModel, i: int, s: u64)
    requires
        wf_world_model(m),
        0 <= i < m.pipes.len(),
    ensures
        ({
            let res = spec_pipe_step(m.pipes[i], m.grid, s, m.turn_chance);
            wf_world_model(
                WorldModel { grid: res.grid, pipes: m.pipes.update(i, res.pipe), ..m },
            )
        }),
{
    let res = spec_pipe_step(m.pipes[i], m.grid, s, m.turn_chance);
    let m2 = WorldModel { grid: res.grid, pipes: m.pipes.update(i, res.pipe), ..m };
    let p = m.pipes[i];
    lemma_count_alive_update(m.pipes, i, res.pipe);
    let draw = crate::pipe::spec_turn_draw(s, m.turn_chance);
    lemma_chosen_free(m.grid, p.current, p.current_dir, draw);
    if p.alive && crate::pipe::spec_chosen_dir(m.grid, p.current, p.current_dir, draw)
        is Some {
        let d = crate::pipe::spec_chosen_dir(m.grid, p.current, p.current_dir, draw)->Some_0;
        let target = crate::space::spec_step(p.current, d);
        assert(free_at(m.grid, target));
        assert(res.pipe.current == target && res.pipe.alive == p.alive);
        assert(res.grid.occ == m.grid.occ.insert(target));
        assert(wf_grid_model(m2.grid)) by {
            assert(m2.grid.size_x == m.grid.size_x);
            assert(m2.grid.size_y == m.grid.size_y);
            assert(m2.grid.size_z == m.grid.size_z);
            assert forall|n: Node| m2.grid.occ.contains(n) implies in_bounds_model(
                m2.grid,
                n,
            ) by {
                if n == target {
                    assert(in_bounds_model(m.grid, target));
                } else {
                    assert(m.grid.occ.contains(n));
                    assert(in_bounds_model(m.grid, n));
                }
            }
        }
        assert forall|k: int|
            0 <= k < m2.pipes.len() implies m2.grid.occ.contains(
            #[trigger] m2.pipes[k].current,
        ) by {
            if k != i {
                assert(m2.pipes[k] == m.pipes[k]);
                assert(m.grid.occ.contains(m.pipes[k].current));
            }
        }
        assert forall|k: int, l: int|
            0 <= k < l < m2.pipes.len() implies (#[trigger] m2.pipes[k]).current != (
        #[trigger] m2.pipes[l]).current by {
            if k != i && l != i {
                assert(m2.pipes[k] == m.pipes[k] && m2.pipes[l] == m.pipes[l]);
            } else {
                let other = if k == i {
                    l
                } else {
                    k
                };
                assert(m2.pipes[other] == m.pipes[other]);
                assert(m.grid.occ.contains(m.pipes[other].current));
                assert(!m.grid.occ.contains(target));
            }
        }
    } else {
        assert(res.grid == m.grid);
        assert(res.pipe.current == p.current);
        assert forall|k: int|
            0 <= k < m2.pipes.len() implies m2.grid.occ.contains(
            #[trigger] m2.pipes[k].current,
        ) by {
            if k != i {
                assert(m2.pipes[k] == m.pipes[k]);
            }
            assert(m.grid.occ.contains(m.pipes[k].current));
        }
        assert forall|k: int, l: int|
            0 <= k < l < m2.pipes.len() implies (#[trigger] m2.pipes[k]).current != (
        #[trigger] m2.pipes[l]).current by {
            assert(m2.pipes[k].current == m.pipes[k].current);
            assert(m2.pipes[l].current == m.pipes[l].current);
            assert(m.pipes[k].current != m.pipes[l].current);
        }
    }
}

/// Number of random cells tried when spawning before the attempt is given
/// up for the tick; keeps spawning from scanning a densely packed grid
/// forever.
pub const SPAWN_RETRY_BUDGET: u32 = 32;

/// Bounded search for a free spawn cell: up to `tries` uniformly drawn
/// cells are examined and the first unoccupied one is kept. Returns the
/// cell found, if any, and the generator state after all draws.
pub open spec fn spec_find_cell(g: GridModel, s: u64, tries: int) -> (Option<Node>, u64)
    decreases tries,
{
    if tries <= 0 {
        (None, s)
    } else {
        let x = spec_uniform_draw(s, g.size_x as u32);
        let s1 = spec_state_after(s);
        let y = spec_uniform_draw(s1, g.size_y as u32);
        let s2 = spec_state_after(s1);
        let z = spec_uniform_draw(s2, g.size_z as u32);
        let s3 = spec_state_after(s2);
        let n = Node { x: x as i32, y: y as i32, z: z as i32 };
        if !g.occ.contains(n) {
            (Some(n), s3)
        } else {
            spec_find_cell(g, s3, tries - 1)
        }
    }
}

/// A found spawn cell is always free: drawn within bounds and unoccupied.
pub proof fn lemma_find_cell_free(g: GridModel, s: u64, tries: int)
    requires
        wf_grid_model(g),
    ensures
        spec_find_cell(g, s, tries).0 matches Some(n) ==> free_at(g, n),
    decreases tries,
{
    if tries > 0 {
        let x = spec_uniform_draw(s, g.size_x as u32);
        let s1 = spec_state_after(s);
        let y = spec_uniform_draw(s1, g.size_y as u32);
        let s2 = spec_state_after(s1);
        let z = spec_uniform_draw(s2, g.size_z as u32);
        let s3 = spec_state_after(s2);
        crate::rng::lemma_uniform_draw_lt(s, g.size_x as u32);
        crate::rng::lemma_uniform_draw_lt(s1, g.size_y as u32);
        crate::rng::lemma_uniform_draw_lt(s2, g.size_z as u32);
        lemma_find_cell_free(g, s3, tries - 1);
    }
}

/// One spawn attempt: find a free cell within the retry budget, then draw a
/// palette color and an initial direction, occupy the cell and append the
/// new pipe. Draw order: cell coordinates, then color, then direction.
pub open spec fn spec_spawn_pipe(m: WorldModel, s: u64) -> (WorldModel, Option<SpawnEvent>, u64) {
    let (cell, s1) = spec_find_cell(m.grid, s, SPAWN_RETRY_BUDGET as int);
    match cell {
        None => (m, None, s1),
        Some(n) => {
            let ci = spec_uniform_draw(s1, m.palette.len() as u32);
            let s2 = spec_state_after(s1);
            let di = spec_uniform_draw(s2, 6);
            let s3 = spec_state_after(s2);
            let color = m.palette[ci as int];
            let d = spec_dir_from_index(di as int);
            let p = Pipe {
                current: n,
                previous: n,
                current_dir: d,
                previous_dir: d,
                color,
                alive: true,
                steps: 0,
            };
            (
                WorldModel {
                    grid: GridModel { occ: m.grid.occ.insert(n), ..m.grid },
                    pipes: m.pipes.push(p),
                    ..m
                },
                Some(SpawnEvent { start_node: n, color }),
                s3,
            )
        },
    }
}

/// The per-tick spawn policy: nothing once the generation is complete;
/// otherwise one chance draw, and a spawn attempt only while the alive
/// population is below the cap.
pub open spec fn spec_spawn_step(m: WorldModel, s: u64) -> (WorldModel, Option<SpawnEvent>, u64) {
    if m.gen_complete {
        (m, None, s)
    } else {
        let b = spec_bool_draw(s, m.spawn_chance);
        let s1 = spec_state_after(s);
        if b && count_alive(m.pipes) < m.max_pipes {
            spec_spawn_pipe(m, s1)
        } else {
            (m, None, s1)
        }
    }
}

/// The world simulation state: occupancy grid, pipe collection in spawn
/// order, the one-shot generation-complete flag, and the spawn policy's
/// parameters.
pub struct World {
    grid: Grid,
    pipes: Vec<Pipe>,
    gen_complete: bool,
    max_pipes: usize,
    spawn_chance: u32,
    turn_chance: u32,
    palette: Vec<Color>,
}

impl World {
    /// Abstract model of this world.
    pub closed spec fn model(&self) -> WorldModel {
        WorldModel {
            grid: self.grid.model(),
            pipes: self.pipes@,
            gen_complete: self.gen_complete,
            max_pipes: self.max_pipes as int,
            spawn_chance: self.spawn_chance,
            turn_chance: self.turn_chance,
            palette: self.palette@,
        }
    }

    /// The representation matches its model and the model is well-formed.
    pub closed spec fn wf(&self) -> bool {
        &&& self.grid.wf()
        &&& wf_world_model(self.model())
    }

    /// A well-formed world has a well-formed model.
    pub proof fn lemma_wf_model(&self)
        requires
            self.wf(),
        ensures
            wf_world_model(self.model()),
    {
    }

    /// Builds a world from a configuration: an empty grid of the configured
    /// extent, no pipes, the flag cleared. A configuration that fails
    /// validation is rejected with the first failed check.
    pub fn new(cfg: &Config) -> (r: Result<World, ConfigError>)
        ensures
            match r {
                Ok(w) => {
                    &&& spec_valid_config(*cfg)
                    &&& w.wf()
                    &&& w.model() == spec_initial_model(*cfg)
                },
                Err(e) => Some(e) == spec_validate(*cfg),
            },
    {
        match cfg.validate() {
            Some(e) => Err(e),
            None => {
                let grid = Grid::new(cfg.size_x, cfg.size_y, cfg.size_z);
                let mut palette: Vec<Color> = Vec::new();
                let mut i: usize = 0;
                while i < cfg.palette.len()
                    invariant
                        i <= cfg.palette.len(),
                        palette@ == cfg.palette@.subrange(0, i as int),
                    decreases cfg.palette.len() - i,
                {
                    palette.push(cfg.palette[i]);
                    proof {
                        assert(palette@ =~= cfg.palette@.subrange(0, i + 1));
                    }
                    i = i + 1;
                }
                proof {
                    assert(palette@ =~= cfg.palette@);
                }
                let w = World {
                    grid,
                    pipes: Vec::new(),
                    gen_complete: false,
                    max_pipes: cfg.max_pipes,
                    spawn_chance: cfg.spawn_chance,
                    turn_chance: cfg.turn_chance,
                    palette,
                };
                proof {
                    assert(w.model() =~~= spec_initial_model(*cfg));
                }
                Ok(w)
            },
        }
    }

    /// Whether this generation's freeze has fired; stepping and spawning
    /// are suppressed afterwards.
    pub fn is_gen_complete(&self) -> (r: bool)
        ensures
            r == self.model().gen_complete,
    {
        self.gen_complete
    }

    /// Marks this generation complete.
    pub fn set_gen_complete(&mut self)
        requires
            old(self).wf(),
        ensures
            final(self).wf(),
            final(self).model() == (WorldModel { gen_complete: true, ..old(self).model() }),
    {
        self.gen_complete = true;
        proof {
            assert(self.model() =~~= WorldModel { gen_complete: true, ..old(self).model() });
        }
    }

    /// Number of pipes ever spawned this generation; pipes keep their index
    /// for the whole generation, dead or alive.
    pub fn active_pipes_count(&self) -> (r: usize)
        ensures
            r as int == self.model().pipes.len(),
    {
        self.pipes.len()
    }

    /// Whether pipe `i` is still growing.
    pub fn is_pipe_alive(&self, i: usize) -> (r: bool)
        requires
            i < self.model().pipes.len(),
        ensures
            r == self.model().pipes[i as int].alive,
    {
        self.pipes[i].alive
    }

    /// The configured per-tick spawn chance, out of `PROB_DENOM`.
    pub fn new_pipe_chance(&self) -> (r: u32)
        ensures
            r == self.model().spawn_chance,
    {
        self.spawn_chance
    }

    /// Number of currently alive pipes.
    pub fn alive_pipes_count(&self) -> (r: usize)
        requires
            self.wf(),
        ensures
            r as int == count_alive(self.model().pipes),
    {
        proof {
            lemma_count_alive_bounds(self.pipes@);
        }
        let mut acc: usize = 0;
        let mut i: usize = 0;
        while i < self.pipes.len()
            invariant
                i <= self.pipes@.len(),
                acc as int == count_alive(self.pipes@.subrange(0, i as int)),
                acc <= i,
            decreases self.pipes@.len() - i,
        {
            proof {
                assert(self.pipes@.subrange(0, i + 1).drop_last() =~= self.pipes@.subrange(
                    0,
                    i as int,
                ));
                assert(self.pipes@.subrange(0, i + 1).last() == self.pipes@[i as int]);
            }
            if self.pipes[i].alive {
                acc = acc + 1;
            }
            i = i + 1;
        }
        proof {
            assert(self.pipes@.subrange(0, self.pipes@.len() as int) =~= self.pipes@);
        }
        acc
    }

    /// Whether the alive population has reached the given cap, so that no
    /// further pipe may spawn.
    pub fn max_active_count_reached(&self, max_pipes: usize) -> (r: bool)
        requires
            self.wf(),
        ensures
            r == (count_alive(self.model().pipes) >= max_pipes),
    {
        self.alive_pipes_count() >= max_pipes
    }

    /// Kills pipe `i`; dead pipes stay dead and keep their cells occupied.
    pub fn kill_pipe(&mut self, i: usize)
        requires
            old(self).wf(),
            i < old(self).model().pipes.len(),
        ensures
            final(self).wf(),
            final(self).model() == (WorldModel {
                pipes: old(self).model().pipes.update(
                    i as int,
                    Pipe { alive: false, ..old(self).model().pipes[i as int] },
                ),
                ..old(self).model()
            }),
    {
        let p = self.pipes[i];
        let killed = Pipe { alive: false, ..p };
        self.pipes.set(i, killed);
        proof {
            lemma_count_alive_update(old(self).pipes@, i as int, killed);
            assert(self.model() =~~= WorldModel {
                pipes: old(self).model().pipes.update(i as int, killed),
                ..old(self).model()
            });
        }
    }

    /// Advances pipe `i` by one growth step. The new world, the generator
    /// state and the returned delta are exactly the ones `spec_pipe_step`
    /// gives on the old model; a dead pipe is an idempotent no-op.
    pub fn pipe_update(&mut self, i: usize, rng: &mut StdRng) -> (r: StepDelta)
        requires
            old(self).wf(),
            i < old(self).model().pipes.len(),
        ensures
            final(self).wf(),
            ({
                let res = spec_pipe_step(
                    old(self).model().pipes[i as int],
                    old(self).model().grid,
                    old(rng).state_spec(),
                    old(self).model().turn_chance,
                );
                &&& final(self).model() == (WorldModel {
                    grid: res.grid,
                    pipes: old(self).model().pipes.update(i as int, res.pipe),
                    ..old(self).model()
                })
                &&& final(rng).state_spec() == res.state
                &&& r == res.delta
            }),
    {
        proof {
            lemma_pipe_step_preserves_wf(
                old(self).model(),
                i as int,
                old(rng).state_spec(),
            );
        }
        let p = self.pipes[i];
        if !p.alive {
            let delta = StepDelta {
                last_node: p.current,
                current_node: p.current,
                last_dir: p.current_dir,
                current_dir: p.current_dir,
                pipe_color: p.color,
            };
            proof {
                assert(self.pipes@ =~= old(self).pipes@.update(i as int, p));
                assert(self.model() =~~= WorldModel {
                    grid: old(self).model().grid,
                    pipes: old(self).model().pipes.update(i as int, p),
                    ..old(self).model()
                });
            }
            return delta;
        }
        let (stepped, delta) = p.step(&mut self.grid, rng, self.turn_chance);
        self.pipes.set(i, stepped);
        proof {
            assert(self.model() =~~= WorldModel {
                grid: self.grid.model(),
                pipes: old(self).model().pipes.update(i as int, stepped),
                ..old(self).model()
            });
        }
        delta
    }

    /// Draws up to `SPAWN_RETRY_BUDGET` random cells and returns the first
    /// free one found, if any.
    #[verifier::rlimit(60)]
    fn find_spawn_cell(&self, rng: &mut StdRng) -> (r: Option<Node>)
        requires
            self.wf(),
        ensures
            r == spec_find_cell(
                self.model().grid,
                old(rng).state_spec(),
                SPAWN_RETRY_BUDGET as int,
            ).0,
            final(rng).state_spec() == spec_find_cell(
                self.model().grid,
                old(rng).state_spec(),
                SPAWN_RETRY_BUDGET as int,
            ).1,
    {
        let ghost g = self.model().grid;
        let ghost s0 = rng.state_spec();
        let mut tries: u32 = SPAWN_RETRY_BUDGET;
        while tries > 0
            invariant
                self.wf(),
                tries <= SPAWN_RETRY_BUDGET,
                spec_find_cell(g, s0, SPAWN_RETRY_BUDGET as int) == spec_find_cell(
                    g,
                    rng.state_spec(),
                    tries as int,
                ),
                g == self.model().grid,
                s0 == old(rng).state_spec(),
            decreases tries,
        {
            let ghost s_here = rng.state_spec();
            let x = rng.choose_uniform(self.grid.size_x());
            let y = rng.choose_uniform(self.grid.size_y());
            let z = rng.choose_uniform(self.grid.size_z());
            let n = Node { x: x as i32, y: y as i32, z: z as i32 };
            proof {
                assert(x == spec_uniform_draw(s_here, g.size_x as u32));
                assert(n == (Node {
                    x: spec_uniform_draw(s_here, g.size_x as u32) as i32,
                    y: spec_uniform_draw(spec_state_after(s_here), g.size_y as u32) as i32,
                    z: spec_uniform_draw(
                        spec_state_after(spec_state_after(s_here)),
                        g.size_z as u32,
                    ) as i32,
                }));
            }
            if self.grid.is_free(n) {
                proof {
                    assert(spec_find_cell(g, s_here, tries as int) == (
                        Some(n),
                        rng.state_spec(),
                    ));
                }
                return Some(n);
            }
            proof {
                assert(in_bounds_model(g, n));
                assert(g.occ.contains(n));
            }
            tries = tries - 1;
        }
        None
    }

    /// Spawns one pipe if a free cell is found within the retry budget:
    /// occupies the cell, appends the pipe, and reports the spawn for the
    /// renderer. Called only while the alive population is below the cap.
    pub fn new_pipe(&mut self, rng: &mut StdRng) -> (r: Option<SpawnEvent>)
        requires
            old(self).wf(),
            count_alive(old(self).model().pipes) < old(self).model().max_pipes,
        ensures
            final(self).wf(),
            ({
                let (m2, ev, s2) = spec_spawn_pipe(old(self).model(), old(rng).state_spec());
                &&& final(self).model() == m2
                &&& r == ev
                &&& final(rng).state_spec() == s2
            }),
    {
        proof {
            lemma_find_cell_free(
                old(self).model().grid,
                old(rng).state_spec(),
                SPAWN_RETRY_BUDGET as int,
            );
        }
        let cell = self.find_spawn_cell(rng);
        match cell {
            None => None,
            Some(n) => {
                let ci = rng.choose_uniform(self.palette.len() as u32);
                let color = self.palette[ci as usize];
                let di = rng.choose_uniform(6);
                let d = Direction::from_index(di);
                let p = Pipe {
                    current: n,
                    previous: n,
                    current_dir: d,
                    previous_dir: d,
                    color,
                    alive: true,
                    steps: 0,
                };
                self.grid.occupy(n);
                self.pipes.push(p);
                proof {
                    let m = old(self).model();
                    let m2 = self.model();
                    lemma_count_alive_push(m.pipes, p);
                    assert(m2.pipes =~= m.pipes.push(p));
                    assert(wf_grid_model(m2.grid)) by {
                        assert forall|q: Node| m2.grid.occ.contains(q) implies in_bounds_model(
                            m2.grid,
                            q,
                        ) by {
                            if q != n {
                                assert(m.grid.occ.contains(q));
                                assert(in_bounds_model(m.grid, q));
                            }
                        }
                    }
                    assert forall|k: int|
                        0 <= k < m2.pipes.len() implies m2.grid.occ.contains(
                        #[trigger] m2.pipes[k].current,
                    ) by {
                        if k < m.pipes.len() {
                            assert(m2.pipes[k] == m.pipes[k]);
                            assert(m.grid.occ.contains(m.pipes[k].current));
                        } else {
                            assert(m2.pipes[k] == p);
                        }
                    }
                    assert forall|k: int, l: int|
                        0 <= k < l < m2.pipes.len() implies (#[trigger] m2.pipes[k]).current != (
                    #[trigger] m2.pipes[l]).current by {
                        if l < m.pipes.len() {
                            assert(m2.pipes[k] == m.pipes[k] && m2.pipes[l] == m.pipes[l]);
                        } else {
                            assert(m2.pipes[k] == m.pipes[k] && m2.pipes[l] == p);
                            assert(m.grid.occ.contains(m.pipes[k].current));
                            assert(!m.grid.occ.contains(n));
                        }
                    }
                    assert(m2 =~~= WorldModel {
                        grid: GridModel { occ: m.grid.occ.insert(n), ..m.grid },
                        pipes: m.pipes.push(p),
                        ..m
                    });
                }
                Some(SpawnEvent { start_node: n, color })
            },
        }
    }
}

/// The per-tick spawn step: draws the spawn chance and, while the alive
/// population is below the cap, attempts to spawn one pipe. Suppressed
/// entirely once the generation is complete.
pub fn new_pipe_step(rng: &mut StdRng, world: &mut World) -> (r: Option<SpawnEvent>)
    requires
        old(world).wf(),
    ensures
        final(world).wf(),
        ({
            let (m2, ev, s2) = spec_spawn_step(old(world).model(), old(rng).state_spec());
            &&& final(world).model() == m2
            &&& r == ev
            &&& final(rng).state_spec() == s2
        }),
{
    if world.is_gen_complete() {
        return None;
    }
    let chance = world.new_pipe_chance();
    let b = rng.random_bool(chance);
    if b && !world.max_active_count_reached(world.max_pipes) {
        world.new_pipe(rng)
    } else {
        None
    }
}

/// The lifecycle phase for a given elapsed time, per the configured
/// thresholds: growing below `max_gen_time`, the freeze window up to
/// `max_gen_time + max_freeze_time`, idle up to `max_cycle_time`, and a
/// reset request from there on.
pub open spec fn spec_phase(elapsed_ms: u64, cfg: Config) -> Phase {
    if elapsed_ms < cfg.max_gen_time {
        Phase::Growing
    } else if elapsed_ms < cfg.max_gen_time + cfg.max_freeze_time {
        Phase::FreezeNow
    } else if elapsed_ms < cfg.max_cycle_time {
        Phase::Idle
    } else {
        Phase::ResetRequested
    }
}

/// Every pipe of the collection, killed.
pub open spec fn spec_kill_all(pipes: Seq<Pipe>) -> Seq<Pipe> {
    Seq::new(pipes.len(), |i: int| Pipe { alive: false, ..pipes[i] })
}

/// The lifecycle step: in the freeze window, and only if the freeze has not
/// fired yet, the generation is marked complete and every pipe is killed in
/// one stroke; any other phase leaves the world untouched. The reset signal
/// is raised exactly in the reset phase, and suppressed in single-run mode.
pub open spec fn spec_time_step(m: WorldModel, cfg: Config, elapsed_ms: u64) -> (
    WorldModel,
    bool,
) {
    let ph = spec_phase(elapsed_ms, cfg);
    let m1 = if ph == Phase::FreezeNow && !m.gen_complete {
        WorldModel { gen_complete: true, pipes: spec_kill_all(m.pipes), ..m }
    } else {
        m
    };
    (m1, ph == Phase::ResetRequested && !cfg.single_run)
}

/// The lifecycle phase for the given elapsed time since the generation
/// started.
pub fn phase_of(elapsed_ms: u64, cfg: &Config) -> (r: Phase)
    requires
        spec_valid_config(*cfg),
    ensures
        r == spec_phase(elapsed_ms, *cfg),
{
    if elapsed_ms < cfg.max_gen_time {
        Phase::Growing
    } else if elapsed_ms < cfg.max_gen_time + cfg.max_freeze_time {
        Phase::FreezeNow
    } else if elapsed_ms < cfg.max_cycle_time {
        Phase::Idle
    } else {
        Phase::ResetRequested
    }
}

/// Applies the lifecycle to the world for the given elapsed time and
/// reports whether the driver should reset the scene. The freeze fires at
/// most once per generation: a later call in the same window changes
/// nothing.
pub fn check_time_step(elapsed_ms: u64, cfg: &Config, world: &mut World) -> (r: bool)
    requires
        old(world).wf(),
        spec_valid_config(*cfg),
    ensures
        final(world).wf(),
        final(world).model() == spec_time_step(old(world).model(), *cfg, elapsed_ms).0,
        r == spec_time_step(old(world).model(), *cfg, elapsed_ms).1,
        r == (elapsed_ms >= cfg.max_cycle_time && !cfg.single_run),
        old(world).model().gen_complete ==> final(world).model() == old(world).model(),
{
    let ph = phase_of(elapsed_ms, cfg);
    if ph == Phase::FreezeNow && !world.is_gen_complete() {
        world.set_gen_complete();
        let ghost m1 = world.model();
        let n = world.active_pipes_count();
        let mut i: usize = 0;
        while i < n
            invariant
                world.wf(),
                i <= n,
                n as int == m1.pipes.len(),
                world.model().pipes.len() == m1.pipes.len(),
                forall|j: int|
                    0 <= j < i ==> world.model().pipes[j] == (Pipe {
                        alive: false,
                        ..m1.pipes[j]
                    }),
                forall|j: int| i <= j < n ==> world.model().pipes[j] == m1.pipes[j],
                world.model() == (WorldModel { pipes: world.model().pipes, ..m1 }),
            decreases n - i,
        {
            world.kill_pipe(i);
            i = i + 1;
        }
        proof {
            assert(world.model().pipes =~= spec_kill_all(m1.pipes));
            assert(world.model() =~~= spec_time_step(old(world).model(), *cfg, elapsed_ms).0);
        }
        false
    } else {
        ph == Phase::ResetRequested && !cfg.single_run
    }
}

/// The pipe-advancing phase of a tick: pipes `[0, i)` stepped in index
/// order, each drawing from the generator in turn.
pub open spec fn spec_step_all(m: WorldModel, s: u64, i: int) -> (WorldModel, u64, Seq<StepDelta>)
    decreases i,
{
    if i <= 0 {
        (m, s, Seq::empty())
    } else {
        let prev = spec_step_all(m, s, i - 1);
        let m1 = prev.0;
        let res = spec_pipe_step(m1.pipes[i - 1], m1.grid, prev.1, m1.turn_chance);
        (
            WorldModel { grid: res.grid, pipes: m1.pipes.update(i - 1, res.pipe), ..m1 },
            res.state,
            prev.2.push(res.delta),
        )
    }
}

/// The stepping phase keeps the pipe count and the policy fields, produces
/// one delta per stepped pipe, leaves unstepped pipes untouched, and never
/// revives a dead pipe.
pub proof fn lemma_step_all_props(m: WorldModel, s: u64, i: int)
    requires
        0 <= i <= m.pipes.len(),
    ensures
        ({
            let r = spec_step_all(m, s, i);
            &&& r.0.pipes.len() == m.pipes.len()
            &&& r.2.len() == i
            &&& r.0.gen_complete == m.gen_complete
            &&& r.0.max_pipes == m.max_pipes
            &&& r.0.spawn_chance == m.spawn_chance
            &&& r.0.turn_chance == m.turn_chance
            &&& r.0.palette == m.palette
            &&& forall|j: int| i <= j < m.pipes.len() ==> r.0.pipes[j] == m.pipes[j]
            &&& forall|j: int|
                0 <= j < m.pipes.len() && !m.pipes[j].alive ==> !r.0.pipes[j].alive
        }),
    decreases i,
{
    if i > 0 {
        lemma_step_all_props(m, s, i - 1);
    }
}

/// Everything one tick reports back to the driver.
#[derive(Debug)]
pub struct TickResult {
    /// One delta per stepped pipe, in stable index order; empty once the
    /// generation is complete.
    pub deltas: Vec<StepDelta>,
    /// The spawn of this tick, if one happened.
    pub spawn: Option<SpawnEvent>,
    /// Whether the driver should discard the world and start over.
    pub reset: bool,
}

/// One whole tick as a function of the model, the generator state, the
/// configuration and the elapsed time: step every pipe (unless the
/// generation is complete), then maybe spawn, then apply the lifecycle.
pub open spec fn spec_update_tick(m: WorldModel, s: u64, cfg: Config, elapsed_ms: u64) -> (
    WorldModel,
    u64,
    Seq<StepDelta>,
    Option<SpawnEvent>,
    bool,
) {
    let stepped = if m.gen_complete {
        (m, s, Seq::<StepDelta>::empty())
    } else {
        spec_step_all(m, s, m.pipes.len() as int)
    };
    let spawned = spec_spawn_step(stepped.0, stepped.1);
    let timed = spec_time_step(spawned.0, cfg, elapsed_ms);
    (timed.0, spawned.2, stepped.2, spawned.1, timed.1)
}

/// Advances the world by one tick: every pipe steps once in index order,
/// then the spawn policy runs, then the lifecycle check. The new world, the
/// generator state and everything reported are exactly the ones
/// `spec_update_tick` gives on the old model, so a run is reproducible
/// bit-for-bit from the seed and the elapsed-time sequence.
pub fn world_update_tick(
    world: &mut World,
    rng: &mut StdRng,
    elapsed_ms: u64,
    cfg: &Config,
) -> (r: TickResult)
    requires
        old(world).wf(),
        spec_valid_config(*cfg),
    ensures
        final(world).wf(),
        ({
            let t = spec_update_tick(
                old(world).model(),
                old(rng).state_spec(),
                *cfg,
                elapsed_ms,
            );
            &&& final(world).model() == t.0
            &&& final(rng).state_spec() == t.1
            &&& r.deltas@ == t.2
            &&& r.spawn == t.3
            &&& r.reset == t.4
        }),
{
    let ghost m0 = old(world).model();
    let ghost s0 = old(rng).state_spec();
    let mut deltas: Vec<StepDelta> = Vec::new();
    if !world.is_gen_complete() {
        let n = world.active_pipes_count();
        let mut i: usize = 0;
        while i < n
            invariant
                world.wf(),
                i <= n,
                n as int == m0.pipes.len(),
                m0.pipes.len() <= usize::MAX,
                world.model() == spec_step_all(m0, s0, i as int).0,
                rng.state_spec() == spec_step_all(m0, s0, i as int).1,
                deltas@ == spec_step_all(m0, s0, i as int).2,
            decreases n - i,
        {
            proof {
                lemma_step_all_props(m0, s0, i as int);
            }
            let d = world.pipe_update(i, rng);
            deltas.push(d);
            i = i + 1;
        }
    }
    let spawn = new_pipe_step(rng, world);
    let reset = check_time_step(elapsed_ms, cfg, world);
    TickResult { deltas, spawn, reset }
}

} // verus!
