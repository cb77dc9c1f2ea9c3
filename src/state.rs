use vstd::prelude::*;
use vstd::view::View as _;
use vstd::arithmetic::div_mod::lemma_fundamental_div_mod_converse;
use crate::grid::{seed, seed_grid, Cell, Domain};
use crate::perf::{pushed, Performance};
use crate::view::View;

verus! {

/// Sweeps of the divergence kernel per physics step in a fresh state.
pub const DEFAULT_SWEEPS: u32 = 10;

/// The counter after one more dispatch; it wraps around at `2^32`, which
/// keeps its parity.
pub open spec fn next_tick(t: u32) -> u32 {
    ((t as int + 1) % 0x1_0000_0000) as u32
}

/// `t + n` on the wrapping dispatch counter.
pub open spec fn tick_plus(t: u32, n: int) -> u32 {
    ((t as int + n) % 0x1_0000_0000) as u32
}

/// Time between a mark and a later clock reading; a reading before the mark
/// counts as no time.
pub open spec fn elapsed(now: u64, mark: u64) -> u64 {
    if now >= mark {
        (now - mark) as u64
    } else {
        0
    }
}

/// Host-side simulation state that the logic reads and changes. The float
/// parameters (time step, pan, zoom, gains) stay with the host.
pub struct State {
    /// Size of the grid; the grid is rebuilt from it on reset.
    pub domain: Domain,
    /// Dispatches since the last reset; its parity selects the slots.
    pub tick: u32,
    /// Divergence sweeps per physics step.
    pub divergence: u32,
    /// Physics steps per tick.
    pub iterations: u32,
    /// Whether a tick runs every frame.
    pub running: bool,
    /// Field shown by the render kernel.
    pub view: View,
    /// Hue bands of the velocity view.
    pub contours: u32,
    /// Recent stage durations.
    pub perf: Performance,
}

/// The state that a reset leaves: stopped, at tick 0, all else kept.
pub open spec fn reset_state(s: State) -> State {
    State { running: false, tick: 0, ..s }
}

/// One step of a tick: a kernel to dispatch after uploading the compute
/// uniform with the given tick, or the end of the tick.
#[derive(Clone, Copy, Debug, PartialEq, Eq, Structural)]
pub enum Dispatch {
    /// One Jacobi sweep of the divergence kernel.
    Divergence { tick: u32 },
    /// One semi-Lagrangian step of the advance kernel.
    Advance { tick: u32 },
    /// The tick is complete.
    Done,
}

/// The `k`-th dispatch of a tick (from 0) with `sweeps` divergence sweeps per
/// step, made at counter value `tick`: each step is `sweeps` divergence
/// dispatches followed by one advance.
pub open spec fn dispatch_at(sweeps: u32, k: int, tick: u32) -> Dispatch {
    if k % (sweeps as int + 1) < sweeps as int {
        Dispatch::Divergence { tick }
    } else {
        Dispatch::Advance { tick }
    }
}

#[derive(Clone, Copy, Debug, PartialEq, Eq, Structural)]
enum Phase {
    Sweeping,
    Advancing,
    Finished,
}

/// Progress through one tick: which dispatch comes next, and the clock
/// marks from which the stage durations are measured. Clock readings are
/// nanoseconds since the tick began.
pub struct TickRun {
    iterations: u32,
    sweeps: u32,
    iteration: u32,
    sweep: u32,
    phase: Phase,
    sweeps_from: u64,
    advance_from: u64,
}

impl TickRun {
    /// The progress counters agree with the phase: a run that is not over
    /// is within its steps, and an advance is pending only after all sweeps.
    pub closed spec fn wf(self) -> bool {
        &&& self.iterations >= 1
        &&& self.sweep <= self.sweeps
        &&& match self.phase {
            Phase::Sweeping => self.iteration < self.iterations,
            Phase::Advancing => self.iteration < self.iterations && self.sweep == self.sweeps,
            Phase::Finished => self.iteration == self.iterations,
        }
    }

    /// Physics steps of this tick.
    pub closed spec fn iterations_spec(self) -> u32 {
        self.iterations
    }

    /// Divergence sweeps per physics step.
    pub closed spec fn sweeps_spec(self) -> u32 {
        self.sweeps
    }

    /// Number of dispatches of a whole tick, `iterations·(sweeps + 1)`.
    pub open spec fn total(self) -> int {
        self.iterations_spec() as int * (self.sweeps_spec() as int + 1)
    }

    /// Number of dispatches still to come.
    pub closed spec fn remaining(self) -> int {
        match self.phase {
            Phase::Sweeping => (self.iterations - self.iteration) * (self.sweeps + 1) - self.sweep,
            Phase::Advancing => (self.iterations - self.iteration - 1) * (self.sweeps + 1),
            Phase::Finished => 0,
        }
    }

    /// Index in the tick of the next dispatch.
    pub open spec fn position(self) -> int {
        self.total() - self.remaining()
    }

    /// Whether the next call begins a physics step, and so marks the start
    /// of its sweeps.
    pub closed spec fn begins_step(self) -> bool {
        match self.phase {
            Phase::Sweeping => self.sweep == 0,
            Phase::Advancing => self.iteration + 1 < self.iterations,
            Phase::Finished => false,
        }
    }

    /// Whether an advance dispatch is waiting for its duration.
    pub closed spec fn awaits_advance(self) -> bool {
        self.phase == Phase::Advancing
    }

    /// Clock reading at the start of the current step's sweeps.
    pub closed spec fn sweeps_mark(self) -> u64 {
        self.sweeps_from
    }

    /// Clock reading at the last advance dispatch.
    pub closed spec fn advance_mark(self) -> u64 {
        self.advance_from
    }

    /// A tick of `iterations` physics steps with `sweeps` sweeps each, before
    /// its first dispatch.
    pub closed spec fn start(iterations: u32, sweeps: u32) -> TickRun {
        TickRun {
            iterations,
            sweeps,
            iteration: 0,
            sweep: 0,
            phase: Phase::Sweeping,
            sweeps_from: 0,
            advance_from: 0,
        }
    }
}

/// A tick of `I ≥ 1` physics steps with `D` sweeps each is made of exactly
/// `I·(D+1)` dispatches. Since every step of `State::tick` keeps
/// `tick + remaining` (modulo `2^32`) and `Done` comes exactly when nothing
/// remains, a whole tick advances the counter by exactly `I·(D+1)`.
pub proof fn tick_dispatch_count(iterations: u32, sweeps: u32)
    requires
        iterations >= 1,
    ensures
        TickRun::start(iterations, sweeps).wf(),
        TickRun::start(iterations, sweeps).iterations_spec() == iterations,
        TickRun::start(iterations, sweeps).sweeps_spec() == sweeps,
        TickRun::start(iterations, sweeps).remaining() == iterations as int * (sweeps as int + 1),
        TickRun::start(iterations, sweeps).total() == iterations as int * (sweeps as int + 1),
        TickRun::start(iterations, sweeps).position() == 0,
        TickRun::start(iterations, sweeps).remaining() > 0,
{
    assert(iterations as int * (sweeps as int + 1) > 0) by (nonlinear_arith)
        requires
            iterations >= 1,
    ;
}

/// A whole tick advances the counter by `I·(D+1)`: where a tick began at
/// counter `t0` and the quantity that every step keeps, `tick + remaining`,
/// still equals its value at the start, the counter stands at
/// `t0 + I·(D+1)` (modulo `2^32`) once nothing remains.
pub proof fn tick_advances_by_dispatch_count(
    t0: u32,
    iterations: u32,
    sweeps: u32,
    t: u32,
    run: TickRun,
)
    requires
        iterations >= 1,
        tick_plus(t, run.remaining()) == tick_plus(
            t0,
            TickRun::start(iterations, sweeps).remaining(),
        ),
        run.remaining() == 0,
    ensures
        t == tick_plus(t0, iterations as int * (sweeps as int + 1)),
{
    tick_dispatch_count(iterations, sweeps);
}

/// Two resets in a row leave the same state and the same grid as one.
pub proof fn reset_twice(s: State)
    ensures
        reset_state(reset_state(s)) == reset_state(s),
        seed(reset_state(s).domain) == seed(s.domain),
{
}

proof fn lemma_step_position(iterations: u32, sweeps: u32, iteration: u32, sweep: u32)
    requires
        iteration < iterations,
        sweep <= sweeps,
    ensures
        ({
            let d = sweeps as int + 1;
            let k = iterations as int * d - ((iterations - iteration) * d - sweep);
            &&& k % d == sweep as int
            &&& (iterations - iteration) * d - sweep > 0
            &&& (iterations - iteration - 1) * d == (iterations - iteration) * d - sweep - 1
                <== sweep == sweeps
            &&& (iterations - iteration - 1) * d >= 0
        }),
{
    let d = sweeps as int + 1;
    let k = iterations as int * d - ((iterations - iteration) * d - sweep);
    assert(k == iteration as int * d + sweep) by (nonlinear_arith)
        requires
            k == iterations as int * d - ((iterations - iteration) * d - sweep),
    ;
    lemma_fundamental_div_mod_converse(k, d, iteration as int, sweep as int);
    assert((iterations - iteration) * d - sweep > 0) by (nonlinear_arith)
        requires
            iteration < iterations,
            sweep <= sweeps,
            d == sweeps + 1,
    ;
    assert((iterations - iteration - 1) * d == (iterations - iteration) * d - d)
        by (nonlinear_arith);
    assert((iterations - iteration - 1) * d >= 0) by (nonlinear_arith)
        requires
            iteration < iterations,
            d >= 1,
    ;
}

impl State {
    /// A stopped state at tick 0 over `domain`: pressure view, one contour,
    /// ten divergence sweeps and one physics step per tick, no samples.
    pub fn new(domain: Domain) -> (r: State)
        ensures
            r.domain == domain,
            r.tick == 0,
            r.divergence == DEFAULT_SWEEPS,
            r.iterations == 1,
            !r.running,
            r.view == View::Pressure,
            r.contours == 1,
            r.perf.divergence_samples().len() == 0,
            r.perf.advance_samples().len() == 0,
            r.perf.total_samples().len() == 0,
    {
        State {
            domain,
            tick: 0,
            divergence: DEFAULT_SWEEPS,
            iterations: 1,
            running: false,
            view: View::Pressure,
            contours: 1,
            perf: Performance::new(),
        }
    }

    /// Stops the simulation, sets the counter to 0 and returns the seed grid
    /// to upload. The performance samples are kept.
    pub fn reset(&mut self) -> (cells: Vec<Cell>)
        ensures
            *final(self) == reset_state(*old(self)),
            cells@ == seed(old(self).domain),
    {
        self.running = false;
        let cells = seed_grid(self.domain);
        self.tick = 0;
        cells
    }

    /// Applies the key presses of one frame: Space toggles `running`,
    /// Backspace resets (and the new grid is returned), Backslash moves the
    /// view to the next of the keyboard cycle.
    pub fn on_keys(&mut self, space: bool, backspace: bool, backslash: bool) -> (r: Option<
        Vec<Cell>,
    >)
        ensures
            r.is_some() == backspace,
            r matches Some(cells) ==> cells@ == seed(old(self).domain),
            final(self).running == (if backspace {
                false
            } else {
                old(self).running != space
            }),
            final(self).tick == (if backspace {
                0
            } else {
                old(self).tick
            }),
            final(self).view == (if backslash {
                old(self).view.next_spec()
            } else {
                old(self).view
            }),
            final(self).domain == old(self).domain,
            final(self).divergence == old(self).divergence,
            final(self).iterations == old(self).iterations,
            final(self).contours == old(self).contours,
            final(self).perf == old(self).perf,
    {
        self.running = self.running != space;
        let r = if backspace {
            Some(self.reset())
        } else {
            None
        };
        if backslash {
            self.view.next();
        }
        r
    }

    /// The tick that the render uniform carries: that of the last dispatch,
    /// `tick - 1` on the wrapping counter.
    pub fn render_tick(&self) -> (r: u32)
        ensures
            next_tick(r) == self.tick,
    {
        if self.tick == 0 {
            u32::MAX
        } else {
            self.tick - 1
        }
    }

    /// Begins a tick of `iterations` physics steps with `divergence` sweeps
    /// each. The clock readings handed to `tick` count from this moment.
    pub fn begin_tick(&self) -> (run: TickRun)
        requires
            self.iterations >= 1,
        ensures
            run == TickRun::start(self.iterations, self.divergence),
            run.wf(),
            run.iterations_spec() == self.iterations,
            run.sweeps_spec() == self.divergence,
            run.remaining() == run.total(),
            run.position() == 0,
            run.begins_step(),
    {
        TickRun {
            iterations: self.iterations,
            sweeps: self.divergence,
            iteration: 0,
            sweep: 0,
            phase: Phase::Sweeping,
            sweeps_from: 0,
            advance_from: 0,
        }
    }

    /// Takes the next step of a tick, `now` being the clock reading at this
    /// call. A physics step is `D` divergence dispatches and one advance
    /// dispatch; each dispatch carries the current tick, which then grows by
    /// one. When a step's sweeps end, the time since they began, divided by
    /// `D`, is recorded as a divergence sample (none where `D = 0`). At the
    /// call after an advance dispatch, the time since that dispatch is
    /// recorded as an advance sample. When the last step is over, the time
    /// since the tick began, divided by `I`, is recorded as a total sample,
    /// and `Done` is returned from then on.
    pub fn tick(&mut self, run: &mut TickRun, now: u64) -> (d: Dispatch)
        requires
            old(run).wf(),
        ensures
            final(run).wf(),
            final(run).iterations_spec() == old(run).iterations_spec(),
            final(run).sweeps_spec() == old(run).sweeps_spec(),
            (d == Dispatch::Done) == (old(run).remaining() == 0),
            tick_plus(final(self).tick, final(run).remaining()) == tick_plus(
                old(self).tick,
                old(run).remaining(),
            ),
            old(run).remaining() > 0 ==> {
                &&& d == dispatch_at(old(run).sweeps_spec(), old(run).position(), old(self).tick)
                &&& final(run).remaining() == old(run).remaining() - 1
                &&& final(self).tick == next_tick(old(self).tick)
            },
            old(run).remaining() == 0 ==> final(run).remaining() == 0 && final(self).tick == old(
                self,
            ).tick,
            final(run).sweeps_mark() == (if old(run).begins_step() {
                now
            } else {
                old(run).sweeps_mark()
            }),
            final(run).advance_mark() == (if d is Advance {
                now
            } else {
                old(run).advance_mark()
            }),
            final(self).perf.divergence_samples() == (if d is Advance && old(run).sweeps_spec()
                > 0 {
                pushed(
                    old(self).perf.divergence_samples(),
                    (elapsed(now, old(run).sweeps_mark()) / old(run).sweeps_spec() as u64) as u64,
                )
            } else {
                old(self).perf.divergence_samples()
            }),
            final(self).perf.advance_samples() == (if old(run).awaits_advance() {
                pushed(old(self).perf.advance_samples(), elapsed(now, old(run).advance_mark()))
            } else {
                old(self).perf.advance_samples()
            }),
            final(self).perf.total_samples() == (if old(run).awaits_advance() && d
                == Dispatch::Done {
                pushed(
                    old(self).perf.total_samples(),
                    (now / old(run).iterations_spec() as u64) as u64,
                )
            } else {
                old(self).perf.total_samples()
            }),
            final(self).domain == old(self).domain,
            final(self).divergence == old(self).divergence,
            final(self).iterations == old(self).iterations,
            final(self).running == old(self).running,
            final(self).view == old(self).view,
            final(self).contours == old(self).contours,
    {
        match run.phase {
            Phase::Finished => Dispatch::Done,
            Phase::Advancing => {
                proof {
                    let d = run.sweeps as int + 1;
                    let left = run.iterations - run.iteration - 1;
                    assert(left * d == 0 <==> left == 0) by (nonlinear_arith)
                        requires
                            left >= 0,
                            d >= 1,
                    ;
                    assert(left * d >= 0) by (nonlinear_arith)
                        requires
                            left >= 0,
                            d >= 1,
                    ;
                }
                self.perf.measure_advance(elapsed_since(now, run.advance_from));
                run.iteration = run.iteration + 1;
                if run.iteration < run.iterations {
                    run.phase = Phase::Sweeping;
                    run.sweep = 0;
                    self.sweep_or_advance(run, now)
                } else {
                    self.perf.measure_total(now / run.iterations as u64);
                    run.phase = Phase::Finished;
                    Dispatch::Done
                }
            },
            Phase::Sweeping => self.sweep_or_advance(run, now),
        }
    }

    fn sweep_or_advance(&mut self, run: &mut TickRun, now: u64) -> (d: Dispatch)
        requires
            old(run).wf(),
            old(run).phase == Phase::Sweeping,
        ensures
            final(run).wf(),
            final(run).iterations == old(run).iterations,
            final(run).sweeps == old(run).sweeps,
            final(run).iteration == old(run).iteration,
            d == dispatch_at(old(run).sweeps, old(run).position(), old(self).tick),
            old(run).remaining() > 0,
            final(run).remaining() == old(run).remaining() - 1,
            final(self).tick == next_tick(old(self).tick),
            final(run).sweeps_from == (if old(run).sweep == 0 {
                now
            } else {
                old(run).sweeps_from
            }),
            final(run).advance_from == (if d is Advance {
                now
            } else {
                old(run).advance_from
            }),
            final(self).perf.divergence_samples() == (if d is Advance && old(run).sweeps > 0 {
                pushed(
                    old(self).perf.divergence_samples(),
                    (elapsed(now, old(run).sweeps_from) / old(run).sweeps as u64) as u64,
                )
            } else {
                old(self).perf.divergence_samples()
            }),
            final(self).perf.advance_samples() == old(self).perf.advance_samples(),
            final(self).perf.total_samples() == old(self).perf.total_samples(),
            final(self).domain == old(self).domain,
            final(self).divergence == old(self).divergence,
            final(self).iterations == old(self).iterations,
            final(self).running == old(self).running,
            final(self).view == old(self).view,
            final(self).contours == old(self).contours,
    {
        proof {
            lemma_step_position(run.iterations, run.sweeps, run.iteration, run.sweep);
        }
        if run.sweep == 0 {
            run.sweeps_from = now;
        }
        let t = self.tick;
        self.tick = if t == u32::MAX {
            0
        } else {
            t + 1
        };
        if run.sweep < run.sweeps {
            run.sweep = run.sweep + 1;
            Dispatch::Divergence { tick: t }
        } else {
            if run.sweeps > 0 {
                self.perf.measure_divergence(
                    elapsed_since(now, run.sweeps_from) / run.sweeps as u64,
                );
            }
            run.advance_from = now;
            run.phase = Phase::Advancing;
            Dispatch::Advance { tick: t }
        }
    }
}

fn elapsed_since(now: u64, mark: u64) -> (r: u64)
    ensures
        r == elapsed(now, mark),
{
    if now >= mark {
        now - mark
    } else {
        0
    }
}

} // verus!
