//! The radius animation: a scalar that ramps by one step per tick over a
//! window of fixed length.
use vstd::prelude::*;

verus! {

/// The direction of a ramp.
#[derive(Clone, Copy, Debug, PartialEq, Eq, Structural)]
pub enum Direction {
    /// Each tick adds the growth window's step.
    Grow,
    /// Each tick subtracts the shrink window's step.
    Shrink,
}

/// One animation window: a tick every `tick_ms`, each tick worth `step`,
/// for `duration_ms` in all.
#[derive(Clone, Copy, Debug, PartialEq, Eq, Structural)]
pub struct Window {
    pub tick_ms: u64,
    pub step: i32,
    pub duration_ms: u64,
}

impl Window {
    /// The number of ticks that have fallen due once `elapsed` milliseconds
    /// of the window have passed. A tick at the very end of the window counts.
    pub open spec fn ticks_by(self, elapsed: nat) -> nat {
        elapsed / (self.tick_ms as nat)
    }

    /// The number of ticks in the whole window.
    pub open spec fn ticks(self) -> nat {
        self.ticks_by(self.duration_ms as nat)
    }
}

/// The model of a [`RadiusDriver`].
pub ghost struct Animation {
    /// The current radius.
    pub value: int,
    /// The window used when growing.
    pub growth: Window,
    /// The window used when shrinking.
    pub shrink: Window,
    /// The ramp that is running, with the time it has run for.
    pub run: Option<(Direction, nat)>,
}

impl Animation {
    /// The window that belongs to a direction.
    pub open spec fn window(self, direction: Direction) -> Window {
        match direction {
            Direction::Grow => self.growth,
            Direction::Shrink => self.shrink,
        }
    }

    /// What one tick adds to the radius.
    pub open spec fn delta(self, direction: Direction) -> int {
        match direction {
            Direction::Grow => self.growth.step as int,
            Direction::Shrink => -(self.shrink.step as int),
        }
    }

    /// What a whole window adds to the radius.
    pub open spec fn span(self, direction: Direction) -> int {
        self.delta(direction) * self.window(direction).ticks()
    }

    /// Whether a whole window in the given direction, begun at the current
    /// radius, keeps the radius within the range of an `i32`.
    pub open spec fn fits(self, direction: Direction) -> bool {
        i32::MIN <= self.value + self.span(direction) <= i32::MAX
    }

    /// The driver after a request to start a ramp: the ramp begins, and takes
    /// the place of a running one, if the whole window fits; otherwise
    /// nothing changes.
    pub open spec fn started(self, direction: Direction) -> Animation {
        if self.fits(direction) {
            Animation { run: Some((direction, 0nat)), ..self }
        } else {
            self
        }
    }

    /// The driver with no ramp running.
    pub open spec fn cancelled(self) -> Animation {
        Animation { run: None, ..self }
    }

    /// The driver set back to `value`, with no ramp running.
    pub open spec fn reset(self, value: int) -> Animation {
        Animation { value, run: None, ..self }
    }

    /// Whether `elapsed` more milliseconds bring the running ramp to the end
    /// of its window.
    pub open spec fn completes_within(self, elapsed: nat) -> bool {
        match self.run {
            Some((direction, so_far)) => so_far + elapsed >= self.window(direction).duration_ms,
            None => false,
        }
    }

    /// The driver after `elapsed` milliseconds: every tick that fell due in
    /// that time has been applied, and a ramp that reached the end of its
    /// window has stopped.
    pub open spec fn advanced(self, elapsed: nat) -> Animation {
        match self.run {
            Some((direction, so_far)) => {
                let window = self.window(direction);
                let reached = if self.completes_within(elapsed) {
                    window.duration_ms as nat
                } else {
                    so_far + elapsed
                };
                let ticks = window.ticks_by(reached) - window.ticks_by(so_far);
                Animation {
                    value: self.value + self.delta(direction) * ticks,
                    run: if self.completes_within(elapsed) {
                        None
                    } else {
                        Some((direction, reached))
                    },
                    ..self
                }
            },
            None => self,
        }
    }

    /// The driver's invariant: ticks are not zero-length, the radius is an
    /// `i32`, and what is left of a running ramp keeps it one.
    pub open spec fn wf(self) -> bool {
        &&& self.growth.tick_ms > 0
        &&& self.shrink.tick_ms > 0
        &&& i32::MIN <= self.value <= i32::MAX
        &&& match self.run {
            Some((direction, so_far)) => {
                let window = self.window(direction);
                &&& so_far <= window.duration_ms
                &&& i32::MIN <= self.value + self.delta(direction) * (window.ticks()
                    - window.ticks_by(so_far)) <= i32::MAX
            },
            None => true,
        }
    }
}

/// A product of an `i32` step and a `u64` count stays well inside an `i128`.
pub proof fn lemma_product_bound(step: int, count: int)
    by (nonlinear_arith)
    requires
        -0x8000_0000 <= step <= 0x8000_0000,
        0 <= count <= 0xffff_ffff_ffff_ffff,
    ensures
        -0x8000_0000_0000_0000_0000_0000 <= step * count <= 0x8000_0000_0000_0000_0000_0000,
{
}

/// Part of a ramp stays between its start and its end, and the rest of the
/// ramp completes it.
pub proof fn lemma_partial_span(delta: int, part: int, whole: int)
    by (nonlinear_arith)
    requires
        0 <= part <= whole,
    ensures
        delta >= 0 ==> 0 <= delta * part <= delta * whole,
        delta <= 0 ==> delta * whole <= delta * part <= 0,
        delta * part + delta * (whole - part) == delta * whole,
        delta != 0 && -0x1_0000_0000 <= delta * whole <= 0x1_0000_0000 ==> part <= 0x1_0000_0000,
{
}

/// Later moments of a window have seen at least as many ticks.
pub proof fn lemma_ticks_monotonic(tick: int, earlier: int, later: int)
    by (nonlinear_arith)
    requires
        tick > 0,
        0 <= earlier <= later,
    ensures
        0 <= earlier / tick <= later / tick,
{
}

impl Animation {
    /// The invariant survives the passing of time, and a ramp that began at
    /// `from` stays on its line: the radius is `from` plus one step for every
    /// tick of the window so far.
    pub proof fn lemma_advanced(self, elapsed: nat, from: int)
        requires
            self.wf(),
            self.run matches Some((direction, so_far)) ==> self.value == from + self.delta(direction)
                * self.window(direction).ticks_by(so_far),
        ensures
            self.advanced(elapsed).wf(),
            self.run is None ==> self.advanced(elapsed) == self,
            self.run matches Some((direction, so_far)) ==> {
                let after = self.advanced(elapsed);
                if self.completes_within(elapsed) {
                    after.run is None && after.value == from + self.span(direction)
                } else {
                    after.run == Some((direction, so_far + elapsed)) && after.value == from
                        + self.delta(direction) * self.window(direction).ticks_by(so_far + elapsed)
                }
            },
    {
        if let Some((direction, so_far)) = self.run {
            let window = self.window(direction);
            let delta = self.delta(direction);
            let reached = if self.completes_within(elapsed) {
                window.duration_ms as nat
            } else {
                so_far + elapsed
            };
            let before = window.ticks_by(so_far) as int;
            let after = window.ticks_by(reached) as int;
            let total = window.ticks() as int;
            lemma_ticks_monotonic(window.tick_ms as int, so_far as int, reached as int);
            lemma_ticks_monotonic(window.tick_ms as int, reached as int, window.duration_ms as int);
            lemma_partial_span(delta, after - before, total - before);
            lemma_partial_span(delta, before, after);
        }
    }

    /// Time adds up: letting `first` and then `second` milliseconds pass is
    /// the same as letting their sum pass at once.
    pub proof fn lemma_advanced_twice(self, first: nat, second: nat)
        ensures
            self.advanced(first).advanced(second) == self.advanced(first + second),
    {
        if let Some((direction, so_far)) = self.run {
            if !self.completes_within(first) {
                let window = self.window(direction);
                let delta = self.delta(direction);
                let reached = if self.completes_within(first + second) {
                    window.duration_ms as nat
                } else {
                    so_far + first + second
                };
                let t0 = window.ticks_by(so_far) as int;
                let t1 = window.ticks_by(so_far + first) as int;
                let t2 = window.ticks_by(reached) as int;
                assert(delta * (t1 - t0) + delta * (t2 - t1) == delta * (t2 - t0))
                    by (nonlinear_arith);
            }
        }
    }
}

#[derive(Clone, Copy)]
struct Run {
    direction: Direction,
    elapsed_ms: u64,
}

/// A tick-driven animator of the radius. At most one ramp runs at a time.
/// The driver never clamps the radius: a ramp that would leave the range of
/// an `i32` is not started.
pub struct RadiusDriver {
    value: i32,
    growth: Window,
    shrink: Window,
    run: Option<Run>,
}

impl View for RadiusDriver {
    type V = Animation;

    closed spec fn view(&self) -> Animation {
        Animation {
            value: self.value as int,
            growth: self.growth,
            shrink: self.shrink,
            run: match self.run {
                Some(run) => Some((run.direction, run.elapsed_ms as nat)),
                None => None,
            },
        }
    }
}

impl RadiusDriver {
    /// The driver's invariant, see [`Animation::wf`].
    pub open spec fn wf(&self) -> bool {
        self@.wf()
    }

    /// A driver at rest at `initial`. There is none for a window whose tick
    /// interval is zero.
    pub fn new(initial: i32, growth: Window, shrink: Window) -> (made: Option<RadiusDriver>)
        ensures
            made is Some <==> growth.tick_ms > 0 && shrink.tick_ms > 0,
            made matches Some(driver) ==> driver.wf() && driver@ == (Animation {
                value: initial as int,
                growth,
                shrink,
                run: None,
            }),
    {
        if growth.tick_ms == 0 || shrink.tick_ms == 0 {
            None
        } else {
            Some(RadiusDriver { value: initial, growth, shrink, run: None })
        }
    }

    /// The current radius.
    pub fn value(&self) -> (value: i32)
        ensures
            value == self@.value,
    {
        self.value
    }

    /// The direction of the running ramp, if one is running.
    pub fn running(&self) -> (direction: Option<Direction>)
        ensures
            direction == match self@.run {
                Some((d, _)) => Some(d),
                None => None,
            },
    {
        match self.run {
            Some(run) => Some(run.direction),
            None => None,
        }
    }

    /// Whether a whole window in the given direction would keep the radius
    /// within the range of an `i32`.
    pub fn can_start(&self, direction: Direction) -> (fits: bool)
        requires
            self.wf(),
        ensures
            fits == self@.fits(direction),
    {
        let (window, delta): (Window, i64) = match direction {
            Direction::Grow => (self.growth, self.growth.step as i64),
            Direction::Shrink => (self.shrink, -(self.shrink.step as i64)),
        };
        let ticks: u64 = window.duration_ms / window.tick_ms;
        proof {
            lemma_product_bound(delta as int, ticks as int);
        }
        let end: i128 = self.value as i128 + (delta as i128) * (ticks as i128);
        -0x8000_0000 <= end && end <= 0x7fff_ffff
    }

    /// Starts a ramp in the given direction from the current radius, in
    /// place of any that is running. A ramp whose whole window would take the
    /// radius out of the range of an `i32` is declined and nothing changes.
    /// Returns whether the ramp began.
    pub fn start(&mut self, direction: Direction) -> (began: bool)
        requires
            old(self).wf(),
        ensures
            final(self).wf(),
            final(self)@ == old(self)@.started(direction),
            began == old(self)@.fits(direction),
    {
        if self.can_start(direction) {
            self.run = Some(Run { direction, elapsed_ms: 0 });
            true
        } else {
            false
        }
    }

    /// Stops the running ramp at once. The radius stays where it is.
    pub fn cancel(&mut self)
        requires
            old(self).wf(),
        ensures
            final(self).wf(),
            final(self)@ == old(self)@.cancelled(),
    {
        self.run = None;
    }

    /// Stops the running ramp and sets the radius to `value`.
    pub fn reset(&mut self, value: i32)
        requires
            old(self).wf(),
        ensures
            final(self).wf(),
            final(self)@ == old(self)@.reset(value as int),
    {
        self.run = None;
        self.value = value;
    }

    /// Lets `elapsed_ms` milliseconds pass. Every tick that falls due is
    /// applied to the radius. Returns whether the running ramp reached the end
    /// of its window, at which point it has stopped.
    pub fn advance(&mut self, elapsed_ms: u64) -> (completed: bool)
        requires
            old(self).wf(),
        ensures
            final(self).wf(),
            final(self)@ == old(self)@.advanced(elapsed_ms as nat),
            completed == old(self)@.completes_within(elapsed_ms as nat),
    {
        match self.run {
            None => false,
            Some(run) => {
                let (window, delta): (Window, i64) = match run.direction {
                    Direction::Grow => (self.growth, self.growth.step as i64),
                    Direction::Shrink => (self.shrink, -(self.shrink.step as i64)),
                };
                let left: u64 = window.duration_ms - run.elapsed_ms;
                let completed = elapsed_ms >= left;
                let reached: u64 = if completed {
                    window.duration_ms
                } else {
                    run.elapsed_ms + elapsed_ms
                };
                let before: u64 = run.elapsed_ms / window.tick_ms;
                let after: u64 = reached / window.tick_ms;
                let total: u64 = window.duration_ms / window.tick_ms;
                proof {
                    lemma_ticks_monotonic(
                        window.tick_ms as int,
                        run.elapsed_ms as int,
                        reached as int,
                    );
                    lemma_ticks_monotonic(
                        window.tick_ms as int,
                        reached as int,
                        window.duration_ms as int,
                    );
                    lemma_partial_span(delta as int, after - before, total - before);
                }
                let ticks: u64 = after - before;
                if delta != 0 && ticks != 0 {
                    self.value = (self.value as i64 + delta * (ticks as i64)) as i32;
                }
                self.run = if completed {
                    None
                } else {
                    Some(Run { direction: run.direction, elapsed_ms: reached })
                };
                completed
            },
        }
    }
}

} // verus!
