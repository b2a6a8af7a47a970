//! The round state machine: it owns the phase, the registry, the radius and
//! one timer per role, and is the only entry point for pointer input and for
//! the passing of time.
use crate::color::{is_hex_color, random_hex_color};
use crate::config::{Config, ConfigError};
use crate::contact::{contacts_of, Contact, TouchPoint};
use crate::model::{run_down, Round};
use crate::radius::{Direction, RadiusDriver};
use crate::registry::ContactRegistry;
use crate::selection::pick;
use crate::state::State;
use vstd::prelude::*;

verus! {

/// A timer slot as the model sees it.
pub open spec fn timer_view(slot: Option<u64>) -> Option<nat> {
    match slot {
        Some(left) => Some(left as nat),
        None => None,
    }
}

/// What is left of a timer after `dt` milliseconds in which it did not fire.
fn run_down_by(slot: Option<u64>, dt: u64) -> (left: Option<u64>)
    ensures
        timer_view(left) == run_down(timer_view(slot), dt as nat),
{
    match slot {
        Some(left) => Some(
            if left >= dt {
                left - dt
            } else {
                0
            },
        ),
        None => None,
    }
}

/// The orchestrator of a round.
///
/// Time is handed in as elapsed milliseconds through [`RoundMachine::advance`];
/// pointer input arrives through the three `on_contact_*` methods and takes
/// effect at once. Between two calls nothing changes.
pub struct RoundMachine {
    config: Config,
    phase: State,
    registry: ContactRegistry,
    captured: Ghost<Seq<Contact>>,
    driver: RadiusDriver,
    debounce: Option<u64>,
    countdown: Option<u64>,
    phase_timer: Option<u64>,
}

impl View for RoundMachine {
    type V = Round;

    closed spec fn view(&self) -> Round {
        Round {
            config: self.config,
            phase: self.phase,
            contacts: self.registry@,
            captured: self.captured@,
            driver: self.driver@,
            debounce: timer_view(self.debounce),
            countdown: timer_view(self.countdown),
            phase_timer: timer_view(self.phase_timer),
        }
    }
}

impl RoundMachine {
    /// The machine's invariant, see [`Round::inv`].
    pub open spec fn wf(&self) -> bool {
        self@.inv()
    }

    /// An idle machine for the given configuration, or the first defect of
    /// the configuration.
    pub fn new(config: Config) -> (made: Result<RoundMachine, ConfigError>)
        ensures
            match made {
                Ok(machine) => config.valid() && machine.wf() && machine@ == Round::initial(config),
                Err(defect) => config.defect() == Some(defect),
            },
    {
        match RadiusDriver::new(config.initial_radius, config.growth, config.shrink) {
            None => Err(ConfigError::ZeroTick),
            Some(driver) => match config.check() {
                Err(defect) => Err(defect),
                Ok(()) => {
                    let machine = RoundMachine {
                        config,
                        phase: State::Idle,
                        registry: ContactRegistry::new(),
                        captured: Ghost(Seq::empty()),
                        driver,
                        debounce: None,
                        countdown: None,
                        phase_timer: None,
                    };
                    proof {
                        Round::lemma_initial_inv(config);
                    }
                    Ok(machine)
                },
            },
        }
    }

    /// The parameters the machine runs with.
    pub fn config(&self) -> (config: Config)
        ensures
            config == self@.config,
    {
        self.config
    }

    /// The current phase.
    pub fn phase(&self) -> (phase: State)
        ensures
            phase == self@.phase,
    {
        self.phase
    }

    /// The current contacts, in the order in which they touched down.
    pub fn contacts(&self) -> (contacts: &Vec<TouchPoint>)
        ensures
            contacts_of(contacts@) == self@.contacts,
    {
        self.registry.snapshot()
    }

    /// The current radius.
    pub fn radius(&self) -> (radius: i32)
        ensures
            radius == self@.radius(),
    {
        self.driver.value()
    }

    /// The time until the next timer fires, if one is live.
    pub fn due(&self) -> (due: Option<u64>)
        ensures
            timer_view(due) == self@.due(),
    {
        match self.phase {
            State::Idle => None,
            State::Preparing => self.debounce,
            State::Selecting => self.countdown,
            State::Revealing | State::Resetting => self.phase_timer,
        }
    }

    /// Re-evaluates the round after the registry has changed outside the
    /// frozen phases: debounce and countdown are cleared, then the debounce
    /// timer is installed afresh unless no contact is left.
    fn settle(&mut self, Ghost(before): Ghost<Round>)
        requires
            before.inv(),
            !before.phase.frozen(),
            old(self)@ == (Round { contacts: old(self)@.contacts, ..before }),
            old(self).registry.wf(),
        ensures
            final(self)@ == before.settled(old(self)@.contacts),
            final(self).wf(),
    {
        self.debounce = None;
        self.countdown = None;
        if self.registry.is_empty() {
            self.phase = State::Idle;
        } else {
            self.phase = State::Preparing;
            self.debounce = Some(self.config.debounce_ms);
        }
    }

    /// A contact touches down with its display color. It joins the registry
    /// unless its id is already present. While the winner is shown or the
    /// round resets the input is ignored.
    pub fn on_contact_down(&mut self, id: i32, x: i32, y: i32, color: String)
        requires
            old(self).wf(),
        ensures
            final(self).wf(),
            final(self)@ == old(self)@.contact_down(
                Contact { id: id as int, x: x as int, y: y as int, tag: color@ },
            ),
    {
        if self.phase.is_frozen() {
            return ;
        }
        let point = TouchPoint { id, x, y, color };
        proof {
            self@.lemma_contact_down_inv(point@);
        }
        let appended = self.registry.add(point);
        if appended {
            self.settle(Ghost(old(self)@));
        }
    }

    /// A contact touches down without a display color of its own and is
    /// given a random one in the form `#rrggbb`. Apart from that this is
    /// [`RoundMachine::on_contact_down`]. No color is drawn for input that is
    /// ignored.
    pub fn on_contact_down_random_color(&mut self, id: i32, x: i32, y: i32)
        requires
            old(self).wf(),
        ensures
            final(self).wf(),
            exists|tag: Seq<char>|
                #![trigger is_hex_color(tag)]
                is_hex_color(tag) && final(self)@ == old(self)@.contact_down(
                    Contact { id: id as int, x: x as int, y: y as int, tag },
                ),
    {
        if self.phase.is_frozen() {
            proof {
                reveal_strlit("#000000");
                assert(is_hex_color("#000000"@));
            }
            return ;
        }
        let color = random_hex_color();
        self.on_contact_down(id, x, y, color);
    }

    /// The contact `id` moves to `(x, y)`. An unknown id changes nothing.
    /// While the winner is shown or the round resets the input is ignored.
    pub fn on_contact_move(&mut self, id: i32, x: i32, y: i32)
        requires
            old(self).wf(),
        ensures
            final(self).wf(),
            final(self)@ == old(self)@.contact_move(id as int, x as int, y as int),
    {
        if self.phase.is_frozen() {
            return ;
        }
        proof {
            self@.lemma_contact_move_inv(id as int, x as int, y as int);
        }
        let changed = self.registry.move_to(id, x, y);
        if changed && self.phase == State::Selecting {
            self.settle(Ghost(old(self)@));
        }
    }

    /// The contact `id` lifts. An unknown id changes nothing. While the
    /// winner is shown or the round resets the input is ignored.
    pub fn on_contact_up(&mut self, id: i32)
        requires
            old(self).wf(),
        ensures
            final(self).wf(),
            final(self)@ == old(self)@.contact_up(id as int),
    {
        if self.phase.is_frozen() {
            return ;
        }
        proof {
            self@.lemma_contact_up_inv(id as int);
        }
        let released = self.registry.remove(id);
        if released {
            self.settle(Ghost(old(self)@));
        }
    }

    /// Lets `dt` milliseconds pass in which no timer fires: every live timer
    /// comes nearer by `dt`, and the radius takes the ticks that fell due.
    fn wait(&mut self, dt: u64)
        requires
            old(self).wf(),
            old(self)@.due() matches Some(left) && dt <= left,
        ensures
            final(self).wf(),
            final(self)@ == old(self)@.waited(dt as nat),
    {
        proof {
            self@.lemma_waited_inv(dt as nat);
        }
        self.debounce = run_down_by(self.debounce, dt);
        self.countdown = run_down_by(self.countdown, dt);
        self.phase_timer = run_down_by(self.phase_timer, dt);
        self.driver.advance(dt);
    }

    /// Fires the timer of the current phase, which is due.
    fn fire(&mut self)
        requires
            old(self).wf(),
            old(self)@.due() == Some(0nat),
        ensures
            final(self).wf(),
            final(self)@ == old(self)@.fired(),
    {
        proof {
            self@.lemma_fired_inv();
        }
        match self.phase {
            State::Idle => {},
            State::Preparing => {
                self.debounce = None;
                if self.registry.len() >= self.config.min_contacts {
                    self.captured = Ghost(self.registry@);
                    self.countdown = Some(self.config.countdown_ms);
                    self.phase = State::Selecting;
                }
            },
            State::Selecting => {
                let snapshot = self.registry.snapshot();
                let winner = snapshot[pick(snapshot)].clone();
                let mut alone: Vec<TouchPoint> = Vec::new();
                alone.push(winner);
                assert(contacts_of(alone@) =~= seq![self@.winner()]);
                self.registry.replace_all(alone);
                self.countdown = None;
                self.driver.start(Direction::Grow);
                self.phase_timer = Some(self.config.growth.duration_ms);
                self.phase = State::Revealing;
            },
            State::Revealing => {
                self.driver.cancel();
                self.driver.start(Direction::Shrink);
                self.phase_timer = Some(self.config.shrink.duration_ms);
                self.phase = State::Resetting;
            },
            State::Resetting => {
                let none: Vec<TouchPoint> = Vec::new();
                assert(contacts_of(none@) =~= Seq::<Contact>::empty());
                self.registry.replace_all(none);
                self.driver.reset(self.config.initial_radius);
                self.phase_timer = None;
                self.phase = State::Idle;
            },
        }
    }

    /// Lets `elapsed_ms` milliseconds pass without input. Every timer that
    /// falls due in that time fires at its moment, in order: a debounce that
    /// finds enough contacts starts the countdown, the countdown ends in the
    /// draw, and the two animation phases follow until the round is idle
    /// again.
    pub fn advance(&mut self, elapsed_ms: u64)
        requires
            old(self).wf(),
        ensures
            final(self).wf(),
            final(self)@ == old(self)@.advanced(elapsed_ms as nat),
    {
        let mut rest: u64 = elapsed_ms;
        loop
            invariant
                self.wf(),
                self@.advanced(rest as nat) == old(self)@.advanced(elapsed_ms as nat),
            decreases self@.timers_ahead(),
        {
            match self.due() {
                None => {
                    return ;
                },
                Some(left) => {
                    if rest < left {
                        self.wait(rest);
                        return ;
                    }
                    proof {
                        self@.lemma_waited_inv(left as nat);
                        self@.waited(left as nat).lemma_fired_inv();
                    }
                    self.wait(left);
                    self.fire();
                    rest = rest - left;
                },
            }
        }
    }

    /// The countdown as it is shown: the number of display ticks, begun ones
    /// included, until the draw. There is none outside a countdown.
    pub fn countdown_ticks(&self) -> (ticks: Option<u64>)
        requires
            self.wf(),
        ensures
            timer_view(ticks) == self@.countdown_ticks(),
    {
        match self.countdown {
            Some(left) => {
                let tick: u64 = self.config.countdown_tick_ms;
                let whole: u64 = left / tick;
                if left % tick == 0 {
                    Some(whole)
                } else {
                    proof {
                        lemma_begun_tick(left as int, tick as int);
                    }
                    Some(whole + 1)
                }
            },
            None => None,
        }
    }
}

/// A tick that has begun counts as one more, and the count still fits.
proof fn lemma_begun_tick(left: int, tick: int)
    by (nonlinear_arith)
    requires
        0 <= left <= u64::MAX,
        tick > 0,
        left % tick != 0,
    ensures
        left / tick + 1 <= u64::MAX,
{
}

} // verus!
