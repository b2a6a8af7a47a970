//! The round as a mathematical state machine: its state, what each input does
//! to it, and what the passing of time does to it.
use crate::config::Config;
use crate::contact::Contact;
use crate::radius::{Animation, Direction};
use crate::registry::{
    added, distinct_ids, lemma_added_distinct, lemma_moved_distinct, lemma_removed_distinct, moved,
    removed,
};
use crate::selection::pick_index;
use crate::state::State;
use vstd::prelude::*;

verus! {

/// What is left of a timer after `dt` milliseconds in which it did not fire.
pub open spec fn run_down(timer: Option<nat>, dt: nat) -> Option<nat> {
    match timer {
        Some(left) => Some(
            if left >= dt {
                (left - dt) as nat
            } else {
                0
            },
        ),
        None => None,
    }
}

/// The state of a round. There is one timer slot per role, so at most one
/// timer of a role is live, and installing one replaces what was there.
pub ghost struct Round {
    /// The parameters the round runs with.
    pub config: Config,
    /// The current phase.
    pub phase: State,
    /// The registry: the live contacts in order.
    pub contacts: Seq<Contact>,
    /// The snapshot taken when `Selecting` was entered.
    pub captured: Seq<Contact>,
    /// The radius and its animation.
    pub driver: Animation,
    /// The time left on the debounce timer.
    pub debounce: Option<nat>,
    /// The time left on the countdown timer.
    pub countdown: Option<nat>,
    /// The time left on the timer that ends `Revealing` or `Resetting`.
    pub phase_timer: Option<nat>,
}

impl Round {
    /// A round before the first contact.
    pub open spec fn initial(config: Config) -> Round {
        Round {
            config,
            phase: State::Idle,
            contacts: Seq::empty(),
            captured: Seq::empty(),
            driver: config.animation(),
            debounce: None,
            countdown: None,
            phase_timer: None,
        }
    }

    /// The current radius.
    pub open spec fn radius(self) -> int {
        self.driver.value
    }

    /// The round once the registry has become `next` outside the frozen
    /// phases: debounce and countdown are cancelled; with no contact left the
    /// round is idle, otherwise it prepares with the debounce timer armed
    /// afresh.
    pub open spec fn settled(self, next: Seq<Contact>) -> Round {
        if next.len() == 0 {
            Round { phase: State::Idle, contacts: next, debounce: None, countdown: None, ..self }
        } else {
            Round {
                phase: State::Preparing,
                contacts: next,
                debounce: Some(self.config.debounce_ms as nat),
                countdown: None,
                ..self
            }
        }
    }

    /// The round after an input that adds or removes contacts has turned the
    /// registry into `next`. A frozen round ignores the input. A countdown
    /// is aborted exactly when `next` differs from the captured snapshot.
    pub open spec fn resized(self, next: Seq<Contact>) -> Round {
        match self.phase {
            State::Revealing | State::Resetting => self,
            State::Selecting => if next != self.captured {
                self.settled(next)
            } else {
                Round { contacts: next, ..self }
            },
            State::Idle | State::Preparing => if next != self.contacts {
                self.settled(next)
            } else {
                self
            },
        }
    }

    /// The round after a contact has touched down.
    pub open spec fn contact_down(self, c: Contact) -> Round {
        self.resized(added(self.contacts, c))
    }

    /// The round after the contact `id` has lifted.
    pub open spec fn contact_up(self, id: int) -> Round {
        self.resized(removed(self.contacts, id))
    }

    /// The round after the contact `id` has moved to `(x, y)`. While
    /// preparing, a move leaves the timers alone.
    pub open spec fn contact_move(self, id: int, x: int, y: int) -> Round {
        let next = moved(self.contacts, id, x, y);
        match self.phase {
            State::Revealing | State::Resetting => self,
            State::Selecting => if next != self.captured {
                self.settled(next)
            } else {
                Round { contacts: next, ..self }
            },
            State::Idle | State::Preparing => Round { contacts: next, ..self },
        }
    }

    /// The time until the next timer fires. Each phase listens to the timer
    /// of its own role.
    pub open spec fn due(self) -> Option<nat> {
        match self.phase {
            State::Idle => None,
            State::Preparing => self.debounce,
            State::Selecting => self.countdown,
            State::Revealing | State::Resetting => self.phase_timer,
        }
    }

    /// The round after `dt` milliseconds in which no timer fired.
    pub open spec fn waited(self, dt: nat) -> Round {
        Round {
            debounce: run_down(self.debounce, dt),
            countdown: run_down(self.countdown, dt),
            phase_timer: run_down(self.phase_timer, dt),
            driver: self.driver.advanced(dt),
            ..self
        }
    }

    /// The contact that the draw picks from the registry.
    pub open spec fn winner(self) -> Contact {
        self.contacts[pick_index(self.contacts)]
    }

    /// The round after the timer of its phase has fired.
    pub open spec fn fired(self) -> Round {
        match self.phase {
            State::Idle => self,
            State::Preparing => if self.contacts.len() >= self.config.min_contacts {
                Round {
                    phase: State::Selecting,
                    captured: self.contacts,
                    debounce: None,
                    countdown: Some(self.config.countdown_ms as nat),
                    ..self
                }
            } else {
                Round { debounce: None, ..self }
            },
            State::Selecting => if self.contacts.len() >= 1 {
                Round {
                    phase: State::Revealing,
                    contacts: seq![self.winner()],
                    countdown: None,
                    driver: self.driver.started(Direction::Grow),
                    phase_timer: Some(self.config.growth.duration_ms as nat),
                    ..self
                }
            } else {
                Round { countdown: None, ..self }
            },
            State::Revealing => Round {
                phase: State::Resetting,
                driver: self.driver.cancelled().started(Direction::Shrink),
                phase_timer: Some(self.config.shrink.duration_ms as nat),
                ..self
            },
            State::Resetting => Round {
                phase: State::Idle,
                contacts: Seq::empty(),
                driver: self.driver.reset(self.config.initial_radius as int),
                phase_timer: None,
                ..self
            },
        }
    }

    /// A bound on the number of timers that can still fire without input.
    pub open spec fn timers_ahead(self) -> nat {
        2 * self.phase.rank() + if self.due() is Some {
            1nat
        } else {
            0nat
        }
    }

    /// The round after `elapsed` milliseconds without input: as long as a
    /// timer falls due within what is left of that time, the time up to it
    /// passes and it fires.
    pub open spec fn advanced(self, elapsed: nat) -> Round
        decreases self.timers_ahead(),
    {
        match self.due() {
            Some(left) => if elapsed < left {
                self.waited(elapsed)
            } else {
                self.waited(left).fired().advanced((elapsed - left) as nat)
            },
            None => self,
        }
    }

    /// The countdown as it is shown: the number of display ticks, begun ones
    /// included, until the draw.
    pub open spec fn countdown_ticks(self) -> Option<nat> {
        match self.countdown {
            Some(left) => {
                let tick = self.config.countdown_tick_ms as nat;
                Some(
                    if left % tick == 0 {
                        left / tick
                    } else {
                        left / tick + 1
                    },
                )
            },
            None => None,
        }
    }

    /// What holds of the radius while the ramp of a phase, which began at
    /// `from`, has `left` milliseconds to go: the radius is `from` plus one
    /// step for every tick so far.
    pub open spec fn ramping(self, direction: Direction, from: int, left: nat) -> bool {
        let window = self.driver.window(direction);
        match self.driver.run {
            Some((d, so_far)) => {
                &&& d == direction
                &&& so_far + left == window.duration_ms
                &&& self.driver.value == from + self.driver.delta(direction) * window.ticks_by(so_far)
            },
            None => {
                &&& left == 0
                &&& self.driver.value == from + self.driver.span(direction)
            },
        }
    }

    /// The invariant of a round.
    pub open spec fn inv(self) -> bool {
        &&& self.config.valid()
        &&& self.driver.growth == self.config.growth
        &&& self.driver.shrink == self.config.shrink
        &&& self.driver.wf()
        &&& distinct_ids(self.contacts)
        &&& match self.phase {
            State::Idle => {
                &&& self.contacts.len() == 0
                &&& self.debounce is None
                &&& self.countdown is None
                &&& self.phase_timer is None
                &&& self.driver == self.config.animation()
            },
            State::Preparing => {
                &&& self.contacts.len() > 0
                &&& match self.debounce {
                    Some(left) => left <= self.config.debounce_ms,
                    None => self.contacts.len() < self.config.min_contacts,
                }
                &&& self.countdown is None
                &&& self.phase_timer is None
                &&& self.driver == self.config.animation()
            },
            State::Selecting => {
                &&& self.contacts == self.captured
                &&& self.contacts.len() >= self.config.min_contacts
                &&& self.debounce is None
                &&& self.countdown matches Some(left) && left <= self.config.countdown_ms
                &&& self.phase_timer is None
                &&& self.driver == self.config.animation()
            },
            State::Revealing => {
                &&& self.contacts.len() == 1
                &&& self.debounce is None
                &&& self.countdown is None
                &&& self.phase_timer matches Some(left) && self.ramping(
                    Direction::Grow,
                    self.config.initial_radius as int,
                    left,
                )
            },
            State::Resetting => {
                &&& self.contacts.len() == 1
                &&& self.debounce is None
                &&& self.countdown is None
                &&& self.phase_timer matches Some(left) && self.ramping(
                    Direction::Shrink,
                    self.config.peak(),
                    left,
                )
            },
        }
    }
}

impl Round {
    /// A round begins within its invariant.
    pub proof fn lemma_initial_inv(config: Config)
        requires
            config.valid(),
        ensures
            Round::initial(config).inv(),
    {
    }

    /// A contact that touches down keeps the invariant.
    pub proof fn lemma_contact_down_inv(self, c: Contact)
        requires
            self.inv(),
        ensures
            self.contact_down(c).inv(),
    {
        lemma_added_distinct(self.contacts, c);
    }

    /// A contact that moves keeps the invariant.
    pub proof fn lemma_contact_move_inv(self, id: int, x: int, y: int)
        requires
            self.inv(),
        ensures
            self.contact_move(id, x, y).inv(),
    {
        lemma_moved_distinct(self.contacts, id, x, y);
    }

    /// A contact that lifts keeps the invariant.
    pub proof fn lemma_contact_up_inv(self, id: int)
        requires
            self.inv(),
        ensures
            self.contact_up(id).inv(),
    {
        lemma_removed_distinct(self.contacts, id);
    }

    /// Waiting for no longer than the next timer is due keeps the invariant
    /// and brings that timer nearer by as much.
    pub proof fn lemma_waited_inv(self, dt: nat)
        requires
            self.inv(),
            self.due() matches Some(left) && dt <= left,
        ensures
            self.waited(dt).inv(),
            self.waited(dt).phase == self.phase,
            self.waited(dt).contacts == self.contacts,
            self.waited(dt).due() == Some((self.due()->0 - dt) as nat),
    {
        let from = if self.phase == State::Resetting {
            self.config.peak()
        } else {
            self.config.initial_radius as int
        };
        self.driver.lemma_advanced(dt, from);
    }

    /// A timer that fires when it is due keeps the invariant.
    pub proof fn lemma_fired_inv(self)
        requires
            self.inv(),
            self.due() == Some(0nat),
        ensures
            self.fired().inv(),
            self.fired().timers_ahead() < self.timers_ahead(),
    {
    }

    /// The passing of time leaves the configuration as it is.
    pub proof fn lemma_advanced_keeps_config(self, elapsed: nat)
        ensures
            self.advanced(elapsed).config == self.config,
        decreases self.timers_ahead(),
    {
        if let Some(left) = self.due() {
            if elapsed >= left {
                self.waited(left).fired().lemma_advanced_keeps_config((elapsed - left) as nat);
            }
        }
    }

    /// The passing of time keeps the invariant.
    pub proof fn lemma_advanced_inv(self, elapsed: nat)
        requires
            self.inv(),
        ensures
            self.advanced(elapsed).inv(),
        decreases self.timers_ahead(),
    {
        if let Some(left) = self.due() {
            if elapsed < left {
                self.lemma_waited_inv(elapsed);
            } else {
                self.lemma_waited_inv(left);
                self.waited(left).lemma_fired_inv();
                self.waited(left).fired().lemma_advanced_inv((elapsed - left) as nat);
            }
        }
    }

    /// Waiting adds up.
    pub proof fn lemma_waited_twice(self, first: nat, second: nat)
        ensures
            self.waited(first).waited(second) == self.waited(first + second),
    {
        self.driver.lemma_advanced_twice(first, second);
    }

    /// Time adds up: letting `first` and then `second` milliseconds pass is
    /// the same as letting their sum pass at once.
    pub proof fn lemma_advanced_twice(self, first: nat, second: nat)
        requires
            self.inv(),
        ensures
            self.advanced(first).advanced(second) == self.advanced(first + second),
        decreases self.timers_ahead(),
    {
        if let Some(left) = self.due() {
            if first >= left {
                self.lemma_waited_inv(left);
                self.waited(left).lemma_fired_inv();
                self.waited(left).fired().lemma_advanced_twice((first - left) as nat, second);
            } else {
                self.lemma_waited_inv(first);
                if second < left - first {
                    self.lemma_waited_twice(first, second);
                } else {
                    self.lemma_waited_twice(first, (left - first) as nat);
                }
            }
        }
    }
}

} // verus!
