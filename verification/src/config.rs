//! The named parameters of a round: its durations, its guard and its radius.
use crate::radius::{lemma_product_bound, Animation, Direction, Window};
use vstd::prelude::*;

verus! {

/// Why a configuration cannot drive a round.
#[derive(Clone, Copy, Debug, PartialEq, Eq, Structural)]
pub enum ConfigError {
    /// A tick interval is zero.
    ZeroTick,
    /// A draw among no contacts is asked for.
    NoContacts,
    /// Growing and then shrinking would take the radius out of the range of
    /// an `i32`.
    RadiusOutOfRange,
}

/// The parameters of a round. All times are in milliseconds.
#[derive(Clone, Copy, Debug, PartialEq, Eq, Structural)]
pub struct Config {
    /// How long the contacts must stay as they are before a countdown starts.
    pub debounce_ms: u64,
    /// How long the countdown runs before the draw.
    pub countdown_ms: u64,
    /// The length of one step of the countdown that is shown.
    pub countdown_tick_ms: u64,
    /// The ramp of the radius while the winner is revealed.
    pub growth: Window,
    /// The ramp of the radius while the round resets.
    pub shrink: Window,
    /// The least number of contacts for which a countdown starts.
    pub min_contacts: usize,
    /// The radius outside the animation.
    pub initial_radius: i32,
}

impl Config {
    /// The radius animation at rest, as a round begins with it.
    pub open spec fn animation(self) -> Animation {
        Animation {
            value: self.initial_radius as int,
            growth: self.growth,
            shrink: self.shrink,
            run: None,
        }
    }

    /// The radius when the growth window has run out.
    pub open spec fn peak(self) -> int {
        self.initial_radius + self.animation().span(Direction::Grow)
    }

    /// The radius when the shrink window has run out after it.
    pub open spec fn trough(self) -> int {
        self.peak() + self.animation().span(Direction::Shrink)
    }

    /// The first thing that is wrong with the configuration, if anything is.
    pub open spec fn defect(self) -> Option<ConfigError> {
        if self.growth.tick_ms == 0 || self.shrink.tick_ms == 0 || self.countdown_tick_ms == 0 {
            Some(ConfigError::ZeroTick)
        } else if self.min_contacts == 0 {
            Some(ConfigError::NoContacts)
        } else if !(i32::MIN <= self.peak() <= i32::MAX && i32::MIN <= self.trough() <= i32::MAX) {
            Some(ConfigError::RadiusOutOfRange)
        } else {
            None
        }
    }

    /// Whether a round can be driven by this configuration.
    pub open spec fn valid(self) -> bool {
        self.defect() is None
    }

    /// The standard timing around the given radius: one second of debounce,
    /// three seconds of countdown shown in steps of a second, two seconds of
    /// growth by 10 every 20 ms, two seconds of shrinking by 10 every 16 ms,
    /// and at least two contacts for a draw.
    pub fn standard(initial_radius: i32) -> (config: Config)
        ensures
            config == (Config {
                debounce_ms: 1000,
                countdown_ms: 3000,
                countdown_tick_ms: 1000,
                growth: Window { tick_ms: 20, step: 10, duration_ms: 2000 },
                shrink: Window { tick_ms: 16, step: 10, duration_ms: 2000 },
                min_contacts: 2,
                initial_radius,
            }),
            config.peak() == initial_radius + 1000,
            config.trough() == initial_radius - 250,
            config.valid() <==> i32::MIN + 250 <= initial_radius <= i32::MAX - 1000,
    {
        assert(10 * 100 == 1000 && (-10) * 125 == -1250) by (nonlinear_arith);
        Config {
            debounce_ms: 1000,
            countdown_ms: 3000,
            countdown_tick_ms: 1000,
            growth: Window { tick_ms: 20, step: 10, duration_ms: 2000 },
            shrink: Window { tick_ms: 16, step: 10, duration_ms: 2000 },
            min_contacts: 2,
            initial_radius,
        }
    }

    /// Checks the configuration and names the first defect.
    pub fn check(&self) -> (checked: Result<(), ConfigError>)
        ensures
            checked == match self.defect() {
                Some(defect) => Err::<(), ConfigError>(defect),
                None => Ok::<(), ConfigError>(()),
            },
    {
        if self.growth.tick_ms == 0 || self.shrink.tick_ms == 0 || self.countdown_tick_ms == 0 {
            return Err(ConfigError::ZeroTick);
        }
        if self.min_contacts == 0 {
            return Err(ConfigError::NoContacts);
        }
        let up: u64 = self.growth.duration_ms / self.growth.tick_ms;
        let down: u64 = self.shrink.duration_ms / self.shrink.tick_ms;
        proof {
            lemma_product_bound(self.growth.step as int, up as int);
            lemma_product_bound(-(self.shrink.step as int), down as int);
        }
        let peak: i128 = self.initial_radius as i128 + (self.growth.step as i128) * (up as i128);
        let trough: i128 = peak + (-(self.shrink.step as i128)) * (down as i128);
        if -0x8000_0000 <= peak && peak <= 0x7fff_ffff && -0x8000_0000 <= trough && trough
            <= 0x7fff_ffff {
            Ok(())
        } else {
            Err(ConfigError::RadiusOutOfRange)
        }
    }
}

} // verus!
