//! The computing side of persistence: the record a clock is stored as, and the model that
//! loaded parts are assembled into. Reading and writing the database is the host's.
use vstd::prelude::*;
use crate::entity::{Entity, EntityModel};
use crate::model::Model;
use crate::rng::{seeded_state, GameRng};
use crate::time::{Clock, Speed, Timestamp};
use crate::value::ValueMap;

verus! {

/// The code a speed is stored as: 0 for paused up to 5 for the fastest.
pub open spec fn speed_code_of(s: Speed) -> u8 {
    match s {
        Speed::Paused => 0,
        Speed::VerySlow => 1,
        Speed::Slow => 2,
        Speed::Normal => 3,
        Speed::Fast => 4,
        Speed::VeryFast => 5,
    }
}

/// The speed a stored code stands for; codes above 4 stand for the fastest speed.
pub open spec fn speed_of_code(c: u8) -> Speed {
    if c == 0 {
        Speed::Paused
    } else if c == 1 {
        Speed::VerySlow
    } else if c == 2 {
        Speed::Slow
    } else if c == 3 {
        Speed::Normal
    } else if c == 4 {
        Speed::Fast
    } else {
        Speed::VeryFast
    }
}

/// The stored code of a speed.
pub fn speed_code(s: Speed) -> (r: u8)
    ensures
        r == speed_code_of(s),
{
    match s {
        Speed::Paused => 0,
        Speed::VerySlow => 1,
        Speed::Slow => 2,
        Speed::Normal => 3,
        Speed::Fast => 4,
        Speed::VeryFast => 5,
    }
}

/// The speed of a stored code.
pub fn speed_from_code(c: u8) -> (r: Speed)
    ensures
        r == speed_of_code(c),
{
    if c == 0 {
        Speed::Paused
    } else if c == 1 {
        Speed::VerySlow
    } else if c == 2 {
        Speed::Slow
    } else if c == 3 {
        Speed::Normal
    } else if c == 4 {
        Speed::Fast
    } else {
        Speed::VeryFast
    }
}

/// A clock as it is stored: its tick, the code of its speed, its ticks per day and the
/// parts of its start date.
#[derive(Debug, Clone, Copy, PartialEq, Eq, Structural)]
pub struct ClockRecord {
    pub tick: u64,
    pub speed: u8,
    pub ticks_per_day: u32,
    pub start_year: i32,
    pub start_month: u8,
    pub start_day: u8,
}

/// The record of a clock.
pub open spec fn record_of(c: Clock) -> ClockRecord {
    ClockRecord {
        tick: c.tick,
        speed: speed_code_of(c.speed),
        ticks_per_day: c.ticks_per_day,
        start_year: c.start_date.year,
        start_month: c.start_date.month,
        start_day: c.start_date.day,
    }
}

/// The clock of a record.
pub open spec fn clock_of(r: ClockRecord) -> Clock {
    Clock {
        tick: r.tick,
        speed: speed_of_code(r.speed),
        start_date: Timestamp { year: r.start_year, month: r.start_month, day: r.start_day },
        ticks_per_day: r.ticks_per_day,
    }
}

/// A stored clock gives back the clock it was made from.
pub proof fn clock_record_round_trip(c: Clock)
    ensures
        clock_of(record_of(c)) == c,
{
}

impl ClockRecord {
    /// The record of a clock.
    pub fn from_clock(clock: &Clock) -> (r: Self)
        ensures
            r == record_of(*clock),
    {
        ClockRecord {
            tick: clock.tick,
            speed: speed_code(clock.speed),
            ticks_per_day: clock.ticks_per_day,
            start_year: clock.start_date.year,
            start_month: clock.start_date.month,
            start_day: clock.start_date.day,
        }
    }

    /// The clock of this record.
    pub fn to_clock(&self) -> (r: Clock)
        ensures
            r == clock_of(*self),
    {
        Clock {
            tick: self.tick,
            speed: speed_from_code(self.speed),
            start_date: Timestamp::new(self.start_year, self.start_month, self.start_day),
            ticks_per_day: self.ticks_per_day,
        }
    }
}

/// A model assembled from loaded parts: a fresh model into which each loaded entity is
/// created again, in order, with new IDs counting from zero and its kind, properties and
/// flags; the loaded globals; the loaded clock and generator state when there are any.
pub fn assemble_model(
    entities: Vec<Entity>,
    globals: ValueMap,
    clock: Option<Clock>,
    rng_state: Option<u64>,
) -> (r: Model)
    ensures
        r.entities@.len() == entities@.len(),
        forall|i: int|
            0 <= i < entities@.len() ==> #[trigger] r.entities@[i] == (EntityModel {
                id: i as u64,
                ..entities@[i].model()
            }),
        r.entities.spec_next_id() == entities@.len(),
        r.globals@ == globals@,
        r.time == (match clock {
            Some(c) => c,
            None => Clock::new_spec(),
        }),
        r.rng@ == (match rng_state {
            Some(s) => seeded_state(s),
            None => 12345,
        }),
        r.actors@.len() == 0,
{
    let mut model = Model::new();
    let n = entities.len();
    let mut i: usize = 0;
    while i < n
        invariant
            n == entities@.len(),
            i <= n,
            model.entities@.len() == i,
            model.entities.spec_next_id() == i,
            forall|k: int|
                0 <= k < i ==> #[trigger] model.entities@[k] == (EntityModel {
                    id: k as u64,
                    ..entities@[k].model()
                }),
            model.time == Clock::new_spec(),
            model.rng@ == 12345,
            model.actors@.len() == 0,
        decreases n - i,
    {
        let e = &entities[i];
        let id = model.entities.create(e.kind.as_str());
        let properties = e.properties.duplicate();
        let flags = e.flags.duplicate();
        model.entities.set_contents_at(i, properties, flags);
        i = i + 1;
    }
    model.globals = globals;
    match clock {
        Some(c) => {
            model.time = c;
        },
        None => {},
    }
    match rng_state {
        Some(s) => {
            model.rng = GameRng::from_state(s);
        },
        None => {},
    }
    model
}

} // verus!
