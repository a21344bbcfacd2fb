//! Relative ages.
//!
//! The age of a file is the time from its last change to one reading of the
//! clock, in whole seconds. A change that lies after the reading counts as
//! no age at all. The age is shown in the largest fitting unit, with the
//! count cut down to a whole number.

use vstd::prelude::*;
use crate::color::{plain, Color, Hue};
use crate::text::{
    decimal, lemma_right_aligned_len, push_decimal, push_right_aligned, right_aligned,
};

verus! {

/// The units of an age, shortest first.
#[derive(Clone, Copy, PartialEq, Eq, Debug, Structural)]
pub enum AgeUnit {
    Seconds,
    Minutes,
    Hours,
    Days,
    Weeks,
}

/// The width of the number in an age field.
pub const AGE_WIDTH: usize = 3;

/// Seconds in a minute, an hour and a day.
pub const MINUTE: u64 = 60;

pub const HOUR: u64 = 3600;

pub const DAY: u64 = 86400;

/// The seconds from `mtime` to `now`, or none where `mtime` is the later.
pub open spec fn elapsed(mtime: int, now: int) -> nat {
    if now > mtime {
        (now - mtime) as nat
    } else {
        0
    }
}

/// The unit an age of `seconds` is shown in: days up to and including the
/// seventh whole day, weeks from the eighth.
pub open spec fn age_unit(seconds: nat) -> AgeUnit {
    if seconds < MINUTE {
        AgeUnit::Seconds
    } else if seconds < HOUR {
        AgeUnit::Minutes
    } else if seconds < DAY {
        AgeUnit::Hours
    } else if seconds / (DAY as nat) <= 7 {
        AgeUnit::Days
    } else {
        AgeUnit::Weeks
    }
}

/// The whole number of `unit` in `seconds`.
pub open spec fn units_in(unit: AgeUnit, seconds: nat) -> nat {
    match unit {
        AgeUnit::Seconds => seconds,
        AgeUnit::Minutes => seconds / (MINUTE as nat),
        AgeUnit::Hours => seconds / (HOUR as nat),
        AgeUnit::Days => seconds / (DAY as nat),
        AgeUnit::Weeks => seconds / (DAY as nat) / 7,
    }
}

/// The number that an age of `seconds` is shown with.
pub open spec fn age_count(seconds: nat) -> nat {
    units_in(age_unit(seconds), seconds)
}

/// The letter that names a unit.
pub open spec fn age_letter(unit: AgeUnit) -> u8 {
    match unit {
        AgeUnit::Seconds => 115,
        AgeUnit::Minutes => 109,
        AgeUnit::Hours => 104,
        AgeUnit::Days => 100,
        AgeUnit::Weeks => 119,
    }
}

/// The colour a unit is shown in.
pub open spec fn age_unit_color(unit: AgeUnit) -> Color {
    match unit {
        AgeUnit::Seconds => plain(Hue::White),
        AgeUnit::Minutes => plain(Hue::Red),
        AgeUnit::Hours => plain(Hue::Yellow),
        AgeUnit::Days => plain(Hue::Green),
        AgeUnit::Weeks => plain(Hue::Black),
    }
}

/// The text of an age field: the count, right-aligned in three places, and
/// the unit's letter.
pub open spec fn age_text(mtime: int, now: int) -> Seq<u8> {
    let seconds = elapsed(mtime, now);
    right_aligned(decimal(age_count(seconds)), AGE_WIDTH as nat).push(
        age_letter(age_unit(seconds)),
    )
}

/// The colour of an age field.
pub open spec fn age_color(mtime: int, now: int) -> Color {
    age_unit_color(age_unit(elapsed(mtime, now)))
}

/// A change that lies after the reading of the clock is shown as one that
/// happened at the reading.
pub proof fn lemma_later_change_has_no_age(mtime: int, now: int)
    requires
        now <= mtime,
    ensures
        age_text(mtime, now) == age_text(now, now),
        age_color(mtime, now) == age_color(now, now),
        age_unit(elapsed(mtime, now)) == AgeUnit::Seconds,
{
}

/// Where the units change: a minute after sixty seconds, an hour after
/// sixty minutes, a day after twenty-four hours, a week with the eighth day.
pub proof fn lemma_age_boundaries()
    ensures
        age_unit(59) == AgeUnit::Seconds,
        age_unit(60) == AgeUnit::Minutes && age_count(60) == 1,
        age_unit(3599) == AgeUnit::Minutes && age_count(3599) == 59,
        age_unit(3600) == AgeUnit::Hours && age_count(3600) == 1,
        age_unit(86399) == AgeUnit::Hours && age_count(86399) == 23,
        age_unit(86400) == AgeUnit::Days && age_count(86400) == 1,
        age_unit(691199) == AgeUnit::Days && age_count(691199) == 7,
        age_unit(691200) == AgeUnit::Weeks && age_count(691200) == 1,
{
}

/// Every age has a field: a text of at least four characters, the last of
/// which is the letter of the unit that the colour belongs to.
pub proof fn lemma_age_field_shape(mtime: int, now: int)
    ensures
        age_text(mtime, now).len() >= 4,
        age_text(mtime, now).last() == age_letter(age_unit(elapsed(mtime, now))),
        age_color(mtime, now) == age_unit_color(age_unit(elapsed(mtime, now))),
{
    lemma_right_aligned_len(decimal(age_count(elapsed(mtime, now))), AGE_WIDTH as nat);
}

impl AgeUnit {
    /// The unit an age of `seconds` is shown in.
    pub fn of(seconds: u64) -> (unit: AgeUnit)
        ensures
            unit == age_unit(seconds as nat),
    {
        if seconds < MINUTE {
            AgeUnit::Seconds
        } else if seconds < HOUR {
            AgeUnit::Minutes
        } else if seconds < DAY {
            AgeUnit::Hours
        } else if seconds / DAY <= 7 {
            AgeUnit::Days
        } else {
            AgeUnit::Weeks
        }
    }

    /// The whole number of this unit in an age of `seconds`.
    pub fn count(&self, seconds: u64) -> (count: u64)
        ensures
            count == units_in(*self, seconds as nat),
    {
        match self {
            AgeUnit::Seconds => seconds,
            AgeUnit::Minutes => seconds / MINUTE,
            AgeUnit::Hours => seconds / HOUR,
            AgeUnit::Days => seconds / DAY,
            AgeUnit::Weeks => seconds / DAY / 7,
        }
    }

    /// The letter that names this unit.
    pub fn letter(&self) -> (letter: u8)
        ensures
            letter == age_letter(*self),
    {
        match self {
            AgeUnit::Seconds => 115,
            AgeUnit::Minutes => 109,
            AgeUnit::Hours => 104,
            AgeUnit::Days => 100,
            AgeUnit::Weeks => 119,
        }
    }

    /// The colour this unit is shown in.
    pub fn color(&self) -> (color: Color)
        ensures
            color == age_unit_color(*self),
    {
        match self {
            AgeUnit::Seconds => Color::plain(Hue::White),
            AgeUnit::Minutes => Color::plain(Hue::Red),
            AgeUnit::Hours => Color::plain(Hue::Yellow),
            AgeUnit::Days => Color::plain(Hue::Green),
            AgeUnit::Weeks => Color::plain(Hue::Black),
        }
    }
}

/// The seconds from `mtime` to `now`, or none where `mtime` is the later.
pub fn seconds_between(mtime: i64, now: i64) -> (seconds: u64)
    ensures
        seconds == elapsed(mtime as int, now as int),
{
    if now > mtime {
        let gap: i128 = now as i128 - mtime as i128;
        gap as u64
    } else {
        0
    }
}

/// Formats the age of a change at `mtime`, seen at `now`: the text of the
/// age field and its colour. Both times are in seconds of the same clock.
pub fn format_age(mtime: i64, now: i64) -> (field: (Vec<u8>, Color))
    ensures
        field.0@ == age_text(mtime as int, now as int),
        field.1 == age_color(mtime as int, now as int),
{
    let seconds = seconds_between(mtime, now);
    let unit = AgeUnit::of(seconds);
    let mut digits: Vec<u8> = Vec::new();
    push_decimal(&mut digits, unit.count(seconds) as u128);
    let mut text: Vec<u8> = Vec::new();
    push_right_aligned(&mut text, &digits, AGE_WIDTH);
    text.push(unit.letter());
    (text, unit.color())
}

} // verus!
