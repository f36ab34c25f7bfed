//! When a saved position is worth keeping, and worth using.
//!
//! A two-hour set should be something you can walk away from. The thresholds
//! keep that out of the way: nobody wants to resume at four seconds, and
//! resuming just before the end only replays the applause.

use vstd::prelude::*;

use crate::fixed::{Fixed, NANO};

verus! {

/// Below this, in billionths of a second, the listener has barely started.
pub const MIN_RESUME_NANOS: i128 = 30_000_000_000;

/// Within this much of the end, in billionths of a second, a track is finished.
pub const END_MARGIN_NANOS: i128 = 60_000_000_000;

/// A duration that says where the end is: finite and above zero.
pub open spec fn known_end(duration: Option<Fixed>) -> Option<i128> {
    match duration {
        Some(Fixed::Nanos(d)) => if d > 0 {
            Some(d)
        } else {
            None
        },
        _ => None,
    }
}

/// Worth keeping: far enough in, and far enough from the end where the end is
/// known.
pub open spec fn worth_keeping(position: Fixed, duration: Option<Fixed>) -> bool {
    match position {
        Fixed::Nanos(p) => p >= 30 * NANO && match known_end(duration) {
            Some(d) => d - p >= 60 * NANO,
            None => true,
        },
        _ => false,
    }
}

/// Whether `position` in a file of `duration` should be persisted.
///
/// With an unknown duration only the head rule applies, since there is no end
/// to be near.
pub fn should_store(position_secs: Fixed, duration_secs: Option<Fixed>) -> (r: bool)
    ensures
        r == worth_keeping(position_secs, duration_secs),
{
    let p: i128 = match position_secs {
        Fixed::Nanos(p) => p,
        _ => {
            return false;
        },
    };
    if p < MIN_RESUME_NANOS {
        return false;
    }
    match duration_secs {
        Some(Fixed::Nanos(d)) => if d > 0 {
            d - p >= END_MARGIN_NANOS
        } else {
            true
        },
        _ => true,
    }
}

/// The stored position where the rules accept it; otherwise start over.
pub open spec fn start_offset(stored: Option<Fixed>, duration: Option<Fixed>) -> Option<Fixed> {
    match stored {
        Some(p) => if worth_keeping(p, duration) {
            Some(p)
        } else {
            None
        },
        None => None,
    }
}

/// The offset to start at, given a stored position. `None` means start over.
///
/// Applies the rules of [`should_store`], so a position that became stale, say
/// because the file was replaced by a shorter one, starts from the top instead
/// of seeking past the end.
pub fn start_at(stored_secs: Option<Fixed>, duration_secs: Option<Fixed>) -> (r: Option<Fixed>)
    ensures
        r == start_offset(stored_secs, duration_secs),
{
    match stored_secs {
        Some(p) => if should_store(p, duration_secs) {
            Some(p)
        } else {
            None
        },
        None => None,
    }
}

/// What was worth storing is what playback starts at, as long as the duration
/// stays the same.
pub proof fn law_stored_position_is_used(position: Fixed, duration: Option<Fixed>)
    requires
        worth_keeping(position, duration),
    ensures
        start_offset(Some(position), duration) == Some(position),
{
}

/// A start offset never lies within the last minute of a known duration, nor
/// past its end.
pub proof fn law_start_leaves_room(stored: Option<Fixed>, duration: i128)
    requires
        duration > 0,
        start_offset(stored, Some(Fixed::Nanos(duration))) is Some,
    ensures
        match start_offset(stored, Some(Fixed::Nanos(duration)))->0 {
            Fixed::Nanos(p) => 30 * NANO <= p <= duration - 60 * NANO,
            _ => false,
        },
{
}

/// A file shorter than a minute and a half never resumes.
pub proof fn law_short_files_never_resume(position: Fixed, duration: i128)
    requires
        0 < duration < 90 * NANO,
    ensures
        !worth_keeping(position, Some(Fixed::Nanos(duration))),
{
}

/// A position is worth keeping exactly where it is half a minute in or more, and, of a
/// file whose length is known, a minute from its end or more. A length that is not
/// known, or is not above zero, sets no end; what is no plain number is never kept.
pub proof fn law_resume_rules(p: i128, d: i128, duration: Option<Fixed>)
    ensures
        d > 0 ==> (worth_keeping(Fixed::Nanos(p), Some(Fixed::Nanos(d))) <==> p
            >= 30_000_000_000 && p <= d - 60_000_000_000),
        d <= 0 ==> (worth_keeping(Fixed::Nanos(p), Some(Fixed::Nanos(d))) <==> p
            >= 30_000_000_000),
        worth_keeping(Fixed::Nanos(p), None) <==> p >= 30_000_000_000,
        worth_keeping(Fixed::Nanos(p), Some(Fixed::PosInfinity)) <==> p >= 30_000_000_000,
        !worth_keeping(Fixed::NaN, duration),
        !worth_keeping(Fixed::PosInfinity, duration),
        !worth_keeping(Fixed::NegInfinity, duration),
{
}

/// Playback starts where it was left, if that is worth it, and else over.
pub proof fn law_start_is_where_it_was_left(p: i128, d: i128)
    requires
        d > 0,
    ensures
        p >= 30_000_000_000 && p <= d - 60_000_000_000 ==> start_offset(
            Some(Fixed::Nanos(p)),
            Some(Fixed::Nanos(d)),
        ) == Some(Fixed::Nanos(p)),
        p < 30_000_000_000 || p > d - 60_000_000_000 ==> start_offset(
            Some(Fixed::Nanos(p)),
            Some(Fixed::Nanos(d)),
        ) is None,
        p >= 30_000_000_000 ==> start_offset(Some(Fixed::Nanos(p)), None) == Some(
            Fixed::Nanos(p),
        ),
        start_offset(None, Some(Fixed::Nanos(d))) is None,
{
}

} // verus!
