//! How far back a poller reaches on a fresh cursor.

use crate::clock::{nameable, Timestamp};
use vstd::prelude::*;

verus! {

pub const SECONDS_PER_DAY: u64 = 86_400;

/// The second that lies `days` days before `now`, as near as an `i64` comes to
/// it.
pub open spec fn floor_second(now: int, days: int) -> int {
    let span = if days * SECONDS_PER_DAY <= i64::MAX {
        days * SECONDS_PER_DAY
    } else {
        i64::MAX as int
    };
    if now - span >= i64::MIN {
        now - span
    } else {
        i64::MIN as int
    }
}

/// The second `days` days before the second `now`.
pub fn backfill_floor_at(now: i64, days: u64) -> (floor: i64)
    ensures
        floor == floor_second(now as int, days as int),
{
    let longest: u64 = 0x7fff_ffff_ffff_ffff / SECONDS_PER_DAY;
    let span: i64 = if days <= longest {
        (days * SECONDS_PER_DAY) as i64
    } else {
        0x7fff_ffff_ffff_ffff
    };
    match now.checked_sub(span) {
        Some(floor) => floor,
        None => -0x8000_0000_0000_0000,
    }
}

/// The second `days` days ago.
pub fn backfill_floor(days: u64) -> (floor: i64)
    ensures
        exists|now: int| nameable(now) && floor == #[trigger] floor_second(now, days as int),
{
    let now: i64 = Timestamp::now().secs();
    backfill_floor_at(now, days)
}

/// A poller never starts in the future, and a longer reach never starts later.
pub proof fn law_floor_is_in_the_past(now: int, days: int, more: int)
    requires
        i64::MIN <= now,
        0 <= days <= more,
    ensures
        floor_second(now, days) <= now,
        floor_second(now, 0) == now,
        floor_second(now, more) <= floor_second(now, days),
{
    assert(days * SECONDS_PER_DAY <= more * SECONDS_PER_DAY) by (nonlinear_arith)
        requires
            days <= more,
    ;
}

/// The reach goes back day by day, a day having 86,400 seconds, as far as a counter
/// goes.
pub proof fn law_days_of_the_reach(now: int, days: int)
    requires
        i64::MIN <= now <= i64::MAX,
        days >= 0,
    ensures
        days <= 106_751_991_167_300 && now - days * 86_400 >= i64::MIN ==> floor_second(now, days)
            == now - days * 86_400,
        days <= 106_751_991_167_300 && now - days * 86_400 < i64::MIN ==> floor_second(now, days)
            == i64::MIN,
        days > 106_751_991_167_300 && now >= 0 ==> floor_second(now, days) == now - i64::MAX,
        days > 106_751_991_167_300 && now < -1 ==> floor_second(now, days) == i64::MIN,
{
}

}
