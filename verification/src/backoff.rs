//! Pauses between attempts: a second at first, twice as long each time, and
//! half a minute at most.

use vstd::prelude::*;

verus! {

/// Seconds of the first pause.
pub const FIRST_PAUSE: u64 = 1;

/// Seconds of the longest pause.
pub const LONGEST_PAUSE: u64 = 30;

/// The pause that follows a pause of `secs`.
pub open spec fn doubled(secs: int) -> int {
    if 2 * secs < LONGEST_PAUSE {
        2 * secs
    } else {
        LONGEST_PAUSE as int
    }
}

/// A pause that can come up.
pub open spec fn is_pause(secs: int) -> bool {
    FIRST_PAUSE <= secs <= LONGEST_PAUSE
}

/// The pause after `n` attempts in a row that failed.
pub open spec fn pause_after(n: nat) -> int
    decreases n,
{
    if n == 0 {
        FIRST_PAUSE as int
    } else {
        doubled(pause_after((n - 1) as nat))
    }
}

/// The next pause, in seconds.
#[derive(Debug, Clone, Copy, PartialEq, Eq, Structural)]
pub struct Backoff {
    pub secs: u64,
}

impl Backoff {
    /// The pause after a success.
    pub fn new() -> (backoff: Self)
        ensures
            backoff.secs == FIRST_PAUSE,
    {
        Backoff { secs: FIRST_PAUSE }
    }

    /// The pause that is due; the next is twice as long, as far as it may be.
    pub fn take(&mut self) -> (secs: u64)
        ensures
            secs == old(self).secs,
            final(self).secs == doubled(old(self).secs as int),
    {
        let secs: u64 = self.secs;
        self.secs = if secs < LONGEST_PAUSE / 2 {
            2 * secs
        } else {
            LONGEST_PAUSE
        };
        secs
    }
}

/// Pauses grow with every failure up to the longest, and stay there.
pub proof fn law_pauses_grow(n: nat)
    ensures
        is_pause(pause_after(n)),
        is_pause(pause_after(n + 1)),
        pause_after(n) <= pause_after(n + 1),
        pause_after(n) < LONGEST_PAUSE ==> pause_after(n) < pause_after(n + 1),
        n >= 5 ==> pause_after(n) == LONGEST_PAUSE,
    decreases n,
{
    if n == 0 {
        reveal_with_fuel(pause_after, 2);
    } else {
        law_pauses_grow((n - 1) as nat);
        if n == 5 {
            reveal_with_fuel(pause_after, 6);
        }
    }
}

/// The pauses in a row are 1, 2, 4, 8 and 16 seconds, and then always 30. Of two
/// pauses in a row the second is twice the first, or the longest.
pub proof fn law_pauses_double(n: nat, secs: int)
    ensures
        pause_after(0) == 1,
        pause_after(1) == 2,
        pause_after(2) == 4,
        pause_after(3) == 8,
        pause_after(4) == 16,
        n >= 5 ==> pause_after(n) == 30,
        0 <= secs <= 15 ==> doubled(secs) == secs + secs,
        secs > 15 ==> doubled(secs) == 30,
{
    reveal_with_fuel(pause_after, 6);
    law_pauses_grow(n);
}

}
