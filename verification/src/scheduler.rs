//! Round-clock scheduling: how long a periodic trigger sleeps so that its
//! ticks land on aligned boundaries instead of drifting from process start.

use vstd::arithmetic::div_mod::lemma_fundamental_div_mod;
use vstd::arithmetic::div_mod::lemma_fundamental_div_mod_converse_mod;
use vstd::prelude::*;

verus! {

/// The delay until the next boundary: zero when `now` is already aligned,
/// otherwise whatever remains of the current interval.
pub open spec fn spec_next_wake_delay(now: u64, interval: u64) -> int
    recommends
        interval > 0,
{
    if now % interval == 0 {
        0
    } else {
        interval - now % interval
    }
}

/// How many seconds to sleep, from `now_secs`, so as to wake exactly on the
/// next multiple of `interval_secs` on the clock.  The result is the
/// earliest such delay: every shorter sleep would wake off the boundary.
pub fn next_wake_delay(now_secs: u64, interval_secs: u64) -> (d: u64)
    requires
        interval_secs > 0,
    ensures
        d == spec_next_wake_delay(now_secs, interval_secs),
        d < interval_secs,
        (now_secs + d) % (interval_secs as int) == 0,
        forall|e: u64| e < d ==> #[trigger] ((now_secs + e) % (interval_secs as int)) != 0,
{
    let r = now_secs % interval_secs;
    let ghost n = now_secs as int;
    let ghost iv = interval_secs as int;
    proof {
        lemma_fundamental_div_mod(n, iv);
        assert forall|e: u64|
            e < spec_next_wake_delay(now_secs, interval_secs) implies #[trigger] ((now_secs + e)
            % iv) != 0 by {
            lemma_fundamental_div_mod_converse_mod(n + e, iv, n / iv, n % iv + e);
        }
        if r != 0 {
            assert((n / iv + 1) * iv == iv * (n / iv) + iv) by (nonlinear_arith);
            lemma_fundamental_div_mod_converse_mod(n + (iv - r), iv, n / iv + 1, 0);
        }
    }
    if r == 0 {
        0
    } else {
        interval_secs - r
    }
}

} // verus!
