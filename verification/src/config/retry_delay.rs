use vstd::prelude::*;
use vstd::string::StringExecFns;
use crate::strutil;

verus! {

/// The delay between a forwarding subprocess's exit and its next respawn,
/// kept as whole milliseconds. A zero delay means immediate respawn.
#[derive(Debug, Copy, Clone, PartialEq, Eq, Structural, PartialOrd, Ord)]
pub struct RetryDelay(u64);

impl View for RetryDelay {
    type V = int;

    closed spec fn view(&self) -> int {
        self.0 as int
    }
}

/// The number of milliseconds in a second.
pub const MILLIS_PER_SEC: u64 = 1000;

/// The default retry delay: five seconds.
pub const DEFAULT_RETRY_DELAY_MILLIS: u64 = 5000;

impl RetryDelay {
    /// A delay of the given number of milliseconds.
    pub fn from_millis(ms: u64) -> (r: Self)
        ensures
            r@ == ms,
    {
        RetryDelay(ms)
    }

    /// The delay in whole milliseconds.
    pub fn as_millis(&self) -> (ms: u64)
        ensures
            ms == self@,
    {
        self.0
    }

    /// The zero delay, meaning immediate respawn.
    pub fn none() -> (r: Self)
        ensures
            r@ == 0,
    {
        RetryDelay(0)
    }

    /// Whether the delay is the zero delay.
    pub fn is_none(&self) -> (r: bool)
        ensures
            r == (self@ == 0),
    {
        self.0 == 0
    }

    /// Writes the delay in seconds, e.g. `2 sec` or `3.14 sec`.
    pub fn display(&self) -> (r: String)
        ensures
            r@ == spec_delay_display(self@),
    {
        let secs: u64 = self.0 / MILLIS_PER_SEC;
        let frac: u64 = self.0 % MILLIS_PER_SEC;
        let mut r = strutil::u64_to_string(secs);
        if frac != 0 {
            strutil::string_push(&mut r, '.');
            let d1: u64 = frac / 100;
            let d2: u64 = (frac / 10) % 10;
            let d3: u64 = frac % 10;
            if d3 != 0 {
                r.append(strutil::u64_to_string(d1).as_str());
                r.append(strutil::u64_to_string(d2).as_str());
                r.append(strutil::u64_to_string(d3).as_str());
            } else if d2 != 0 {
                r.append(strutil::u64_to_string(d1).as_str());
                r.append(strutil::u64_to_string(d2).as_str());
            } else {
                r.append(strutil::u64_to_string(d1).as_str());
            }
        }
        r.append(" sec");
        proof {
            assert(r@ =~= spec_delay_display(self@));
        }
        r
    }
}

impl Default for RetryDelay {
    /// The delay used when no configuration supplies one.
    fn default() -> (r: Self)
        ensures
            r@ == DEFAULT_RETRY_DELAY_MILLIS,
    {
        RetryDelay(DEFAULT_RETRY_DELAY_MILLIS)
    }
}

/// The fractional digits of a delay, with trailing zeros trimmed.
pub open spec fn spec_frac_digits(frac: int) -> Seq<char> {
    let d1 = strutil::digit_char(frac / 100);
    let d2 = strutil::digit_char((frac / 10) % 10);
    let d3 = strutil::digit_char(frac % 10);
    if frac % 10 != 0 {
        seq![d1, d2, d3]
    } else if (frac / 10) % 10 != 0 {
        seq![d1, d2]
    } else {
        seq![d1]
    }
}

/// The rendering of a delay of `ms` milliseconds, in seconds.
pub open spec fn spec_delay_display(ms: int) -> Seq<char> {
    let whole = strutil::dec_digits(ms / 1000);
    let frac = ms % 1000;
    if frac == 0 {
        whole + " sec"@
    } else {
        whole + seq!['.'] + spec_frac_digits(frac) + " sec"@
    }
}

} // verus!
