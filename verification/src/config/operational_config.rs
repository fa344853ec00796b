use vstd::prelude::*;
use crate::config::merge_with::MergeWith;
use crate::config::retry_delay::{RetryDelay, DEFAULT_RETRY_DELAY_MILLIS};

verus! {

/// Settings that apply to the run as a whole rather than to one target.
#[derive(Debug, Clone, Copy)]
pub struct OperationalConfig {
    /// The delay between a forwarding process's exit and its respawn.
    pub retry_delay_sec: Option<RetryDelay>,
}

impl Default for OperationalConfig {
    /// The settings used when no configuration supplies any.
    fn default() -> (r: Self)
        ensures
            r.retry_delay_sec matches Some(d) && d@ == DEFAULT_RETRY_DELAY_MILLIS,
    {
        OperationalConfig { retry_delay_sec: Some(RetryDelay::default()) }
    }
}

impl OperationalConfig {
    /// Fills in the default retry delay when the configuration gives none;
    /// a configured delay is kept as it is. Delays cannot be negative, since
    /// they are read as clamped millisecond counts.
    pub fn sanitize(&mut self)
        ensures
            match old(self).retry_delay_sec {
                Some(d) => final(self).retry_delay_sec == Some(d),
                None => final(self).retry_delay_sec matches Some(d) && d@
                    == DEFAULT_RETRY_DELAY_MILLIS,
            },
    {
        if self.retry_delay_sec.is_none() {
            self.retry_delay_sec = Some(RetryDelay::default());
        }
    }
}

impl MergeWith<Option<OperationalConfig>> for OperationalConfig {
    /// Keeps a present retry delay; backfills an absent one from `other`.
    fn merge_with(&mut self, other: &Option<OperationalConfig>)
        ensures
            old(self).retry_delay_sec is Some ==> *final(self) == *old(self),
            old(self).retry_delay_sec is None ==> final(self).retry_delay_sec == match *other {
                Some(o) => o.retry_delay_sec,
                None => None,
            },
    {
        match other {
            Some(o) => self.retry_delay_sec.merge_with(&o.retry_delay_sec),
            None => (),
        }
    }
}

} // verus!
