use vstd::prelude::*;
use crate::config::port::Port;
use crate::config::retry_delay::RetryDelay;
use crate::config::tag::TagSet;

verus! {

/// Merging configuration values: `self` is the more specific value, `other`
/// the less specific one. A value already present is never replaced; only
/// absent values are backfilled from `other`.
pub trait MergeWith<T> {
    /// Backfills `self` from `other`.
    fn merge_with(&mut self, other: &T);
}

impl MergeWith<Option<String>> for Option<String> {
    /// Keeps `self` when present, else takes `other`.
    fn merge_with(&mut self, other: &Option<String>)
        ensures
            *old(self) is Some ==> *final(self) == *old(self),
            *old(self) is None ==> match (*final(self), *other) {
                (Some(a), Some(b)) => a@ == b@,
                (None, None) => true,
                _ => false,
            },
    {
        if self.is_some() {
            return;
        }
        *self = match other {
            Some(v) => Some(v.clone()),
            None => None,
        };
    }
}

impl MergeWith<Option<RetryDelay>> for Option<RetryDelay> {
    /// Keeps `self` when present, else takes `other`.
    fn merge_with(&mut self, other: &Option<RetryDelay>)
        ensures
            *old(self) is Some ==> *final(self) == *old(self),
            *old(self) is None ==> *final(self) == *other,
    {
        if self.is_some() {
            return;
        }
        *self = *other;
    }
}

impl MergeWith<TagSet> for TagSet {
    /// Unions the two tag sets.
    fn merge_with(&mut self, other: &TagSet)
        ensures
            old(self).wf() ==> final(self).wf(),
            final(self)@ == old(self)@.union(other@),
    {
        self.union_with(other);
    }
}

impl MergeWith<Vec<Port>> for Vec<Port> {
    /// Adopts the less specific port list only when `self` has none;
    /// no reconciliation of individual entries is attempted.
    fn merge_with(&mut self, other: &Vec<Port>)
        ensures
            old(self)@.len() > 0 ==> final(self)@ == old(self)@,
            old(self)@.len() == 0 ==> final(self)@ == other@,
    {
        if self.len() > 0 {
            return;
        }
        let n = other.len();
        let mut i: usize = 0;
        while i < n
            invariant
                0 <= i <= n,
                n == other@.len(),
                self@ =~= other@.take(i as int),
            decreases n - i,
        {
            self.push(other[i]);
            proof {
                assert(self@ =~= other@.take(i as int + 1));
            }
            i += 1;
        }
        proof {
            assert(other@.take(n as int) =~= other@);
        }
    }
}

} // verus!
