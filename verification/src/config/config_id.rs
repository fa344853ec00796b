use vstd::prelude::*;
use vstd::string::StringExecFns;
use crate::strutil;

verus! {

/// An ordinal assigned to a selected target, stable for one run; used only
/// to correlate events back to the target they came from.
#[derive(Debug, Copy, Clone, PartialEq, Eq, Structural, Hash, PartialOrd, Ord)]
pub struct ConfigId(usize);

impl View for ConfigId {
    type V = int;

    closed spec fn view(&self) -> int {
        self.0 as int
    }
}

/// The rendering `#<n>` of an identifier.
pub open spec fn spec_id_display(n: int) -> Seq<char> {
    seq!['#'] + strutil::dec_digits(n)
}

impl ConfigId {
    /// Wraps an ordinal.
    pub fn new(id: usize) -> (r: Self)
        ensures
            r@ == id,
    {
        ConfigId(id)
    }

    /// The text `#<n>` used to label output lines.
    pub fn display(&self) -> (r: String)
        ensures
            r@ == spec_id_display(self@),
    {
        let mut r = String::new();
        strutil::string_push(&mut r, '#');
        let digits = strutil::u64_to_string(self.0 as u64);
        r.append(digits.as_str());
        proof {
            assert(r@ =~= spec_id_display(self@));
        }
        r
    }
}

} // verus!
