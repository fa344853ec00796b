use vstd::prelude::*;

verus! {

/// The banner shown at startup.
pub struct Banner;

/// The banner text.
pub open spec fn spec_banner() -> Seq<char> {
    "\u{2588}\u{2588}\u{2557}\u{2591}\u{2591}\u{2588}\u{2588}\u{2557}\u{2591}\u{2588}\u{2588}\u{2588}\u{2588}\u{2588}\u{2557}\u{2591}\u{2591}\u{2588}\u{2588}\u{2588}\u{2588}\u{2588}\u{2588}\u{2557}\u{2591}\u{2591}\u{2591}\u{2591}\u{2588}\u{2588}\u{2588}\u{2588}\u{2588}\u{2588}\u{2588}\u{2557}\u{2588}\u{2588}\u{2557}\u{2591}\u{2591}\u{2591}\u{2591}\u{2591}\u{2591}\u{2588}\u{2588}\u{2557}\u{2588}\u{2588}\u{2588}\u{2588}\u{2588}\u{2588}\u{2557}\n\u{2588}\u{2588}\u{2551}\u{2591}\u{2588}\u{2588}\u{2554}\u{255d}\u{2588}\u{2588}\u{2554}\u{2550}\u{2550}\u{2588}\u{2588}\u{2557}\u{2588}\u{2588}\u{2554}\u{2550}\u{2550}\u{2550}\u{2550}\u{255d}\u{2591}\u{2588}\u{2588}\u{2557}\u{2591}\u{2588}\u{2588}\u{2554}\u{2550}\u{2550}\u{2550}\u{2550}\u{255d}\u{2588}\u{2588}\u{2551}\u{2591}\u{2591}\u{2588}\u{2588}\u{2557}\u{2591}\u{2591}\u{2588}\u{2588}\u{2551}\u{2588}\u{2588}\u{2554}\u{2550}\u{2550}\u{2588}\u{2588}\u{2557}\n\u{2588}\u{2588}\u{2588}\u{2588}\u{2588}\u{2550}\u{255d}\u{2591}\u{255a}\u{2588}\u{2588}\u{2588}\u{2588}\u{2588}\u{2554}\u{255d}\u{255a}\u{2588}\u{2588}\u{2588}\u{2588}\u{2588}\u{2557}\u{2591}\u{2591}\u{255a}\u{2550}\u{255d}\u{2591}\u{2588}\u{2588}\u{2588}\u{2588}\u{2588}\u{2557}\u{2591}\u{2591}\u{255a}\u{2588}\u{2588}\u{2557}\u{2588}\u{2588}\u{2588}\u{2588}\u{2557}\u{2588}\u{2588}\u{2554}\u{255d}\u{2588}\u{2588}\u{2551}\u{2591}\u{2591}\u{2588}\u{2588}\u{2551}\n\u{2588}\u{2588}\u{2554}\u{2550}\u{2588}\u{2588}\u{2557}\u{2591}\u{2588}\u{2588}\u{2554}\u{2550}\u{2550}\u{2588}\u{2588}\u{2557}\u{2591}\u{255a}\u{2550}\u{2550}\u{2550}\u{2588}\u{2588}\u{2557}\u{2591}\u{2588}\u{2588}\u{2557}\u{2588}\u{2588}\u{2554}\u{2550}\u{2550}\u{255d}\u{2591}\u{2591}\u{2591}\u{2588}\u{2588}\u{2588}\u{2588}\u{2554}\u{2550}\u{2588}\u{2588}\u{2588}\u{2588}\u{2551}\u{2591}\u{2588}\u{2588}\u{2551}\u{2591}\u{2591}\u{2588}\u{2588}\u{2551}\n\u{2588}\u{2588}\u{2551}\u{2591}\u{255a}\u{2588}\u{2588}\u{2557}\u{255a}\u{2588}\u{2588}\u{2588}\u{2588}\u{2588}\u{2554}\u{255d}\u{2588}\u{2588}\u{2588}\u{2588}\u{2588}\u{2588}\u{2554}\u{255d}\u{2591}\u{255a}\u{2550}\u{255d}\u{2591}\u{2588}\u{2588}\u{2551}\u{2591}\u{2591}\u{2591}\u{2591}\u{2591}\u{2591}\u{255a}\u{2588}\u{2588}\u{2554}\u{255d}\u{2591}\u{255a}\u{2588}\u{2588}\u{2554}\u{255d}\u{2591}\u{2588}\u{2588}\u{2588}\u{2588}\u{2588}\u{2588}\u{2554}\u{255d}\n\u{255a}\u{2550}\u{255d}\u{2591}\u{2591}\u{255a}\u{2550}\u{255d}\u{2591}\u{255a}\u{2550}\u{2550}\u{2550}\u{2550}\u{255d}\u{2591}\u{255a}\u{2550}\u{2550}\u{2550}\u{2550}\u{2550}\u{255d}\u{2591}\u{2591}\u{2591}\u{2591}\u{2591}\u{2591}\u{255a}\u{2550}\u{255d}\u{2591}\u{2591}\u{2591}\u{2591}\u{2591}\u{2591}\u{2591}\u{255a}\u{2550}\u{2554}\u{255d}\u{2591}\u{2591}\u{255a}\u{2550}\u{2554}\u{255d}\u{2591}\u{2591}\u{255a}\u{2550}\u{2550}\u{2550}\u{2550}\u{2550}\u{255d}\u{2591}"@
}

impl Banner {
    /// The banner text, for the caller to print.
    pub fn text() -> (r: &'static str)
        ensures
            r@ == spec_banner(),
    {
        "\u{2588}\u{2588}\u{2557}\u{2591}\u{2591}\u{2588}\u{2588}\u{2557}\u{2591}\u{2588}\u{2588}\u{2588}\u{2588}\u{2588}\u{2557}\u{2591}\u{2591}\u{2588}\u{2588}\u{2588}\u{2588}\u{2588}\u{2588}\u{2557}\u{2591}\u{2591}\u{2591}\u{2591}\u{2588}\u{2588}\u{2588}\u{2588}\u{2588}\u{2588}\u{2588}\u{2557}\u{2588}\u{2588}\u{2557}\u{2591}\u{2591}\u{2591}\u{2591}\u{2591}\u{2591}\u{2588}\u{2588}\u{2557}\u{2588}\u{2588}\u{2588}\u{2588}\u{2588}\u{2588}\u{2557}\n\u{2588}\u{2588}\u{2551}\u{2591}\u{2588}\u{2588}\u{2554}\u{255d}\u{2588}\u{2588}\u{2554}\u{2550}\u{2550}\u{2588}\u{2588}\u{2557}\u{2588}\u{2588}\u{2554}\u{2550}\u{2550}\u{2550}\u{2550}\u{255d}\u{2591}\u{2588}\u{2588}\u{2557}\u{2591}\u{2588}\u{2588}\u{2554}\u{2550}\u{2550}\u{2550}\u{2550}\u{255d}\u{2588}\u{2588}\u{2551}\u{2591}\u{2591}\u{2588}\u{2588}\u{2557}\u{2591}\u{2591}\u{2588}\u{2588}\u{2551}\u{2588}\u{2588}\u{2554}\u{2550}\u{2550}\u{2588}\u{2588}\u{2557}\n\u{2588}\u{2588}\u{2588}\u{2588}\u{2588}\u{2550}\u{255d}\u{2591}\u{255a}\u{2588}\u{2588}\u{2588}\u{2588}\u{2588}\u{2554}\u{255d}\u{255a}\u{2588}\u{2588}\u{2588}\u{2588}\u{2588}\u{2557}\u{2591}\u{2591}\u{255a}\u{2550}\u{255d}\u{2591}\u{2588}\u{2588}\u{2588}\u{2588}\u{2588}\u{2557}\u{2591}\u{2591}\u{255a}\u{2588}\u{2588}\u{2557}\u{2588}\u{2588}\u{2588}\u{2588}\u{2557}\u{2588}\u{2588}\u{2554}\u{255d}\u{2588}\u{2588}\u{2551}\u{2591}\u{2591}\u{2588}\u{2588}\u{2551}\n\u{2588}\u{2588}\u{2554}\u{2550}\u{2588}\u{2588}\u{2557}\u{2591}\u{2588}\u{2588}\u{2554}\u{2550}\u{2550}\u{2588}\u{2588}\u{2557}\u{2591}\u{255a}\u{2550}\u{2550}\u{2550}\u{2588}\u{2588}\u{2557}\u{2591}\u{2588}\u{2588}\u{2557}\u{2588}\u{2588}\u{2554}\u{2550}\u{2550}\u{255d}\u{2591}\u{2591}\u{2591}\u{2588}\u{2588}\u{2588}\u{2588}\u{2554}\u{2550}\u{2588}\u{2588}\u{2588}\u{2588}\u{2551}\u{2591}\u{2588}\u{2588}\u{2551}\u{2591}\u{2591}\u{2588}\u{2588}\u{2551}\n\u{2588}\u{2588}\u{2551}\u{2591}\u{255a}\u{2588}\u{2588}\u{2557}\u{255a}\u{2588}\u{2588}\u{2588}\u{2588}\u{2588}\u{2554}\u{255d}\u{2588}\u{2588}\u{2588}\u{2588}\u{2588}\u{2588}\u{2554}\u{255d}\u{2591}\u{255a}\u{2550}\u{255d}\u{2591}\u{2588}\u{2588}\u{2551}\u{2591}\u{2591}\u{2591}\u{2591}\u{2591}\u{2591}\u{255a}\u{2588}\u{2588}\u{2554}\u{255d}\u{2591}\u{255a}\u{2588}\u{2588}\u{2554}\u{255d}\u{2591}\u{2588}\u{2588}\u{2588}\u{2588}\u{2588}\u{2588}\u{2554}\u{255d}\n\u{255a}\u{2550}\u{255d}\u{2591}\u{2591}\u{255a}\u{2550}\u{255d}\u{2591}\u{255a}\u{2550}\u{2550}\u{2550}\u{2550}\u{255d}\u{2591}\u{255a}\u{2550}\u{2550}\u{2550}\u{2550}\u{2550}\u{255d}\u{2591}\u{2591}\u{2591}\u{2591}\u{2591}\u{2591}\u{255a}\u{2550}\u{255d}\u{2591}\u{2591}\u{2591}\u{2591}\u{2591}\u{2591}\u{2591}\u{255a}\u{2550}\u{2554}\u{255d}\u{2591}\u{2591}\u{255a}\u{2550}\u{2554}\u{255d}\u{2591}\u{2591}\u{255a}\u{2550}\u{2550}\u{2550}\u{2550}\u{2550}\u{255d}\u{2591}"
    }
}

} // verus!
