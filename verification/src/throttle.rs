use vstd::prelude::*;

verus! {

/// Token-bucket settings for a producer: sustained rate in messages per
/// second and the number of messages that may be sent in a burst.
#[derive(Clone, Copy, Debug)]
pub struct Throttle {
    pub rate: u32,
    pub burst: u32,
}

impl Throttle {
    pub fn new(rate: u32, burst: u32) -> (t: Self)
        ensures
            t.rate == rate,
            t.burst == burst,
    {
        Throttle { rate, burst }
    }
}

} // verus!
