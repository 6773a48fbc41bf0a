//! One decoded cell of a pattern row.

use vstd::prelude::*;
use crate::effect::Effect;

verus! {

/// The note, sample number, period and effect of one channel in one row.
pub struct Channel {
    pub note: String,
    pub sample: u8,
    pub period: u16,
    pub effect: Effect,
}

} // verus!
