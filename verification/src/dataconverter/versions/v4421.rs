//! V4421: nothing a schematic holds changes at this version.

use vstd::prelude::*;
use super::super::registry::{Registration, RegistryBuilder};

verus! {

/// This version.
pub const VERSION: i32 = 4421;

/// What this version registers: nothing.
pub open spec fn registrations() -> Seq<Registration> {
    Seq::empty()
}

/// Register this version's converters (there are none).
pub fn register(reg: &mut RegistryBuilder)
    ensures
        final(reg).entries@ == old(reg).entries@ + registrations(),
{
    proof {
        assert(old(reg).entries@ + registrations() =~= old(reg).entries@);
    }
}

} // verus!
