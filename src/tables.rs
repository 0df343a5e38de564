//! Record tables of the case data model that the solver carries through
//! unchanged.

use vstd::prelude::*;

verus! {

/// Assignment of a bus to a substation, for geomagnetically induced
/// current studies.
#[derive(Debug, Clone, Copy, PartialEq, Eq)]
pub struct BusSubstation {
    /// Bus number.
    pub i: i32,
    /// Substation number.
    pub sub: i32,
}

/// Switched shunt fields that PSS/E version 33 adds to the version 30
/// record, one entry per switched shunt.
#[derive(Debug, Clone, Default)]
pub struct SwitchedShunts33 {
    /// Adjustment method: `false` switches steps and blocks on in input
    /// order and off in reverse input order; `true` switches them so that
    /// the next highest (or lowest) total admittance is reached.
    pub adjm: Vec<bool>,
    /// Initial status: `true` for in service.
    pub stat: Vec<bool>,
}

/// Multi-section line group fields that PSS/E version 33 adds to the
/// version 30 record, one entry per group.
#[derive(Debug, Clone, Default)]
pub struct MultiSectionLineGroups33 {
    /// Metered end flag: at most 1 designates bus `i` as the metered end,
    /// at least 2 designates bus `j`.
    pub met: Vec<i8>,
}

} // verus!
