//! Checks that a network is one the solver supports, made once before any
//! matrix is built.
//!
//! Transformer data carry small integer codes that say in which units the
//! winding impedance, the magnetizing admittance and the turns ratio are
//! given. They are modelled here as closed enumerations; only the per-unit
//! on system base convention is supported.

use vstd::prelude::*;

verus! {

/// Units of a transformer's winding impedance (PSS/E `CZ`).
#[derive(Debug, Clone, Copy, PartialEq, Eq)]
pub enum ImpedanceUnits {
    /// Per unit on system base (code 1).
    SystemBase,
    /// Per unit on winding base (code 2).
    WindingBase,
    /// Load loss in watts and impedance magnitude per unit (code 3).
    LoadLoss,
}

/// Units of a transformer's magnetizing admittance (PSS/E `CM`).
#[derive(Debug, Clone, Copy, PartialEq, Eq)]
pub enum MagnetizingUnits {
    /// Per unit on system base (code 1).
    SystemBase,
    /// No-load loss in watts and exciting current per unit (code 2).
    NoLoadLoss,
}

/// Units of a transformer's winding ratio (PSS/E `CW`).
#[derive(Debug, Clone, Copy, PartialEq, Eq)]
pub enum RatioUnits {
    /// Off-nominal turns ratio per unit of bus base voltage (code 1).
    BusBase,
    /// Winding voltage in kV (code 2).
    KiloVolts,
    /// Off-nominal turns ratio per unit of nominal winding voltage (code 3).
    NominalWinding,
}

pub open spec fn impedance_units(code: i8) -> Option<ImpedanceUnits> {
    if code == 1 {
        Some(ImpedanceUnits::SystemBase)
    } else if code == 2 {
        Some(ImpedanceUnits::WindingBase)
    } else if code == 3 {
        Some(ImpedanceUnits::LoadLoss)
    } else {
        None
    }
}

pub open spec fn magnetizing_units(code: i8) -> Option<MagnetizingUnits> {
    if code == 1 {
        Some(MagnetizingUnits::SystemBase)
    } else if code == 2 {
        Some(MagnetizingUnits::NoLoadLoss)
    } else {
        None
    }
}

pub open spec fn ratio_units(code: i8) -> Option<RatioUnits> {
    if code == 1 {
        Some(RatioUnits::BusBase)
    } else if code == 2 {
        Some(RatioUnits::KiloVolts)
    } else if code == 3 {
        Some(RatioUnits::NominalWinding)
    } else {
        None
    }
}

impl ImpedanceUnits {
    /// The convention named by a `CZ` code, if it names one.
    pub fn from_code(code: i8) -> (r: Option<ImpedanceUnits>)
        ensures
            r == impedance_units(code),
    {
        if code == 1 {
            Some(ImpedanceUnits::SystemBase)
        } else if code == 2 {
            Some(ImpedanceUnits::WindingBase)
        } else if code == 3 {
            Some(ImpedanceUnits::LoadLoss)
        } else {
            None
        }
    }
}

impl MagnetizingUnits {
    /// The convention named by a `CM` code, if it names one.
    pub fn from_code(code: i8) -> (r: Option<MagnetizingUnits>)
        ensures
            r == magnetizing_units(code),
    {
        if code == 1 {
            Some(MagnetizingUnits::SystemBase)
        } else if code == 2 {
            Some(MagnetizingUnits::NoLoadLoss)
        } else {
            None
        }
    }
}

impl RatioUnits {
    /// The convention named by a `CW` code, if it names one.
    pub fn from_code(code: i8) -> (r: Option<RatioUnits>)
        ensures
            r == ratio_units(code),
    {
        if code == 1 {
            Some(RatioUnits::BusBase)
        } else if code == 2 {
            Some(RatioUnits::KiloVolts)
        } else if code == 3 {
            Some(RatioUnits::NominalWinding)
        } else {
            None
        }
    }
}

/// The integer data of a transformer record that decide whether the solver
/// can model it.
#[derive(Debug, Clone, Copy, PartialEq, Eq)]
pub struct TransformerCodes {
    /// First winding bus.
    pub i: i32,
    /// Second winding bus.
    pub j: i32,
    /// Third winding bus; zero for a two-winding transformer.
    pub k: i32,
    /// Impedance units code.
    pub cz: i8,
    /// Magnetizing admittance units code.
    pub cm: i8,
    /// Winding ratio units code.
    pub cw: i8,
}

/// Why a network is refused before any numerical work.
#[derive(Debug, Clone, Copy, PartialEq, Eq)]
pub enum NetworkError {
    /// The change code is not 0 (base case).
    NotBaseCase(i8),
    /// The system base power is zero.
    ZeroSystemBase,
    /// A transformer has a third winding.
    ThreeWinding { i: i32, j: i32, k: i32 },
    /// Switched shunts are present; they are not modelled.
    SwitchedShunts,
    /// A transformer's impedance is not per unit on system base.
    ImpedanceUnits(i8),
    /// A transformer's magnetizing admittance is not per unit on system base.
    MagnetizingUnits(i8),
    /// A transformer's winding ratio is not a per-unit turns ratio.
    RatioUnits(i8),
}

/// The winding error of the first transformer, from position `n` on, that
/// has a third winding.
pub open spec fn winding_error_from(ts: Seq<TransformerCodes>, n: int) -> Option<NetworkError>
    decreases ts.len() - n,
{
    if n < 0 || n >= ts.len() {
        None
    } else if ts[n].k != 0 {
        Some(NetworkError::ThreeWinding { i: ts[n].i, j: ts[n].j, k: ts[n].k })
    } else {
        winding_error_from(ts, n + 1)
    }
}

/// The units error of one transformer, if it has one: impedance first, then
/// magnetizing admittance, then winding ratio.
pub open spec fn units_error(t: TransformerCodes) -> Option<NetworkError> {
    if impedance_units(t.cz) != Some(ImpedanceUnits::SystemBase) {
        Some(NetworkError::ImpedanceUnits(t.cz))
    } else if magnetizing_units(t.cm) != Some(MagnetizingUnits::SystemBase) {
        Some(NetworkError::MagnetizingUnits(t.cm))
    } else if ratio_units(t.cw) != Some(RatioUnits::BusBase) {
        Some(NetworkError::RatioUnits(t.cw))
    } else {
        None
    }
}

/// The units error of the first transformer, from position `n` on, that
/// has one.
pub open spec fn units_error_from(ts: Seq<TransformerCodes>, n: int) -> Option<NetworkError>
    decreases ts.len() - n,
{
    if n < 0 || n >= ts.len() {
        None
    } else if units_error(ts[n]) is Some {
        units_error(ts[n])
    } else {
        units_error_from(ts, n + 1)
    }
}

/// The first reason, in the order the checks are made, why a network is
/// refused; `None` when it is accepted.
pub open spec fn network_error(
    ic: i8,
    sbase_is_zero: bool,
    ts: Seq<TransformerCodes>,
    n_switched_shunts: nat,
) -> Option<NetworkError> {
    if ic != 0 {
        Some(NetworkError::NotBaseCase(ic))
    } else if sbase_is_zero {
        Some(NetworkError::ZeroSystemBase)
    } else if winding_error_from(ts, 0) is Some {
        winding_error_from(ts, 0)
    } else if n_switched_shunts > 0 {
        Some(NetworkError::SwitchedShunts)
    } else {
        units_error_from(ts, 0)
    }
}

/// The units error of one transformer.
pub fn transformer_units_error(t: &TransformerCodes) -> (r: Option<NetworkError>)
    ensures
        r == units_error(*t),
{
    if !matches!(ImpedanceUnits::from_code(t.cz), Some(ImpedanceUnits::SystemBase)) {
        Some(NetworkError::ImpedanceUnits(t.cz))
    } else if !matches!(MagnetizingUnits::from_code(t.cm), Some(MagnetizingUnits::SystemBase)) {
        Some(NetworkError::MagnetizingUnits(t.cm))
    } else if !matches!(RatioUnits::from_code(t.cw), Some(RatioUnits::BusBase)) {
        Some(NetworkError::RatioUnits(t.cw))
    } else {
        None
    }
}

/// Validates a network from its change code `ic`, whether its system base
/// power is zero, its transformers and its number of switched shunts.
///
/// The checks are made in this order: change code, system base, third
/// windings, switched shunts, transformer unit codes. The first that fails
/// is reported.
pub fn validate_network(
    ic: i8,
    sbase_is_zero: bool,
    transformers: &Vec<TransformerCodes>,
    n_switched_shunts: usize,
) -> (r: Result<(), NetworkError>)
    ensures
        r == match network_error(ic, sbase_is_zero, transformers@, n_switched_shunts as nat) {
            Some(e) => Err::<(), NetworkError>(e),
            None => Ok(()),
        },
{
    if ic != 0 {
        return Err(NetworkError::NotBaseCase(ic));
    }
    if sbase_is_zero {
        return Err(NetworkError::ZeroSystemBase);
    }
    let n = transformers.len();
    let mut t: usize = 0;
    while t < n
        invariant
            t <= n == transformers@.len(),
            ic == 0,
            !sbase_is_zero,
            winding_error_from(transformers@, 0) == winding_error_from(transformers@, t as int),
        decreases n - t,
    {
        let tr = &transformers[t];
        if tr.k != 0 {
            assert(winding_error_from(transformers@, t as int) == Some(
                NetworkError::ThreeWinding { i: tr.i, j: tr.j, k: tr.k },
            ));
            return Err(NetworkError::ThreeWinding { i: tr.i, j: tr.j, k: tr.k });
        }
        t = t + 1;
    }
    if n_switched_shunts > 0 {
        return Err(NetworkError::SwitchedShunts);
    }
    let mut t: usize = 0;
    while t < n
        invariant
            t <= n == transformers@.len(),
            ic == 0,
            !sbase_is_zero,
            n_switched_shunts == 0,
            winding_error_from(transformers@, 0) is None,
            units_error_from(transformers@, 0) == units_error_from(transformers@, t as int),
        decreases n - t,
    {
        match transformer_units_error(&transformers[t]) {
            Some(e) => {
                return Err(e);
            },
            None => {},
        }
        t = t + 1;
    }
    Ok(())
}

} // verus!
