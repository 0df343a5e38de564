use power_flow::validate::{
    transformer_units_error, validate_network, ImpedanceUnits, MagnetizingUnits, NetworkError,
    RatioUnits, TransformerCodes,
};

fn two_winding(i: i32, j: i32) -> TransformerCodes {
    TransformerCodes { i, j, k: 0, cz: 1, cm: 1, cw: 1 }
}

#[test]
fn valid_network_passes() {
    assert_eq!(validate_network(0, false, &vec![two_winding(1, 2)], 0), Ok(()));
    assert_eq!(validate_network(0, false, &vec![], 0), Ok(()));
}

#[test]
fn change_code_must_be_base_case() {
    assert_eq!(validate_network(1, false, &vec![], 0), Err(NetworkError::NotBaseCase(1)));
}

#[test]
fn zero_system_base_is_refused() {
    assert_eq!(validate_network(0, true, &vec![], 0), Err(NetworkError::ZeroSystemBase));
}

#[test]
fn three_winding_transformer_is_refused() {
    let mut t = two_winding(4, 5);
    t.k = 6;
    let r = validate_network(0, false, &vec![two_winding(1, 2), t], 0);
    assert_eq!(r, Err(NetworkError::ThreeWinding { i: 4, j: 5, k: 6 }));
}

#[test]
fn switched_shunts_are_refused() {
    assert_eq!(validate_network(0, false, &vec![], 1), Err(NetworkError::SwitchedShunts));
}

#[test]
fn checks_come_in_order() {
    let mut t = two_winding(4, 5);
    t.k = 6;
    t.cz = 2;
    assert_eq!(validate_network(3, true, &vec![t], 2), Err(NetworkError::NotBaseCase(3)));
    assert_eq!(validate_network(0, true, &vec![t], 2), Err(NetworkError::ZeroSystemBase));
    assert_eq!(
        validate_network(0, false, &vec![t], 2),
        Err(NetworkError::ThreeWinding { i: 4, j: 5, k: 6 })
    );
    t.k = 0;
    assert_eq!(validate_network(0, false, &vec![t], 2), Err(NetworkError::SwitchedShunts));
    assert_eq!(validate_network(0, false, &vec![t], 0), Err(NetworkError::ImpedanceUnits(2)));
}

#[test]
fn unit_codes_other_than_system_base_are_refused() {
    let mut t = two_winding(1, 2);
    t.cm = 2;
    assert_eq!(validate_network(0, false, &vec![t], 0), Err(NetworkError::MagnetizingUnits(2)));
    t.cm = 1;
    t.cw = 3;
    assert_eq!(validate_network(0, false, &vec![t], 0), Err(NetworkError::RatioUnits(3)));
    t.cw = 9;
    assert_eq!(transformer_units_error(&t), Some(NetworkError::RatioUnits(9)));
    assert_eq!(transformer_units_error(&two_winding(1, 2)), None);
}

#[test]
fn unit_code_enumerations() {
    assert_eq!(ImpedanceUnits::from_code(1), Some(ImpedanceUnits::SystemBase));
    assert_eq!(ImpedanceUnits::from_code(3), Some(ImpedanceUnits::LoadLoss));
    assert_eq!(ImpedanceUnits::from_code(0), None);
    assert_eq!(MagnetizingUnits::from_code(2), Some(MagnetizingUnits::NoLoadLoss));
    assert_eq!(MagnetizingUnits::from_code(3), None);
    assert_eq!(RatioUnits::from_code(2), Some(RatioUnits::KiloVolts));
    assert_eq!(RatioUnits::from_code(-1), None);
}
