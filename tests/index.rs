use power_flow::index::{IndexError, MagnitudeStart, UnknownIndex, GEN_BUS, LOAD_BUS, SLACK_BUS};

#[test]
fn layout_of_the_unknown_vector() {
    let buses = vec![(10, LOAD_BUS), (20, SLACK_BUS), (30, GEN_BUS)];
    let gens = vec![30, 20, 20, 10];
    let ix = UnknownIndex::new(&buses, &gens).unwrap();
    assert_eq!(ix.n_buses(), 3);
    assert_eq!(ix.n_generators(), 4);
    assert_eq!(ix.slack(), 20);
    assert_eq!(ix.angle_index(10), Some(0));
    assert_eq!(ix.angle_index(30), Some(2));
    assert_eq!(ix.magnitude_index(10), Some(3));
    assert_eq!(ix.magnitude_index(30), Some(5));
    assert_eq!(ix.angle_index(99), None);
    assert_eq!(ix.magnitude_index(99), None);
    assert_eq!(ix.reactive_index(0), 6);
    assert_eq!(ix.reactive_index(3), 9);
    assert_eq!(ix.active_index(0), None);
    assert_eq!(ix.active_index(1), Some(10));
    assert_eq!(ix.active_index(2), Some(11));
    assert_eq!(ix.active_index(3), None);
    assert_eq!(ix.len(), 12);
}

#[test]
fn no_slack_bus_is_refused() {
    let r = UnknownIndex::new(&vec![(1, LOAD_BUS), (2, GEN_BUS)], &vec![2]);
    assert_eq!(r.err(), Some(IndexError::NoSlackBus));
    let r = UnknownIndex::new(&vec![], &vec![]);
    assert_eq!(r.err(), Some(IndexError::NoSlackBus));
}

#[test]
fn two_slack_buses_are_refused() {
    let r = UnknownIndex::new(&vec![(1, SLACK_BUS), (2, GEN_BUS), (3, SLACK_BUS)], &vec![1]);
    assert_eq!(r.err(), Some(IndexError::MultipleSlackBuses));
}

#[test]
fn duplicate_bus_is_refused() {
    let r = UnknownIndex::new(&vec![(1, SLACK_BUS), (2, LOAD_BUS), (2, GEN_BUS)], &vec![1]);
    assert_eq!(r.err(), Some(IndexError::DuplicateBus(2)));
}

#[test]
fn generator_at_unknown_bus_is_refused() {
    let r = UnknownIndex::new(&vec![(1, SLACK_BUS), (2, LOAD_BUS)], &vec![1, 7]);
    assert_eq!(r.err(), Some(IndexError::UnknownGeneratorBus(7)));
}

#[test]
fn two_bus_case_layout() {
    // slack grid bus with one generator, and a generator modelled at bus 2
    let ix = UnknownIndex::new(&vec![(1, SLACK_BUS), (2, LOAD_BUS)], &vec![1, 2]).unwrap();
    assert_eq!(ix.reactive_index(0), 4);
    assert_eq!(ix.reactive_index(1), 5);
    assert_eq!(ix.active_index(0), Some(6));
    assert_eq!(ix.active_index(1), None);
    assert_eq!(ix.len(), 7);
}

#[test]
fn magnitude_starts_prefer_the_last_setpoint() {
    let buses = vec![(1, SLACK_BUS), (2, GEN_BUS), (3, LOAD_BUS), (4, LOAD_BUS)];
    let gens = vec![1, 2, 2, 2, 3];
    let ix = UnknownIndex::new(&buses, &gens).unwrap();
    let has_magnitude = vec![true, true, false, true];
    let has_setpoint = vec![true, true, true, false, false];
    let starts = ix.magnitude_starts(&has_magnitude, &has_setpoint);
    assert_eq!(
        starts,
        vec![
            MagnitudeStart::Setpoint(0),
            MagnitudeStart::Setpoint(2),
            MagnitudeStart::Flat,
            MagnitudeStart::Given,
        ]
    );
}
