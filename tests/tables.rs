use power_flow::tables::{BusSubstation, MultiSectionLineGroups33, SwitchedShunts33};

#[test]
fn record_tables_hold_their_values() {
    let a = BusSubstation { i: 101, sub: 7 };
    let b = a;
    assert_eq!(a, b);
    assert_eq!(b.sub, 7);

    let shunts = SwitchedShunts33 { adjm: vec![false, true], stat: vec![true, true] };
    assert_eq!(shunts.adjm.len(), shunts.stat.len());
    assert!(SwitchedShunts33::default().adjm.is_empty());

    let groups = MultiSectionLineGroups33 { met: vec![1, 2] };
    assert_eq!(groups.clone().met, vec![1, 2]);
    assert!(MultiSectionLineGroups33::default().met.is_empty());
}
