use power_flow::colocated::{colocated_groups, same_group, GeneratorKey};

fn key(bus: i32, id: &str, online: bool) -> GeneratorKey {
    GeneratorKey { bus, id: id.to_string(), online }
}

#[test]
fn groups_share_bus_and_identifier() {
    let gs = vec![
        key(1, "1", true),
        key(2, "1", true),
        key(1, "1", true),
        key(2, "2", true),
        key(2, "1", true),
        key(1, "1", true),
    ];
    assert_eq!(colocated_groups(&gs), vec![vec![0, 2, 5], vec![1, 4]]);
}

#[test]
fn offline_generators_are_left_out() {
    let gs = vec![key(1, "1", false), key(1, "1", true), key(1, "1", true)];
    assert_eq!(colocated_groups(&gs), vec![vec![1, 2]]);
    let gs = vec![key(1, "1", false), key(1, "1", true)];
    assert!(colocated_groups(&gs).is_empty());
    assert!(!same_group(&gs, 0, 1));
}

#[test]
fn single_machines_form_no_group() {
    let gs = vec![key(1, "1", true), key(2, "1", true)];
    assert!(colocated_groups(&gs).is_empty());
    assert!(colocated_groups(&vec![]).is_empty());
}
