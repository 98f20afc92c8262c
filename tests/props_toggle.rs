use isek_rs::props::{toggle_properties, Property};

fn prop(name: &str, value: &str) -> Property {
    Property { name: name.to_string(), params: None, value: Some(value.to_string()) }
}

fn count(props: &[Property], name: &str) -> usize {
    props.iter().filter(|p| p.name == name).count()
}

fn base() -> Vec<Property> {
    vec![prop("UID", "task-1"), prop("SUMMARY", "Write report")]
}

#[test]
fn toggle_marks_open_todo_completed() {
    let mut props = base();
    let done = toggle_properties(&mut props, "20240105T120000Z".to_string());
    assert!(done);
    assert_eq!(props.len(), 5);
    assert_eq!(props[2], prop("COMPLETED", "20240105T120000Z"));
    assert_eq!(props[3], prop("STATUS", "COMPLETED"));
    assert_eq!(props[4], prop("PERCENT-COMPLETE", "100"));
}

#[test]
fn toggle_round_trip_restores_properties() {
    let mut props = base();
    toggle_properties(&mut props, "20240105T120000Z".to_string());
    let done = toggle_properties(&mut props, "20240106T120000Z".to_string());
    assert!(!done);
    assert_eq!(props, base());
    for name in ["COMPLETED", "STATUS", "PERCENT-COMPLETE"] {
        assert_eq!(count(&props, name), 0);
    }
}

#[test]
fn toggle_overwrites_existing_status_and_percent() {
    let mut props = vec![prop("UID", "a"), prop("STATUS", "NEEDS-ACTION"), prop("PERCENT-COMPLETE", "40")];
    toggle_properties(&mut props, "20240105T120000Z".to_string());
    assert_eq!(props.len(), 4);
    assert_eq!(props[1], prop("STATUS", "COMPLETED"));
    assert_eq!(props[2], prop("PERCENT-COMPLETE", "100"));
    assert_eq!(props[3], prop("COMPLETED", "20240105T120000Z"));
}

#[test]
fn toggle_twice_keeps_one_of_each() {
    let mut props = vec![prop("UID", "a"), prop("STATUS", "IN-PROCESS"), prop("SUMMARY", "s")];
    for stamp in ["20240101T000000Z", "20240102T000000Z", "20240103T000000Z", "20240104T000000Z"] {
        let was_done = count(&props, "COMPLETED") == 1;
        let done = toggle_properties(&mut props, stamp.to_string());
        assert_eq!(done, !was_done);
        for name in ["COMPLETED", "STATUS", "PERCENT-COMPLETE"] {
            assert!(count(&props, name) <= 1);
        }
    }
    assert_eq!(count(&props, "COMPLETED"), 0);
    assert_eq!(props.len(), 2);
}

#[test]
fn toggle_completed_todo_removes_managed_properties() {
    let mut props = vec![
        prop("COMPLETED", "20240101T000000Z"),
        prop("UID", "a"),
        prop("STATUS", "COMPLETED"),
        prop("SUMMARY", "s"),
        prop("PERCENT-COMPLETE", "100"),
    ];
    let done = toggle_properties(&mut props, "20240105T120000Z".to_string());
    assert!(!done);
    assert_eq!(props, vec![prop("SUMMARY", "s"), prop("UID", "a")]);
}
