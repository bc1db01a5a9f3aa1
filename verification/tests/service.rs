use micro_tower::registry::{Instance, Type};
use micro_tower::service::{connection_service, ConnectionError};

#[test]
fn connection_service_reads_bound_instance() {
    let mut registry = Type::default();
    registry.insert("echo".to_string(), Instance { tag: 3, handle: 9 });
    let instance = connection_service(&registry, &"echo".to_string(), 3).unwrap();
    assert_eq!(instance.handle, 9);
}

#[test]
fn missing_service_is_not_ready_by_name() {
    let registry = Type::default();
    match connection_service(&registry, &"echo".to_string(), 3) {
        Err(ConnectionError::NotReady(n)) => assert_eq!(n.0, "echo"),
        _ => panic!("expected a not-ready error"),
    }
}

#[test]
fn mismatched_tag_is_wrong_type() {
    let mut registry = Type::default();
    registry.insert("echo".to_string(), Instance { tag: 3, handle: 9 });
    assert!(matches!(
        connection_service(&registry, &"echo".to_string(), 4),
        Err(ConnectionError::WrongType)
    ));
}
