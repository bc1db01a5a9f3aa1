use micro_tower::registry::{Instance, Type};

#[test]
fn default() {
    let _reg = Type::default();
}

#[test]
fn insert() {
    let mut registry = Type::default();

    registry.insert("key".to_string(), Instance { tag: 1, handle: 42 });
}

#[test]
fn registry_get() {
    let mut registry = Type::default();

    registry.insert("key".to_string(), Instance { tag: 1, handle: 42 });
    assert_eq!(registry.get(&"key".to_string(), 1).unwrap().unwrap().handle, 42)
}

#[test]
fn get_mut() {
    let mut registry = Type::default();

    registry.insert("key".to_string(), Instance { tag: 1, handle: 42 });
    assert_eq!(registry.get_mut(&"key".to_string(), 1).unwrap().unwrap().handle, 42)
}

#[test]
fn get_missing() {
    let mut registry = Type::default();

    registry.insert("key".to_string(), Instance { tag: 1, handle: 42 });
    assert!(registry.get_mut(&"key2".to_string(), 1).unwrap().is_none())
}

#[test]
fn get_error() {
    let mut registry = Type::default();

    registry.insert("key".to_string(), Instance { tag: 1, handle: 42 });
    assert!(registry.get_mut(&"key".to_string(), 2).is_err())
}

#[test]
fn insert_returns_old_value() {
    let mut registry = Type::default();

    assert!(registry.insert("key".to_string(), Instance { tag: 1, handle: 42 }).is_none());
    let old = registry.insert("key".to_string(), Instance { tag: 1, handle: 7 });
    assert_eq!(old, Some(Instance { tag: 1, handle: 42 }));
    assert_eq!(registry.get(&"key".to_string(), 1).unwrap().unwrap().handle, 7);
    assert_eq!(registry.len(), 1);
}

#[test]
fn contains_reports_presence() {
    let mut registry = Type::default();

    assert!(!registry.contains(&"key".to_string()));
    registry.insert("key".to_string(), Instance { tag: 1, handle: 42 });
    assert!(registry.contains(&"key".to_string()));
}
