use micro_tower::registry::Instance;
use micro_tower::resolver::{resolve, Descriptor};

fn descriptor(key: &str, deps: &[&str], handle: u64) -> Descriptor {
    Descriptor {
        key: key.to_string(),
        deps: deps.iter().map(|d| d.to_string()).collect(),
        instance: Instance { tag: 1, handle },
    }
}

#[test]
fn resolves_independent_services() {
    let descs = vec![descriptor("A", &[], 1), descriptor("B", &[], 2)];
    let registry = resolve(&descs).unwrap();
    assert_eq!(registry.len(), 2);
    assert!(registry.contains(&"A".to_string()));
    assert!(registry.contains(&"B".to_string()));
}

#[test]
fn resolves_dependency_after_its_provider() {
    let descs = vec![descriptor("A", &[], 1), descriptor("B", &["A"], 2)];
    let registry = resolve(&descs).unwrap();
    assert_eq!(registry.len(), 2);
    assert_eq!(registry.key_at(0).as_str(), "A");
    assert_eq!(registry.key_at(1).as_str(), "B");
    assert_eq!(registry.get(&"A".to_string(), 1).unwrap().unwrap().handle, 1);
    assert_eq!(registry.get(&"B".to_string(), 1).unwrap().unwrap().handle, 2);
}

#[test]
fn resolves_out_of_declaration_order() {
    // B is declared first but depends on A: a second pass creates it.
    let descs = vec![descriptor("B", &["A"], 2), descriptor("A", &[], 1)];
    let registry = resolve(&descs).unwrap();
    assert_eq!(registry.len(), 2);
    assert_eq!(registry.key_at(0).as_str(), "A");
    assert_eq!(registry.key_at(1).as_str(), "B");
}

#[test]
fn cycle_fails_and_names_a_participant() {
    let descs = vec![descriptor("X", &["Y"], 1), descriptor("Y", &["X"], 2)];
    let err = resolve(&descs).unwrap_err();
    assert!(err.unresolved == "X" || err.unresolved == "Y");
}

#[test]
fn self_cycle_fails() {
    let descs = vec![descriptor("X", &["X"], 1)];
    let err = resolve(&descs).unwrap_err();
    assert_eq!(err.unresolved, "X");
}

#[test]
fn missing_dependency_fails() {
    let descs = vec![descriptor("A", &["Ghostly"], 1)];
    let err = resolve(&descs).unwrap_err();
    assert_eq!(err.unresolved, "A");
}

#[test]
fn empty_set_resolves_to_empty_registry() {
    let descs: Vec<Descriptor> = Vec::new();
    let registry = resolve(&descs).unwrap();
    assert_eq!(registry.len(), 0);
}

#[test]
fn long_chain_resolves_in_dependency_order() {
    // Declared in reverse: each pass creates exactly one service.
    let descs = vec![
        descriptor("D", &["C"], 4),
        descriptor("C", &["B"], 3),
        descriptor("B", &["A"], 2),
        descriptor("A", &[], 1),
    ];
    let registry = resolve(&descs).unwrap();
    assert_eq!(registry.len(), 4);
    assert_eq!(registry.key_at(0).as_str(), "A");
    assert_eq!(registry.key_at(1).as_str(), "B");
    assert_eq!(registry.key_at(2).as_str(), "C");
    assert_eq!(registry.key_at(3).as_str(), "D");
}
