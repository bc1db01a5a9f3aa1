use micro_tower::shutdown::Controller;

#[test]
fn root_starts_uncancelled() {
    let ctrl = Controller::new();
    assert_eq!(ctrl.len(), 1);
    assert!(!ctrl.is_cancelled(0));
}

#[test]
fn root_cancel_reaches_every_descendant() {
    let mut ctrl = Controller::new();
    let a = ctrl.child(0);
    let b = ctrl.child(0);
    let aa = ctrl.child(a);
    let ab = ctrl.child(a);
    let aaa = ctrl.child(aa);
    ctrl.shutdown(0);
    for id in [0, a, b, aa, ab, aaa] {
        assert!(ctrl.is_cancelled(id));
    }
}

#[test]
fn child_cancel_spares_parent_and_siblings() {
    let mut ctrl = Controller::new();
    let a = ctrl.child(0);
    let b = ctrl.child(0);
    let aa = ctrl.child(a);
    ctrl.shutdown(a);
    assert!(ctrl.is_cancelled(a));
    assert!(ctrl.is_cancelled(aa));
    assert!(!ctrl.is_cancelled(0));
    assert!(!ctrl.is_cancelled(b));
}

#[test]
fn cancel_is_idempotent() {
    let mut ctrl = Controller::new();
    let a = ctrl.child(0);
    ctrl.shutdown(a);
    ctrl.shutdown(a);
    assert!(ctrl.is_cancelled(a));
    assert!(!ctrl.is_cancelled(0));
}

#[test]
fn child_of_cancelled_parent_is_born_cancelled() {
    let mut ctrl = Controller::new();
    ctrl.shutdown(0);
    let a = ctrl.child(0);
    assert!(ctrl.is_cancelled(a));
}
