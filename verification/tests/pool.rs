use micro_tower::pool::{Error, Layer, Pool, State};

fn service_moc(request: usize, num: usize) -> usize {
    request + num
}

fn ready_pool(size: usize) -> Pool {
    let mut pool = Pool::with_size(size);
    for _ in 0..size {
        pool.on_created();
    }
    pool
}

#[test]
fn call_pool() {
    let mut pool = ready_pool(4);
    assert_eq!(pool.ready(), Ok(true));
    let idx = pool.call();
    let rep = service_moc(22, 42);
    pool.complete(idx);
    assert_eq!(rep, 64);
}

#[test]
fn multi_call_pool() {
    let mut pool = ready_pool(4);
    for _ in 0..128 {
        assert_eq!(pool.ready(), Ok(true));
        let idx = pool.call();
        let rep = service_moc(22, 42);
        pool.complete(idx);
        assert_eq!(rep, 64);
    }
}

#[test]
fn pool_not_ready_while_pending() {
    let mut pool = Pool::with_size(2);
    assert_eq!(pool.ready(), Ok(false));
    pool.on_created();
    assert_eq!(pool.ready(), Ok(false));
    pool.on_created();
    assert_eq!(pool.ready(), Ok(true));
}

#[test]
fn pool_dispatches_to_least_loaded() {
    let mut pool = ready_pool(3);
    // Three calls in flight must land on three distinct instances.
    let a = pool.call();
    let b = pool.call();
    let c = pool.call();
    let mut seen = [false; 3];
    seen[a] = true;
    seen[b] = true;
    seen[c] = true;
    assert_eq!(seen, [true, true, true]);
    // After one completes, the next call goes to that now-idle instance.
    pool.complete(b);
    assert_eq!(pool.call(), b);
}

#[test]
fn pool_failure_is_terminal() {
    let mut pool = Pool::with_size(3);
    pool.on_created();
    pool.on_create_failed();
    assert_eq!(pool.ready(), Err(Error::Failed));
    assert_eq!(pool.ready(), Err(Error::Failed));
    assert!(matches!(pool.state, State::Failed));
}

#[test]
fn pool_failure_at_first_position_is_terminal() {
    let mut pool = Pool::with_size(3);
    pool.on_create_failed();
    assert_eq!(pool.ready(), Err(Error::Failed));
}

#[test]
fn pool_echo_sequential_requests() {
    // A pool of three stateless echo instances serves 100 sequential
    // requests; every reply equals its input and nothing errors.
    let mut pool = ready_pool(3);
    for i in 0..100_usize {
        assert_eq!(pool.ready(), Ok(true));
        let idx = pool.call();
        let reply = i;
        pool.complete(idx);
        assert_eq!(reply, i);
    }
}

#[test]
fn pool_layer_carries_size_and_target() {
    let layer = Layer::with_size(4, "target");
    assert_eq!(layer.size, 4);
    assert_eq!(layer.target, "target");
    let pool = layer.layer();
    assert!(matches!(pool.state, State::Pending { created: 0, size: 4 }));
}
