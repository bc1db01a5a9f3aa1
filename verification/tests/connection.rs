use micro_tower::connection::{Connection, GetConnection};

pub struct ConnectionStub(usize);
pub struct ConnectionManager(usize);

impl GetConnection for ConnectionManager {
    type Output = ConnectionStub;

    fn try_get(&mut self) -> Option<Self::Output> {
        if self.0 >= 1 {
            Some(ConnectionStub(self.0))
        } else {
            self.0 += 1;
            None
        }
    }
}

#[test]
fn connection_new() {
    let _ = Connection::new(ConnectionManager(42));
}

#[test]
fn connection_get() {
    let mut conn = Connection::new(ConnectionManager(42));
    let c = conn.get(8).unwrap();
    assert_eq!(c.0, 42);
}

#[test]
fn connection_get_suspend() {
    let mut conn = Connection::new(ConnectionManager(0));
    let c = conn.get(8).unwrap();
    assert_eq!(c.0, 1);
    let c = conn.get(8).unwrap();
    assert_eq!(c.0, 1);
}

#[test]
fn connection_get_exhausted() {
    let mut conn = Connection::new(ConnectionManager(0));
    assert!(conn.get(1).is_none());
}
