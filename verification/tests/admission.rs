use grit::admission::AdmissionController;
use grit::admission::ConfigurationError;

#[test]
fn zero_capacity_is_a_configuration_error() {
    let r = AdmissionController::new(0);
    assert!(matches!(r, Err(ConfigurationError::ZeroConcurrency)));
}

#[test]
fn controller_grants_at_most_capacity_permits() {
    let mut c = match AdmissionController::new(2) {
        Ok(c) => c,
        Err(_) => panic!("a capacity of two must be accepted"),
    };
    assert_eq!(c.capacity(), 2);
    let p1 = match c.try_acquire() {
        Some(p) => p,
        None => panic!("first slot must be free"),
    };
    let p2 = match c.try_acquire() {
        Some(p) => p,
        None => panic!("second slot must be free"),
    };
    assert!(c.try_acquire().is_none());
    assert_eq!(c.in_flight_count(), 2);
    c.release(p1);
    assert_eq!(c.in_flight_count(), 1);
    let p3 = match c.try_acquire() {
        Some(p) => p,
        None => panic!("a released slot must be free again"),
    };
    c.release(p2);
    c.release(p3);
    assert_eq!(c.in_flight_count(), 0);
    assert_eq!(c.acquired_count(), 3);
    assert_eq!(c.released_count(), 3);
}
