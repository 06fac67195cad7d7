use kdownloader::gate::AdmissionGate;

#[test]
fn gate_admits_up_to_its_limit() {
    let mut gate = AdmissionGate::new(3);
    assert_eq!(gate.capacity(), 3);
    assert_eq!(gate.in_use(), 0);
    assert!(gate.try_acquire());
    assert!(gate.try_acquire());
    assert!(gate.try_acquire());
    assert_eq!(gate.in_use(), 3);
    assert!(!gate.try_acquire());
    assert_eq!(gate.in_use(), 3);
    gate.release();
    assert_eq!(gate.in_use(), 2);
    assert!(gate.try_acquire());
    assert!(!gate.try_acquire());
}

#[test]
fn gate_without_slots_admits_nobody() {
    let mut gate = AdmissionGate::new(0);
    assert!(!gate.try_acquire());
    assert_eq!(gate.in_use(), 0);
}

#[test]
fn release_of_an_idle_gate_changes_nothing() {
    let mut gate = AdmissionGate::new(2);
    gate.release();
    assert_eq!(gate.in_use(), 0);
    assert_eq!(gate.capacity(), 2);
    assert!(gate.try_acquire());
    assert!(gate.try_acquire());
    assert!(!gate.try_acquire());
}
