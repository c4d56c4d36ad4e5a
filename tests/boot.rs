use maestro::boot::{next_phase, BootEvent, BootPhase};

#[test]
fn successful_start_up_reaches_ready() {
    let mut p = BootPhase::Uninitialized;
    p = next_phase(p, BootEvent::Begin);
    assert_eq!(p, BootPhase::Opening);
    p = next_phase(p, BootEvent::Opened { watermark: 2 });
    assert_eq!(p, BootPhase::Migrating { version: 2 });
    p = next_phase(p, BootEvent::Applied { version: 3 });
    assert_eq!(p, BootPhase::Migrating { version: 3 });
    p = next_phase(p, BootEvent::Completed);
    assert_eq!(p, BootPhase::Ready);
    assert_eq!(next_phase(p, BootEvent::Error), BootPhase::Ready);
}

#[test]
fn errors_are_fatal() {
    assert_eq!(next_phase(BootPhase::Uninitialized, BootEvent::Error), BootPhase::Failed);
    assert_eq!(next_phase(BootPhase::Opening, BootEvent::Error), BootPhase::Failed);
    assert_eq!(next_phase(BootPhase::Migrating { version: 1 }, BootEvent::Error), BootPhase::Failed);
    assert_eq!(next_phase(BootPhase::Failed, BootEvent::Begin), BootPhase::Failed);
    assert_eq!(next_phase(BootPhase::Failed, BootEvent::Completed), BootPhase::Failed);
}

#[test]
fn out_of_order_events_fail() {
    assert_eq!(next_phase(BootPhase::Uninitialized, BootEvent::Completed), BootPhase::Failed);
    assert_eq!(next_phase(BootPhase::Opening, BootEvent::Applied { version: 1 }), BootPhase::Failed);
    assert_eq!(next_phase(BootPhase::Migrating { version: 3 }, BootEvent::Applied { version: 3 }), BootPhase::Failed);
    assert_eq!(next_phase(BootPhase::Migrating { version: 3 }, BootEvent::Applied { version: 2 }), BootPhase::Failed);
}
