use vstd::prelude::*;

verus! {

/// Where the start-up of the database stands.
#[derive(Clone, Copy, Debug, PartialEq, Eq, Structural)]
pub enum BootPhase {
    Uninitialized,
    Opening,
    /// Migrating, with the highest version applied so far.
    Migrating { version: u64 },
    Ready,
    /// Start-up failed; the application must not serve commands.
    Failed,
}

/// What the host reports back to the start-up sequence.
#[derive(Clone, Copy, Debug, PartialEq, Eq, Structural)]
pub enum BootEvent {
    /// Start-up begins: the database file is being opened.
    Begin,
    /// The file is open; it records this watermark.
    Opened { watermark: u64 },
    /// The migration of this version was applied.
    Applied { version: u64 },
    /// No migration is left to apply.
    Completed,
    /// Opening the file or applying a statement failed.
    Error,
}

/// The phase after `event` in phase `phase`. The sequence runs
/// Uninitialized, Opening, Migrating, Ready; any error before Ready, and any event
/// out of that order, ends in Failed, from which nothing leaves. Ready ignores events.
pub open spec fn next_phase_spec(phase: BootPhase, event: BootEvent) -> BootPhase {
    match (phase, event) {
        (BootPhase::Ready, _) => BootPhase::Ready,
        (BootPhase::Failed, _) => BootPhase::Failed,
        (BootPhase::Uninitialized, BootEvent::Begin) => BootPhase::Opening,
        (BootPhase::Opening, BootEvent::Opened { watermark }) => BootPhase::Migrating {
            version: watermark,
        },
        (BootPhase::Migrating { version: k }, BootEvent::Applied { version }) => if version > k {
            BootPhase::Migrating { version }
        } else {
            BootPhase::Failed
        },
        (BootPhase::Migrating { .. }, BootEvent::Completed) => BootPhase::Ready,
        _ => BootPhase::Failed,
    }
}

/// Advances the start-up sequence by one event.
pub fn next_phase(phase: BootPhase, event: BootEvent) -> (r: BootPhase)
    ensures
        r == next_phase_spec(phase, event),
{
    match phase {
        BootPhase::Ready => BootPhase::Ready,
        BootPhase::Failed => BootPhase::Failed,
        BootPhase::Uninitialized => match event {
            BootEvent::Begin => BootPhase::Opening,
            _ => BootPhase::Failed,
        },
        BootPhase::Opening => match event {
            BootEvent::Opened { watermark } => BootPhase::Migrating { version: watermark },
            _ => BootPhase::Failed,
        },
        BootPhase::Migrating { version: k } => match event {
            BootEvent::Applied { version } => {
                if version > k {
                    BootPhase::Migrating { version }
                } else {
                    BootPhase::Failed
                }
            },
            BootEvent::Completed => BootPhase::Ready,
            _ => BootPhase::Failed,
        },
    }
}

/// Failed is terminal, and while migrating the recorded version only grows.
pub proof fn lemma_phase_progress(phase: BootPhase, event: BootEvent)
    ensures
        phase == BootPhase::Failed ==> next_phase_spec(phase, event) == BootPhase::Failed,
        match (phase, next_phase_spec(phase, event)) {
            (BootPhase::Migrating { version: a }, BootPhase::Migrating { version: b }) => a < b,
            _ => true,
        },
{
}

} // verus!
