use vstd::prelude::*;
use crate::atoms::AtomTable;
use crate::model::State;
use crate::synthesis::SynthesisError;

verus! {

/// Where the change-driven loop stands.
#[derive(Clone, Copy, Debug, PartialEq, Eq, Structural)]
pub enum Phase {
    /// Connected; the first snapshot is not out yet.
    Init,
    /// Watching the root windows and answering property changes.
    Running,
    /// A failure ended the run.
    Fatal,
}

/// What the loop learns from its surroundings.
#[derive(Debug)]
pub enum LoopEvent {
    /// The connection is established.
    Started,
    /// A synthesis pass ended, with a snapshot or with the reason it failed.
    Synthesized(Result<State, SynthesisError>),
    /// A property of `window` changed; `atom` names the property.
    PropertyChanged { window: u32, atom: u32 },
    /// Any other protocol event.
    Other,
    /// Waiting for the next event failed.
    TransportFailed,
}

/// What the loop asks its surroundings to do next.
#[derive(Debug)]
pub enum LoopAction {
    /// Run one synthesis pass and report it as [`LoopEvent::Synthesized`].
    Synthesize,
    /// Emit the first snapshot, register for property changes on the root
    /// windows, and wait for the next event.
    EmitAndWatch(State),
    /// Emit the snapshot and wait for the next event.
    Emit(State),
    /// Wait for the next event.
    Wait,
    /// End the run with a failure status.
    Terminate,
}

/// Whether `w` is one of the watched root windows.
pub open spec fn watched(roots: Seq<u32>, w: u32) -> bool {
    roots.contains(w)
}

/// Whether a property change of `window`'s `atom` calls for a new snapshot.
pub open spec fn triggers(atoms: AtomTable, roots: Seq<u32>, window: u32, atom: u32) -> bool {
    watched(roots, window) && atoms.interesting(atom)
}

/// The loop's transition: the next phase and the action for an event.
pub open spec fn next(phase: Phase, atoms: AtomTable, roots: Seq<u32>, e: LoopEvent) -> (Phase, LoopAction) {
    match phase {
        Phase::Fatal => (Phase::Fatal, LoopAction::Terminate),
        Phase::Init => match e {
            LoopEvent::Started => (Phase::Init, LoopAction::Synthesize),
            LoopEvent::Synthesized(Ok(s)) => (Phase::Running, LoopAction::EmitAndWatch(s)),
            LoopEvent::Synthesized(Err(_)) => (Phase::Fatal, LoopAction::Terminate),
            LoopEvent::TransportFailed => (Phase::Fatal, LoopAction::Terminate),
            LoopEvent::PropertyChanged { .. } => (Phase::Init, LoopAction::Wait),
            LoopEvent::Other => (Phase::Init, LoopAction::Wait),
        },
        Phase::Running => match e {
            LoopEvent::Started => (Phase::Running, LoopAction::Wait),
            LoopEvent::Synthesized(Ok(s)) => (Phase::Running, LoopAction::Emit(s)),
            LoopEvent::Synthesized(Err(_)) => (Phase::Fatal, LoopAction::Terminate),
            LoopEvent::TransportFailed => (Phase::Fatal, LoopAction::Terminate),
            LoopEvent::PropertyChanged { window, atom } => if triggers(atoms, roots, window, atom) {
                (Phase::Running, LoopAction::Synthesize)
            } else {
                (Phase::Running, LoopAction::Wait)
            },
            LoopEvent::Other => (Phase::Running, LoopAction::Wait),
        },
    }
}

/// The change-driven loop: its phase, the connection's atoms, and the root
/// windows it watches.
#[derive(Debug)]
pub struct ChangeLoop {
    pub phase: Phase,
    pub atoms: AtomTable,
    pub roots: Vec<u32>,
}

/// Whether `w` is one of `roots`.
pub fn is_watched(roots: &Vec<u32>, w: u32) -> (r: bool)
    ensures
        r == watched(roots@, w),
{
    let mut i: usize = 0;
    while i < roots.len()
        invariant
            i <= roots@.len(),
            forall|k: int| 0 <= k < i ==> roots@[k] != w,
        decreases roots@.len() - i,
    {
        if roots[i] == w {
            assert(roots@[i as int] == w);
            return true;
        }
        i = i + 1;
    }
    false
}

impl ChangeLoop {
    /// A loop in its initial phase over the connection's atoms and root windows.
    pub fn new(atoms: AtomTable, roots: Vec<u32>) -> (r: ChangeLoop)
        ensures
            r.phase == Phase::Init,
            r.atoms == atoms,
            r.roots == roots,
    {
        ChangeLoop { phase: Phase::Init, atoms, roots }
    }

    /// Takes one event and returns what to do next.
    pub fn step(&mut self, e: LoopEvent) -> (r: LoopAction)
        ensures
            (final(self).phase, r) == next(old(self).phase, old(self).atoms, old(self).roots@, e),
            final(self).atoms == old(self).atoms,
            final(self).roots == old(self).roots,
    {
        match self.phase {
            Phase::Fatal => LoopAction::Terminate,
            Phase::Init => match e {
                LoopEvent::Started => LoopAction::Synthesize,
                LoopEvent::Synthesized(Ok(s)) => {
                    self.phase = Phase::Running;
                    LoopAction::EmitAndWatch(s)
                },
                LoopEvent::Synthesized(Err(_)) => {
                    self.phase = Phase::Fatal;
                    LoopAction::Terminate
                },
                LoopEvent::TransportFailed => {
                    self.phase = Phase::Fatal;
                    LoopAction::Terminate
                },
                LoopEvent::PropertyChanged { .. } => LoopAction::Wait,
                LoopEvent::Other => LoopAction::Wait,
            },
            Phase::Running => match e {
                LoopEvent::Started => LoopAction::Wait,
                LoopEvent::Synthesized(Ok(s)) => LoopAction::Emit(s),
                LoopEvent::Synthesized(Err(_)) => {
                    self.phase = Phase::Fatal;
                    LoopAction::Terminate
                },
                LoopEvent::TransportFailed => {
                    self.phase = Phase::Fatal;
                    LoopAction::Terminate
                },
                LoopEvent::PropertyChanged { window, atom } => {
                    if is_watched(&self.roots, window)
                        && self.atoms.is_interesting_root_property_change(atom) {
                        LoopAction::Synthesize
                    } else {
                        LoopAction::Wait
                    }
                },
                LoopEvent::Other => LoopAction::Wait,
            },
        }
    }
}

/// A property change on a window that is not watched, or of a property outside
/// the interesting set, never asks for a synthesis pass: the loop keeps its
/// phase and waits on (or, once failed, stays terminated).
pub proof fn lemma_ignored_change_no_synthesis(
    phase: Phase,
    atoms: AtomTable,
    roots: Seq<u32>,
    window: u32,
    atom: u32,
)
    requires
        !watched(roots, window) || !atoms.interesting(atom),
    ensures
        next(phase, atoms, roots, LoopEvent::PropertyChanged { window, atom }).0 == phase,
        !(next(phase, atoms, roots, LoopEvent::PropertyChanged { window, atom }).1 is Synthesize),
{
}

/// Any event that is not a property change never asks for a synthesis pass
/// once the loop is running.
pub proof fn lemma_other_event_no_synthesis(atoms: AtomTable, roots: Seq<u32>)
    ensures
        next(Phase::Running, atoms, roots, LoopEvent::Other) == (Phase::Running, LoopAction::Wait),
{
}

/// A failed synthesis pass emits no snapshot and ends the run, and once the
/// run has ended no event leads to another emission or pass.
pub proof fn lemma_failure_is_fatal(
    phase: Phase,
    atoms: AtomTable,
    roots: Seq<u32>,
    err: SynthesisError,
    e: LoopEvent,
)
    requires
        phase != Phase::Fatal,
    ensures
        next(phase, atoms, roots, LoopEvent::Synthesized(Err(err))) == (
            Phase::Fatal,
            LoopAction::Terminate,
        ),
        next(phase, atoms, roots, LoopEvent::TransportFailed) == (Phase::Fatal, LoopAction::Terminate),
        next(Phase::Fatal, atoms, roots, e) == (Phase::Fatal, LoopAction::Terminate),
{
}

} // verus!
