//! Identifiers of the two execution sessions of a genesis run.

use vstd::prelude::*;

verus! {

/// Length of a session identifier in bytes.
pub const SESSION_ID_LENGTH: usize = 32;

/// The two sessions of a genesis run, in the order in which they execute.
#[derive(Clone, Copy, Debug, PartialEq, Eq, Structural)]
pub enum SessionPhase {
    /// On-chain initialization.
    Initialization,
    /// Publication of the framework.
    Publication,
}

/// A 32-byte session identifier, unique within one genesis run.
#[derive(Clone, Copy, Debug, PartialEq, Eq)]
pub struct SessionId {
    pub hash: [u8; 32],
}

/// The byte that tells the identifiers of the two sessions apart.
pub open spec fn phase_byte(phase: SessionPhase) -> u8 {
    match phase {
        SessionPhase::Initialization => 0u8,
        SessionPhase::Publication => 1u8,
    }
}

/// The identifier of a session: the all-zero seed with its last byte set to
/// the byte of the phase.
pub open spec fn session_hash(phase: SessionPhase) -> Seq<u8> {
    Seq::new(SESSION_ID_LENGTH as nat, |i: int| if i == SESSION_ID_LENGTH - 1 {
        phase_byte(phase)
    } else {
        0u8
    })
}

/// Derives the identifier of a session from the fixed seed.
pub fn session_id(phase: SessionPhase) -> (id: SessionId)
    ensures
        id.hash@ == session_hash(phase),
{
    let mut hash = [0u8; 32];
    match phase {
        SessionPhase::Initialization => {},
        SessionPhase::Publication => {
            hash[31] = 1;
        },
    }
    assert(hash@ =~= session_hash(phase));
    SessionId { hash }
}

/// The two sessions of a run never share an identifier.
pub proof fn lemma_session_ids_distinct(a: SessionPhase, b: SessionPhase)
    requires
        a != b,
    ensures
        session_hash(a) != session_hash(b),
{
    assert(session_hash(a)[SESSION_ID_LENGTH - 1] == phase_byte(a));
    assert(session_hash(b)[SESSION_ID_LENGTH - 1] == phase_byte(b));
}

} // verus!
