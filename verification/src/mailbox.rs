//! Rendezvous mailbox: a process-wide store of per-session FIFO queues that
//! lets two peers hand connection-setup messages through an untrusted relay
//! before a direct transport session exists.
use vstd::prelude::*;
use vstd::string::{StrSliceExecFns, StringExecFns};
use dashmap::DashMap;
use crate::errors::DropError;

verus! {

/// Opaque connection-setup payload relayed between two peers: a tag such as
/// offer, answer or candidate, and a payload string the mailbox never
/// interprets.
#[derive(Debug)]
pub struct SignalingMessage {
    pub message_type: String,
    pub payload: String,
}

impl View for SignalingMessage {
    type V = (Seq<char>, Seq<char>);

    open spec fn view(&self) -> (Seq<char>, Seq<char>) {
        (self.message_type@, self.payload@)
    }
}

impl Clone for SignalingMessage {
    fn clone(&self) -> (r: Self)
        ensures
            r@ == self@,
    {
        SignalingMessage {
            message_type: self.message_type.clone(),
            payload: self.payload.clone(),
        }
    }
}

/// Reply handed to the peer that opened a rendezvous session.
#[derive(Debug)]
pub struct CreateSessionResponse {
    pub session_id: String,
}

#[verifier::external_type_specification]
#[verifier::external_body]
#[verifier::reject_recursive_types(K)]
#[verifier::reject_recursive_types(V)]
#[verifier::reject_recursive_types(S)]
pub struct ExDashMap<K, V, S>(DashMap<K, V, S>);

/// What the session store holds: each live session identifier, mapped to the
/// queue of messages pending for the other peer, oldest first, each message as
/// its (type, payload) pair of character sequences.
pub uninterp spec fn sessions_of(
    m: DashMap<String, Vec<SignalingMessage>>,
) -> Map<Seq<char>, Seq<(Seq<char>, Seq<char>)>>;

/// A session store with no sessions at all.
pub open spec fn empty_sessions() -> Map<Seq<char>, Seq<(Seq<char>, Seq<char>)>> {
    Map::empty()
}

/// Relies on dashmap::DashMap::new: a freshly created map holds nothing.
#[verifier::external_body]
fn sessions_new() -> (r: DashMap<String, Vec<SignalingMessage>>)
    ensures
        sessions_of(r) == empty_sessions(),
{
    DashMap::new()
}

/// Relies on dashmap::DashMap::contains_key: whether any queue lives under
/// this identifier.
#[verifier::external_body]
fn sessions_contains(m: &DashMap<String, Vec<SignalingMessage>>, id: &String) -> (r: bool)
    ensures
        r == sessions_of(*m).dom().contains(id@),
{
    m.contains_key(id)
}

/// Relies on dashmap::DashMap::insert: binds this identifier to this queue,
/// replacing any queue it held before.
#[verifier::external_body]
fn sessions_insert(
    m: &mut DashMap<String, Vec<SignalingMessage>>,
    id: String,
    queue: Vec<SignalingMessage>,
)
    ensures
        sessions_of(*final(m)) == sessions_of(*old(m)).insert(
            id@,
            queue@.map_values(|x: SignalingMessage| x@),
        ),
{
    m.insert(id, queue);
}

/// Relies on dashmap::DashMap::get_mut: appends one message to the queue under
/// a live identifier, while the entry's shard lock is held; reports whether
/// the identifier was live.
#[verifier::external_body]
fn sessions_push(
    m: &mut DashMap<String, Vec<SignalingMessage>>,
    id: &String,
    message: SignalingMessage,
) -> (r: bool)
    ensures
        sessions_of(*old(m)).dom().contains(id@) ==> r && sessions_of(*final(m)) == sessions_of(
            *old(m),
        ).insert(id@, sessions_of(*old(m))[id@].push(message@)),
        !sessions_of(*old(m)).dom().contains(id@) ==> !r && sessions_of(*final(m)) == sessions_of(
            *old(m),
        ),
{
    match m.get_mut(id) {
        Some(mut queue) => {
            queue.push(message);
            true
        },
        None => false,
    }
}

/// Relies on dashmap::DashMap::get_mut and Vec::drain: takes every queued
/// message under a live identifier in one step while the entry's shard lock is
/// held, oldest first, leaving the queue empty; None when the identifier is
/// unknown.
#[verifier::external_body]
fn sessions_drain(m: &mut DashMap<String, Vec<SignalingMessage>>, id: &String) -> (r: Option<
    Vec<SignalingMessage>,
>)
    ensures
        sessions_of(*old(m)).dom().contains(id@) ==> (r matches Some(v) && v@.map_values(
            |x: SignalingMessage| x@,
        ) == sessions_of(*old(m))[id@]) && sessions_of(*final(m)) == sessions_of(*old(m)).insert(
            id@,
            Seq::empty(),
        ),
        !sessions_of(*old(m)).dom().contains(id@) ==> r is None && sessions_of(*final(m))
            == sessions_of(*old(m)),
{
    match m.get_mut(id) {
        Some(mut queue) => Some(queue.drain(..).collect()),
        None => None,
    }
}

/// Relies on rand::random_range over 0..n (the thread-local generator): the
/// result is always below `n`; nothing more is assumed of it.
#[verifier::external_body]
fn random_below(n: usize) -> (r: usize)
    requires
        n >= 1,
    ensures
        r < n,
{
    rand::random_range(0..n)
}

/// Length of every generated session code.
pub const SESSION_CODE_LEN: usize = 6;

/// Bound on fresh-identifier draws before session creation reports failure.
pub const MAX_CODE_ATTEMPTS: usize = 16;

/// The alphabet session codes are drawn from: the upper-case letters and the
/// digits, an identifier space of 36 to the code's length.
pub open spec fn code_alphabet() -> Seq<char> {
    "ABCDEFGHIJKLMNOPQRSTUVWXYZ0123456789"@
}

/// Draws a human-enterable session code: `SESSION_CODE_LEN` characters, each
/// from the code alphabet.
pub fn generate_session_code() -> (r: String)
    ensures
        r@.len() == SESSION_CODE_LEN as int,
        forall|j: int| 0 <= j < r@.len() ==> code_alphabet().contains(#[trigger] r@[j]),
{
    let alphabet = "ABCDEFGHIJKLMNOPQRSTUVWXYZ0123456789";
    proof {
        reveal_strlit("ABCDEFGHIJKLMNOPQRSTUVWXYZ0123456789");
    }
    let mut code = String::new();
    let mut k: usize = 0;
    while k < SESSION_CODE_LEN
        invariant
            vstd::string::is_ascii(alphabet),
            alphabet@ == code_alphabet(),
            alphabet@.len() == 36,
            k <= SESSION_CODE_LEN,
            code@.len() == k as int,
            forall|j: int| 0 <= j < code@.len() ==> code_alphabet().contains(#[trigger] code@[j]),
        decreases SESSION_CODE_LEN - k,
    {
        let idx = random_below(36);
        let ch = alphabet.substring_ascii(idx, idx + 1);
        proof {
            assert(ch@[0] == code_alphabet()[idx as int]);
            assert(code_alphabet().contains(ch@[0]));
        }
        code.append(ch);
        k = k + 1;
    }
    code
}

/// The rendezvous mailbox: every live session and its pending messages. One
/// value of this type is created at process start and owns all sessions.
pub struct Mailbox {
    sessions: DashMap<String, Vec<SignalingMessage>>,
}

impl View for Mailbox {
    type V = Map<Seq<char>, Seq<(Seq<char>, Seq<char>)>>;

    closed spec fn view(&self) -> Map<Seq<char>, Seq<(Seq<char>, Seq<char>)>> {
        sessions_of(self.sessions)
    }
}

impl Mailbox {
    /// A mailbox with no live sessions.
    pub fn new() -> (r: Self)
        ensures
            r@ == empty_sessions(),
    {
        Mailbox { sessions: sessions_new() }
    }

    /// Whether a session lives under this identifier.
    pub fn contains_session(&self, session_id: &String) -> (r: bool)
        ensures
            r == self@.dom().contains(session_id@),
    {
        sessions_contains(&self.sessions, session_id)
    }

    /// Creates a session under a freshly drawn identifier, unique among the
    /// currently live sessions, with an empty queue. On a mailbox with no live
    /// sessions the first draw cannot collide, so creation succeeds; it
    /// reports a protocol violation, changing nothing, only if every bounded
    /// draw collided.
    pub fn create_session(&mut self) -> (r: Result<String, DropError>)
        ensures
            r matches Ok(id) ==> {
                &&& !old(self)@.dom().contains(id@)
                &&& final(self)@ == old(self)@.insert(
                    id@,
                    Seq::<(Seq<char>, Seq<char>)>::empty(),
                )
                &&& id@.len() == SESSION_CODE_LEN as int
                &&& forall|j: int|
                    0 <= j < id@.len() ==> code_alphabet().contains(#[trigger] id@[j])
            },
            r matches Err(e) ==> final(self)@ == old(self)@ && e is ProtocolViolation,
            old(self)@ == empty_sessions() ==> r is Ok,
    {
        let mut attempts: usize = 0;
        while attempts < MAX_CODE_ATTEMPTS
            invariant
                self@ == old(self)@,
                attempts as int > 0 ==> old(self)@ != empty_sessions(),
            decreases MAX_CODE_ATTEMPTS - attempts,
        {
            let code = generate_session_code();
            if !sessions_contains(&self.sessions, &code) {
                let queue: Vec<SignalingMessage> = Vec::new();
                proof {
                    assert(queue@.map_values(|x: SignalingMessage| x@) =~= Seq::<
                        (Seq<char>, Seq<char>),
                    >::empty());
                }
                sessions_insert(&mut self.sessions, code.clone(), queue);
                return Ok(code);
            }
            proof {
                assert(old(self)@ != empty_sessions()) by {
                    if old(self)@ == empty_sessions() {
                        assert(!old(self)@.dom().contains(code@));
                    }
                }
            }
            attempts = attempts + 1;
        }
        Err(DropError::ProtocolViolation("session identifier space exhausted".to_owned()))
    }

    /// Appends a message to a live session's queue, preserving arrival order;
    /// an unknown identifier is reported, never created.
    pub fn send(&mut self, session_id: &String, message: SignalingMessage) -> (r: Result<
        (),
        DropError,
    >)
        ensures
            old(self)@.dom().contains(session_id@) ==> r is Ok && final(self)@ == old(
                self,
            )@.insert(session_id@, old(self)@[session_id@].push(message@)),
            !old(self)@.dom().contains(session_id@) ==> (r matches Err(e)
                && e is ProtocolViolation) && final(self)@ == old(self)@,
    {
        if sessions_push(&mut self.sessions, session_id, message) {
            Ok(())
        } else {
            Err(DropError::ProtocolViolation("session not found".to_owned()))
        }
    }

    /// Drains and returns every pending message of a live session in arrival
    /// order, in one step, leaving its queue empty; a session with nothing
    /// pending yields an empty list, not an error.
    pub fn receive(&mut self, session_id: &String) -> (r: Result<Vec<SignalingMessage>, DropError>)
        ensures
            old(self)@.dom().contains(session_id@) ==> (r matches Ok(v) && v@.map_values(
                |x: SignalingMessage| x@,
            ) == old(self)@[session_id@]) && final(self)@ == old(self)@.insert(
                session_id@,
                Seq::empty(),
            ),
            !old(self)@.dom().contains(session_id@) ==> (r matches Err(e)
                && e is ProtocolViolation) && final(self)@ == old(self)@,
    {
        match sessions_drain(&mut self.sessions, session_id) {
            Some(v) => Ok(v),
            None => Err(DropError::ProtocolViolation("session not found".to_owned())),
        }
    }
}

/// Law: two successive successful session creations yield distinct
/// identifiers, because the second is fresh for a store that already holds the
/// first.
pub proof fn lemma_created_sessions_distinct(
    m0: Map<Seq<char>, Seq<(Seq<char>, Seq<char>)>>,
    id1: Seq<char>,
    m1: Map<Seq<char>, Seq<(Seq<char>, Seq<char>)>>,
    id2: Seq<char>,
)
    requires
        !m0.dom().contains(id1),
        m1 == m0.insert(id1, Seq::<(Seq<char>, Seq<char>)>::empty()),
        !m1.dom().contains(id2),
    ensures
        id1 != id2,
{
}

} // verus!
