//! Per-connection echo sessions: the registry that tracks live sessions, the
//! FIFO outbound queue each session owns, and the connection lifecycle state
//! machine.
//!
//! A session echoes every inbound frame verbatim onto its outbound queue; a
//! forwarder drains that queue, front first, toward the socket, so frames
//! leave in exactly the order they were dispatched. Terminating a session
//! removes it from the registry for good: keys are never handed out twice,
//! and a second termination of the same key changes nothing.

use vstd::prelude::*;

verus! {

/// What kind of WebSocket frame a payload arrived in; echoed unchanged.
#[derive(Clone, Copy, Debug, PartialEq, Eq, Structural)]
pub enum FrameKind {
    Text,
    Binary,
    Ping,
    Pong,
}

/// One WebSocket frame: its kind and its payload bytes, carried verbatim.
#[derive(Clone, Debug)]
pub struct Frame {
    pub kind: FrameKind,
    pub payload: Vec<u8>,
}

/// The mathematical value of a frame.
pub struct FrameModel {
    pub kind: FrameKind,
    pub payload: Seq<u8>,
}

impl View for Frame {
    type V = FrameModel;

    open spec fn view(&self) -> FrameModel {
        FrameModel { kind: self.kind, payload: self.payload@ }
    }
}

/// One live session: its key and the outbound queue of frames that were
/// echoed but not yet written to the socket.
pub struct Session {
    key: u64,
    outbound: Vec<Frame>,
}

/// The mathematical value of a session: its key and its queued frames, in
/// the order they were dispatched.
pub struct SessionModel {
    pub key: u64,
    pub queue: Seq<FrameModel>,
}

impl View for Session {
    type V = SessionModel;

    closed spec fn view(&self) -> SessionModel {
        SessionModel { key: self.key, queue: self.outbound@.map_values(|f: Frame| f@) }
    }
}

/// Dispatching to a session that no longer exists: the frame is dropped by
/// the caller rather than delivered to anyone.
#[derive(Clone, Copy, Debug, PartialEq, Eq, Structural)]
pub enum SessionError {
    SessionNotFound,
}

/// Whether some session in `m` has key `key`.
pub open spec fn model_contains(m: Seq<SessionModel>, key: u64) -> bool
    decreases m.len(),
{
    if m.len() == 0 {
        false
    } else if m[0].key == key {
        true
    } else {
        model_contains(m.drop_first(), key)
    }
}

/// The queued frames of the first session in `m` with key `key` (empty when
/// the key is absent).
pub open spec fn model_queue(m: Seq<SessionModel>, key: u64) -> Seq<FrameModel>
    decreases m.len(),
{
    if m.len() == 0 {
        Seq::empty()
    } else if m[0].key == key {
        m[0].queue
    } else {
        model_queue(m.drop_first(), key)
    }
}

/// `m` after appending `frame` to the queue of the first session with key
/// `key`; unchanged when the key is absent.
pub open spec fn model_dispatch(m: Seq<SessionModel>, key: u64, frame: FrameModel) -> Seq<
    SessionModel,
>
    decreases m.len(),
{
    if m.len() == 0 {
        m
    } else if m[0].key == key {
        seq![SessionModel { key, queue: m[0].queue.push(frame) }] + m.drop_first()
    } else {
        seq![m[0]] + model_dispatch(m.drop_first(), key, frame)
    }
}

/// `m` after the first session with key `key` hands its front frame to the
/// forwarder; unchanged when the key is absent.
pub open spec fn model_pop(m: Seq<SessionModel>, key: u64) -> Seq<SessionModel>
    decreases m.len(),
{
    if m.len() == 0 {
        m
    } else if m[0].key == key {
        seq![SessionModel { key, queue: m[0].queue.drop_first() }] + m.drop_first()
    } else {
        seq![m[0]] + model_pop(m.drop_first(), key)
    }
}

/// `m` after every session with key `key` is removed.
pub open spec fn model_terminate(m: Seq<SessionModel>, key: u64) -> Seq<SessionModel>
    decreases m.len(),
{
    if m.len() == 0 {
        m
    } else if m[0].key == key {
        model_terminate(m.drop_first(), key)
    } else {
        seq![m[0]] + model_terminate(m.drop_first(), key)
    }
}

/// A key is in the model exactly when some position holds it.
proof fn lemma_contains_iff_index(m: Seq<SessionModel>, key: u64)
    ensures
        model_contains(m, key) <==> exists|i: int| 0 <= i < m.len() && m[i].key == key,
    decreases m.len(),
{
    if m.len() > 0 {
        lemma_contains_iff_index(m.drop_first(), key);
        if m[0].key == key {
            assert(m[0].key == key);
        } else {
            if model_contains(m, key) {
                let i = choose|i: int|
                    0 <= i < m.drop_first().len() && m.drop_first()[i].key == key;
                assert(m[i + 1].key == key);
            }
            if exists|i: int| 0 <= i < m.len() && m[i].key == key {
                let i = choose|i: int| 0 <= i < m.len() && m[i].key == key;
                assert(m.drop_first()[i - 1].key == key);
            }
        }
    }
}

/// The model queue at the first position holding `key` is the session's own.
proof fn lemma_queue_at(m: Seq<SessionModel>, key: u64, i: int)
    requires
        0 <= i < m.len(),
        m[i].key == key,
        forall|j: int| 0 <= j < i ==> m[j].key != key,
    ensures
        model_queue(m, key) == m[i].queue,
    decreases i,
{
    if i > 0 {
        assert(m.drop_first()[i - 1] == m[i]);
        assert(forall|j: int| 0 <= j < i - 1 ==> m.drop_first()[j] == m[j + 1]);
        lemma_queue_at(m.drop_first(), key, i - 1);
    }
}

/// Dispatching through the model is updating the first matching position.
proof fn lemma_dispatch_at(m: Seq<SessionModel>, key: u64, frame: FrameModel, i: int)
    requires
        0 <= i < m.len(),
        m[i].key == key,
        forall|j: int| 0 <= j < i ==> m[j].key != key,
    ensures
        model_dispatch(m, key, frame) == m.update(
            i,
            SessionModel { key, queue: m[i].queue.push(frame) },
        ),
    decreases i,
{
    if i == 0 {
        assert(model_dispatch(m, key, frame) =~= m.update(
            0,
            SessionModel { key, queue: m[0].queue.push(frame) },
        ));
    } else {
        assert(m.drop_first()[i - 1] == m[i]);
        assert(forall|j: int| 0 <= j < i - 1 ==> m.drop_first()[j] == m[j + 1]);
        lemma_dispatch_at(m.drop_first(), key, frame, i - 1);
        assert(model_dispatch(m, key, frame) =~= m.update(
            i,
            SessionModel { key, queue: m[i].queue.push(frame) },
        ));
    }
}

/// Popping through the model is updating the first matching position.
proof fn lemma_pop_at(m: Seq<SessionModel>, key: u64, i: int)
    requires
        0 <= i < m.len(),
        m[i].key == key,
        forall|j: int| 0 <= j < i ==> m[j].key != key,
    ensures
        model_pop(m, key) == m.update(i, SessionModel { key, queue: m[i].queue.drop_first() }),
    decreases i,
{
    if i == 0 {
        assert(model_pop(m, key) =~= m.update(
            0,
            SessionModel { key, queue: m[0].queue.drop_first() },
        ));
    } else {
        assert(m.drop_first()[i - 1] == m[i]);
        assert(forall|j: int| 0 <= j < i - 1 ==> m.drop_first()[j] == m[j + 1]);
        lemma_pop_at(m.drop_first(), key, i - 1);
        assert(model_pop(m, key) =~= m.update(
            i,
            SessionModel { key, queue: m[i].queue.drop_first() },
        ));
    }
}

/// A key that is absent has nothing queued.
proof fn lemma_queue_absent(m: Seq<SessionModel>, key: u64)
    requires
        !model_contains(m, key),
    ensures
        model_queue(m, key) == Seq::<FrameModel>::empty(),
    decreases m.len(),
{
    if m.len() > 0 {
        lemma_queue_absent(m.drop_first(), key);
    }
}

/// Terminating a key that is absent changes nothing.
proof fn lemma_terminate_absent(m: Seq<SessionModel>, key: u64)
    requires
        !model_contains(m, key),
    ensures
        model_terminate(m, key) == m,
    decreases m.len(),
{
    if m.len() > 0 {
        lemma_terminate_absent(m.drop_first(), key);
        assert(model_terminate(m, key) =~= m);
    }
}

/// Terminating under unique keys is removing the one matching position.
proof fn lemma_terminate_at(m: Seq<SessionModel>, key: u64, i: int)
    requires
        0 <= i < m.len(),
        m[i].key == key,
        forall|j: int| 0 <= j < m.len() && j != i ==> m[j].key != key,
    ensures
        model_terminate(m, key) == m.remove(i),
    decreases i,
{
    if i == 0 {
        assert(forall|j: int| 0 <= j < m.drop_first().len() ==> m.drop_first()[j] == m[j + 1]);
        lemma_contains_iff_index(m.drop_first(), key);
        lemma_terminate_absent(m.drop_first(), key);
        assert(model_terminate(m, key) =~= m.remove(0));
    } else {
        assert(m.drop_first()[i - 1] == m[i]);
        assert(forall|j: int| 0 <= j < m.drop_first().len() ==> m.drop_first()[j] == m[j + 1]);
        lemma_terminate_at(m.drop_first(), key, i - 1);
        assert(model_terminate(m, key) =~= m.remove(i));
    }
}

/// After termination the key is gone, whatever the model held.
pub proof fn lemma_terminate_removes(m: Seq<SessionModel>, key: u64)
    ensures
        !model_contains(model_terminate(m, key), key),
    decreases m.len(),
{
    if m.len() > 0 {
        lemma_terminate_removes(m.drop_first(), key);
        if m[0].key != key {
            let t = model_terminate(m, key);
            assert(t.drop_first() =~= model_terminate(m.drop_first(), key));
        }
    }
}

/// Session teardown is idempotent: terminating an already-terminated key
/// changes nothing and frees nothing twice.
pub proof fn lemma_terminate_idempotent(m: Seq<SessionModel>, key: u64)
    ensures
        model_terminate(model_terminate(m, key), key) == model_terminate(m, key),
{
    lemma_terminate_removes(m, key);
    lemma_terminate_absent(model_terminate(m, key), key);
}

/// Dispatching never adds or removes sessions: every key keeps its presence.
pub proof fn lemma_dispatch_preserves_contains(m: Seq<SessionModel>, key: u64, frame: FrameModel, other: u64)
    ensures
        model_contains(model_dispatch(m, key, frame), other) == model_contains(m, other),
    decreases m.len(),
{
    if m.len() > 0 {
        let d = model_dispatch(m, key, frame);
        if m[0].key == key {
            assert(d.drop_first() =~= m.drop_first());
        } else {
            assert(d[0] == m[0]);
            assert(d.drop_first() =~= model_dispatch(m.drop_first(), key, frame));
            lemma_dispatch_preserves_contains(m.drop_first(), key, frame, other);
        }
    }
}

/// Echo identity: dispatching a frame appends exactly that frame, verbatim,
/// to the session's outbound queue; on an idle session it becomes the next
/// frame the forwarder will deliver.
pub proof fn lemma_echo_identity(m: Seq<SessionModel>, key: u64, frame: FrameModel)
    requires
        model_contains(m, key),
    ensures
        model_queue(model_dispatch(m, key, frame), key) == model_queue(m, key).push(frame),
        model_queue(m, key).len() == 0 ==> model_queue(model_dispatch(m, key, frame), key)[0]
            == frame,
    decreases m.len(),
{
    let d = model_dispatch(m, key, frame);
    if m[0].key == key {
        assert(d[0].queue == m[0].queue.push(frame));
    } else {
        assert(d[0] == m[0]);
        assert(d.drop_first() =~= model_dispatch(m.drop_first(), key, frame));
        lemma_echo_identity(m.drop_first(), key, frame);
    }
}

/// Isolation: dispatching onto one session leaves every other session's
/// queue and presence untouched.
pub proof fn lemma_dispatch_isolation(m: Seq<SessionModel>, key: u64, frame: FrameModel, other: u64)
    requires
        other != key,
    ensures
        model_queue(model_dispatch(m, key, frame), other) == model_queue(m, other),
        model_contains(model_dispatch(m, key, frame), other) == model_contains(m, other),
    decreases m.len(),
{
    lemma_dispatch_preserves_contains(m, key, frame, other);
    if m.len() > 0 {
        let d = model_dispatch(m, key, frame);
        if m[0].key == key {
            assert(d[0].key == key);
            assert(d.drop_first() =~= m.drop_first());
        } else {
            assert(d[0] == m[0]);
            assert(d.drop_first() =~= model_dispatch(m.drop_first(), key, frame));
            lemma_dispatch_isolation(m.drop_first(), key, frame, other);
        }
    }
}

/// Isolation on the outbound side: the forwarder of one session taking a
/// frame leaves every other session's queue and presence untouched.
pub proof fn lemma_pop_isolation(m: Seq<SessionModel>, key: u64, other: u64)
    requires
        other != key,
    ensures
        model_queue(model_pop(m, key), other) == model_queue(m, other),
        model_contains(model_pop(m, key), other) == model_contains(m, other),
    decreases m.len(),
{
    if m.len() > 0 {
        let p = model_pop(m, key);
        if m[0].key == key {
            assert(p[0].key == key);
            assert(p.drop_first() =~= m.drop_first());
        } else {
            assert(p[0] == m[0]);
            assert(p.drop_first() =~= model_pop(m.drop_first(), key));
            lemma_pop_isolation(m.drop_first(), key, other);
        }
    }
}

/// Termination touches only the affected session: every other session keeps
/// its queue and its place in the registry.
pub proof fn lemma_terminate_isolation(m: Seq<SessionModel>, key: u64, other: u64)
    requires
        other != key,
    ensures
        model_queue(model_terminate(m, key), other) == model_queue(m, other),
        model_contains(model_terminate(m, key), other) == model_contains(m, other),
    decreases m.len(),
{
    if m.len() > 0 {
        lemma_terminate_isolation(m.drop_first(), key, other);
        if m[0].key != key {
            let t = model_terminate(m, key);
            assert(t[0] == m[0]);
            assert(t.drop_first() =~= model_terminate(m.drop_first(), key));
        }
    }
}

/// Dispatching a whole sequence of frames, first frame first.
pub open spec fn model_dispatch_all(m: Seq<SessionModel>, key: u64, frames: Seq<FrameModel>) -> Seq<
    SessionModel,
>
    decreases frames.len(),
{
    if frames.len() == 0 {
        m
    } else {
        model_dispatch_all(model_dispatch(m, key, frames[0]), key, frames.drop_first())
    }
}

/// Order preservation: dispatching the frames `f1, f2, ..., fn` onto one
/// session extends its queue by exactly that sequence in that order; as the
/// forwarder always takes the front of the queue, the echoed frames reach
/// the socket in dispatch order.
pub proof fn lemma_order_preservation(m: Seq<SessionModel>, key: u64, frames: Seq<FrameModel>)
    requires
        model_contains(m, key),
    ensures
        model_queue(model_dispatch_all(m, key, frames), key) == model_queue(m, key) + frames,
        model_contains(model_dispatch_all(m, key, frames), key),
    decreases frames.len(),
{
    if frames.len() == 0 {
        assert(model_queue(m, key) + frames =~= model_queue(m, key));
    } else {
        let m1 = model_dispatch(m, key, frames[0]);
        lemma_echo_identity(m, key, frames[0]);
        lemma_dispatch_preserves_contains(m, key, frames[0], key);
        lemma_order_preservation(m1, key, frames.drop_first());
        assert(model_queue(m, key).push(frames[0]) + frames.drop_first() =~= model_queue(m, key)
            + frames);
    }
}

/// The process-wide session registry: the map from session key to live
/// session, plus the next key to hand out. Keys are handed out once and
/// never reused, so a terminated session can never come back to life.
pub struct Registry {
    sessions: Vec<Session>,
    next_key: u64,
}

impl View for Registry {
    type V = Seq<SessionModel>;

    closed spec fn view(&self) -> Seq<SessionModel> {
        self.sessions@.map_values(|s: Session| s@)
    }
}

impl Registry {
    /// Every live key was handed out by this registry, and no key repeats.
    pub closed spec fn wf(&self) -> bool {
        &&& forall|i: int| 0 <= i < self@.len() ==> (#[trigger] self@[i].key) < self.next_key
        &&& forall|i: int, j: int| 0 <= i < j < self@.len() ==> self@[i].key != self@[j].key
    }

    /// The next key this registry will hand out. Keys only ever move
    /// forward, which is what makes termination final: a key below this
    /// bound will never be handed out again.
    pub closed spec fn spec_next_key(&self) -> u64 {
        self.next_key
    }

    /// Every live key lies below the next to be handed out, so a key seen
    /// once terminated can never identify a session again.
    pub proof fn lemma_keys_move_forward(&self)
        requires
            self.wf(),
        ensures
            forall|i: int|
                0 <= i < self@.len() ==> (#[trigger] self@[i].key) < self.spec_next_key(),
    {
    }

    /// An empty registry: no sessions yet.
    pub fn new() -> (r: Registry)
        ensures
            r.wf(),
            r@ =~= Seq::<SessionModel>::empty(),
            r.spec_next_key() == 0,
    {
        let r = Registry { sessions: Vec::new(), next_key: 0 };
        proof {
            assert(r@ =~= Seq::<SessionModel>::empty());
        }
        r
    }

    /// The position of the session with the given key, if any.
    fn find_index(&self, key: u64) -> (r: Option<usize>)
        ensures
            match r {
                Some(i) => {
                    &&& (i as int) < self@.len()
                    &&& self@[i as int].key == key
                    &&& forall|j: int| 0 <= j < i ==> self@[j].key != key
                },
                None => forall|j: int| 0 <= j < self@.len() ==> self@[j].key != key,
            },
    {
        let mut i: usize = 0;
        while i < self.sessions.len()
            invariant
                i <= self.sessions@.len(),
                self@.len() == self.sessions@.len(),
                forall|j: int| 0 <= j < i ==> self@[j].key != key,
                forall|j: int| 0 <= j < self@.len() ==> self@[j].key == self.sessions@[j].key,
            decreases self.sessions@.len() - i,
        {
            if self.sessions[i].key == key {
                return Some(i);
            }
            i = i + 1;
        }
        None
    }

    /// Whether a session with this key is live.
    pub fn contains(&self, key: u64) -> (r: bool)
        ensures
            r == model_contains(self@, key),
    {
        proof {
            lemma_contains_iff_index(self@, key);
        }
        match self.find_index(key) {
            Some(_) => true,
            None => false,
        }
    }

    /// Creates a session with a fresh key and an empty outbound queue. `None`
    /// only once the key space is exhausted.
    pub fn create(&mut self) -> (r: Option<u64>)
        requires
            old(self).wf(),
        ensures
            final(self).wf(),
            r is Some <==> old(self).spec_next_key() < u64::MAX,
            match r {
                Some(key) => {
                    &&& key == old(self).spec_next_key()
                    &&& final(self).spec_next_key() == key + 1
                    &&& !model_contains(old(self)@, key)
                    &&& final(self)@ == old(self)@.push(SessionModel { key, queue: Seq::empty() })
                },
                None => final(self)@ == old(self)@ && final(self).spec_next_key() == old(
                    self,
                ).spec_next_key(),
            },
    {
        if self.next_key == u64::MAX {
            return None;
        }
        let key = self.next_key;
        self.next_key = self.next_key + 1;
        let session = Session { key, outbound: Vec::new() };
        assert(session@ == SessionModel { key, queue: Seq::<FrameModel>::empty() }) by {
            assert(session@.queue =~= Seq::<FrameModel>::empty());
        }
        self.sessions.push(session);
        proof {
            assert(self@ =~= old(self)@.push(SessionModel { key, queue: Seq::empty() }));
            lemma_contains_iff_index(old(self)@, key);
        }
        Some(key)
    }

    /// Echoes one inbound frame: appends it, verbatim, to the session's
    /// outbound queue. The caller is not blocked beyond queue insertion; the
    /// forwarder writes the frame out later. Dispatching to a key that is not
    /// live fails with `SessionNotFound` and changes nothing.
    pub fn dispatch(&mut self, key: u64, frame: Frame) -> (r: Result<(), SessionError>)
        requires
            old(self).wf(),
        ensures
            final(self).wf(),
            final(self).spec_next_key() == old(self).spec_next_key(),
            r is Ok <==> model_contains(old(self)@, key),
            r is Ok ==> final(self)@ == model_dispatch(old(self)@, key, frame@),
            r is Err ==> final(self)@ == old(self)@ && r == Err::<(), SessionError>(
                SessionError::SessionNotFound,
            ),
    {
        proof {
            lemma_contains_iff_index(self@, key);
        }
        match self.find_index(key) {
            Some(i) => {
                let ghost frame_model = frame@;
                let mut session = self.sessions.remove(i);
                session.outbound.push(frame);
                let ghost new_model = SessionModel {
                    key,
                    queue: old(self)@[i as int].queue.push(frame_model),
                };
                assert(session@ == new_model) by {
                    assert(session@.queue =~= new_model.queue);
                }
                self.sessions.insert(i, session);
                proof {
                    assert(self@ =~= old(self)@.update(i as int, new_model));
                    lemma_dispatch_at(old(self)@, key, frame_model, i as int);
                }
                Ok(())
            },
            None => Err(SessionError::SessionNotFound),
        }
    }

    /// Hands the forwarder the next outbound frame: the front of the queue,
    /// so frames leave in dispatch order. `Ok(None)` when the queue is idle;
    /// `SessionNotFound` when the key is not live.
    pub fn next_outbound(&mut self, key: u64) -> (r: Result<Option<Frame>, SessionError>)
        requires
            old(self).wf(),
        ensures
            final(self).wf(),
            final(self).spec_next_key() == old(self).spec_next_key(),
            r is Ok <==> model_contains(old(self)@, key),
            match r {
                Ok(Some(f)) => {
                    &&& model_queue(old(self)@, key).len() > 0
                    &&& f@ == model_queue(old(self)@, key)[0]
                    &&& final(self)@ == model_pop(old(self)@, key)
                },
                Ok(None) => model_queue(old(self)@, key).len() == 0 && final(self)@ == old(self)@,
                Err(e) => final(self)@ == old(self)@ && e == SessionError::SessionNotFound,
            },
    {
        proof {
            lemma_contains_iff_index(self@, key);
        }
        match self.find_index(key) {
            Some(i) => {
                proof {
                    lemma_queue_at(self@, key, i as int);
                }
                if self.sessions[i].outbound.len() == 0 {
                    assert(model_queue(self@, key) =~= Seq::<FrameModel>::empty());
                    return Ok(None);
                }
                let mut session = self.sessions.remove(i);
                let frame = session.outbound.remove(0);
                let ghost new_model = SessionModel {
                    key,
                    queue: old(self)@[i as int].queue.drop_first(),
                };
                assert(session@ == new_model) by {
                    assert(session@.queue =~= new_model.queue);
                }
                self.sessions.insert(i, session);
                proof {
                    assert(self@ =~= old(self)@.update(i as int, new_model));
                    lemma_pop_at(old(self)@, key, i as int);
                }
                Ok(Some(frame))
            },
            None => Err(SessionError::SessionNotFound),
        }
    }

    /// Removes the session for good and hands back whatever was still queued,
    /// so the forwarder can drain it before closing the socket. Terminating a
    /// key that is not (or no longer) live is a harmless no-op that returns
    /// nothing to drain: termination is final and idempotent.
    pub fn terminate(&mut self, key: u64) -> (leftover: Vec<Frame>)
        requires
            old(self).wf(),
        ensures
            final(self).wf(),
            final(self).spec_next_key() == old(self).spec_next_key(),
            final(self)@ == model_terminate(old(self)@, key),
            leftover@.map_values(|f: Frame| f@) == model_queue(old(self)@, key),
            !model_contains(final(self)@, key),
    {
        proof {
            lemma_contains_iff_index(self@, key);
            lemma_terminate_removes(old(self)@, key);
        }
        match self.find_index(key) {
            Some(i) => {
                proof {
                    lemma_queue_at(self@, key, i as int);
                    lemma_terminate_at(self@, key, i as int);
                }
                let session = self.sessions.remove(i);
                proof {
                    assert(self@ =~= old(self)@.remove(i as int));
                }
                session.outbound
            },
            None => {
                let leftover: Vec<Frame> = Vec::new();
                proof {
                    lemma_terminate_absent(self@, key);
                    lemma_queue_absent(self@, key);
                    assert(leftover@.map_values(|f: Frame| f@) =~= Seq::<FrameModel>::empty());
                }
                leftover
            },
        }
    }
}

/// The lifecycle of one connection: frames are echoed while `Active`; the
/// session starts closing when the inbound stream errors or ends; removal
/// from the registry makes the termination final.
#[derive(Clone, Copy, Debug, PartialEq, Eq, Structural)]
pub enum SessionState {
    Active,
    Closing,
    Terminated,
}

/// What the inbound side of a connection observed.
pub enum InboundEvent {
    /// A frame arrived and is to be echoed.
    Received(Frame),
    /// The socket read failed; a broken socket cannot be un-broken.
    TransportError,
    /// The client closed or the stream ended.
    StreamEnded,
    /// The session was removed from the registry and its queue drained.
    TeardownComplete,
}

/// What the connection task must do next.
pub enum SessionAction {
    /// Echo this frame onto the outbound queue.
    Echo(Frame),
    /// Stop reading, terminate the session, drain the queue.
    Teardown,
    /// Nothing: the event concerns a session that is already going away.
    Ignore,
}

/// The lifecycle transition relation. No transition returns to `Active`,
/// and `Terminated` is absorbing.
pub open spec fn spec_transition(state: SessionState, event: InboundEvent) -> SessionState {
    match state {
        SessionState::Active => match event {
            InboundEvent::Received(_) => SessionState::Active,
            InboundEvent::TransportError => SessionState::Closing,
            InboundEvent::StreamEnded => SessionState::Closing,
            InboundEvent::TeardownComplete => SessionState::Terminated,
        },
        SessionState::Closing => match event {
            InboundEvent::TeardownComplete => SessionState::Terminated,
            _ => SessionState::Closing,
        },
        SessionState::Terminated => SessionState::Terminated,
    }
}

/// Advances the lifecycle of one connection and says what to do: echo the
/// frame while active, tear the session down once the inbound stream errors
/// or ends, and ignore whatever arrives after that.
pub fn session_step(state: SessionState, event: InboundEvent) -> (r: (SessionState, SessionAction))
    ensures
        r.0 == spec_transition(state, event),
        state is Active ==> match event {
            InboundEvent::Received(f) => r.1 == SessionAction::Echo(f),
            InboundEvent::TransportError => r.1 is Teardown,
            InboundEvent::StreamEnded => r.1 is Teardown,
            InboundEvent::TeardownComplete => r.1 is Ignore,
        },
        !(state is Active) ==> r.1 is Ignore,
{
    match state {
        SessionState::Active => match event {
            InboundEvent::Received(f) => (SessionState::Active, SessionAction::Echo(f)),
            InboundEvent::TransportError => (SessionState::Closing, SessionAction::Teardown),
            InboundEvent::StreamEnded => (SessionState::Closing, SessionAction::Teardown),
            InboundEvent::TeardownComplete => (SessionState::Terminated, SessionAction::Ignore),
        },
        SessionState::Closing => match event {
            InboundEvent::TeardownComplete => (SessionState::Terminated, SessionAction::Ignore),
            _ => (SessionState::Closing, SessionAction::Ignore),
        },
        SessionState::Terminated => (SessionState::Terminated, SessionAction::Ignore),
    }
}

/// Termination is final: no event returns a session to `Active`, and a
/// terminated session stays terminated.
pub proof fn lemma_termination_final(state: SessionState, event: InboundEvent)
    ensures
        !(state is Active) ==> !(spec_transition(state, event) is Active),
        state is Terminated ==> spec_transition(state, event) is Terminated,
{
}

} // verus!
