//! Bookkeeping of serial workers: how many run, how many per session, which
//! sessions are closing and whether the application is shutting down; and
//! the signal that lets a terminal reader start or tells it to give up.
//!
//! The lock and the condition variable around these values stay with the
//! caller; every operation here is one step taken while holding the lock.
use vstd::prelude::*;
use crate::text::{push_str, str_eq};

verus! {

/// How many workers of a session the entries record (0 when absent).
pub open spec fn count_in(es: Seq<(String, usize)>, id: Seq<char>) -> nat {
    if exists|i: int| 0 <= i < es.len() && (#[trigger] es[i]).0@ == id {
        es[choose|i: int| 0 <= i < es.len() && (#[trigger] es[i]).0@ == id].1 as nat
    } else {
        0
    }
}

/// The names are listed.
pub open spec fn listed(names: Seq<String>, id: Seq<char>) -> bool {
    exists|i: int| 0 <= i < names.len() && (#[trigger] names[i])@ == id
}

/// No session occurs twice among the entries.
pub open spec fn keys_unique(es: Seq<(String, usize)>) -> bool {
    forall|i: int, j: int|
        0 <= i < es.len() && 0 <= j < es.len() && (#[trigger] es[i]).0@ == (#[trigger] es[j]).0@
            ==> i == j
}

/// No name occurs twice.
pub open spec fn names_unique(names: Seq<String>) -> bool {
    forall|i: int, j: int|
        0 <= i < names.len() && 0 <= j < names.len() && (#[trigger] names[i])@ == (
        #[trigger] names[j])@ ==> i == j
}

pub proof fn lemma_count_at(es: Seq<(String, usize)>, i: int)
    requires
        keys_unique(es),
        0 <= i < es.len(),
    ensures
        count_in(es, es[i].0@) == es[i].1,
{
    assert(es[i].0@ == es[i].0@);
}

pub proof fn lemma_count_absent(es: Seq<(String, usize)>, id: Seq<char>)
    requires
        forall|i: int| 0 <= i < es.len() ==> (#[trigger] es[i]).0@ != id,
    ensures
        count_in(es, id) == 0,
{
}

/// One registered serial worker; handing it back to `release` ends it.
#[derive(Debug)]
pub struct SerialWorkerGuard {
    pub session_id: Option<String>,
}

/// What a wait for idle workers does next.
#[derive(Debug, Clone, Copy, PartialEq, Eq, Structural)]
pub enum IdleWait {
    /// Stop waiting; this many workers are still running.
    Finished(usize),
    /// Wait for the next change, at most the remaining time.
    KeepWaiting,
}

/// Counters of running serial workers and the marks that refuse new ones.
#[derive(Debug)]
pub struct SerialWorkerRegistry {
    shutting_down: bool,
    active: usize,
    active_by_session: Vec<(String, usize)>,
    closing_sessions: Vec<String>,
}

impl SerialWorkerRegistry {
    /// The application is shutting down.
    pub closed spec fn shutting(&self) -> bool {
        self.shutting_down
    }

    /// The number of running workers.
    pub closed spec fn active_count(&self) -> nat {
        self.active as nat
    }

    /// The number of running workers of a session.
    pub closed spec fn session_count(&self, id: Seq<char>) -> nat {
        count_in(self.active_by_session@, id)
    }

    /// The session is closing.
    pub closed spec fn closing(&self, id: Seq<char>) -> bool {
        listed(self.closing_sessions@, id)
    }

    /// Each session is recorded once, with at least one running worker;
    /// each closing session is listed once.
    pub closed spec fn wf(&self) -> bool {
        &&& keys_unique(self.active_by_session@)
        &&& forall|i: int|
            0 <= i < self.active_by_session@.len() ==> 1 <= (#[trigger] self.active_by_session@[i]).1
        &&& names_unique(self.closing_sessions@)
    }

    /// A registry with no workers, accepting work.
    pub fn new() -> (r: Self)
        ensures
            r.wf(),
            !r.shutting(),
            r.active_count() == 0,
            forall|id: Seq<char>| r.session_count(id) == 0 && !r.closing(id),
    {
        SerialWorkerRegistry {
            shutting_down: false,
            active: 0,
            active_by_session: Vec::new(),
            closing_sessions: Vec::new(),
        }
    }

    fn find_session(&self, id: &str) -> (r: Option<usize>)
        ensures
            match r {
                Some(i) => i < self.active_by_session@.len() && self.active_by_session@[i as int].0@
                    == id@,
                None => forall|i: int|
                    0 <= i < self.active_by_session@.len() ==> (
                    #[trigger] self.active_by_session@[i]).0@ != id@,
            },
    {
        let mut i: usize = 0;
        while i < self.active_by_session.len()
            invariant
                i <= self.active_by_session@.len(),
                forall|k: int| 0 <= k < i ==> (#[trigger] self.active_by_session@[k]).0@ != id@,
            decreases self.active_by_session@.len() - i,
        {
            if str_eq(self.active_by_session[i].0.as_str(), id) {
                return Some(i);
            }
            i = i + 1;
        }
        None
    }

    fn find_closing(&self, id: &str) -> (r: Option<usize>)
        ensures
            match r {
                Some(i) => i < self.closing_sessions@.len() && self.closing_sessions@[i as int]@
                    == id@,
                None => !listed(self.closing_sessions@, id@),
            },
    {
        let mut i: usize = 0;
        while i < self.closing_sessions.len()
            invariant
                i <= self.closing_sessions@.len(),
                forall|k: int| 0 <= k < i ==> (#[trigger] self.closing_sessions@[k])@ != id@,
            decreases self.closing_sessions@.len() - i,
        {
            if str_eq(self.closing_sessions[i].as_str(), id) {
                return Some(i);
            }
            i = i + 1;
        }
        None
    }

    /// Registers a worker that belongs to no session.
    pub fn register(&mut self) -> (r: Result<SerialWorkerGuard, String>)
        requires
            old(self).wf(),
            old(self).active_count() < usize::MAX,
        ensures
            final(self).wf(),
            register_outcome(*old(self), None, *final(self), r),
    {
        self.register_inner(None)
    }

    /// Registers a worker of the given session.
    pub fn register_for_session(&mut self, session_id: &str) -> (r: Result<
        SerialWorkerGuard,
        String,
    >)
        requires
            old(self).wf(),
            old(self).active_count() < usize::MAX,
            old(self).session_count(session_id@) < usize::MAX,
        ensures
            final(self).wf(),
            register_outcome(*old(self), Some(session_id@), *final(self), r),
    {
        let id = String::from_str(session_id);
        self.register_inner(Some(id))
    }

    /// Registers a worker unless the application is shutting down or its
    /// session is closing.
    pub fn register_inner(&mut self, session_id: Option<String>) -> (r: Result<
        SerialWorkerGuard,
        String,
    >)
        requires
            old(self).wf(),
            old(self).active_count() < usize::MAX,
            session_id matches Some(id) ==> old(self).session_count(id@) < usize::MAX,
        ensures
            final(self).wf(),
            register_outcome(*old(self), crate::text::opt_view(session_id), *final(self), r),
            r matches Ok(g) ==> g.session_id == session_id,
    {
        if self.shutting_down {
            return Err(String::from_str("PortMate is shutting down; serial work is not accepted"));
        }
        if let Some(id) = &session_id {
            if self.find_closing(id.as_str()).is_some() {
                let mut e = String::from_str("serial session ");
                push_str(&mut e, id.as_str());
                push_str(&mut e, " is closing; serial work is not accepted");
                return Err(e);
            }
        }
        let ghost before = *self;
        self.active = self.active + 1;
        if let Some(id) = &session_id {
            match self.find_session(id.as_str()) {
                Some(i) => {
                    proof {
                        lemma_count_at(self.active_by_session@, i as int);
                    }
                    let n = self.active_by_session[i].1;
                    self.active_by_session[i].1 = n + 1;
                    proof {
                        let es = self.active_by_session@;
                        lemma_count_at(es, i as int);
                        assert forall|other: Seq<char>| other != id@ implies count_in(es, other)
                            == count_in(before.active_by_session@, other) by {
                            let old_es = before.active_by_session@;
                            if exists|k: int| 0 <= k < es.len() && (#[trigger] es[k]).0@ == other {
                                let k = choose|k: int| 0 <= k < es.len() && (#[trigger] es[k]).0@ == other;
                                lemma_count_at(es, k);
                                lemma_count_at(old_es, k);
                            } else {
                                assert forall|k: int| 0 <= k < old_es.len() implies (
                                #[trigger] old_es[k]).0@ != other by {
                                    assert(es[k].0@ == old_es[k].0@);
                                }
                            }
                        }
                    }
                },
                None => {
                    proof {
                        lemma_count_absent(self.active_by_session@, id@);
                    }
                    self.active_by_session.push((id.clone(), 1));
                    proof {
                        let es = self.active_by_session@;
                        let old_es = before.active_by_session@;
                        lemma_count_at(es, es.len() - 1);
                        assert forall|other: Seq<char>| other != id@ implies count_in(es, other)
                            == count_in(old_es, other) by {
                            if exists|k: int| 0 <= k < es.len() && (#[trigger] es[k]).0@ == other {
                                let k = choose|k: int| 0 <= k < es.len() && (#[trigger] es[k]).0@ == other;
                                lemma_count_at(es, k);
                                lemma_count_at(old_es, k);
                            } else {
                                assert forall|k: int| 0 <= k < old_es.len() implies (
                                #[trigger] old_es[k]).0@ != other by {
                                    assert(es[k] == old_es[k]);
                                }
                            }
                        }
                    }
                },
            }
        }
        Ok(SerialWorkerGuard { session_id })
    }

    /// Ends a worker: the counters go down by one, never below zero, and a
    /// session with no worker left is forgotten.
    pub fn release(&mut self, guard: SerialWorkerGuard)
        requires
            old(self).wf(),
        ensures
            final(self).wf(),
            released_from(*old(self), crate::text::opt_view(guard.session_id), *final(self)),
    {
        let ghost before = *self;
        if self.active > 0 {
            self.active = self.active - 1;
        }
        if let Some(id) = &guard.session_id {
            match self.find_session(id.as_str()) {
                Some(i) => {
                    let n = self.active_by_session[i].1;
                    if n <= 1 {
                        self.active_by_session.remove(i);
                        proof {
                            let es = self.active_by_session@;
                            let old_es = before.active_by_session@;
                            assert forall|k: int| 0 <= k < es.len() implies (#[trigger] es[k]).0@
                                != id@ by {
                                if k < i {
                                    assert(es[k] == old_es[k]);
                                } else {
                                    assert(es[k] == old_es[k + 1]);
                                }
                            }
                            lemma_count_absent(es, id@);
                            assert forall|other: Seq<char>| other != id@ implies count_in(es, other)
                                == count_in(old_es, other) by {
                                if exists|k: int| 0 <= k < old_es.len() && (#[trigger] old_es[k]).0@ == other {
                                    let k = choose|k: int| 0 <= k < old_es.len() && (#[trigger] old_es[k]).0@ == other;
                                    lemma_count_at(old_es, k);
                                    if k < i {
                                        assert(es[k] == old_es[k]);
                                        lemma_count_at(es, k);
                                    } else {
                                        assert(k != i);
                                        assert(es[k - 1] == old_es[k]);
                                        lemma_count_at(es, k - 1);
                                    }
                                } else {
                                    assert forall|k: int| 0 <= k < es.len() implies (
                                    #[trigger] es[k]).0@ != other by {
                                        if k < i {
                                            assert(es[k] == old_es[k]);
                                        } else {
                                            assert(es[k] == old_es[k + 1]);
                                        }
                                    }
                                }
                            }
                        }
                    } else {
                        self.active_by_session[i].1 = n - 1;
                        proof {
                            let es = self.active_by_session@;
                            let old_es = before.active_by_session@;
                            lemma_count_at(es, i as int);
                            lemma_count_at(old_es, i as int);
                            assert forall|other: Seq<char>| other != id@ implies count_in(es, other)
                                == count_in(old_es, other) by {
                                if exists|k: int| 0 <= k < es.len() && (#[trigger] es[k]).0@ == other {
                                    let k = choose|k: int| 0 <= k < es.len() && (#[trigger] es[k]).0@ == other;
                                    lemma_count_at(es, k);
                                    lemma_count_at(old_es, k);
                                } else {
                                    assert forall|k: int| 0 <= k < old_es.len() implies (
                                    #[trigger] old_es[k]).0@ != other by {
                                        assert(es[k].0@ == old_es[k].0@);
                                    }
                                }
                            }
                        }
                    }
                },
                None => {
                    proof {
                        lemma_count_absent(self.active_by_session@, id@);
                    }
                },
            }
        }
    }

    /// Refuses all new workers from now on.
    pub fn begin_shutdown(&mut self)
        ensures
            final(self).shutting(),
            final(self).active_count() == old(self).active_count(),
            final(self).wf() == old(self).wf(),
            forall|id: Seq<char>|
                final(self).session_count(id) == old(self).session_count(id) && final(self).closing(id)
                    == old(self).closing(id),
    {
        self.shutting_down = true;
    }

    /// The number of running workers.
    pub fn active(&self) -> (r: usize)
        ensures
            r == self.active_count(),
    {
        self.active
    }

    /// Whether the application is shutting down.
    pub fn is_shutting_down(&self) -> (r: bool)
        ensures
            r == self.shutting(),
    {
        self.shutting_down
    }

    /// One step of waiting until no worker runs. `remaining_nanos` is the
    /// time left before the deadline; `wait_timed_out` tells that the last
    /// wait for a change ran out of time.
    pub fn wait_for_idle(&self, remaining_nanos: u128, wait_timed_out: bool) -> (r: IdleWait)
        ensures
            match r {
                IdleWait::Finished(n) => n == self.active_count() && (wait_timed_out || n == 0
                    || remaining_nanos == 0),
                IdleWait::KeepWaiting => !wait_timed_out && self.active_count() > 0
                    && remaining_nanos > 0,
            },
    {
        if wait_timed_out || self.active == 0 || remaining_nanos == 0 {
            IdleWait::Finished(self.active)
        } else {
            IdleWait::KeepWaiting
        }
    }

    /// One step of waiting until no worker of the session runs.
    pub fn wait_for_session_idle(
        &self,
        session_id: &str,
        remaining_nanos: u128,
        wait_timed_out: bool,
    ) -> (r: IdleWait)
        requires
            self.wf(),
        ensures
            match r {
                IdleWait::Finished(n) => n == self.session_count(session_id@) && (wait_timed_out
                    || n == 0 || remaining_nanos == 0),
                IdleWait::KeepWaiting => !wait_timed_out && self.session_count(session_id@) > 0
                    && remaining_nanos > 0,
            },
    {
        let active = self.active_for_session(session_id);
        if wait_timed_out || active == 0 || remaining_nanos == 0 {
            IdleWait::Finished(active)
        } else {
            IdleWait::KeepWaiting
        }
    }

    /// Marks a session as closing: its new workers are refused until
    /// `end_session_shutdown`.
    pub fn begin_session_shutdown(&mut self, session_id: &str)
        requires
            old(self).wf(),
        ensures
            final(self).wf(),
            session_closing_set(*old(self), session_id@, true, *final(self)),
    {
        match self.find_closing(session_id) {
            Some(_) => {},
            None => {
                let ghost old_names = self.closing_sessions@;
                self.closing_sessions.push(String::from_str(session_id));
                proof {
                    let names = self.closing_sessions@;
                    assert(names[names.len() - 1]@ == session_id@);
                    assert forall|other: Seq<char>| other != session_id@ implies listed(names, other)
                        == listed(old_names, other) by {
                        if listed(names, other) {
                            let k = choose|k: int| 0 <= k < names.len() && (#[trigger] names[k])@ == other;
                            assert(old_names[k] == names[k]);
                        }
                        if listed(old_names, other) {
                            let k = choose|k: int| 0 <= k < old_names.len() && (#[trigger] old_names[k])@ == other;
                            assert(old_names[k] == names[k]);
                        }
                    }
                }
            },
        }
    }

    /// Lets a closing session accept workers again.
    pub fn end_session_shutdown(&mut self, session_id: &str)
        requires
            old(self).wf(),
        ensures
            final(self).wf(),
            session_closing_set(*old(self), session_id@, false, *final(self)),
    {
        match self.find_closing(session_id) {
            Some(i) => {
                let ghost old_names = self.closing_sessions@;
                self.closing_sessions.remove(i);
                proof {
                    let names = self.closing_sessions@;
                    assert forall|k: int| 0 <= k < names.len() implies (#[trigger] names[k])@
                        != session_id@ by {
                        if k < i {
                            assert(names[k] == old_names[k]);
                        } else {
                            assert(names[k] == old_names[k + 1]);
                        }
                    }
                    assert forall|other: Seq<char>| other != session_id@ implies listed(names, other)
                        == listed(old_names, other) by {
                        if listed(names, other) {
                            let k = choose|k: int| 0 <= k < names.len() && (#[trigger] names[k])@ == other;
                            if k < i {
                                assert(names[k] == old_names[k]);
                            } else {
                                assert(names[k] == old_names[k + 1]);
                            }
                        }
                        if listed(old_names, other) {
                            let k = choose|k: int| 0 <= k < old_names.len() && (#[trigger] old_names[k])@ == other;
                            if k < i {
                                assert(names[k] == old_names[k]);
                            } else {
                                assert(k != i);
                                assert(names[k - 1] == old_names[k]);
                            }
                        }
                    }
                }
            },
            None => {},
        }
    }

    /// Whether the session is closing.
    pub fn is_session_shutting_down(&self, session_id: &str) -> (r: bool)
        ensures
            r == self.closing(session_id@),
    {
        self.find_closing(session_id).is_some()
    }

    /// The number of running workers of the session.
    pub fn active_for_session(&self, session_id: &str) -> (r: usize)
        requires
            self.wf(),
        ensures
            r == self.session_count(session_id@),
    {
        match self.find_session(session_id) {
            Some(i) => {
                proof {
                    lemma_count_at(self.active_by_session@, i as int);
                }
                self.active_by_session[i].1
            },
            None => {
                proof {
                    lemma_count_absent(self.active_by_session@, session_id@);
                }
                0
            },
        }
    }
}

/// `b` is `a` with one more worker, of session `s` when there is one.
pub open spec fn registered_from(
    a: SerialWorkerRegistry,
    s: Option<Seq<char>>,
    b: SerialWorkerRegistry,
) -> bool {
    &&& b.shutting() == a.shutting()
    &&& b.active_count() == a.active_count() + 1
    &&& forall|id: Seq<char>| #[trigger] b.closing(id) == a.closing(id)
    &&& forall|id: Seq<char>|
        #[trigger] b.session_count(id) == a.session_count(id) + if s == Some(id) {
            1nat
        } else {
            0nat
        }
}

/// What registering a worker of session `s` gives: refused while shutting
/// down or while the session closes, the registry unchanged; otherwise one
/// more worker.
pub open spec fn register_outcome(
    a: SerialWorkerRegistry,
    s: Option<Seq<char>>,
    b: SerialWorkerRegistry,
    r: Result<SerialWorkerGuard, String>,
) -> bool {
    if a.shutting() {
        &&& b == a
        &&& r matches Err(e) && e@ == "PortMate is shutting down; serial work is not accepted"@
    } else if s matches Some(id) && a.closing(id) {
        &&& b == a
        &&& r matches Err(e) && e@ == "serial session "@ + s.unwrap()
            + " is closing; serial work is not accepted"@
    } else {
        r is Ok && registered_from(a, s, b)
    }
}

/// `b` is `a` with one worker of session `s` (when there is one) ended.
pub open spec fn released_from(
    a: SerialWorkerRegistry,
    s: Option<Seq<char>>,
    b: SerialWorkerRegistry,
) -> bool {
    &&& b.shutting() == a.shutting()
    &&& b.active_count() == if a.active_count() > 0 {
        (a.active_count() - 1) as nat
    } else {
        0nat
    }
    &&& forall|id: Seq<char>| #[trigger] b.closing(id) == a.closing(id)
    &&& forall|id: Seq<char>|
        #[trigger] b.session_count(id) == if s == Some(id) && a.session_count(id) > 0 {
            (a.session_count(id) - 1) as nat
        } else {
            a.session_count(id)
        }
}

/// `b` is `a` with session `s` marked closing (or not) and nothing else
/// changed.
pub open spec fn session_closing_set(
    a: SerialWorkerRegistry,
    s: Seq<char>,
    closing: bool,
    b: SerialWorkerRegistry,
) -> bool {
    &&& b.shutting() == a.shutting()
    &&& b.active_count() == a.active_count()
    &&& b.closing(s) == closing
    &&& forall|id: Seq<char>| id != s ==> #[trigger] b.closing(id) == a.closing(id)
    &&& forall|id: Seq<char>| #[trigger] b.session_count(id) == a.session_count(id)
}

/// Registering a worker and then releasing its guard gives back the
/// counters as they were.
pub proof fn lemma_register_release_restores(
    a: SerialWorkerRegistry,
    s: Option<Seq<char>>,
    b: SerialWorkerRegistry,
    c: SerialWorkerRegistry,
)
    requires
        registered_from(a, s, b),
        released_from(b, s, c),
    ensures
        c.shutting() == a.shutting(),
        c.active_count() == a.active_count(),
        forall|id: Seq<char>| c.session_count(id) == a.session_count(id) && c.closing(id) == a.closing(
            id,
        ),
{
    assert forall|id: Seq<char>| c.session_count(id) == a.session_count(id) && c.closing(id)
        == a.closing(id) by {
        assert(b.session_count(id) == a.session_count(id) + if s == Some(id) {
            1nat
        } else {
            0nat
        });
        assert(c.closing(id) == b.closing(id));
    }
}

/// While a session is closing, none of its workers is accepted; once the
/// close ends, the closing marks are as before it began, if the session was
/// not closing then.
pub proof fn lemma_session_close_round_trip(
    a: SerialWorkerRegistry,
    s: Seq<char>,
    b: SerialWorkerRegistry,
    c: SerialWorkerRegistry,
)
    requires
        !a.closing(s),
        session_closing_set(a, s, true, b),
        session_closing_set(b, s, false, c),
    ensures
        forall|g: SerialWorkerRegistry, r: Result<SerialWorkerGuard, String>|
            register_outcome(b, Some(s), g, r) ==> r is Err && g == b,
        forall|id: Seq<char>| c.closing(id) == a.closing(id) && c.session_count(id) == a.session_count(
            id,
        ),
        c.active_count() == a.active_count(),
        c.shutting() == a.shutting(),
{
    assert forall|id: Seq<char>| c.closing(id) == a.closing(id) && c.session_count(id)
        == a.session_count(id) by {
        if id != s {
            assert(b.closing(id) == a.closing(id));
        }
        assert(b.session_count(id) == a.session_count(id));
    }
}

/// Where a terminal reader stands: not yet told, told to start, or told to
/// give up.
#[derive(Debug, Clone, Copy, PartialEq, Eq, Structural)]
pub enum ReaderStartState {
    Pending,
    Started,
    Cancelled,
}

/// What a terminal reader waits on before it reads.
#[derive(Debug, Clone, Copy, PartialEq, Eq, Structural)]
pub struct ReaderStartGate {
    pub state: ReaderStartState,
}

impl ReaderStartGate {
    /// A start signal that has not been given or cancelled.
    pub fn new() -> (r: Self)
        ensures
            r.state == ReaderStartState::Pending,
    {
        ReaderStartGate { state: ReaderStartState::Pending }
    }

    /// Lets the reader start.
    pub fn start(&mut self)
        ensures
            final(self).state == ReaderStartState::Started,
    {
        self.state = ReaderStartState::Started;
    }

    /// Tells the reader to give up.
    pub fn cancel(&mut self)
        ensures
            final(self).state == ReaderStartState::Cancelled,
    {
        self.state = ReaderStartState::Cancelled;
    }

    /// One look at the start signal: `None` while it is still pending (wait for a
    /// change and look again), else whether the reader may start.
    pub fn wait(&self) -> (r: Option<bool>)
        ensures
            r == match self.state {
                ReaderStartState::Pending => None::<bool>,
                ReaderStartState::Started => Some(true),
                ReaderStartState::Cancelled => Some(false),
            },
    {
        match self.state {
            ReaderStartState::Pending => None,
            ReaderStartState::Started => Some(true),
            ReaderStartState::Cancelled => Some(false),
        }
    }
}

/// Marks a session as closing for as long as it lives; `end` lifts the
/// mark.
#[derive(Debug)]
pub struct SerialSessionShutdownGuard {
    pub session_id: String,
}

impl SerialSessionShutdownGuard {
    /// Marks the session as closing.
    pub fn new(registry: &mut SerialWorkerRegistry, session_id: String) -> (r: Self)
        requires
            old(registry).wf(),
        ensures
            final(registry).wf(),
            session_closing_set(*old(registry), session_id@, true, *final(registry)),
            r.session_id == session_id,
    {
        registry.begin_session_shutdown(session_id.as_str());
        SerialSessionShutdownGuard { session_id }
    }

    /// Lifts the closing mark.
    pub fn end(self, registry: &mut SerialWorkerRegistry)
        requires
            old(registry).wf(),
        ensures
            final(registry).wf(),
            session_closing_set(*old(registry), self.session_id@, false, *final(registry)),
    {
        registry.end_session_shutdown(self.session_id.as_str());
    }

    /// Lifts the closing mark once no worker of the session runs; while one
    /// does, the guard comes back and the registry stays as it was, so that
    /// the session cannot reopen before its last worker has let go.
    pub fn end_if_idle(self, registry: &mut SerialWorkerRegistry) -> (r: Option<Self>)
        requires
            old(registry).wf(),
        ensures
            final(registry).wf(),
            old(registry).session_count(self.session_id@) > 0 ==> r == Some(self) && *final(registry)
                == *old(registry),
            old(registry).session_count(self.session_id@) == 0 ==> r is None && session_closing_set(
                *old(registry),
                self.session_id@,
                false,
                *final(registry),
            ),
    {
        if registry.active_for_session(self.session_id.as_str()) > 0 {
            Some(self)
        } else {
            self.end(registry);
            None
        }
    }
}

} // verus!
