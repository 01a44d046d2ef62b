//! The session manager: per-connection state for streaming transports.
//!
//! A session is created on first contact, touched on every request, and
//! destroyed explicitly or by the idle reaper. Identifiers are never
//! reused: they are drawn from a strictly increasing counter. The reaper
//! removes exactly the sessions whose last activity lies further back
//! than the idle threshold; reaping twice at the same instant destroys
//! nothing the second time.

use vstd::prelude::*;
use vstd::string::StringExecFns;

use crate::dispatch::{invoke, spec_fail, spec_invoke, ErrorKind, Outcome, Request, Response};
use crate::registry::Registry;

verus! {

/// The transport a session belongs to.
#[derive(Debug, Clone, Copy, PartialEq, Eq, Structural)]
pub enum TransportKind {
    Stdio,
    Http,
    Sse,
}

/// One live session.
#[derive(Debug, Clone, Copy, PartialEq, Eq, Structural)]
pub struct Session {
    pub id: u64,
    pub created_at: u64,
    pub last_activity: u64,
    pub kind: TransportKind,
}

/// Failure of a session operation.
#[derive(Debug, PartialEq, Eq, Structural)]
pub enum SessionError {
    UnknownSession,
}

/// Whether `s` has been idle longer than `idle_ms` at instant `now_ms`.
pub open spec fn spec_idle(s: Session, now_ms: u64, idle_ms: u64) -> bool {
    s.last_activity + idle_ms < now_ms
}

/// The sessions of `s` that are not idle at `now_ms`, in order.
pub open spec fn spec_live(s: Seq<Session>, now_ms: u64, idle_ms: u64) -> Seq<Session>
    decreases s.len(),
{
    if s.len() == 0 {
        Seq::empty()
    } else {
        (if spec_idle(s[0], now_ms, idle_ms) {
            Seq::empty()
        } else {
            seq![s[0]]
        }) + spec_live(s.drop_first(), now_ms, idle_ms)
    }
}

/// `s` after `id`'s activity stamp is moved to `now_ms`.
pub open spec fn spec_touched(s: Session, now_ms: u64) -> Session {
    Session { id: s.id, created_at: s.created_at, last_activity: now_ms, kind: s.kind }
}

/// Appending a session appends it to the live sessions unless it is idle.
proof fn lemma_live_push(s: Seq<Session>, now_ms: u64, idle_ms: u64, x: Session)
    ensures
        spec_live(s.push(x), now_ms, idle_ms) == spec_live(s, now_ms, idle_ms) + (if spec_idle(
            x,
            now_ms,
            idle_ms,
        ) {
            Seq::<Session>::empty()
        } else {
            seq![x]
        }),
    decreases s.len(),
{
    reveal_with_fuel(spec_live, 2);
    if s.len() == 0 {
        assert(s.push(x)[0] == x);
        assert(s.push(x).drop_first() =~= Seq::<Session>::empty());
        assert(spec_live(s.push(x), now_ms, idle_ms) =~= spec_live(s, now_ms, idle_ms) + (if
        spec_idle(x, now_ms, idle_ms) {
            Seq::<Session>::empty()
        } else {
            seq![x]
        }));
    } else {
        lemma_live_push(s.drop_first(), now_ms, idle_ms, x);
        let head = if spec_idle(s[0], now_ms, idle_ms) {
            Seq::<Session>::empty()
        } else {
            seq![s[0]]
        };
        let last = if spec_idle(x, now_ms, idle_ms) {
            Seq::<Session>::empty()
        } else {
            seq![x]
        };
        assert(s.push(x)[0] == s[0]);
        assert(s.push(x).drop_first() =~= s.drop_first().push(x));
        assert(spec_live(s.push(x), now_ms, idle_ms) == head + spec_live(
            s.drop_first().push(x),
            now_ms,
            idle_ms,
        ));
        assert(head + (spec_live(s.drop_first(), now_ms, idle_ms) + last) =~= (head + spec_live(
            s.drop_first(),
            now_ms,
            idle_ms,
        )) + last);
    }
}

/// Every live session is kept as it was, and none is idle.
pub proof fn lemma_live_sound(s: Seq<Session>, now_ms: u64, idle_ms: u64)
    ensures
        forall|i: int|
            0 <= i < spec_live(s, now_ms, idle_ms).len() ==> !spec_idle(
                #[trigger] spec_live(s, now_ms, idle_ms)[i],
                now_ms,
                idle_ms,
            ),
        forall|i: int|
            0 <= i < spec_live(s, now_ms, idle_ms).len() ==> s.contains(
                #[trigger] spec_live(s, now_ms, idle_ms)[i],
            ),
    decreases s.len(),
{
    if s.len() > 0 {
        lemma_live_sound(s.drop_first(), now_ms, idle_ms);
        let rest = spec_live(s.drop_first(), now_ms, idle_ms);
        assert forall|i: int|
            0 <= i < spec_live(s, now_ms, idle_ms).len() implies !spec_idle(
            #[trigger] spec_live(s, now_ms, idle_ms)[i],
            now_ms,
            idle_ms,
        ) && s.contains(spec_live(s, now_ms, idle_ms)[i]) by {
            let head = if spec_idle(s[0], now_ms, idle_ms) {
                Seq::<Session>::empty()
            } else {
                seq![s[0]]
            };
            if i < head.len() {
                assert(spec_live(s, now_ms, idle_ms)[i] == s[0]);
            } else {
                assert(spec_live(s, now_ms, idle_ms)[i] == rest[i - head.len()]);
                let e = rest[i - head.len()];
                let j = choose|j: int| 0 <= j < s.drop_first().len() && s.drop_first()[j] == e;
                assert(s[j + 1] == e);
            }
        }
    }
}

/// The law of idempotent reaping: taking the live sessions of an
/// already-live list, at the same instant and threshold, removes nothing.
pub proof fn lemma_live_idempotent(s: Seq<Session>, now_ms: u64, idle_ms: u64)
    ensures
        spec_live(spec_live(s, now_ms, idle_ms), now_ms, idle_ms) == spec_live(s, now_ms, idle_ms),
    decreases s.len(),
{
    reveal_with_fuel(spec_live, 2);
    if s.len() > 0 {
        lemma_live_idempotent(s.drop_first(), now_ms, idle_ms);
        if spec_idle(s[0], now_ms, idle_ms) {
        } else {
            let rest = spec_live(s.drop_first(), now_ms, idle_ms);
            let whole = seq![s[0]] + rest;
            assert(spec_live(s, now_ms, idle_ms) =~= whole);
            assert(whole.len() > 0);
            assert(whole[0] == s[0]);
            assert(whole.drop_first() =~= rest);
            assert(spec_live(whole, now_ms, idle_ms) =~= seq![s[0]] + spec_live(
                rest,
                now_ms,
                idle_ms,
            ));
        }
    }
}

/// The session table and its identifier counter.
#[derive(Debug)]
pub struct SessionManager {
    sessions: Vec<Session>,
    next_id: u64,
}

impl SessionManager {
    /// The model: the live sessions, in creation order.
    pub closed spec fn view(self) -> Seq<Session> {
        self.sessions@
    }

    /// The identifier the next created session will get.
    pub closed spec fn spec_next_id(self) -> u64 {
        self.next_id
    }

    /// Identifiers are unique and below the counter.
    pub open spec fn wf(self) -> bool {
        &&& forall|i: int, j: int|
            0 <= i < j < self.view().len() ==> (#[trigger] self.view()[i]).id != (
            #[trigger] self.view()[j]).id
        &&& forall|i: int|
            0 <= i < self.view().len() ==> (#[trigger] self.view()[i]).id < self.spec_next_id()
    }

    /// Whether a session with identifier `id` exists.
    pub open spec fn spec_contains(self, id: u64) -> bool {
        exists|i: int| 0 <= i < self.view().len() && (#[trigger] self.view()[i]).id == id
    }

    /// An empty session table.
    pub fn new() -> (r: SessionManager)
        ensures
            r.view() == Seq::<Session>::empty(),
            r.spec_next_id() == 0,
            r.wf(),
    {
        let r = SessionManager { sessions: Vec::new(), next_id: 0 };
        proof {
            assert(r.view() =~= Seq::<Session>::empty());
        }
        r
    }

    /// Creates a session for `kind` at instant `now_ms` and returns its
    /// fresh identifier.
    pub fn create(&mut self, kind: TransportKind, now_ms: u64) -> (id: u64)
        requires
            old(self).wf(),
            old(self).spec_next_id() < u64::MAX,
        ensures
            id == old(self).spec_next_id(),
            !old(self).spec_contains(id),
            final(self).view() == old(self).view().push(
                Session { id, created_at: now_ms, last_activity: now_ms, kind },
            ),
            final(self).spec_next_id() == old(self).spec_next_id() + 1,
            final(self).wf(),
    {
        let id = self.next_id;
        self.next_id = self.next_id + 1;
        self.sessions.push(Session { id, created_at: now_ms, last_activity: now_ms, kind });
        id
    }

    /// Finds the position of session `id`.
    fn position(&self, id: u64) -> (r: Option<usize>)
        ensures
            match r {
                Some(i) => i < self.view().len() && self.view()[i as int].id == id,
                None => !self.spec_contains(id),
            },
    {
        let n = self.sessions.len();
        for i in 0..n
            invariant
                n == self.sessions.len(),
                forall|j: int| 0 <= j < i ==> (#[trigger] self.view()[j]).id != id,
        {
            if self.sessions[i].id == id {
                return Some(i);
            }
        }
        None
    }

    /// Moves `id`'s activity stamp to `now_ms`; fails on an unknown
    /// identifier, leaving the table unchanged.
    pub fn touch(&mut self, id: u64, now_ms: u64) -> (r: Result<(), SessionError>)
        requires
            old(self).wf(),
        ensures
            match r {
                Ok(()) => {
                    &&& old(self).spec_contains(id)
                    &&& final(self).view().len() == old(self).view().len()
                    &&& forall|i: int|
                        0 <= i < old(self).view().len() ==> (#[trigger] final(self).view()[i]) == (
                        if old(self).view()[i].id == id {
                            spec_touched(old(self).view()[i], now_ms)
                        } else {
                            old(self).view()[i]
                        })
                },
                Err(SessionError::UnknownSession) => {
                    &&& !old(self).spec_contains(id)
                    &&& final(self).view() == old(self).view()
                },
            },
            final(self).spec_next_id() == old(self).spec_next_id(),
            final(self).wf(),
    {
        match self.position(id) {
            Some(i) => {
                self.sessions[i].last_activity = now_ms;
                proof {
                    assert forall|k: int|
                        0 <= k < old(self).view().len() implies (#[trigger] final(self).view()[k])
                        == (if old(self).view()[k].id == id {
                        spec_touched(old(self).view()[k], now_ms)
                    } else {
                        old(self).view()[k]
                    }) by {
                        if k != i as int {
                            assert(old(self).view()[k].id != id);
                        }
                    }
                }
                Ok(())
            },
            None => Err(SessionError::UnknownSession),
        }
    }

    /// Removes session `id` if it exists; reports whether it did.
    pub fn destroy(&mut self, id: u64) -> (r: bool)
        requires
            old(self).wf(),
        ensures
            r == old(self).spec_contains(id),
            !final(self).spec_contains(id),
            final(self).view().len() == old(self).view().len() - (if r {
                1int
            } else {
                0int
            }),
            forall|s: Session|
                final(self).view().contains(s) <==> (old(self).view().contains(s) && s.id != id),
            final(self).spec_next_id() == old(self).spec_next_id(),
            final(self).wf(),
    {
        match self.position(id) {
            Some(i) => {
                self.sessions.remove(i);
                proof {
                    let pre = old(self).view();
                    let post = final(self).view();
                    assert(post =~= pre.take(i as int) + pre.skip(i as int + 1));
                    assert forall|s: Session| post.contains(s) implies (pre.contains(s) && s.id
                        != id) by {
                        let k = choose|k: int| 0 <= k < post.len() && post[k] == s;
                        if k < i as int {
                            assert(pre[k] == s);
                        } else {
                            assert(pre[k + 1] == s);
                        }
                    }
                    assert forall|s: Session| pre.contains(s) && s.id != id implies post.contains(
                        s,
                    ) by {
                        let k = choose|k: int| 0 <= k < pre.len() && pre[k] == s;
                        if k < i as int {
                            assert(post[k] == s);
                        } else {
                            assert(k != i as int);
                            assert(post[k - 1] == s);
                        }
                    }
                    assert forall|k: int|
                        0 <= k < post.len() implies (#[trigger] post[k]).id != id by {
                        assert(post.contains(post[k]));
                    }
                }
                true
            },
            None => false,
        }
    }

    /// Destroys every session idle longer than `idle_ms` at `now_ms` and
    /// reports how many were destroyed. The scan copies the survivors:
    /// it holds no entry back for later.
    pub fn reap(&mut self, now_ms: u64, idle_ms: u64) -> (count: usize)
        requires
            old(self).wf(),
        ensures
            final(self).view() == spec_live(old(self).view(), now_ms, idle_ms),
            count == old(self).view().len() - final(self).view().len(),
            final(self).spec_next_id() == old(self).spec_next_id(),
            final(self).wf(),
    {
        let ghost pre = self.view();
        let mut kept: Vec<Session> = Vec::new();
        proof {
            assert(pre.take(0) =~= Seq::<Session>::empty());
            assert(kept@ =~= spec_live(pre.take(0), now_ms, idle_ms));
        }
        let n = self.sessions.len();
        for i in 0..n
            invariant
                n == self.sessions.len(),
                pre == self.view(),
                kept@.len() <= i,
                kept@ == spec_live(pre.take(i as int), now_ms, idle_ms),
        {
            let s = self.sessions[i];
            let idle = now_ms > idle_ms && s.last_activity < now_ms - idle_ms;
            proof {
                assert(idle == spec_idle(pre[i as int], now_ms, idle_ms));
            }
            if !idle {
                kept.push(s);
            }
            proof {
                lemma_live_push(pre.take(i as int), now_ms, idle_ms, pre[i as int]);
                assert(pre.take(i + 1) =~= pre.take(i as int).push(pre[i as int]));
                assert(kept@ =~= spec_live(pre.take(i + 1), now_ms, idle_ms));
            }
        }
        proof {
            assert(pre.take(n as int) =~= pre);
        }
        let count = self.sessions.len() - kept.len();
        self.sessions = kept;
        proof {
            lemma_live_sound(pre, now_ms, idle_ms);
            assert forall|i: int, j: int|
                0 <= i < j < final(self).view().len() implies (#[trigger] final(self).view()[i]).id
                != (#[trigger] final(self).view()[j]).id by {
                lemma_live_distinct(pre, now_ms, idle_ms, i, j);
            }
        }
        count
    }
}

/// Distinct positions of the live list carry distinct identifiers,
/// because the live list is a subsequence of a table with unique
/// identifiers.
proof fn lemma_live_distinct(s: Seq<Session>, now_ms: u64, idle_ms: u64, i: int, j: int)
    requires
        forall|a: int, b: int|
            0 <= a < b < s.len() ==> (#[trigger] s[a]).id != (#[trigger] s[b]).id,
        0 <= i < j < spec_live(s, now_ms, idle_ms).len(),
    ensures
        spec_live(s, now_ms, idle_ms)[i].id != spec_live(s, now_ms, idle_ms)[j].id,
    decreases s.len(),
{
    if s.len() > 0 {
        let head = if spec_idle(s[0], now_ms, idle_ms) {
            Seq::<Session>::empty()
        } else {
            seq![s[0]]
        };
        let rest = spec_live(s.drop_first(), now_ms, idle_ms);
        assert forall|a: int, b: int|
            0 <= a < b < s.drop_first().len() implies (#[trigger] s.drop_first()[a]).id != (
        #[trigger] s.drop_first()[b]).id by {
            assert(s[a + 1] == s.drop_first()[a]);
            assert(s[b + 1] == s.drop_first()[b]);
        }
        if i >= head.len() {
            lemma_live_distinct(s.drop_first(), now_ms, idle_ms, i - head.len(), j - head.len());
            assert(spec_live(s, now_ms, idle_ms)[i] == rest[i - head.len()]);
            assert(spec_live(s, now_ms, idle_ms)[j] == rest[j - head.len()]);
        } else {
            lemma_live_sound(s.drop_first(), now_ms, idle_ms);
            assert(spec_live(s, now_ms, idle_ms)[i] == s[0]);
            assert(spec_live(s, now_ms, idle_ms)[j] == rest[j - head.len()]);
            let e = rest[j - head.len()];
            let k = choose|k: int| 0 <= k < s.drop_first().len() && s.drop_first()[k] == e;
            assert(s[k + 1] == e);
            assert(s[0].id != s[k + 1].id);
        }
    }
}

/// Serves one message-endpoint call of the event-stream transport: a
/// request whose session identifier is missing or unknown is rejected
/// with an unknown-session failure and the table is left unchanged;
/// otherwise the session is touched at `now_ms` and the call dispatched.
pub fn sse_post(
    reg: &Registry,
    sm: &mut SessionManager,
    req: Request,
    now_ms: u64,
    now: &String,
) -> (resp: Response)
    requires
        old(sm).wf(),
    ensures
        final(sm).wf(),
        final(sm).spec_next_id() == old(sm).spec_next_id(),
        match req.view().session {
            None => {
                &&& resp.view() == spec_fail(
                    req.view().id,
                    ErrorKind::UnknownSession,
                    "missing session id"@,
                )
                &&& final(sm).view() == old(sm).view()
            },
            Some(sid) => {
                if old(sm).spec_contains(sid) {
                    &&& resp.view() == spec_invoke(reg.view(), req.view(), now@)
                    &&& final(sm).view().len() == old(sm).view().len()
                    &&& forall|i: int|
                        0 <= i < old(sm).view().len() ==> (#[trigger] final(sm).view()[i]) == (
                        if old(sm).view()[i].id == sid {
                            spec_touched(old(sm).view()[i], now_ms)
                        } else {
                            old(sm).view()[i]
                        })
                } else {
                    &&& resp.view() == spec_fail(
                        req.view().id,
                        ErrorKind::UnknownSession,
                        "unknown or expired session"@,
                    )
                    &&& final(sm).view() == old(sm).view()
                }
            },
        },
{
    match req.session {
        None => Response {
            id: req.id,
            outcome: Outcome::Failure(
                ErrorKind::UnknownSession,
                String::from_str("missing session id"),
            ),
        },
        Some(sid) => match sm.touch(sid, now_ms) {
            Ok(()) => invoke(reg, req, now),
            Err(SessionError::UnknownSession) => Response {
                id: req.id,
                outcome: Outcome::Failure(
                    ErrorKind::UnknownSession,
                    String::from_str("unknown or expired session"),
                ),
            },
        },
    }
}

} // verus!
