//! Replies that arrive over the relay's reply stream: which streamed frames close a task, and
//! the book of per-session stream subscriptions shared by the tasks of that session.
use vstd::prelude::*;

use crate::keyed::{
    entry_map, insert_str, keys_of, lemma_entry_map, remove_str, set_key, strs, take_key,
};
use crate::keyed::str_eq;
use crate::reply_router::routing::{route_reply, routes_to, ReplyBody, ReplyDisposition};
use crate::reply_router::sink::ReplySink;

verus! {

/// A disposition after which the task has nothing more to wait for: its outcome was
/// recorded (now or before), or it answered a probe.
pub open spec fn settled(d: ReplyDisposition) -> bool {
    d == ReplyDisposition::Accepted || d == ReplyDisposition::AlreadyFinalized || d
        == ReplyDisposition::ProbeResolved
}

pub fn reply_task_is_settled(disposition: &ReplyDisposition) -> (r: bool)
    ensures
        r == settled(*disposition),
{
    match disposition {
        ReplyDisposition::Accepted | ReplyDisposition::AlreadyFinalized
        | ReplyDisposition::ProbeResolved => true,
        _ => false,
    }
}

/// Statuses that end the task's turn.
pub open spec fn turn_ending(status: Seq<char>) -> bool {
    status == "completed"@ || status == "errored"@ || status == "silent"@
}

pub fn ends_turn(status: &str) -> (r: bool)
    ensures
        r == turn_ending(status@),
{
    str_eq(status, "completed") || str_eq(status, "errored") || str_eq(status, "silent")
}

/// Routes a streamed reply frame (already read as a reply body): a frame without a task id is
/// skipped; any other goes through the same router as a callback, for its own task id.
pub fn route_reply_body<S: ReplySink>(sink: &S, body: ReplyBody) -> (r: Option<ReplyDisposition>)
    ensures
        body.task_id is None ==> r is None,
        body.task_id matches Some(t) ==> (r matches Some(d) && routes_to(sink, t@, body, d)),
{
    match body.task_id.clone() {
        None => None,
        Some(task_id) => Some(route_reply(sink, task_id.as_str(), body)),
    }
}

/// The task whose stream subscription a frame releases: the frame's task, when the frame
/// ends its turn and the task is settled.
pub fn task_to_release(
    status: Option<&str>,
    disposition: Option<ReplyDisposition>,
    task_id: Option<String>,
) -> (r: Option<String>)
    ensures
        r is Some <==> (status matches Some(s) && turn_ending(s@)) && (disposition matches Some(d)
            && settled(d)) && task_id is Some,
        r matches Some(t) ==> task_id matches Some(x) && t@ == x@,
{
    let turn_ended = match status {
        Some(s) => ends_turn(s),
        None => false,
    };
    let done = match &disposition {
        Some(d) => reply_task_is_settled(d),
        None => false,
    };
    if turn_ended && done {
        task_id
    } else {
        None
    }
}

/// One session's subscription: the tasks that hold it, and its handle.
pub struct Subscription<H> {
    owners: Vec<String>,
    handle: H,
}

pub closed spec fn owner_set<H>(s: Subscription<H>) -> Set<Seq<char>> {
    strs(s.owners@).to_set()
}

pub closed spec fn subscription_ok<H>(s: Subscription<H>) -> bool {
    strs(s.owners@).no_duplicates() && s.owners@.len() > 0
}

/// The holders of each session's subscription once `owner` has joined `session`'s.
pub open spec fn owners_after_acquire(
    m: Map<Seq<char>, Set<Seq<char>>>,
    session: Seq<char>,
    owner: Seq<char>,
) -> Map<Seq<char>, Set<Seq<char>>> {
    m.insert(
        session,
        if m.contains_key(session) {
            m[session].insert(owner)
        } else {
            Set::<Seq<char>>::empty().insert(owner)
        },
    )
}

/// The holders of each session's subscription once `owner` has left `session`'s: the session
/// goes with its last holder.
pub open spec fn owners_after_release(
    m: Map<Seq<char>, Set<Seq<char>>>,
    session: Seq<char>,
    owner: Seq<char>,
) -> Map<Seq<char>, Set<Seq<char>>> {
    if !m.contains_key(session) {
        m
    } else if m[session].remove(owner).is_empty() {
        m.remove(session)
    } else {
        m.insert(session, m[session].remove(owner))
    }
}

/// A task that joins a session's subscription and then leaves it leaves every session's
/// holders as they were: the subscription it started, if it was the only holder, goes again.
pub proof fn law_join_then_leave_restores(
    m: Map<Seq<char>, Set<Seq<char>>>,
    session: Seq<char>,
    owner: Seq<char>,
)
    requires
        forall|k: Seq<char>| #[trigger] m.contains_key(k) ==> !m[k].is_empty(),
        m.contains_key(session) ==> !m[session].contains(owner),
    ensures
        owners_after_release(owners_after_acquire(m, session, owner), session, owner) == m,
{
    if m.contains_key(session) {
        assert(m[session].insert(owner).remove(owner) =~= m[session]);
        assert(m.insert(session, m[session]) =~= m);
    } else {
        assert(Set::<Seq<char>>::empty().insert(owner).remove(owner) =~= Set::<Seq<char>>::empty());
        assert(m.insert(session, Set::<Seq<char>>::empty().insert(owner)).remove(session) =~= m);
    }
}

/// The stream subscriptions, one per session, each held by the tasks that wait on it.
pub struct ReplyStreamManager<H> {
    active: Vec<(String, Subscription<H>)>,
}

impl<H> ReplyStreamManager<H> {
    /// No session twice; every subscription held by at least one task, none twice.
    pub closed spec fn wf(&self) -> bool {
        &&& keys_of(self.active@).no_duplicates()
        &&& forall|k: Seq<char>| #[trigger]
            entry_map(self.active@).contains_key(k) ==> subscription_ok(entry_map(self.active@)[k])
    }

    /// The tasks holding each session's subscription.
    pub closed spec fn owners(&self) -> Map<Seq<char>, Set<Seq<char>>> {
        entry_map(self.active@).map_values(|s: Subscription<H>| owner_set(s))
    }

    /// The handle of each session's subscription.
    pub closed spec fn handles(&self) -> Map<Seq<char>, H> {
        entry_map(self.active@).map_values(|s: Subscription<H>| s.handle)
    }

    pub fn new() -> (t: ReplyStreamManager<H>)
        ensures
            t.wf(),
            t.owners() == Map::<Seq<char>, Set<Seq<char>>>::empty(),
    {
        let t = ReplyStreamManager { active: Vec::new() };
        assert(keys_of(t.active@) =~= Seq::<Seq<char>>::empty());
        assert(t.owners() =~= Map::<Seq<char>, Set<Seq<char>>>::empty());
        t
    }

    /// The handle of a session's subscription, if it has one.
    pub fn handle(&self, session_id: &str) -> (r: Option<&H>)
        requires
            self.wf(),
        ensures
            match r {
                Some(h) => self.handles().contains_key(session_id@) && self.handles()[session_id@]
                    == *h,
                None => !self.handles().contains_key(session_id@),
            },
    {
        match crate::keyed::get_key(&self.active, session_id) {
            Some(s) => Some(&s.handle),
            None => None,
        }
    }

    /// Adds `owner` to the holders of `session_id`'s subscription. A subscription whose
    /// stream is still `live` is kept; otherwise (none, or a stopped one) a new one is
    /// started with `start`, keeping the holders of the stopped one.
    pub fn acquire<F>(&mut self, session_id: String, owner: &str, live: bool, start: F) where
        F: FnOnce() -> H,

        requires
            old(self).wf(),
            call_requires(start, ()),
        ensures
            final(self).wf(),
            final(self).owners() == owners_after_acquire(old(self).owners(), session_id@, owner@),
            live && old(self).owners().contains_key(session_id@) ==> final(self).handles()
                == old(self).handles(),
            !(live && old(self).owners().contains_key(session_id@)) ==> final(self).handles()
                .contains_key(session_id@) && call_ensures(
                start,
                (),
                final(self).handles()[session_id@],
            ),
            forall|k: Seq<char>|
                k != session_id@ && #[trigger] old(self).handles().contains_key(k)
                    ==> final(self).handles().contains_key(k)
                    && final(self).handles()[k] == old(self).handles()[k],
    {
        let ghost before = entry_map(self.active@);
        let prev = take_key(&mut self.active, session_id.as_str());
        let ghost middle = entry_map(self.active@);
        match prev {
            Some(sub) => {
                let Subscription { owners, handle } = sub;
                let mut owners = owners;
                insert_str(&mut owners, owner);
                proof {
                    crate::keyed::lemma_push_to_set(strs(owners@).drop_last(), owner@);
                }
                if live {
                    set_key(&mut self.active, session_id, Subscription { owners, handle });
                } else {
                    let h = start();
                    set_key(&mut self.active, session_id, Subscription { owners, handle: h });
                }
            },
            None => {
                let mut owners: Vec<String> = Vec::new();
                owners.push(owner.to_owned());
                proof {
                    assert(strs(owners@) =~= Seq::<Seq<char>>::empty().push(owner@));
                    crate::keyed::lemma_push_to_set(Seq::<Seq<char>>::empty(), owner@);
                    assert(Seq::<Seq<char>>::empty().to_set() =~= Set::<Seq<char>>::empty());
                }
                let h = start();
                set_key(&mut self.active, session_id, Subscription { owners, handle: h });
            },
        }
        proof {
            assert(self.owners() =~= old(self).owners().insert(
                session_id@,
                if old(self).owners().contains_key(session_id@) {
                    old(self).owners()[session_id@].insert(owner@)
                } else {
                    Set::<Seq<char>>::empty().insert(owner@)
                },
            ));
            if live && old(self).owners().contains_key(session_id@) {
                assert(self.handles() =~= old(self).handles());
            }
        }
    }

    /// Removes `owner` from the holders of `session_id`'s subscription; when none is left, the
    /// subscription goes and its handle is handed back to be cancelled.
    pub fn release(&mut self, session_id: &str, owner: &str) -> (r: Option<H>)
        requires
            old(self).wf(),
        ensures
            final(self).wf(),
            final(self).owners() == owners_after_release(old(self).owners(), session_id@, owner@),
            r is Some <==> old(self).owners().contains_key(session_id@)
                && old(self).owners()[session_id@].remove(owner@).is_empty(),
            r is Some ==> r == Some(old(self).handles()[session_id@]),
            r is Some ==> final(self).handles() == old(self).handles().remove(session_id@),
            r is None ==> final(self).handles() == old(self).handles(),
    {
        let prev = take_key(&mut self.active, session_id);
        match prev {
            None => {
                assert(self.owners() =~= old(self).owners());
                assert(self.handles() =~= old(self).handles());
                None
            },
            Some(sub) => {
                let Subscription { owners, handle } = sub;
                let mut owners = owners;
                remove_str(&mut owners, owner);
                if owners.len() == 0 {
                    proof {
                        assert(strs(owners@) =~= Seq::<Seq<char>>::empty());
                        assert(strs(owners@).to_set() =~= Set::<Seq<char>>::empty());
                        assert(self.owners() =~= old(self).owners().remove(session_id@));
                        assert(self.handles() =~= old(self).handles().remove(session_id@));
                    }
                    Some(handle)
                } else {
                    proof {
                        assert(strs(owners@).len() > 0);
                        assert(strs(owners@).to_set().contains(strs(owners@)[0]));
                    }
                    set_key(&mut self.active, session_id.to_owned(), Subscription { owners, handle });
                    proof {
                        assert(self.owners() =~= old(self).owners().insert(
                            session_id@,
                            old(self).owners()[session_id@].remove(owner@),
                        ));
                        assert(self.handles() =~= old(self).handles());
                    }
                    None
                }
            },
        }
    }

    /// Ends every subscription, handing back their handles for cancelling: one per session,
    /// each session's own.
    pub fn cancel_all(&mut self) -> (r: Vec<H>)
        requires
            old(self).wf(),
        ensures
            final(self).wf(),
            final(self).owners() == Map::<Seq<char>, Set<Seq<char>>>::empty(),
            r@.len() == old(self).handles().dom().len(),
            r@.to_set() == old(self).handles().values(),
    {
        let ghost start = self.active@;
        proof {
            lemma_entry_map(start);
            keys_of(start).unique_seq_to_set();
            assert(self.handles().dom() =~= keys_of(start).to_set());
        }
        let mut out: Vec<H> = Vec::new();
        let ghost n = start.len();
        while self.active.len() > 0
            invariant
                out@.len() + self.active@.len() == n,
                n == start.len(),
                self.active@ == start.take(self.active@.len() as int),
                forall|i: int| 0 <= i < out@.len() ==> out@[i] == #[trigger] start[n - 1 - i].1.handle,
            decreases self.active.len(),
        {
            let ghost before = self.active@;
            let (_, sub) = self.active.pop().unwrap();
            proof {
                assert(before.last() == start[before.len() - 1]);
            }
            out.push(sub.handle);
            proof {
                assert(self.active@ =~= start.take(self.active@.len() as int));
            }
        }
        proof {
            assert forall|v: H| #[trigger] out@.to_set().contains(v) <==> old(self).handles().values().contains(v) by {
                if out@.to_set().contains(v) {
                    let i = choose|i: int| 0 <= i < out@.len() && out@[i] == v;
                    let j = n - 1 - i;
                    assert(out@[i] == start[n - 1 - i].1.handle);
                    assert(entry_map(start)[keys_of(start)[j]] == start[j].1);
                    assert(keys_of(start).contains(keys_of(start)[j]));
                    assert(old(self).handles().contains_key(keys_of(start)[j]));
                    assert(old(self).handles()[keys_of(start)[j]] == v);
                }
                if old(self).handles().values().contains(v) {
                    let k = choose|k: Seq<char>| old(self).handles().contains_key(k) && old(self).handles()[k] == v;
                    assert(keys_of(start).contains(k));
                    let j = choose|j: int| 0 <= j < keys_of(start).len() && keys_of(start)[j] == k;
                    assert(entry_map(start)[keys_of(start)[j]] == start[j].1);
                    let i = n - 1 - j;
                    assert(out@[i] == start[n - 1 - i].1.handle);
                    assert(out@.contains(v));
                }
            }
            assert(out@.to_set() =~= old(self).handles().values());
        }
        assert(keys_of(self.active@) =~= Seq::<Seq<char>>::empty());
        assert(self.owners() =~= Map::<Seq<char>, Set<Seq<char>>>::empty());
        out
    }

    /// Every session with a subscription has a holder.
    pub proof fn lemma_owned(&self)
        requires
            self.wf(),
        ensures
            forall|k: Seq<char>| #[trigger] self.owners().contains_key(k) ==> !self.owners()[k].is_empty(),
    {
        assert forall|k: Seq<char>| #[trigger] self.owners().contains_key(k) implies !self.owners()[k].is_empty() by {
            let sub = entry_map(self.active@)[k];
            assert(subscription_ok(sub));
            assert(owner_set(sub).contains(strs(sub.owners@)[0]));
        }
    }

    /// How many sessions have a subscription.
    pub fn session_count(&self) -> (r: usize)
        requires
            self.wf(),
        ensures
            r == self.owners().dom().len(),
    {
        proof {
            lemma_entry_map(self.active@);
            keys_of(self.active@).unique_seq_to_set();
            assert(self.owners().dom() =~= keys_of(self.active@).to_set());
        }
        self.active.len()
    }

    /// How many tasks hold a session's subscription.
    pub fn owner_count(&self, session_id: &str) -> (r: usize)
        requires
            self.wf(),
        ensures
            self.owners().contains_key(session_id@) ==> r == self.owners()[session_id@].len(),
            !self.owners().contains_key(session_id@) ==> r == 0,
    {
        match crate::keyed::get_key(&self.active, session_id) {
            Some(s) => {
                proof {
                    strs(s.owners@).unique_seq_to_set();
                }
                s.owners.len()
            },
            None => 0,
        }
    }
}

} // verus!
