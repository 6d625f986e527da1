//! The registry of relay tasks awaiting a reply: which session each task belongs to,
//! which terminal replies are being written, which tasks are finished, and when each
//! pending task was last heard from.
use std::time::{Duration, Instant};
use vstd::prelude::*;

use crate::clock::{
    elapsed_reading, instant_now, millis_since, read_elapsed_since, read_millis_since,
};
use crate::keyed::{
    entry_map, excess, lemma_push_to_set, find_key, keep_newest, get_key, has_str, insert_str, keys_of, lemma_entry_map, lemma_push_fresh,
    lemma_remove_index, lemma_suffix_no_dup, lemma_unique_index, remove_key, remove_str, set_key,
    str_eq, strs,
};

verus! {

/// How many pending tasks, and how many finished task ids, the registry remembers.
pub const PENDING_CAPACITY: usize = 1024;

/// The answer to a request for the right to write a task's terminal reply.
#[derive(Clone, Copy, Debug, PartialEq, Eq, Structural)]
pub enum ReserveResult {
    Reserved,
    Duplicate,
    Unregistered,
    SessionMismatch,
}

/// The answer to a watchdog check of a task's last activity.
#[derive(Clone, Copy, Debug, PartialEq, Eq)]
pub enum TimeoutCheck {
    /// Still within the timeout, with this many milliseconds left.
    StillFresh { remaining_ms: u64 },
    Claimed,
    NoLongerTracked,
}

/// What a registry holds.
pub struct PendingModel {
    /// Pending tasks with their sessions, oldest registration first.
    pub pending: Seq<(Seq<char>, Seq<char>)>,
    /// Tasks whose terminal reply is being written.
    pub reserved: Set<Seq<char>>,
    /// Finished tasks, oldest first.
    pub finalized: Seq<Seq<char>>,
    /// When each pending task was last heard from.
    pub activity: Map<Seq<char>, Instant>,
    /// Tasks that the watchdog has timed out.
    pub claimed: Set<Seq<char>>,
}

pub open spec fn task_ids(p: Seq<(Seq<char>, Seq<char>)>) -> Seq<Seq<char>> {
    p.map_values(|e: (Seq<char>, Seq<char>)| e.0)
}

pub open spec fn is_pending(m: PendingModel, t: Seq<char>) -> bool {
    task_ids(m.pending).contains(t)
}

/// The session that a pending task is bound to.
pub open spec fn session_bound(p: Seq<(Seq<char>, Seq<char>)>, t: Seq<char>) -> Option<Seq<char>> {
    if task_ids(p).contains(t) {
        Some(p[task_ids(p).index_of(t)].1)
    } else {
        None
    }
}

/// `p` without the entry of task `t`.
pub open spec fn drop_task(p: Seq<(Seq<char>, Seq<char>)>, t: Seq<char>) -> Seq<(Seq<char>, Seq<char>)> {
    if task_ids(p).contains(t) {
        p.remove(task_ids(p).index_of(t))
    } else {
        p
    }
}

pub open spec fn well_formed(m: PendingModel) -> bool {
    &&& task_ids(m.pending).no_duplicates()
    &&& m.finalized.no_duplicates()
    &&& forall|t: Seq<char>| #[trigger] m.reserved.contains(t) ==> is_pending(m, t)
    &&& forall|t: Seq<char>| #[trigger] m.activity.contains_key(t) ==> is_pending(m, t)
}

pub open spec fn empty_model() -> PendingModel {
    PendingModel {
        pending: Seq::empty(),
        reserved: Set::empty(),
        finalized: Seq::empty(),
        activity: Map::empty(),
        claimed: Set::empty(),
    }
}

/// Registering task `t` for session `s` at time `now`: a task already pending is left as it
/// is; otherwise it is appended, and the oldest entries beyond the capacity are forgotten.
pub open spec fn register_step(m: PendingModel, t: Seq<char>, s: Seq<char>, now: Instant) -> PendingModel {
    if is_pending(m, t) {
        m
    } else {
        let p = m.pending.push((t, s));
        let k = excess(p.len() as int, PENDING_CAPACITY as int);
        let gone = task_ids(p.take(k)).to_set();
        PendingModel {
            pending: p.subrange(k, p.len() as int),
            reserved: m.reserved.difference(gone),
            finalized: m.finalized,
            activity: m.activity.insert(t, now).remove_keys(gone),
            claimed: m.claimed,
        }
    }
}

/// Whether a terminal reply for `t` in session `s` may be written, before the reservation.
pub open spec fn binding_check(m: PendingModel, t: Seq<char>, s: Seq<char>) -> ReserveResult {
    if m.finalized.contains(t) {
        ReserveResult::Duplicate
    } else {
        match session_bound(m.pending, t) {
            None => ReserveResult::Unregistered,
            Some(e) => if e == s {
                ReserveResult::Reserved
            } else {
                ReserveResult::SessionMismatch
            },
        }
    }
}

pub open spec fn reserve_step(m: PendingModel, t: Seq<char>, s: Seq<char>) -> (PendingModel, ReserveResult) {
    if binding_check(m, t, s) == ReserveResult::Reserved {
        if m.reserved.contains(t) {
            (m, ReserveResult::Duplicate)
        } else {
            (PendingModel { reserved: m.reserved.insert(t), ..m }, ReserveResult::Reserved)
        }
    } else {
        (m, binding_check(m, t, s))
    }
}

pub open spec fn release_step(m: PendingModel, t: Seq<char>) -> PendingModel {
    PendingModel { reserved: m.reserved.remove(t), ..m }
}

/// The finished tasks after finishing `t`: unchanged when `t` was already finished; otherwise
/// `t` is appended and the oldest beyond the capacity are forgotten.
pub open spec fn finalized_after(f: Seq<Seq<char>>, t: Seq<char>) -> Seq<Seq<char>> {
    if f.contains(t) {
        f
    } else {
        let g = f.push(t);
        g.subrange(excess(g.len() as int, PENDING_CAPACITY as int), g.len() as int)
    }
}

/// Finishing task `t`: it stops being pending, reserved, watched and timed out, and joins the
/// finished tasks (see [`finalized_after`]).
pub open spec fn complete_step(m: PendingModel, t: Seq<char>) -> PendingModel {
    PendingModel {
        pending: drop_task(m.pending, t),
        reserved: m.reserved.remove(t),
        finalized: finalized_after(m.finalized, t),
        activity: m.activity.remove(t),
        claimed: m.claimed.remove(t),
    }
}

/// Whether finishing `t` changes what is kept on disk.
pub open spec fn complete_changes_disk(m: PendingModel, t: Seq<char>) -> bool {
    is_pending(m, t) || !m.finalized.contains(t)
}

pub open spec fn touch_step(m: PendingModel, t: Seq<char>, now: Instant) -> PendingModel {
    if m.claimed.contains(t) || !is_pending(m, t) {
        m
    } else {
        PendingModel { activity: m.activity.insert(t, now), ..m }
    }
}

pub open spec fn claim_step(m: PendingModel, t: Seq<char>) -> PendingModel {
    PendingModel { claimed: m.claimed.insert(t), activity: m.activity.remove(t), ..m }
}

/// The watchdog's check of `t`, last heard from `elapsed_ms` milliseconds ago, against a
/// timeout of `timeout_ms`: an unwatched task is no longer tracked; a task heard from within
/// the timeout is still fresh, with the rest of the timeout left; any other is claimed.
pub open spec fn timeout_step(m: PendingModel, t: Seq<char>, elapsed_ms: u128, timeout_ms: u64) -> (PendingModel, TimeoutCheck) {
    if !m.activity.contains_key(t) {
        (m, TimeoutCheck::NoLongerTracked)
    } else if elapsed_ms < timeout_ms {
        (m, TimeoutCheck::StillFresh { remaining_ms: (timeout_ms - elapsed_ms) as u64 })
    } else {
        (claim_step(m, t), TimeoutCheck::Claimed)
    }
}

/// Tasks bound to session `s`, in registration order.
pub open spec fn tasks_of_session(p: Seq<(Seq<char>, Seq<char>)>, s: Seq<char>) -> Seq<Seq<char>>
    decreases p.len(),
{
    if p.len() == 0 {
        Seq::empty()
    } else if p.last().1 == s {
        tasks_of_session(p.drop_last(), s).push(p.last().0)
    } else {
        tasks_of_session(p.drop_last(), s)
    }
}

/// The first binding of each task, in order.
pub open spec fn first_bindings(p: Seq<(Seq<char>, Seq<char>)>) -> Seq<(Seq<char>, Seq<char>)>
    decreases p.len(),
{
    if p.len() == 0 {
        Seq::empty()
    } else {
        let d = first_bindings(p.drop_last());
        if task_ids(d).contains(p.last().0) {
            d
        } else {
            d.push(p.last())
        }
    }
}

/// The first occurrence of each id, in order.
pub open spec fn first_occurrences(f: Seq<Seq<char>>) -> Seq<Seq<char>>
    decreases f.len(),
{
    if f.len() == 0 {
        Seq::empty()
    } else {
        let d = first_occurrences(f.drop_last());
        if d.contains(f.last()) {
            d
        } else {
            d.push(f.last())
        }
    }
}

/// The registry rebuilt from what was kept on disk: bindings and finished tasks, nothing
/// reserved, watched or timed out.
pub open spec fn restore(p: Seq<(Seq<char>, Seq<char>)>, f: Seq<Seq<char>>) -> PendingModel {
    PendingModel {
        pending: first_bindings(p),
        reserved: Set::empty(),
        finalized: first_occurrences(f),
        activity: Map::empty(),
        claimed: Set::empty(),
    }
}

pub open spec fn pairs(v: Seq<(String, String)>) -> Seq<(Seq<char>, Seq<char>)> {
    v.map_values(|e: (String, String)| (e.0@, e.1@))
}

proof fn lemma_pairs_keys(v: Seq<(String, String)>)
    ensures
        task_ids(pairs(v)) == keys_of(v),
{
    assert(task_ids(pairs(v)) =~= keys_of(v));
}

/// The registry of pending relay tasks.
pub struct PendingReplies {
    pending: Vec<(String, String)>,
    reserved: Vec<String>,
    finalized: Vec<String>,
    activity: Vec<(String, Instant)>,
    claimed: Vec<String>,
}

impl View for PendingReplies {
    type V = PendingModel;

    closed spec fn view(&self) -> PendingModel {
        PendingModel {
            pending: pairs(self.pending@),
            reserved: strs(self.reserved@).to_set(),
            finalized: strs(self.finalized@),
            activity: entry_map(self.activity@),
            claimed: strs(self.claimed@).to_set(),
        }
    }
}

impl PendingReplies {
    /// The registry's internal invariant.
    pub closed spec fn wf(&self) -> bool {
        &&& strs(self.reserved@).no_duplicates()
        &&& strs(self.claimed@).no_duplicates()
        &&& keys_of(self.activity@).no_duplicates()
        &&& well_formed(self@)
    }

    /// A registry's contents are well formed.
    pub proof fn lemma_wf(&self)
        requires
            self.wf(),
        ensures
            well_formed(self@),
    {
    }

    /// An empty registry.
    pub fn new() -> (r: Self)
        ensures
            r.wf(),
            r@ == empty_model(),
    {
        let r = PendingReplies {
            pending: Vec::new(),
            reserved: Vec::new(),
            finalized: Vec::new(),
            activity: Vec::new(),
            claimed: Vec::new(),
        };
        proof {
            assert(pairs(r.pending@) =~= Seq::empty());
            assert(strs(r.reserved@).to_set() =~= Set::empty());
            assert(strs(r.claimed@).to_set() =~= Set::empty());
            assert(strs(r.finalized@) =~= Seq::empty());
            assert(entry_map(r.activity@) == Map::<Seq<char>, Instant>::empty());
        }
        r
    }

    fn position(&self, task_id: &str) -> (r: Option<usize>)
        requires
            self.wf(),
        ensures
            match r {
                Some(i) => i < self.pending@.len() && task_ids(self@.pending)[i as int] == task_id@
                    && i == task_ids(self@.pending).index_of(task_id@),
                None => !is_pending(self@, task_id@),
            },
    {
        proof {
            lemma_pairs_keys(self.pending@);
        }
        let r = find_key(&self.pending, task_id);
        proof {
            if let Some(i) = r {
                lemma_unique_index(task_ids(self@.pending), i as int, task_ids(self@.pending).index_of(task_id@));
            }
        }
        r
    }

    /// Binds `task_id` to `session_id` and starts watching it; a task already pending is left
    /// as it is. Past the capacity, the oldest pending tasks are forgotten.
    pub fn register(&mut self, task_id: String, session_id: String)
        requires
            old(self).wf(),
        ensures
            final(self).wf(),
            exists|now: Instant| final(self)@ == register_step(old(self)@, task_id@, session_id@, now),
    {
        if self.position(task_id.as_str()).is_some() {
            assert(self@ == register_step(self@, task_id@, session_id@, arbitrary()));
            return;
        }
        let now = instant_now();
        let ghost m0 = self@;
        let ghost t = task_id@;
        let ghost s = session_id@;
        proof {
            lemma_pairs_keys(self.pending@);
            if keys_of(self.activity@).contains(t) {
                lemma_entry_map(self.activity@);
                assert(self@.activity.contains_key(t));
            }
        }
        set_key(&mut self.activity, task_id.clone(), now);
        self.pending.push((task_id, session_id));
        let ghost p = pairs(self.pending@);
        proof {
            assert(p =~= m0.pending.push((t, s)));
            lemma_pairs_keys(self.pending@);
            assert(task_ids(p) =~= task_ids(m0.pending).push(t));
            lemma_push_fresh(task_ids(m0.pending), t);
            assert(p.take(0) =~= Seq::empty());
            assert(task_ids(p.take(0)).to_set() =~= Set::empty());
            assert(m0.reserved.difference(Set::empty()) =~= m0.reserved);
            assert(m0.activity.insert(t, now).remove_keys(Set::empty()) =~= m0.activity.insert(t, now));
            assert(p.subrange(0, p.len() as int) =~= p);
        }
        let ghost mut j: int = 0;
        while self.pending.len() > PENDING_CAPACITY
            invariant
                p == m0.pending.push((t, s)),
                task_ids(p).no_duplicates(),
                0 <= j <= excess(p.len() as int, PENDING_CAPACITY as int),
                pairs(self.pending@) == p.subrange(j, p.len() as int),
                strs(self.reserved@).no_duplicates(),
                strs(self.claimed@).no_duplicates(),
                keys_of(self.activity@).no_duplicates(),
                self@.reserved == m0.reserved.difference(task_ids(p.take(j)).to_set()),
                self@.activity == m0.activity.insert(t, now).remove_keys(task_ids(p.take(j)).to_set()),
                self@.finalized == m0.finalized,
                self@.claimed == m0.claimed,
            decreases self.pending.len(),
        {
            let ghost before = self.pending@;
            let (gone, _) = self.pending.remove(0);
            proof {
                assert(pairs(before).len() == before.len());
                assert(pairs(before)[0] == p[j]);
                assert(gone@ == p[j].0);
                assert(self.pending@ == before.remove(0));
                assert(pairs(self.pending@) =~= pairs(before).subrange(1, before.len() as int));
                assert(pairs(self.pending@) =~= p.subrange(j + 1, p.len() as int));
                assert(task_ids(p.take(j + 1)) =~= task_ids(p.take(j)).push(p[j].0));
                lemma_push_to_set(task_ids(p.take(j)), p[j].0);
            }
            remove_str(&mut self.reserved, gone.as_str());
            remove_key(&mut self.activity, gone.as_str());
            proof {
                let g0 = task_ids(p.take(j)).to_set();
                let g1 = task_ids(p.take(j + 1)).to_set();
                assert(self@.reserved =~= m0.reserved.difference(g1));
                assert(self@.activity =~= m0.activity.insert(t, now).remove_keys(g1));
                j = j + 1;
            }
        }
        proof {
            let k = excess(p.len() as int, PENDING_CAPACITY as int);
            assert(j == k);
            let gone = task_ids(p.take(k)).to_set();
            let rest = p.subrange(k, p.len() as int);
            lemma_pairs_keys(self.pending@);
            assert(task_ids(rest) =~= task_ids(p).subrange(k, p.len() as int));
            lemma_suffix_no_dup(task_ids(p), k);
            // what survives eviction is still pending
            assert forall|x: Seq<char>| task_ids(p).contains(x) && !gone.contains(x) implies #[trigger] task_ids(rest).contains(x) by {
                let i = choose|i: int| 0 <= i < task_ids(p).len() && task_ids(p)[i] == x;
                if i < k {
                    assert(task_ids(p.take(k))[i] == x);
                } else {
                    assert(task_ids(rest)[i - k] == x);
                }
            }
            assert forall|x: Seq<char>| #[trigger] self@.reserved.contains(x) implies is_pending(self@, x) by {
                assert(m0.reserved.contains(x));
                assert(task_ids(m0.pending).contains(x));
                let i = choose|i: int| 0 <= i < task_ids(m0.pending).len() && task_ids(m0.pending)[i] == x;
                assert(task_ids(p)[i] == x);
            }
            assert forall|x: Seq<char>| #[trigger] self@.activity.contains_key(x) implies is_pending(self@, x) by {
                if x != t {
                    assert(m0.activity.contains_key(x));
                    assert(task_ids(m0.pending).contains(x));
                    let i = choose|i: int| 0 <= i < task_ids(m0.pending).len() && task_ids(m0.pending)[i] == x;
                    assert(task_ids(p)[i] == x);
                } else {
                    assert(task_ids(p)[p.len() - 1] == t);
                }
            }
            assert(self@ == register_step(m0, t, s, now));
        }
    }

    /// The binding check of a terminal reply, shared by `reserve` and `validate`.
    fn check_binding(&self, task_id: &str, session_id: &str) -> (r: ReserveResult)
        requires
            self.wf(),
        ensures
            r == binding_check(self@, task_id@, session_id@),
    {
        if has_str(&self.finalized, task_id) {
            return ReserveResult::Duplicate;
        }
        match self.position(task_id) {
            None => ReserveResult::Unregistered,
            Some(i) => {
                if str_eq(self.pending[i].1.as_str(), session_id) {
                    ReserveResult::Reserved
                } else {
                    ReserveResult::SessionMismatch
                }
            },
        }
    }

    /// Claims the right to write the terminal reply of `task_id`, once.
    pub fn reserve(&mut self, task_id: &str, session_id: &str) -> (r: ReserveResult)
        requires
            old(self).wf(),
        ensures
            final(self).wf(),
            (final(self)@, r) == reserve_step(old(self)@, task_id@, session_id@),
    {
        let b = self.check_binding(task_id, session_id);
        let ghost m0 = self@;
        match b {
            ReserveResult::Reserved => {
                let added = insert_str(&mut self.reserved, task_id);
                proof {
                    assert(is_pending(m0, task_id@));
                    assert forall|x: Seq<char>| #[trigger] self@.activity.contains_key(x) implies is_pending(self@, x) by {
                        assert(m0.activity.contains_key(x));
                    }
                    assert forall|x: Seq<char>| #[trigger] self@.reserved.contains(x) implies is_pending(self@, x) by {
                        if x != task_id@ {
                            assert(m0.reserved.contains(x));
                        }
                    }
                }
                if added {
                    ReserveResult::Reserved
                } else {
                    ReserveResult::Duplicate
                }
            },
            other => other,
        }
    }

    /// The binding check alone, without claiming anything.
    pub fn validate(&self, task_id: &str, session_id: &str) -> (r: ReserveResult)
        requires
            self.wf(),
        ensures
            r == binding_check(self@, task_id@, session_id@),
    {
        self.check_binding(task_id, session_id)
    }

    /// Gives back a reservation, so that a later attempt may claim it again.
    pub fn release(&mut self, task_id: &str)
        requires
            old(self).wf(),
        ensures
            final(self).wf(),
            final(self)@ == release_step(old(self)@, task_id@),
    {
        let ghost m0 = self@;
        remove_str(&mut self.reserved, task_id);
        assert forall|x: Seq<char>| #[trigger] self@.reserved.contains(x) implies is_pending(self@, x) by {
            assert(m0.reserved.contains(x));
        }
        assert forall|x: Seq<char>| #[trigger] self@.activity.contains_key(x) implies is_pending(self@, x) by {
            assert(m0.activity.contains_key(x));
        }
    }

    /// Marks `task_id` finished.
    pub fn complete(&mut self, task_id: &str)
        requires
            old(self).wf(),
        ensures
            final(self).wf(),
            final(self)@ == complete_step(old(self)@, task_id@),
    {
        let ghost m0 = self@;
        let ghost t = task_id@;
        remove_str(&mut self.reserved, task_id);
        remove_key(&mut self.activity, task_id);
        remove_str(&mut self.claimed, task_id);
        proof {
            lemma_pairs_keys(self.pending@);
        }
        let ghost pv = self.pending@;
        remove_key(&mut self.pending, task_id);
        proof {
            lemma_pairs_keys(self.pending@);
            if keys_of(pv).contains(t) {
                assert(pairs(self.pending@) =~= pairs(pv).remove(keys_of(pv).index_of(t)));
                lemma_remove_index(keys_of(pv), keys_of(pv).index_of(t));
            }
            assert(pairs(self.pending@) == drop_task(m0.pending, t));
        }
        if insert_str(&mut self.finalized, task_id) {
            let ghost f = strs(self.finalized@);
            keep_newest(&mut self.finalized, PENDING_CAPACITY);
            proof {
                lemma_suffix_no_dup(f, excess(f.len() as int, PENDING_CAPACITY as int));
            }
        }
        proof {
            let p = self@.pending;
            assert forall|x: Seq<char>| #[trigger] self@.reserved.contains(x) implies is_pending(self@, x) by {
                assert(m0.reserved.contains(x) && x != t);
                let i = task_ids(m0.pending).index_of(x);
                let i0 = task_ids(m0.pending).index_of(t);
                assert(task_ids(m0.pending)[i] == x);
                if task_ids(m0.pending).contains(t) {
                    lemma_remove_index(task_ids(m0.pending), i0);
                    assert(task_ids(p) =~= task_ids(m0.pending).remove(i0));
                }
            }
            assert forall|x: Seq<char>| #[trigger] self@.activity.contains_key(x) implies is_pending(self@, x) by {
                assert(m0.activity.contains_key(x) && x != t);
                let i = task_ids(m0.pending).index_of(x);
                let i0 = task_ids(m0.pending).index_of(t);
                assert(task_ids(m0.pending)[i] == x);
                if task_ids(m0.pending).contains(t) {
                    lemma_remove_index(task_ids(m0.pending), i0);
                    assert(task_ids(p) =~= task_ids(m0.pending).remove(i0));
                }
            }
            if task_ids(m0.pending).contains(t) {
                lemma_remove_index(task_ids(m0.pending), task_ids(m0.pending).index_of(t));
                assert(task_ids(p) =~= task_ids(m0.pending).remove(task_ids(m0.pending).index_of(t)));
            }
            assert(self@ == complete_step(m0, t));
        }
    }

    /// Records activity on a pending task, unless the watchdog has already timed it out.
    pub fn touch(&mut self, task_id: &str)
        requires
            old(self).wf(),
        ensures
            final(self).wf(),
            exists|now: Instant| final(self)@ == touch_step(old(self)@, task_id@, now),
    {
        if has_str(&self.claimed, task_id) {
            assert(self@ == touch_step(self@, task_id@, arbitrary()));
            return;
        }
        if self.position(task_id).is_none() {
            assert(self@ == touch_step(self@, task_id@, arbitrary()));
            return;
        }
        let now = instant_now();
        let ghost m0 = self@;
        set_key(&mut self.activity, task_id.to_owned(), now);
        assert(self@ == touch_step(m0, task_id@, now));
    }

    /// How long ago `task_id` was last heard from, while it is watched.
    pub fn since_last_activity(&self, task_id: &str) -> (r: Option<Duration>)
        requires
            self.wf(),
        ensures
            r.is_some() == self@.activity.contains_key(task_id@),
            r matches Some(d) ==> elapsed_reading(self@.activity[task_id@], d),
    {
        match get_key(&self.activity, task_id) {
            Some(at) => Some(read_elapsed_since(at)),
            None => None,
        }
    }

    /// Settles a watchdog check of `task_id`, last heard from `elapsed_ms` milliseconds ago,
    /// against a timeout of `timeout_ms` (see [`timeout_step`]).
    pub fn settle_timeout(&mut self, task_id: &str, elapsed_ms: u128, timeout_ms: u64) -> (r: TimeoutCheck)
        requires
            old(self).wf(),
        ensures
            final(self).wf(),
            (final(self)@, r) == timeout_step(old(self)@, task_id@, elapsed_ms, timeout_ms),
    {
        proof {
            lemma_entry_map(self.activity@);
        }
        if find_key(&self.activity, task_id).is_none() {
            return TimeoutCheck::NoLongerTracked;
        }
        if elapsed_ms < timeout_ms as u128 {
            TimeoutCheck::StillFresh { remaining_ms: (timeout_ms as u128 - elapsed_ms) as u64 }
        } else {
            let ghost m0 = self@;
            insert_str(&mut self.claimed, task_id);
            remove_key(&mut self.activity, task_id);
            assert(self@ == claim_step(m0, task_id@));
            TimeoutCheck::Claimed
        }
    }

    /// The watchdog: reads how long ago `task_id` was last heard from, and settles the check
    /// on that time as [`PendingReplies::settle_timeout`] does; a task silent for at least
    /// `timeout_ms` milliseconds is claimed, once.
    pub fn check_or_claim_timeout(&mut self, task_id: &str, timeout_ms: u64) -> (r: TimeoutCheck)
        requires
            old(self).wf(),
        ensures
            final(self).wf(),
            exists|elapsed_ms: u128|
                (final(self)@, r) == timeout_step(old(self)@, task_id@, elapsed_ms, timeout_ms),
            old(self)@.activity.contains_key(task_id@) ==> exists|ms: u128|
                #[trigger] millis_since(old(self)@.activity[task_id@], ms) && (final(self)@, r)
                    == timeout_step(old(self)@, task_id@, ms, timeout_ms),
            !old(self)@.activity.contains_key(task_id@) ==> final(self)@ == old(self)@ && r
                == TimeoutCheck::NoLongerTracked,
    {
        let elapsed = match get_key(&self.activity, task_id) {
            None => 0,
            Some(at) => read_millis_since(at),
        };
        self.settle_timeout(task_id, elapsed, timeout_ms)
    }

    /// The pending tasks bound to `session_id`, in registration order.
    pub fn pending_task_ids_for_session(&self, session_id: &str) -> (r: Vec<String>)
        requires
            self.wf(),
        ensures
            strs(r@) == tasks_of_session(self@.pending, session_id@),
    {
        let mut r: Vec<String> = Vec::new();
        let mut i: usize = 0;
        while i < self.pending.len()
            invariant
                i <= self.pending.len(),
                strs(r@) == tasks_of_session(pairs(self.pending@).take(i as int), session_id@),
            decreases self.pending.len() - i,
        {
            let ghost before = strs(r@);
            if str_eq(self.pending[i].1.as_str(), session_id) {
                r.push(self.pending[i].0.clone());
            }
            proof {
                assert(pairs(self.pending@).take(i + 1).drop_last() =~= pairs(self.pending@).take(i as int));
                assert(strs(r@) =~= tasks_of_session(pairs(self.pending@).take(i + 1), session_id@));
            }
            i += 1;
        }
        assert(pairs(self.pending@).take(self.pending.len() as int) =~= pairs(self.pending@));
        r
    }

    /// The session that a pending task is bound to.
    pub fn session_for(&self, task_id: &str) -> (r: Option<String>)
        requires
            self.wf(),
        ensures
            match r {
                Some(s) => session_bound(self@.pending, task_id@) == Some(s@),
                None => session_bound(self@.pending, task_id@) is None,
            },
    {
        match self.position(task_id) {
            Some(i) => Some(self.pending[i].1.clone()),
            None => None,
        }
    }

    /// What is kept on disk: the bindings in registration order and the finished tasks,
    /// oldest first.
    pub fn persisted_state(&self) -> (r: (Vec<(String, String)>, Vec<String>))
        requires
            self.wf(),
        ensures
            pairs(r.0@) == self@.pending,
            strs(r.1@) == self@.finalized,
    {
        let mut p: Vec<(String, String)> = Vec::new();
        let mut i: usize = 0;
        while i < self.pending.len()
            invariant
                i <= self.pending.len(),
                pairs(p@) == pairs(self.pending@).take(i as int),
            decreases self.pending.len() - i,
        {
            let ghost before = p@;
            let a = self.pending[i].0.clone();
            let b = self.pending[i].1.clone();
            p.push((a, b));
            proof {
                assert(pairs(p@).last() == pairs(self.pending@)[i as int]);
                assert(pairs(p@).drop_last() =~= pairs(before));
                assert(pairs(p@) =~= pairs(self.pending@).take(i + 1));
            }
            i += 1;
        }
        let mut f: Vec<String> = Vec::new();
        let mut k: usize = 0;
        while k < self.finalized.len()
            invariant
                k <= self.finalized.len(),
                strs(f@) == strs(self.finalized@).take(k as int),
            decreases self.finalized.len() - k,
        {
            let ghost before = f@;
            let x = self.finalized[k].clone();
            f.push(x);
            proof {
                assert(strs(f@).last() == strs(self.finalized@)[k as int]);
                assert(strs(f@).drop_last() =~= strs(before));
                assert(strs(f@) =~= strs(self.finalized@).take(k + 1));
            }
            k += 1;
        }
        assert(pairs(p@) =~= pairs(self.pending@));
        assert(strs(f@) =~= strs(self.finalized@));
        (p, f)
    }

    /// Rebuilds a registry from what was kept on disk; a repeated id keeps its first entry.
    pub fn from_persisted(pending: Vec<(String, String)>, finalized: Vec<String>) -> (r: Self)
        ensures
            r.wf(),
            r@ == restore(pairs(pending@), strs(finalized@)),
    {
        let mut r = PendingReplies::new();
        let mut i: usize = 0;
        while i < pending.len()
            invariant
                i <= pending.len(),
                r.wf(),
                pairs(r.pending@) == first_bindings(pairs(pending@).take(i as int)),
                r@.reserved == Set::<Seq<char>>::empty(),
                r@.activity == Map::<Seq<char>, Instant>::empty(),
                r@.claimed == Set::<Seq<char>>::empty(),
                r@.finalized == Seq::<Seq<char>>::empty(),
            decreases pending.len() - i,
        {
            let ghost pv = pairs(pending@);
            proof {
                assert(pv.take(i + 1).drop_last() =~= pv.take(i as int));
                assert(pv.take(i + 1).last() == pv[i as int]);
                lemma_pairs_keys(r.pending@);
            }
            if r.position(pending[i].0.as_str()).is_none() {
                let ghost before = r@;
                r.pending.push((pending[i].0.clone(), pending[i].1.clone()));
                proof {
                    assert(pairs(r.pending@) =~= before.pending.push(pv[i as int]));
                    lemma_pairs_keys(r.pending@);
                    assert(task_ids(pairs(r.pending@)) =~= task_ids(before.pending).push(pv[i as int].0));
                    lemma_push_fresh(task_ids(before.pending), pv[i as int].0);
                }
            }
            i += 1;
        }
        assert(pairs(pending@).take(pending.len() as int) =~= pairs(pending@));
        let mut k: usize = 0;
        while k < finalized.len()
            invariant
                k <= finalized.len(),
                r.wf(),
                pairs(r.pending@) == first_bindings(pairs(pending@)),
                strs(r.finalized@) == first_occurrences(strs(finalized@).take(k as int)),
                r@.reserved == Set::<Seq<char>>::empty(),
                r@.activity == Map::<Seq<char>, Instant>::empty(),
                r@.claimed == Set::<Seq<char>>::empty(),
            decreases finalized.len() - k,
        {
            proof {
                let fv = strs(finalized@);
                assert(fv.take(k + 1).drop_last() =~= fv.take(k as int));
                assert(fv.take(k + 1).last() == fv[k as int]);
            }
            insert_str(&mut r.finalized, finalized[k].as_str());
            k += 1;
        }
        assert(pairs(pending@).take(pending.len() as int) =~= pairs(pending@));
        assert(strs(finalized@).take(finalized.len() as int) =~= strs(finalized@));
        r
    }
}

impl Default for PendingReplies {
    fn default() -> (r: Self)
        ensures
            r.wf(),
            r@ == empty_model(),
    {
        PendingReplies::new()
    }
}


/// Keeping the first binding of each task changes nothing in a list without repeated tasks.
pub proof fn lemma_first_bindings_identity(p: Seq<(Seq<char>, Seq<char>)>)
    requires
        task_ids(p).no_duplicates(),
    ensures
        first_bindings(p) == p,
    decreases p.len(),
{
    if p.len() > 0 {
        let w = p.drop_last();
        assert(task_ids(w) =~= task_ids(p).drop_last());
        lemma_first_bindings_identity(w);
        if task_ids(w).contains(p.last().0) {
            let i = choose|i: int| 0 <= i < task_ids(w).len() && task_ids(w)[i] == p.last().0;
            assert(task_ids(p)[i] == task_ids(p)[p.len() - 1]);
        }
        assert(w.push(p.last()) =~= p);
    }
}

/// Keeping the first occurrence of each id changes nothing in a list without repetitions.
pub proof fn lemma_first_occurrences_identity(f: Seq<Seq<char>>)
    requires
        f.no_duplicates(),
    ensures
        first_occurrences(f) == f,
    decreases f.len(),
{
    if f.len() > 0 {
        let w = f.drop_last();
        lemma_first_occurrences_identity(w);
        if w.contains(f.last()) {
            let i = choose|i: int| 0 <= i < w.len() && w[i] == f.last();
            assert(f[i] == f[f.len() - 1]);
        }
        assert(w.push(f.last()) =~= f);
    }
}

/// A terminal reply can be claimed once: after a successful reservation, the same request is
/// answered `Duplicate`, and no request at all is answered `Reserved`.
pub proof fn law_reservation_is_exclusive(m: PendingModel, t: Seq<char>, s: Seq<char>, s2: Seq<char>)
    requires
        well_formed(m),
        reserve_step(m, t, s).1 == ReserveResult::Reserved,
    ensures
        reserve_step(reserve_step(m, t, s).0, t, s).1 == ReserveResult::Duplicate,
        reserve_step(reserve_step(m, t, s).0, t, s2).1 != ReserveResult::Reserved,
{
}

/// A reservation given back can be claimed again by the same session.
pub proof fn law_release_allows_retry(m: PendingModel, t: Seq<char>, s: Seq<char>)
    requires
        well_formed(m),
        reserve_step(m, t, s).1 == ReserveResult::Reserved,
    ensures
        reserve_step(release_step(reserve_step(m, t, s).0, t), t, s).1 == ReserveResult::Reserved,
{
}

/// A refused reservation (duplicate, unregistered, or for another session) changes nothing.
pub proof fn law_refused_reservation_changes_nothing(m: PendingModel, t: Seq<char>, s: Seq<char>)
    requires
        reserve_step(m, t, s).1 != ReserveResult::Reserved,
    ensures
        reserve_step(m, t, s).0 == m,
{
}

/// A finished task is never finished twice: once completed, every reservation of it and every
/// binding check of it is answered `Duplicate`.
pub proof fn law_completed_task_is_duplicate(m: PendingModel, t: Seq<char>, s: Seq<char>)
    requires
        well_formed(m),
    ensures
        complete_step(m, t).finalized.contains(t),
        binding_check(complete_step(m, t), t, s) == ReserveResult::Duplicate,
        reserve_step(complete_step(m, t), t, s).1 == ReserveResult::Duplicate,
        reserve_step(complete_step(m, t), t, s).0 == complete_step(m, t),
{
    if !m.finalized.contains(t) {
        let g = m.finalized.push(t);
        let kept = g.subrange(excess(g.len() as int, PENDING_CAPACITY as int), g.len() as int);
        assert(kept[kept.len() - 1] == t);
    }
}

/// A freshly registered task, not yet finished, can be reserved by its own session.
pub proof fn law_registered_task_can_be_reserved(
    m: PendingModel,
    t: Seq<char>,
    s: Seq<char>,
    now: Instant,
)
    requires
        well_formed(m),
        !is_pending(m, t),
        !m.finalized.contains(t),
    ensures
        is_pending(register_step(m, t, s, now), t),
        session_bound(register_step(m, t, s, now).pending, t) == Some(s),
        reserve_step(register_step(m, t, s, now), t, s).1 == ReserveResult::Reserved,
{
    let p = m.pending.push((t, s));
    let k = excess(p.len() as int, PENDING_CAPACITY as int);
    let rest = p.subrange(k, p.len() as int);
    let m1 = register_step(m, t, s, now);
    assert(task_ids(p) =~= task_ids(m.pending).push(t));
    crate::keyed::lemma_push_fresh(task_ids(m.pending), t);
    assert(task_ids(rest) =~= task_ids(p).subrange(k, p.len() as int));
    lemma_suffix_no_dup(task_ids(p), k);
    assert(task_ids(rest)[rest.len() - 1] == t);
    let i = task_ids(rest).index_of(t);
    lemma_unique_index(task_ids(rest), i, rest.len() - 1);
    assert(!m1.reserved.contains(t));
}

/// What is kept on disk brings back the bindings and the finished tasks, and nothing else:
/// after a restart, a task whose reply was being written can be reserved again.
pub proof fn law_restart_restores_bindings(m: PendingModel, t: Seq<char>, s: Seq<char>)
    requires
        well_formed(m),
    ensures
        restore(m.pending, m.finalized).pending == m.pending,
        restore(m.pending, m.finalized).finalized == m.finalized,
        restore(m.pending, m.finalized).reserved.is_empty(),
        binding_check(restore(m.pending, m.finalized), t, s) == binding_check(m, t, s),
        binding_check(m, t, s) == ReserveResult::Reserved ==> reserve_step(
            restore(m.pending, m.finalized),
            t,
            s,
        ).1 == ReserveResult::Reserved,
{
    lemma_first_bindings_identity(m.pending);
    lemma_first_occurrences_identity(m.finalized);
}

/// The watchdog claims a watched task exactly when it has been silent for at least the
/// timeout, and then stops watching it, so that a second check finds it no longer tracked;
/// before that it changes nothing and reports the milliseconds of the timeout left.
pub proof fn law_watchdog_claims_once_timed_out(
    m: PendingModel,
    t: Seq<char>,
    elapsed_ms: u128,
    timeout_ms: u64,
    later_ms: u128,
)
    requires
        m.activity.contains_key(t),
    ensures
        elapsed_ms >= timeout_ms ==> {
            let (m2, c) = timeout_step(m, t, elapsed_ms, timeout_ms);
            &&& c == TimeoutCheck::Claimed
            &&& m2.claimed.contains(t)
            &&& !m2.activity.contains_key(t)
            &&& m2.pending == m.pending
            &&& timeout_step(m2, t, later_ms, timeout_ms) == (m2, TimeoutCheck::NoLongerTracked)
        },
        elapsed_ms < timeout_ms ==> timeout_step(m, t, elapsed_ms, timeout_ms) == (
            m,
            TimeoutCheck::StillFresh { remaining_ms: (timeout_ms - elapsed_ms) as u64 },
        ),
{
}

/// Once the watchdog has claimed a task, activity on it no longer refreshes it.
pub proof fn law_claimed_task_stays_unwatched(m: PendingModel, t: Seq<char>, now: Instant)
    ensures
        !touch_step(claim_step(m, t), t, now).activity.contains_key(t),
        touch_step(claim_step(m, t), t, now) == claim_step(m, t),
{
}

} // verus!
