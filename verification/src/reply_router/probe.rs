//! What a connection probe learns from the assistant's reply.
use vstd::prelude::*;

use crate::keyed::{entry_map, keys_of, set_key, take_key};
use crate::reply_router::opt_view;

verus! {

/// The reply that resolves a connection probe.
#[derive(Clone, Debug, PartialEq, Eq)]
pub struct ProbeOutcome {
    pub status: String,
    pub reply_text: Option<String>,
    pub error_message: Option<String>,
}


pub struct OutcomeView {
    pub status: Seq<char>,
    pub reply_text: Option<Seq<char>>,
    pub error_message: Option<Seq<char>>,
}

impl View for ProbeOutcome {
    type V = OutcomeView;

    open spec fn view(&self) -> OutcomeView {
        OutcomeView {
            status: self.status@,
            reply_text: opt_view(self.reply_text),
            error_message: opt_view(self.error_message),
        }
    }
}

/// The connection probes waiting for their reply: for each probe's task, where to deliver
/// the reply.
pub struct ProbeRegistry<T> {
    waiting: Vec<(String, T)>,
}

impl<T> View for ProbeRegistry<T> {
    type V = Map<Seq<char>, T>;

    closed spec fn view(&self) -> Map<Seq<char>, T> {
        entry_map(self.waiting@)
    }
}

impl<T> ProbeRegistry<T> {
    pub closed spec fn wf(&self) -> bool {
        keys_of(self.waiting@).no_duplicates()
    }

    pub fn new() -> (r: Self)
        ensures
            r.wf(),
            r@ == Map::<Seq<char>, T>::empty(),
    {
        let r = ProbeRegistry { waiting: Vec::new() };
        assert(keys_of(r.waiting@) =~= Seq::<Seq<char>>::empty());
        r
    }

    /// Waits for the reply to `task_id`'s probe at `reply_to`, in place of any earlier wait.
    pub fn register(&mut self, task_id: String, reply_to: T)
        requires
            old(self).wf(),
        ensures
            final(self).wf(),
            final(self)@ == old(self)@.insert(task_id@, reply_to),
    {
        set_key(&mut self.waiting, task_id, reply_to);
    }

    /// Stops waiting for `task_id`'s reply.
    pub fn cancel(&mut self, task_id: &str)
        requires
            old(self).wf(),
        ensures
            final(self).wf(),
            final(self)@ == old(self)@.remove(task_id@),
    {
        let _ = take_key(&mut self.waiting, task_id);
    }

    /// Takes where `task_id`'s reply goes, if its probe is waiting; it waits no more.
    pub fn take(&mut self, task_id: &str) -> (r: Option<T>)
        requires
            old(self).wf(),
        ensures
            final(self).wf(),
            final(self)@ == old(self)@.remove(task_id@),
            match r {
                Some(x) => old(self)@.contains_key(task_id@) && old(self)@[task_id@] == x,
                None => !old(self)@.contains_key(task_id@),
            },
    {
        take_key(&mut self.waiting, task_id)
    }
}

/// A probe's reply is delivered once: once taken, its task waits no more, so a second take
/// finds nothing.
pub proof fn law_probe_is_taken_once<T>(waiting: Map<Seq<char>, T>, task_id: Seq<char>)
    ensures
        !waiting.remove(task_id).contains_key(task_id),
{
}

} // verus!
