//! Window bookkeeping of the overlay panels that needs no window system.
use std::time::Instant;
use vstd::prelude::*;

use crate::clock::{instant_now, millis_since, read_millis_since};
use crate::keyed::{entry_map, get_key, has_str, insert_str, keys_of, remove_str, set_key, strs};

verus! {

/// The web views whose front end has reported that it mounted.
pub struct MountedWebviews {
    labels: Vec<String>,
}

impl View for MountedWebviews {
    type V = Set<Seq<char>>;

    closed spec fn view(&self) -> Set<Seq<char>> {
        strs(self.labels@).to_set()
    }
}

impl MountedWebviews {
    pub closed spec fn wf(&self) -> bool {
        strs(self.labels@).no_duplicates()
    }

    pub fn new() -> (m: Self)
        ensures
            m.wf(),
            m@ == Set::<Seq<char>>::empty(),
    {
        let m = MountedWebviews { labels: Vec::new() };
        assert(strs(m.labels@) =~= Seq::<Seq<char>>::empty());
        assert(strs(m.labels@).to_set() =~= Set::<Seq<char>>::empty());
        m
    }

    /// Records that the web view `label` mounted.
    pub fn webview_mounted(&mut self, label: &str)
        requires
            old(self).wf(),
        ensures
            final(self).wf(),
            final(self)@ == old(self)@.insert(label@),
    {
        let _ = insert_str(&mut self.labels, label);
    }

    /// Whether the web view `label` has mounted.
    pub fn webview_has_mounted(&self, label: &str) -> (r: bool)
        ensures
            r == self@.contains(label@),
    {
        has_str(&self.labels, label)
    }
}

/// The web views shown before they mounted that wait out the grace period before a forced
/// reload; a view waits at most once at a time.
pub struct PendingRevives {
    labels: Vec<String>,
}

impl View for PendingRevives {
    type V = Set<Seq<char>>;

    closed spec fn view(&self) -> Set<Seq<char>> {
        strs(self.labels@).to_set()
    }
}

impl PendingRevives {
    pub closed spec fn wf(&self) -> bool {
        strs(self.labels@).no_duplicates()
    }

    pub fn new() -> (p: Self)
        ensures
            p.wf(),
            p@ == Set::<Seq<char>>::empty(),
    {
        let p = PendingRevives { labels: Vec::new() };
        assert(strs(p.labels@).to_set() =~= Set::<Seq<char>>::empty());
        p
    }

    /// Starts the wait for `label`; false (and nothing changes) when it is already waiting.
    pub fn begin(&mut self, label: &str) -> (started: bool)
        requires
            old(self).wf(),
        ensures
            final(self).wf(),
            started == !old(self)@.contains(label@),
            final(self)@ == old(self)@.insert(label@),
    {
        insert_str(&mut self.labels, label)
    }

    /// Ends the wait for `label`.
    pub fn finish(&mut self, label: &str)
        requires
            old(self).wf(),
        ensures
            final(self).wf(),
            final(self)@ == old(self)@.remove(label@),
    {
        remove_str(&mut self.labels, label)
    }
}

/// A reload of `label`, last permitted `since_last_ms` milliseconds ago (none when it never
/// was), decided at `now`: refused while that is under `debounce_ms`, else permitted and
/// recorded at `now`.
pub open spec fn reload_outcome(
    m: Map<Seq<char>, Instant>,
    label: Seq<char>,
    since_last_ms: Option<u128>,
    debounce_ms: u64,
    now: Instant,
) -> (Map<Seq<char>, Instant>, bool) {
    match since_last_ms {
        Some(e) => if e < debounce_ms {
            (m, false)
        } else {
            (m.insert(label, now), true)
        },
        None => (m.insert(label, now), true),
    }
}

/// When the host last reloaded each web view, so that forced reloads are spaced out.
pub struct HostReloads {
    last: Vec<(String, Instant)>,
}

impl View for HostReloads {
    type V = Map<Seq<char>, Instant>;

    closed spec fn view(&self) -> Map<Seq<char>, Instant> {
        entry_map(self.last@)
    }
}

impl HostReloads {
    pub closed spec fn wf(&self) -> bool {
        keys_of(self.last@).no_duplicates()
    }

    pub fn new() -> (h: Self)
        ensures
            h.wf(),
            h@ == Map::<Seq<char>, Instant>::empty(),
    {
        HostReloads { last: Vec::new() }
    }

    /// Decides a reload of `label`, last permitted `since_last_ms` milliseconds ago (none when
    /// it never was): refused while that is under `debounce_ms`, and otherwise permitted and
    /// recorded at `now`. A refused reload changes nothing.
    pub fn settle_reload(&mut self, label: &str, since_last_ms: Option<u128>, debounce_ms: u64, now: Instant) -> (r: bool)
        requires
            old(self).wf(),
        ensures
            final(self).wf(),
            (final(self)@, r) == reload_outcome(old(self)@, label@, since_last_ms, debounce_ms, now),
    {
        if let Some(e) = since_last_ms {
            if e < debounce_ms as u128 {
                return false;
            }
        }
        set_key(&mut self.last, label.to_owned(), now);
        true
    }

    /// Whether the host may reload `label` now: always the first time, and afterwards once
    /// `debounce_ms` milliseconds have passed since the last reload it permitted (the time
    /// since then is read from the clock and settled as [`HostReloads::settle_reload`] does).
    pub fn permit(&mut self, label: &str, debounce_ms: u64) -> (r: bool)
        requires
            old(self).wf(),
        ensures
            final(self).wf(),
            !old(self)@.contains_key(label@) ==> r,
            exists|since_last_ms: Option<u128>, now: Instant|
                (since_last_ms is Some <==> old(self)@.contains_key(label@)) && (final(self)@, r)
                    == #[trigger] reload_outcome(old(self)@, label@, since_last_ms, debounce_ms, now),
            old(self)@.contains_key(label@) ==> exists|ms: u128, now: Instant|
                #![trigger millis_since(old(self)@[label@], ms), reload_outcome(old(self)@, label@, Some(ms), debounce_ms, now)]
                millis_since(old(self)@[label@], ms) && (final(self)@, r) == reload_outcome(
                    old(self)@,
                    label@,
                    Some(ms),
                    debounce_ms,
                    now,
                ),
    {
        let since = match get_key(&self.last, label) {
            Some(at) => Some(read_millis_since(at)),
            None => None,
        };
        let now = instant_now();
        self.settle_reload(label, since, debounce_ms, now)
    }
}

/// Shows or hides the onboarding state of the glass control bar. The bar exists on macOS
/// only; elsewhere there is nothing to change.
pub fn set_glass_onboarding_visible(_visible: bool) {
}

} // verus!
