//! The app's own preferences.
use vstd::prelude::*;

verus! {

#[derive(Clone, Copy, Debug, PartialEq, Eq, Structural)]
pub struct AppSettings {
    pub mic_enabled: bool,
}

impl Default for AppSettings {
    fn default() -> (s: AppSettings)
        ensures
            !s.mic_enabled,
    {
        AppSettings { mic_enabled: false }
    }
}

/// The preferences the app runs with.
pub struct AppSettingsStore {
    current: AppSettings,
}

impl View for AppSettingsStore {
    type V = AppSettings;

    closed spec fn view(&self) -> AppSettings {
        self.current
    }
}

impl AppSettingsStore {
    /// A store holding `initial` (what was read from disk, or the defaults).
    pub fn new(initial: AppSettings) -> (s: AppSettingsStore)
        ensures
            s@ == initial,
    {
        AppSettingsStore { current: initial }
    }

    pub fn snapshot(&self) -> (s: AppSettings)
        ensures
            s == self@,
    {
        self.current
    }

    /// Takes `candidate` as the current preferences, then hands them to `persist`; the result
    /// is `candidate` when that write succeeded, else its error. The preferences change either
    /// way.
    pub fn update<F>(&mut self, candidate: AppSettings, persist: F) -> (r: Result<
        AppSettings,
        String,
    >) where F: FnOnce(&AppSettings) -> Result<(), String>
        requires
            forall|s: &AppSettings| call_requires(persist, (s,)),
        ensures
            final(self)@ == candidate,
            r is Ok ==> r->Ok_0 == candidate,
            exists|s: &AppSettings, out: Result<(), String>|
                *s == candidate && #[trigger] call_ensures(persist, (s,), out) && match r {
                    Ok(_) => out is Ok,
                    Err(e) => out == Err::<(), String>(e),
                },
    {
        self.current = candidate;
        let snapshot = self.current;
        let written = persist(&snapshot);
        let ghost w = &snapshot;
        let ghost wr = written;
        assert(call_ensures(persist, (w,), wr));
        match written {
            Ok(()) => Ok(snapshot),
            Err(e) => {
                assert(wr == Err::<(), String>(e));
                Err(e)
            },
        }
    }
}

} // verus!
