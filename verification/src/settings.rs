//! The persisted settings and the cache that loads them once.

use vstd::prelude::*;

verus! {

/// Settings kept across runs.
pub struct Settings {
    pub access_token: Option<String>,
}

impl Default for Settings {
    fn default() -> (settings: Settings)
        ensures
            settings.access_token is None,
    {
        Settings { access_token: None }
    }
}

impl Settings {
    /// A copy of the settings.
    pub fn duplicate(&self) -> (copy: Settings)
        ensures
            copy == *self,
    {
        Settings {
            access_token: match &self.access_token {
                Some(token) => Some(token.clone()),
                None => None,
            },
        }
    }
}

/// Holds the settings once they have been loaded.
pub struct SettingsHolder {
    settings: Option<Settings>,
}

impl SettingsHolder {
    /// The settings held, if they have been loaded.
    pub closed spec fn cached(self) -> Option<Settings> {
        self.settings
    }

    /// A holder that has not loaded the settings yet.
    pub fn new() -> (holder: Self)
        ensures
            holder.cached() is None,
    {
        SettingsHolder { settings: None }
    }

    /// The settings, loaded with `load` on first use and held from then on.
    pub fn get(&mut self, load: impl FnOnce() -> Settings) -> (settings: Settings)
        requires
            old(self).cached() is None ==> call_requires(load, ()),
        ensures
            match old(self).cached() {
                Some(held) => settings == held && final(self).cached() == Some(held),
                None => call_ensures(load, (), settings) && final(self).cached() == Some(settings),
            },
    {
        match &self.settings {
            Some(settings) => settings.duplicate(),
            None => {
                let settings = load();
                self.settings = Some(settings.duplicate());
                settings
            },
        }
    }

    /// Applies `f` to the settings (loaded with `load` on first use) and returns the changed
    /// settings, which the holder keeps and which are to be saved.
    pub fn modify(
        &mut self,
        load: impl FnOnce() -> Settings,
        f: impl FnOnce(Settings) -> Settings,
    ) -> (saved: Settings)
        requires
            old(self).cached() is None ==> call_requires(load, ()),
            forall|s: Settings| call_requires(f, (s,)),
        ensures
            final(self).cached() == Some(saved),
            match old(self).cached() {
                Some(held) => call_ensures(f, (held,), saved),
                None => exists|loaded: Settings|
                    call_ensures(load, (), loaded) && call_ensures(f, (loaded,), saved),
            },
    {
        let current = match self.settings.take() {
            Some(settings) => settings,
            None => load(),
        };
        let changed = f(current);
        self.settings = Some(changed.duplicate());
        changed
    }
}

} // verus!
