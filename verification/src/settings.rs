use vstd::prelude::*;
use crate::config::Settings;

verus! {

/// Holds the run-wide settings once they are known. The first settings put
/// in stay; later ones are ignored.
pub struct SettingsSlot {
    value: Option<Settings>,
}

impl SettingsSlot {
    /// The settings held, if any were put in.
    pub closed spec fn held(&self) -> Option<Settings> {
        self.value
    }

    /// An empty slot.
    pub fn new() -> (slot: SettingsSlot)
        ensures
            slot.held() is None,
    {
        SettingsSlot { value: None }
    }

    /// Whether settings were put in.
    pub fn is_initialized(&self) -> (r: bool)
        ensures
            r == self.held() is Some,
    {
        self.value.is_some()
    }
}

/// What a slot holds after `settings` are offered to it: the settings it held
/// already, or these when it held none.
pub open spec fn after_init(held: Option<Settings>, settings: Settings) -> Option<Settings> {
    match held {
        Some(s) => Some(s),
        None => Some(settings),
    }
}

/// Puts the run-wide settings in, unless some were put in before.
pub fn init_settings(slot: &mut SettingsSlot, settings: Settings)
    ensures
        final(slot).held() == after_init(old(slot).held(), settings),
{
    if slot.value.is_none() {
        slot.value = Some(settings);
    }
}

/// The run-wide settings; they must have been put in.
pub fn settings(slot: &SettingsSlot) -> (r: &Settings)
    requires
        slot.held() is Some,
    ensures
        *r == slot.held()->0,
{
    slot.value.as_ref().unwrap()
}

/// The first settings put in are the ones read back, whatever is offered
/// afterwards.
pub proof fn lemma_first_settings_stay(first: Settings, later: Settings)
    ensures
        after_init(after_init(None, first), later) == Some(first),
        after_init(Some(first), later)->0 == first,
{
}

} // verus!
