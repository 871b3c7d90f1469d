//! The settings of the periodic review reminder.

use vstd::prelude::*;

verus! {

/// The settings: whether reminders are on, and how many minutes lie between
/// two of them.
pub ghost struct ReminderSettings {
    pub enabled: bool,
    pub interval_minutes: u64,
}

/// A call on the settings: turning reminders on or off, setting the
/// minutes, or one of the calls that only read them.
pub ghost enum ReminderCall {
    SetEnabled(bool),
    UpdateInterval(u64),
    Read,
}

/// The settings after one call.
pub open spec fn apply_call(s: ReminderSettings, c: ReminderCall) -> ReminderSettings {
    match c {
        ReminderCall::SetEnabled(b) => ReminderSettings { enabled: b, ..s },
        ReminderCall::UpdateInterval(m) => ReminderSettings { interval_minutes: m, ..s },
        ReminderCall::Read => s,
    }
}

/// The settings after the calls, made in order.
pub open spec fn apply_calls(s: ReminderSettings, calls: Seq<ReminderCall>) -> ReminderSettings
    decreases calls.len(),
{
    if calls.len() == 0 {
        s
    } else {
        apply_call(apply_calls(s, calls.drop_last()), calls.last())
    }
}

/// The argument of the last call that turned reminders on or off, if any.
pub open spec fn last_switch(calls: Seq<ReminderCall>) -> Option<bool>
    decreases calls.len(),
{
    if calls.len() == 0 {
        None
    } else {
        match calls.last() {
            ReminderCall::SetEnabled(b) => Some(b),
            _ => last_switch(calls.drop_last()),
        }
    }
}

/// The argument of the last call that set the minutes, if any.
pub open spec fn last_interval(calls: Seq<ReminderCall>) -> Option<u64>
    decreases calls.len(),
{
    if calls.len() == 0 {
        None
    } else {
        match calls.last() {
            ReminderCall::UpdateInterval(m) => Some(m),
            _ => last_interval(calls.drop_last()),
        }
    }
}

/// Whether reminders are on, and how many minutes lie between two of them.
pub struct ReminderManager {
    enabled: bool,
    interval_minutes: u64,
}

impl View for ReminderManager {
    type V = ReminderSettings;

    closed spec fn view(&self) -> ReminderSettings {
        ReminderSettings { enabled: self.enabled, interval_minutes: self.interval_minutes }
    }
}

impl ReminderManager {
    /// Reminders on, every `interval_minutes` minutes.
    pub fn new(interval_minutes: u64) -> (r: ReminderManager)
        ensures
            r@ == (ReminderSettings { enabled: true, interval_minutes }),
    {
        ReminderManager { enabled: true, interval_minutes }
    }

    /// Sets the minutes between two reminders.
    pub fn update_interval(&mut self, minutes: u64)
        ensures
            final(self)@ == apply_call(old(self)@, ReminderCall::UpdateInterval(minutes)),
    {
        self.interval_minutes = minutes;
    }

    /// Turns reminders on or off.
    pub fn set_enabled(&mut self, enabled: bool)
        ensures
            final(self)@ == apply_call(old(self)@, ReminderCall::SetEnabled(enabled)),
    {
        self.enabled = enabled;
    }

    /// Whether reminders are on.
    pub fn is_enabled(&self) -> (r: bool)
        ensures
            r == self@.enabled,
    {
        self.enabled
    }

    /// The minutes between two reminders.
    pub fn get_interval(&self) -> (r: u64)
        ensures
            r == self@.interval_minutes,
    {
        self.interval_minutes
    }

    /// What the reminder timer does, when it starts and each time a wait
    /// has ended: wait the given seconds and then remind, or stop (nothing)
    /// because reminders are off.
    pub fn period_secs(&self) -> (r: Option<u64>)
        requires
            self@.interval_minutes * 60 <= u64::MAX,
        ensures
            match r {
                Some(secs) => self@.enabled && secs == self@.interval_minutes * 60,
                None => !self@.enabled,
            },
    {
        if !self.enabled {
            None
        } else {
            Some(self.interval_minutes * 60)
        }
    }
}

/// After any calls on fresh settings, reminders are on or off as the last
/// call that turned them on or off said (on, if there was none), and the
/// minutes are those of the last call that set them (those the settings
/// were made with, if there was none). Calls that only read the settings
/// change nothing.
pub proof fn lemma_settings_follow_last_call(interval_minutes: u64, calls: Seq<ReminderCall>)
    ensures
        apply_calls(ReminderSettings { enabled: true, interval_minutes }, calls).enabled
            == match last_switch(calls) {
                Some(b) => b,
                None => true,
            },
        apply_calls(ReminderSettings { enabled: true, interval_minutes }, calls).interval_minutes
            == match last_interval(calls) {
                Some(m) => m,
                None => interval_minutes,
            },
    decreases calls.len(),
{
    if calls.len() > 0 {
        lemma_settings_follow_last_call(interval_minutes, calls.drop_last());
    }
}

} // verus!
