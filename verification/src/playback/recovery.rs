//! Hot failure recovery.
//!
//! ```text
//! engine detects a failure → classify → invalidate the resolution if due
//!   → resolve again (FRESH) → prepare again → go on when possible
//! ```
//!
//! The budget is ONE attempt per track: a stream that dies twice in a row is
//! not hammered. `Cut` (a CDN limit) keeps its behaviour: notice + natural
//! end of the prefix. Decoding or device failures are not fixed by another
//! URL.

use vstd::prelude::*;

use crate::app::audio::PlaybackEvent;
use crate::text::{
    ascii_lower, ascii_lowercase_chars, contains_chars, contains_spec, same_text,
};

verus! {

/// Action decided for an adverse event while playing.
#[derive(Debug, Clone, Copy, PartialEq, Eq, Structural)]
pub enum RecoveryAction {
    /// Invalidate and resolve the current track's stream again, then go on.
    RefreshAndResume,
    /// Only report (discreet notice); no automatic retry.
    Report,
}

/// A hot error message points at TRANSPORT (the URL died, the network
/// failed): neither an own cancellation or replacement, nor a decoding or
/// device problem. Matching is ASCII case-insensitive.
pub open spec fn transport_failure_spec(msg: Seq<char>) -> bool {
    let m = ascii_lower(msg);
    !contains_spec(m, "cancelad"@) && !contains_spec(m, "reemplazad"@)
        && !contains_spec(m, "decodificar"@) && !contains_spec(m, "dispositivo"@)
}

/// Decision for an event.
pub open spec fn recovery_spec(event: PlaybackEvent) -> RecoveryAction {
    match event {
        PlaybackEvent::Error(msg) => if transport_failure_spec(msg@) {
            RecoveryAction::RefreshAndResume
        } else {
            RecoveryAction::Report
        },
        _ => RecoveryAction::Report,
    }
}

fn is_transport_failure(msg: &str) -> (b: bool)
    ensures
        b == transport_failure_spec(msg@),
{
    let m = ascii_lowercase_chars(msg);
    if contains_chars(&m, "cancelad") || contains_chars(&m, "reemplazad") {
        return false;
    }
    !contains_chars(&m, "decodificar") && !contains_chars(&m, "dispositivo")
}

/// Classifies a playback event and decides the recovery.
pub fn decide_recovery(event: &PlaybackEvent) -> (a: RecoveryAction)
    ensures
        a == recovery_spec(*event),
{
    match event {
        PlaybackEvent::Error(msg) => if is_transport_failure(msg.as_str()) {
            RecoveryAction::RefreshAndResume
        } else {
            RecoveryAction::Report
        },
        _ => RecoveryAction::Report,
    }
}

/// Auto-recovery budget: ONE refresh per track. Armed when each playback
/// starts; switching track re-arms it.
#[derive(Debug)]
pub struct RecoveryBudget {
    armed_key: Option<String>,
    consumed: bool,
}

impl View for RecoveryBudget {
    type V = (Option<Seq<char>>, bool);

    closed spec fn view(&self) -> (Option<Seq<char>>, bool) {
        (
            match self.armed_key {
                Some(k) => Some(k@),
                None => None,
            },
            self.consumed,
        )
    }
}

/// The single attempt for `key` is still available.
pub open spec fn remaining_spec(b: (Option<Seq<char>>, bool), key: Seq<char>) -> bool {
    b.0 == Some(key) && !b.1
}

impl Default for RecoveryBudget {
    fn default() -> (b: Self)
        ensures
            b@ == (None::<Seq<char>>, false),
    {
        RecoveryBudget { armed_key: None, consumed: false }
    }
}

impl RecoveryBudget {
    /// Arms (or re-arms) the budget for track `key`.
    pub fn arm(&mut self, key: &str)
        ensures
            final(self)@ == (Some(key@), false),
    {
        *self = RecoveryBudget { armed_key: Some(key.to_owned()), consumed: false };
    }

    /// Spends the attempt for `key`: `false` when the track does not match
    /// or the attempt was already spent.
    pub fn try_consume(&mut self, key: &str) -> (ok: bool)
        ensures
            ok == remaining_spec(old(self)@, key@),
            final(self)@ == if ok { (old(self)@.0, true) } else { old(self)@ },
    {
        let matches = match &self.armed_key {
            Some(k) => same_text(k.as_str(), key),
            None => false,
        };
        if matches && !self.consumed {
            self.consumed = true;
            return true;
        }
        false
    }

    /// Whether the attempt for `key` is still available.
    pub fn remaining(&self, key: &str) -> (b: bool)
        ensures
            b == remaining_spec(self@, key@),
    {
        match &self.armed_key {
            Some(k) => same_text(k.as_str(), key) && !self.consumed,
            None => false,
        }
    }
}

/// After arming a track, exactly one refresh is granted for it: the first
/// consumption succeeds, every later one is refused, and no other key is
/// ever granted.
pub proof fn law_one_refresh_per_track(key: Seq<char>, other: Seq<char>)
    requires
        other != key,
    ensures
        remaining_spec((Some(key), false), key),
        !remaining_spec((Some(key), true), key),
        !remaining_spec((Some(key), false), other),
        !remaining_spec((Some(key), true), other),
{
}

/// Only `Error` events can lead to a refresh: `Cut` and the benign events
/// are always reported.
pub proof fn law_only_errors_refresh(event: PlaybackEvent)
    requires
        !(event is Error),
    ensures
        recovery_spec(event) == RecoveryAction::Report,
{
}

} // verus!
