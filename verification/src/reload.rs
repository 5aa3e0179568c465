//! The watch-reload bridge's decision logic: a coalescing reload signal —
//! "at least one change occurred since the last delivery", with no queue and
//! no count — and the choice of response for an inbound request.

use vstd::prelude::*;
use vstd::string::StringExecFns;
use crate::text::{string_to_chars, match_at};

verus! {

/// The signal after a file-change event: pending, however many changes came
/// before.
pub open spec fn signal_after_change(pending: bool) -> bool {
    true
}

/// The signal after a delivery poll: cleared.
pub open spec fn signal_after_take(pending: bool) -> bool {
    false
}

/// Whether a delivery poll of the signal sends a reload event.
pub open spec fn delivers(pending: bool) -> bool {
    pending
}

/// The coalescing reload signal shared between the file-watch callback and
/// the reload handlers.
pub struct ReloadSignal {
    pub pending: bool,
}

impl ReloadSignal {
    /// A fresh signal: no reload is owed.
    pub fn new() -> (r: ReloadSignal)
        ensures
            !r.pending,
    {
        ReloadSignal { pending: false }
    }

    /// Records one file-change event; repeated changes before the next
    /// delivery coalesce into the same pending state.
    pub fn notify_change(&mut self)
        ensures
            final(self).pending == signal_after_change(old(self).pending),
    {
        self.pending = true;
    }

    /// One delivery poll: reports whether a reload event is owed and clears
    /// the signal, so that the event is delivered exactly once.
    pub fn take(&mut self) -> (r: bool)
        ensures
            r == delivers(old(self).pending),
            final(self).pending == signal_after_take(old(self).pending),
    {
        let r = self.pending;
        self.pending = false;
        r
    }
}

/// Reload coalescing: however the signal starts, two (or more) file-change
/// events before the next delivery poll result in exactly one delivered
/// event — the first poll afterwards delivers, and a second poll with no
/// further change delivers nothing.
pub proof fn lemma_reload_coalescing(initial: bool)
    ensures
        ({
            let after_two = signal_after_change(signal_after_change(initial));
            delivers(after_two) && !delivers(signal_after_take(after_two))
        }),
{
}

/// Whether a request path asks for the reload event stream.
pub fn is_reload_path(url: &str) -> (r: bool)
    ensures
        r == (url@ == "/reload"@),
{
    let u = string_to_chars(url);
    let p = string_to_chars("/reload");
    if u.len() == p.len() && match_at(&u, &p, 0) {
        proof {
            assert(u@.subrange(0, p@.len() as int) =~= u@);
        }
        true
    } else {
        proof {
            if u@ == p@ {
                assert(u@.subrange(0, p@.len() as int) =~= p@);
            }
        }
        false
    }
}

/// The body of one delivered reload event.
pub fn reload_event_body() -> (r: String)
    ensures
        r@ == "data: reload\n\n"@,
{
    String::from_str("data: reload\n\n")
}

/// The body served for a non-reload request: the rendered document where it
/// could be read, and the fixed not-found fragment where it could not.
pub fn page_body(contents: Option<String>) -> (r: String)
    ensures
        match contents {
            Some(s) => r@ == s@,
            None => r@ == "<p>File not found</p>"@,
        },
{
    match contents {
        Some(s) => s,
        None => String::from_str("<p>File not found</p>"),
    }
}

} // verus!
