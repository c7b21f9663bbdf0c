//! The active-application tracker: a single shared "current application"
//! value, updated from window-focus notifications and read when a saved
//! replay is filed under the application it came from.

use vstd::prelude::*;

verus! {

/// The `Name` attribute of the `Desktop Entry` section of a desktop-entry
/// file, as the freedesktop entry parser reads it: a function of the file
/// bytes alone.
pub uninterp spec fn desktop_entry_name_of(entry: Seq<u8>) -> Option<Seq<char>>;

/// Relies on freedesktop_entry_parser::Entry::parse, Entry::section and
/// Section::attr: parsing the bytes and looking up `Name` under
/// `Desktop Entry` depends on the bytes alone, named here by
/// [`desktop_entry_name_of`].
#[verifier::external_body]
fn desktop_entry_name(entry: &Vec<u8>) -> (r: Option<String>)
    ensures
        match r {
            Some(name) => desktop_entry_name_of(entry@) == Some(name@),
            None => desktop_entry_name_of(entry@) is None,
        },
{
    match freedesktop_entry_parser::Entry::parse(entry.as_slice()) {
        Ok(parsed) => match parsed.section("Desktop Entry") {
            Some(section) => section.attr("Name").first().cloned(),
            None => None,
        },
        Err(_) => None,
    }
}

/// The sentinel value while no fullscreen application is focused.
pub open spec fn spec_unknown_name() -> Seq<char> {
    "unknown"@
}

/// The application name a fullscreen notification resolves to: the display
/// name from the desktop entry when one was found and names the application,
/// else the window title.
pub open spec fn spec_resolved_name(entry: Option<Seq<u8>>, title: Seq<char>) -> Seq<char> {
    match entry {
        Some(bytes) => match desktop_entry_name_of(bytes) {
            Some(name) => name,
            None => title,
        },
        None => title,
    }
}

/// The tracked name after one notification.
pub open spec fn spec_next_name(
    entry: Option<Seq<u8>>,
    title: Seq<char>,
    fullscreen: bool,
) -> Seq<char> {
    if fullscreen {
        spec_resolved_name(entry, title)
    } else {
        spec_unknown_name()
    }
}

/// How many writes one notification performs: one when the value changes,
/// none when it already holds the next name.
pub open spec fn spec_change_delta(old_name: Seq<char>, new_name: Seq<char>) -> int {
    if old_name == new_name {
        0
    } else {
        1
    }
}

/// Resetting an already-reset tracker writes nothing: a second
/// non-fullscreen notification never increments the change counter.
pub proof fn lemma_reset_idempotent(
    entry: Option<Seq<u8>>,
    title: Seq<char>,
    entry2: Option<Seq<u8>>,
    title2: Seq<char>,
)
    ensures
        spec_next_name(entry2, title2, false) == spec_next_name(entry, title, false),
        spec_change_delta(spec_next_name(entry, title, false), spec_next_name(entry2, title2, false))
            == 0,
{
}

/// The tracker: the current application name and a counter of the writes
/// made to it.
pub struct ActiveWindowTracker {
    name: String,
    changes: u64,
}

impl ActiveWindowTracker {
    /// The tracked name.
    pub closed spec fn spec_name(&self) -> Seq<char> {
        self.name@
    }

    /// How many times the tracked name has been written.
    pub closed spec fn spec_changes(&self) -> u64 {
        self.changes
    }

    /// A fresh tracker holds the sentinel and has written nothing.
    pub fn new() -> (r: Self)
        ensures
            r.spec_name() == spec_unknown_name(),
            r.spec_changes() == 0,
    {
        ActiveWindowTracker { name: String::from_str("unknown"), changes: 0 }
    }

    /// The current application name.
    pub fn name(&self) -> (r: String)
        ensures
            r@ == self.spec_name(),
    {
        self.name.clone()
    }

    /// How many times the value has been written.
    pub fn change_count(&self) -> (r: u64)
        ensures
            r == self.spec_changes(),
    {
        self.changes
    }

    /// Applies one window-focus notification. For a fullscreen window the
    /// name resolves through the desktop entry, falling back to the window
    /// title; for any other window the value resets to the sentinel. The
    /// value is written only when it actually changes.
    pub fn set_active_window(
        &mut self,
        entry: Option<&Vec<u8>>,
        title: &String,
        fullscreen: bool,
    )
        requires
            old(self).spec_changes() < u64::MAX,
        ensures
            final(self).spec_name() == spec_next_name(
                match entry {
                    Some(bytes) => Some(bytes@),
                    None => None,
                },
                title@,
                fullscreen,
            ),
            final(self).spec_changes() == old(self).spec_changes() + spec_change_delta(
                old(self).spec_name(),
                final(self).spec_name(),
            ),
    {
        let next: String = if fullscreen {
            match entry {
                Some(bytes) => match desktop_entry_name(bytes) {
                    Some(name) => name,
                    None => title.clone(),
                },
                None => title.clone(),
            }
        } else {
            String::from_str("unknown")
        };
        if !self.name.eq(&next) {
            self.name = next;
            self.changes = self.changes + 1;
        }
    }
}

} // verus!
