//! The global shortcuts: the fixed set the application registers, which of
//! them still need binding given what the portal already knows, and the
//! event an activation maps to.

use vstd::prelude::*;

use crate::ActionEvent;

verus! {

/// A shortcut to register: its identifier, the label shown to the user, and
/// the preferred key combination.
pub struct ShortcutSpec {
    pub id: String,
    pub description: String,
    pub trigger: String,
}

/// The label of a shortcut identifier.
pub open spec fn spec_shortcut_description(id: Seq<char>) -> Seq<char> {
    if id == "save-replay"@ {
        "Save replay"@
    } else if id == "toggle-replay"@ {
        "Toggle replay"@
    } else {
        "Quit program"@
    }
}

/// The preferred key combination of a shortcut identifier.
pub open spec fn spec_shortcut_trigger(id: Seq<char>) -> Seq<char> {
    if id == "save-replay"@ {
        "ALT+F10"@
    } else if id == "toggle-replay"@ {
        "ALT+SHIFT+F10"@
    } else {
        "ALT+SHIFT+F11"@
    }
}

/// Whether every entry describes its identifier.
pub open spec fn spec_shortcuts_wf(entries: Seq<ShortcutSpec>) -> bool {
    forall|j: int|
        0 <= j < entries.len() ==> (#[trigger] entries[j].description@)
            == spec_shortcut_description(entries[j].id@) && entries[j].trigger@
            == spec_shortcut_trigger(entries[j].id@)
}

/// The three shortcuts the application registers.
pub fn shortcut_specs() -> (r: Vec<ShortcutSpec>)
    ensures
        r@.len() == 3,
        r@[0].id@ == "save-replay"@,
        r@[1].id@ == "toggle-replay"@,
        r@[2].id@ == "quit"@,
        spec_shortcuts_wf(r@),
{
    let mut out: Vec<ShortcutSpec> = Vec::new();
    out.push(
        ShortcutSpec {
            id: String::from_str("save-replay"),
            description: String::from_str("Save replay"),
            trigger: String::from_str("ALT+F10"),
        },
    );
    out.push(
        ShortcutSpec {
            id: String::from_str("toggle-replay"),
            description: String::from_str("Toggle replay"),
            trigger: String::from_str("ALT+SHIFT+F10"),
        },
    );
    out.push(
        ShortcutSpec {
            id: String::from_str("quit"),
            description: String::from_str("Quit program"),
            trigger: String::from_str("ALT+SHIFT+F11"),
        },
    );
    proof {
        reveal_strlit("save-replay");
        reveal_strlit("toggle-replay");
        reveal_strlit("quit");
        assert("save-replay"@.len() == 11);
        assert("toggle-replay"@.len() == 13);
        assert("quit"@.len() == 4);
        assert forall|j: int| 0 <= j < out@.len() implies (#[trigger] out@[j].description@)
            == spec_shortcut_description(out@[j].id@) && out@[j].trigger@ == spec_shortcut_trigger(
            out@[j].id@,
        ) by {
            if j == 0 {
            } else if j == 1 {
            } else {
            }
        }
    }
    out
}

/// The identifiers of the registered shortcuts that are not in `existing`,
/// in order: the shortcuts still to bind.
pub open spec fn spec_missing_ids(existing: Seq<Seq<char>>) -> Seq<Seq<char>> {
    let a: Seq<Seq<char>> = if !existing.contains("save-replay"@) {
        Seq::empty().push("save-replay"@)
    } else {
        Seq::empty()
    };
    let b: Seq<Seq<char>> = if !existing.contains("toggle-replay"@) {
        Seq::empty().push("toggle-replay"@)
    } else {
        Seq::empty()
    };
    let c: Seq<Seq<char>> = if !existing.contains("quit"@) {
        Seq::empty().push("quit"@)
    } else {
        Seq::empty()
    };
    a + b + c
}

/// Whether `existing` holds a string whose characters are `id`.
fn contains_id(existing: &Vec<String>, id: &String) -> (r: bool)
    ensures
        r == existing.deep_view().contains(id@),
{
    let mut i: usize = 0;
    while i < existing.len()
        invariant
            0 <= i <= existing@.len(),
            forall|j: int| 0 <= j < i ==> existing@[j]@ != id@,
        decreases existing.len() - i,
    {
        if existing[i].eq(id) {
            proof {
                assert(existing.deep_view()[i as int] == id@);
            }
            return true;
        }
        i += 1;
    }
    proof {
        assert forall|j: int| 0 <= j < existing.deep_view().len() implies existing.deep_view()[j]
            != id@ by {
            assert(existing.deep_view()[j] == existing@[j]@);
        }
    }
    false
}

/// The shortcuts whose identifiers the portal does not already know: those
/// are the ones still to bind, in registration order.
pub fn shortcuts_to_bind(existing: &Vec<String>) -> (r: Vec<ShortcutSpec>)
    ensures
        r@.len() == spec_missing_ids(existing.deep_view()).len(),
        forall|j: int|
            0 <= j < r@.len() ==> (#[trigger] r@[j].id@) == spec_missing_ids(
                existing.deep_view(),
            )[j],
        spec_shortcuts_wf(r@),
{
    let specs = shortcut_specs();
    let mut out: Vec<ShortcutSpec> = Vec::new();
    let mut i: usize = 0;
    while i < specs.len()
        invariant
            0 <= i <= specs@.len(),
            specs@.len() == 3,
            specs@[0].id@ == "save-replay"@,
            specs@[1].id@ == "toggle-replay"@,
            specs@[2].id@ == "quit"@,
            spec_shortcuts_wf(specs@),
            spec_shortcuts_wf(out@),
            out@.map_values(|s: ShortcutSpec| s.id@) =~= spec_missing_ids_prefix(
                existing.deep_view(),
                i as int,
            ),
        decreases specs.len() - i,
    {
        let keep = !contains_id(existing, &specs[i].id);
        if keep {
            let entry = ShortcutSpec {
                id: specs[i].id.clone(),
                description: specs[i].description.clone(),
                trigger: specs[i].trigger.clone(),
            };
            out.push(entry);
        }
        proof {
            assert(out@.map_values(|s: ShortcutSpec| s.id@) =~= spec_missing_ids_prefix(
                existing.deep_view(),
                i + 1,
            ));
        }
        i += 1;
    }
    proof {
        assert(spec_missing_ids_prefix(existing.deep_view(), 3) =~= spec_missing_ids(
            existing.deep_view(),
        ));
        assert forall|j: int| 0 <= j < out@.len() implies (#[trigger] out@[j].id@)
            == spec_missing_ids(existing.deep_view())[j] by {
            assert(out@.map_values(|s: ShortcutSpec| s.id@)[j] == out@[j].id@);
        }
    }
    out
}

/// The identifiers still to bind, considering only the first `k` of the
/// registered shortcuts.
pub open spec fn spec_missing_ids_prefix(existing: Seq<Seq<char>>, k: int) -> Seq<Seq<char>> {
    let a: Seq<Seq<char>> = if k >= 1 && !existing.contains("save-replay"@) {
        Seq::empty().push("save-replay"@)
    } else {
        Seq::empty()
    };
    let b: Seq<Seq<char>> = if k >= 2 && !existing.contains("toggle-replay"@) {
        Seq::empty().push("toggle-replay"@)
    } else {
        Seq::empty()
    };
    let c: Seq<Seq<char>> = if k >= 3 && !existing.contains("quit"@) {
        Seq::empty().push("quit"@)
    } else {
        Seq::empty()
    };
    a + b + c
}

/// The event a shortcut activation produces.
pub fn event_for_shortcut(id: &String) -> (r: ActionEvent)
    ensures
        id@ == "save-replay"@ ==> r == ActionEvent::SaveReplay,
        id@ == "quit"@ ==> r == ActionEvent::Quit,
        id@ == "toggle-replay"@ ==> r == ActionEvent::ToggleReplay,
        id@ != "save-replay"@ && id@ != "quit"@ && id@ != "toggle-replay"@ ==> r
            == ActionEvent::Unknown,
{
    proof {
        reveal_strlit("save-replay");
        reveal_strlit("quit");
        reveal_strlit("toggle-replay");
        assert("save-replay"@.len() == 11);
        assert("quit"@.len() == 4);
        assert("toggle-replay"@.len() == 13);
    }
    if id.eq(&String::from_str("save-replay")) {
        ActionEvent::SaveReplay
    } else if id.eq(&String::from_str("quit")) {
        ActionEvent::Quit
    } else if id.eq(&String::from_str("toggle-replay")) {
        ActionEvent::ToggleReplay
    } else {
        ActionEvent::Unknown
    }
}

} // verus!
