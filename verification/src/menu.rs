//! Translation of a remote menu layout into a native menu description. The
//! remote side describes a menu as a tree of items, each with a remote id
//! and a small property bag; the native side wants a tree of separators,
//! command entries and submenus, where every command entry carries a native
//! command id drawn from the indicator's reserved block. The root item's own
//! properties are ignored; only its children are built, depth first.

use crate::labels::{mnemonic_label, translate_label};
use crate::menu_ids::{MenuError, MenuIdMap};
use vstd::prelude::*;

verus! {

/// One node of the remote menu layout, restricted to the property allow-list
/// the bridge requests: type, visible, enabled, label, toggle-type and
/// toggle-state. A missing property means the protocol default.
pub struct MenuItem {
    pub id: i32,
    pub item_type: Option<String>,
    pub visible: Option<bool>,
    pub enabled: Option<bool>,
    pub label: Option<String>,
    pub toggle_type: Option<String>,
    pub toggle_state: Option<i32>,
    pub children: Vec<MenuItem>,
}

/// The toggle decoration of a native command entry. `Radio(false)` records
/// that the remote item is an unchecked radio item, for which no native
/// check call is made (unchecking a radio item has no native effect).
#[derive(Clone, Copy, Debug, PartialEq, Eq, Structural)]
pub enum ToggleMark {
    Plain,
    Checkmark(bool),
    Radio(bool),
}

/// One entry of the native menu description.
pub enum MenuEntry {
    Separator,
    Leaf { command_id: u16, label: String, enabled: bool, mark: ToggleMark },
    Submenu { label: String, enabled: bool, entries: Vec<MenuEntry> },
}

pub open spec fn type_of(item: MenuItem) -> Seq<char> {
    match item.item_type {
        Some(t) => t@,
        None => Seq::empty(),
    }
}

pub open spec fn label_of(item: MenuItem) -> Seq<char> {
    match item.label {
        Some(l) => l@,
        None => Seq::empty(),
    }
}

pub open spec fn enabled_of(item: MenuItem) -> bool {
    match item.enabled {
        Some(b) => b,
        None => true,
    }
}

pub open spec fn toggle_type_of(item: MenuItem) -> Seq<char> {
    match item.toggle_type {
        Some(t) => t@,
        None => Seq::empty(),
    }
}

pub open spec fn toggle_state_of(item: MenuItem) -> int {
    match item.toggle_state {
        Some(s) => s as int,
        None => -1,
    }
}

pub open spec fn mark_of(item: MenuItem) -> ToggleMark {
    if toggle_type_of(item) == "checkmark"@ {
        ToggleMark::Checkmark(toggle_state_of(item) == 1)
    } else if toggle_type_of(item) == "radio"@ {
        ToggleMark::Radio(toggle_state_of(item) == 1)
    } else {
        ToggleMark::Plain
    }
}

/// Whether a native entry is the correct translation of a remote item,
/// reading native command ids through the assignment `a`: a "separator"
/// item becomes a separator, an item with children becomes a submenu of its
/// translated children, and any other item becomes a command entry whose
/// native id is assigned to exactly this remote id. Labels go through the
/// access-key translation and a missing enabled property means enabled.
pub open spec fn entry_matches(item: MenuItem, e: MenuEntry, a: Map<u16, i32>) -> bool
    decreases item via entry_matches_decreases
{
    if type_of(item) == "separator"@ {
        e is Separator
    } else if item.children@.len() > 0 {
        &&& e matches MenuEntry::Submenu { label, enabled, entries }
        &&& label@ == mnemonic_label(label_of(item))
        &&& enabled == enabled_of(item)
        &&& entries_match(item.children@, entries@, a)
    } else {
        &&& e matches MenuEntry::Leaf { command_id, label, enabled, mark }
        &&& a.contains_key(command_id)
        &&& a[command_id] == item.id
        &&& label@ == mnemonic_label(label_of(item))
        &&& enabled == enabled_of(item)
        &&& mark == mark_of(item)
    }
}

/// Whether a sequence of native entries translates a sequence of remote
/// items, element by element.
pub open spec fn entries_match(items: Seq<MenuItem>, es: Seq<MenuEntry>, a: Map<u16, i32>) -> bool
    decreases items,
{
    &&& es.len() == items.len()
    &&& forall|i: int| 0 <= i < items.len() ==> entry_matches(#[trigger] items[i], es[i], a)
}

#[via_fn]
proof fn entry_matches_decreases(item: MenuItem, e: MenuEntry, a: Map<u16, i32>) {
    assert(decreases_to!(item => item.children));
    assert(decreases_to!(item.children => item.children@));
}

/// One assignment extends another: every pair of the first is in the second.
pub open spec fn assignment_extends(a1: Map<u16, i32>, a2: Map<u16, i32>) -> bool {
    forall|k: u16| #[trigger] a1.contains_key(k) ==> a2.contains_key(k) && a2[k] == a1[k]
}

/// A translation stays correct when the assignment grows.
pub proof fn lemma_entry_matches_extend(item: MenuItem, e: MenuEntry, a1: Map<u16, i32>, a2: Map<
    u16,
    i32,
>)
    requires
        entry_matches(item, e, a1),
        assignment_extends(a1, a2),
    ensures
        entry_matches(item, e, a2),
    decreases item,
{
    if type_of(item) == "separator"@ {
    } else if item.children@.len() > 0 {
        assert(decreases_to!(item => item.children));
        assert(decreases_to!(item.children => item.children@));
        if let MenuEntry::Submenu { label, enabled, entries } = e {
            lemma_entries_match_extend(item.children@, entries@, a1, a2);
        }
    } else {
    }
}

/// A sequence translation stays correct when the assignment grows.
pub proof fn lemma_entries_match_extend(
    items: Seq<MenuItem>,
    es: Seq<MenuEntry>,
    a1: Map<u16, i32>,
    a2: Map<u16, i32>,
)
    requires
        entries_match(items, es, a1),
        assignment_extends(a1, a2),
    ensures
        entries_match(items, es, a2),
    decreases items,
{
    assert forall|i: int| 0 <= i < items.len() implies entry_matches(
        #[trigger] items[i],
        es[i],
        a2,
    ) by {
        lemma_entry_matches_extend(items[i], es[i], a1, a2);
    }
}

fn opt_string_or_empty(s: &Option<String>) -> (r: String)
    ensures
        r@ == (match s {
            Some(t) => t@,
            None => Seq::<char>::empty(),
        }),
{
    match s {
        Some(t) => (*t).clone(),
        None => String::new(),
    }
}

/// Builds the native entry for one remote item, drawing a fresh or reused
/// native command id for a leaf. On id exhaustion the build fails and the
/// id map keeps what it had.
fn build_entry(ids: &mut MenuIdMap, item: &MenuItem) -> (r: Result<MenuEntry, MenuError>)
    requires
        old(ids).wf(),
    ensures
        final(ids).wf(),
        final(ids).slot() == old(ids).slot(),
        assignment_extends(old(ids).assigned(), final(ids).assigned()),
        match r {
            Ok(e) => entry_matches(*item, e, final(ids).assigned()),
            Err(err) => err == MenuError::IdsExhausted && final(ids).next() == final(ids).base()
                + 100,
        },
    decreases *item,
{
    proof {
        reveal_strlit("separator");
        reveal_strlit("checkmark");
        reveal_strlit("radio");
    }
    let is_sep = match &item.item_type {
        Some(t) => crate::text::str_eq(t.as_str(), "separator"),
        None => false,
    };
    if is_sep {
        return Ok(MenuEntry::Separator);
    }
    let raw_label = opt_string_or_empty(&item.label);
    let label = translate_label(raw_label.as_str());
    let enabled = match &item.enabled {
        Some(b) => *b,
        None => true,
    };
    if item.children.len() > 0 {
        proof {
            assert(decreases_to!(*item => item.children));
        }
        let entries = match build_entries(ids, &item.children) {
            Ok(es) => es,
            Err(e) => {
                return Err(e);
            },
        };
        Ok(MenuEntry::Submenu { label, enabled, entries })
    } else {
        let command_id = match ids.map_id(item.id) {
            Ok(id) => id,
            Err(e) => {
                return Err(e);
            },
        };
        let toggle_is_check = match &item.toggle_type {
            Some(t) => crate::text::str_eq(t.as_str(), "checkmark"),
            None => false,
        };
        let toggle_is_radio = match &item.toggle_type {
            Some(t) => crate::text::str_eq(t.as_str(), "radio"),
            None => false,
        };
        let checked = match &item.toggle_state {
            Some(s) => *s == 1i32,
            None => false,
        };
        let mark = if toggle_is_check {
            ToggleMark::Checkmark(checked)
        } else if toggle_is_radio {
            ToggleMark::Radio(checked)
        } else {
            ToggleMark::Plain
        };
        Ok(MenuEntry::Leaf { command_id, label, enabled, mark })
    }
}

/// Builds native entries for a sequence of remote items, in order.
fn build_entries(ids: &mut MenuIdMap, items: &Vec<MenuItem>) -> (r: Result<
    Vec<MenuEntry>,
    MenuError,
>)
    requires
        old(ids).wf(),
    ensures
        final(ids).wf(),
        final(ids).slot() == old(ids).slot(),
        assignment_extends(old(ids).assigned(), final(ids).assigned()),
        match r {
            Ok(es) => entries_match(items@, es@, final(ids).assigned()),
            Err(err) => err == MenuError::IdsExhausted && final(ids).next() == final(ids).base()
                + 100,
        },
    decreases items@,
{
    let mut es: Vec<MenuEntry> = Vec::new();
    let n = items.len();
    let mut i: usize = 0;
    while i < n
        invariant
            n == items@.len(),
            i <= n,
            ids.wf(),
            ids.slot() == old(ids).slot(),
            assignment_extends(old(ids).assigned(), ids.assigned()),
            entries_match(items@.take(i as int), es@, ids.assigned()),
        decreases n - i,
    {
        proof {
            assert(decreases_to!(items@ => items@[i as int]));
        }
        let ghost a_before = ids.assigned();
        let e = match build_entry(ids, &items[i]) {
            Ok(e) => e,
            Err(err) => {
                return Err(err);
            },
        };
        proof {
            lemma_entries_match_extend(
                items@.take(i as int),
                es@,
                a_before,
                ids.assigned(),
            );
        }
        es.push(e);
        proof {
            assert(items@.take(i as int + 1).drop_last() =~= items@.take(i as int));
            assert(items@.take(i as int + 1).last() == items@[i as int]);
            assert forall|k: int| 0 <= k < i as int + 1 implies entry_matches(
                #[trigger] items@.take(i as int + 1)[k],
                es@[k],
                ids.assigned(),
            ) by {
                if k < i as int {
                    assert(items@.take(i as int + 1)[k] == items@.take(i as int)[k]);
                    assert(es@[k] == es@.take(i as int)[k]);
                }
            }
        }
        i = i + 1;
    }
    proof {
        assert(items@.take(n as int) =~= items@);
    }
    Ok(es)
}

/// Builds the native menu description for a remote layout: the root item's
/// own properties are ignored and its children become the menu's entries.
/// Ids are assigned through the indicator's id map; exhaustion fails only
/// this build, the map keeps what it already assigned.
pub fn build_menu(ids: &mut MenuIdMap, root: &MenuItem) -> (r: Result<Vec<MenuEntry>, MenuError>)
    requires
        old(ids).wf(),
    ensures
        final(ids).wf(),
        final(ids).slot() == old(ids).slot(),
        assignment_extends(old(ids).assigned(), final(ids).assigned()),
        match r {
            Ok(es) => entries_match(root.children@, es@, final(ids).assigned()),
            Err(err) => err == MenuError::IdsExhausted && final(ids).next() == final(ids).base()
                + 100,
        },
{
    build_entries(ids, &root.children)
}

} // verus!
