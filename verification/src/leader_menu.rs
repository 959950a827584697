//! The leader (Space) menu: one row per distinct leader key, styled by the
//! availability rules shared with the contextual menu.
use vstd::prelude::*;

use crate::actions::AppAction;
use crate::contextual_actions::{
    availability_reason, evaluate_availability, reason_view, row_style, AvailabilityFacts,
    ContextualAction, ImplementationStatus, RowStyle,
};
use crate::keys::{Key, KeyCode};

verus! {

/// Whether a leader binding is implemented or planned.
#[derive(Clone, Copy, Debug, Eq, PartialEq, Structural)]
pub enum BindingImplementation {
    Implemented,
    Planned,
}

/// A key reachable after the leader key, with the text shown for it.
#[derive(Clone, Copy, Debug, PartialEq, Eq)]
pub struct LeaderBinding {
    pub key: Key,
    pub key_label: &'static str,
    pub label: &'static str,
    pub action: AppAction,
    pub implementation: BindingImplementation,
}

/// What the leader menu depends on.
#[derive(Clone, Copy, Debug, Eq, PartialEq)]
pub struct LeaderMenuContext {}

/// One row of the leader menu.
#[derive(Clone, Debug, Eq, PartialEq)]
pub struct LeaderMenuRow {
    pub key: Key,
    pub display_shortcut: String,
    pub display_label: String,
    pub action_token: AppAction,
    pub row_style: RowStyle,
    pub reason: Option<&'static str>,
}

/// The bindings kept in the menu: the first binding of each key, in order.
pub open spec fn first_per_key(bindings: Seq<LeaderBinding>) -> Seq<LeaderBinding>
    decreases bindings.len(),
{
    if bindings.len() == 0 {
        Seq::empty()
    } else {
        let kept = first_per_key(bindings.drop_last());
        if exists|i: int| 0 <= i < kept.len() && kept[i].key == bindings.last().key {
            kept
        } else {
            kept.push(bindings.last())
        }
    }
}

pub open spec fn binding_status(b: LeaderBinding) -> ImplementationStatus {
    match b.implementation {
        BindingImplementation::Implemented => ImplementationStatus::Implemented,
        BindingImplementation::Planned => ImplementationStatus::Planned,
    }
}

/// A binding that opens the contextual menu is a route: it is available when
/// implemented and its children may be activated; any other binding is an
/// ordinary action.
pub open spec fn binding_action(b: LeaderBinding) -> Option<ContextualAction> {
    if b.action is OpenContextualActions {
        None
    } else {
        Some(ContextualAction::Starred)
    }
}

pub open spec fn binding_facts(b: LeaderBinding) -> AvailabilityFacts {
    AvailabilityFacts { contextual: None, contextual_activatable: b.action is OpenContextualActions }
}

/// The row shown for a kept binding.
pub open spec fn leader_row_matches(row: LeaderMenuRow, b: LeaderBinding) -> bool {
    let reason = availability_reason(binding_status(b), binding_action(b), binding_facts(b));
    &&& row.key == b.key
    &&& row.display_shortcut@ == "Space+"@ + b.key_label@
    &&& row.display_label@ == b.label@
    &&& row.action_token == b.action
    &&& row.row_style == (if binding_status(b) == ImplementationStatus::Implemented
        && reason is None {
        RowStyle::Enabled
    } else {
        RowStyle::Disabled
    })
    &&& reason_view(row.reason) == reason
}

fn has_key(rows: &Vec<LeaderMenuRow>, key: &Key) -> (b: bool)
    ensures
        b == exists|i: int| 0 <= i < rows.len() && rows@[i].key == *key,
{
    let mut i: usize = 0;
    while i < rows.len()
        invariant
            0 <= i <= rows.len(),
            forall|j: int| 0 <= j < i ==> rows@[j].key != *key,
        decreases rows.len() - i,
    {
        if rows[i].key == *key {
            return true;
        }
        i += 1;
    }
    false
}

/// Builds the leader menu from the leader bindings: the first binding of
/// each key becomes a row labelled "Space+<key>", styled by availability.
/// The contextual-menu route stays enabled even when its children are not.
pub fn build_leader_menu(_context: LeaderMenuContext, bindings: &[LeaderBinding]) -> (rows: Vec<
    LeaderMenuRow,
>)
    ensures
        rows.len() == first_per_key(bindings@).len(),
        forall|i: int|
            0 <= i < rows.len() ==> leader_row_matches(
                #[trigger] rows@[i],
                first_per_key(bindings@)[i],
            ),
{
    let mut rows: Vec<LeaderMenuRow> = Vec::new();
    let mut i: usize = 0;
    proof {
        reveal_strlit("Space+");
    }
    while i < bindings.len()
        invariant
            0 <= i <= bindings.len(),
            rows.len() == first_per_key(bindings@.subrange(0, i as int)).len(),
            forall|j: int|
                0 <= j < rows.len() ==> leader_row_matches(
                    #[trigger] rows@[j],
                    first_per_key(bindings@.subrange(0, i as int))[j],
                ),
        decreases bindings.len() - i,
    {
        let binding = &bindings[i];
        let ghost prefix = bindings@.subrange(0, i as int);
        let ghost next = bindings@.subrange(0, i + 1);
        assert(next.drop_last() =~= prefix);
        assert(next.last() == *binding);
        let key = binding.key;
        let seen = has_key(&rows, &key);
        proof {
            let kept = first_per_key(prefix);
            assert((exists|a: int| 0 <= a < rows.len() && rows@[a].key == key) == (exists|a: int|
                0 <= a < kept.len() && kept[a].key == key)) by {
                if exists|a: int| 0 <= a < rows.len() && rows@[a].key == key {
                    let a = choose|a: int| 0 <= a < rows.len() && rows@[a].key == key;
                    assert(leader_row_matches(rows@[a], kept[a]));
                }
                if exists|a: int| 0 <= a < kept.len() && kept[a].key == key {
                    let a = choose|a: int| 0 <= a < kept.len() && kept[a].key == key;
                    assert(leader_row_matches(rows@[a], kept[a]));
                }
            }
        }
        if !seen {
            let implementation = match binding.implementation {
                BindingImplementation::Implemented => ImplementationStatus::Implemented,
                BindingImplementation::Planned => ImplementationStatus::Planned,
            };
            let is_route = matches!(binding.action, AppAction::OpenContextualActions);
            let action = if is_route {
                None
            } else {
                Some(ContextualAction::Starred)
            };
            let availability = evaluate_availability(
                implementation,
                action,
                AvailabilityFacts { contextual: None, contextual_activatable: is_route },
            );
            let shortcut = String::from_str("Space+").concat(binding.key_label);
            let row = LeaderMenuRow {
                display_shortcut: shortcut,
                display_label: binding.label.to_owned(),
                key,
                action_token: binding.action,
                row_style: row_style(availability),
                reason: availability.reason,
            };
            rows.push(row);
        }
        i += 1;
    }
    assert(bindings@.subrange(0, bindings.len() as int) =~= bindings@);
    rows
}

/// The ASCII lowercase form of a character; other characters unchanged.
pub open spec fn ascii_lower(c: char) -> char {
    if 'A' <= c <= 'Z' {
        ((c as u32) + 32) as char
    } else {
        c
    }
}

/// Whether two key codes name the same key, letters compared without case.
pub open spec fn same_key_ignoring_case(a: KeyCode, b: KeyCode) -> bool {
    match (a, b) {
        (KeyCode::Char(x), KeyCode::Char(y)) => ascii_lower(x) == ascii_lower(y),
        _ => a == b,
    }
}

fn lower_code(c: char) -> (r: u32)
    ensures
        r == ascii_lower(c) as u32,
{
    if 'A' <= c && c <= 'Z' {
        assert((((c as u32) + 32) as char) as u32 == (c as u32) + 32);
        c as u32 + 32
    } else {
        c as u32
    }
}

/// Whether a pressed key selects a leader binding: the same key, letters
/// compared without case and Shift ignored; Control and Alt must match.
pub fn matches_leader_binding(key: &Key, binding: &Key) -> (b: bool)
    ensures
        b == (same_key_ignoring_case(key.code, binding.code) && key.modifiers.control
            == binding.modifiers.control && key.modifiers.alt == binding.modifiers.alt),
{
    let same_code = match (key.code, binding.code) {
        (KeyCode::Char(x), KeyCode::Char(y)) => {
            let lx = lower_code(x);
            let ly = lower_code(y);
            proof {
                assert(ascii_lower(x) as u32 == lx && ascii_lower(y) as u32 == ly);
            }
            lx == ly
        },
        (a, b) => a == b,
    };
    same_code && key.modifiers.control == binding.modifiers.control && key.modifiers.alt
        == binding.modifiers.alt
}

/// The first row that a pressed key selects.
pub open spec fn first_leader_match(rows: Seq<LeaderMenuRow>, key: Key, i: int) -> Option<int>
    decreases rows.len() - i,
{
    if i < 0 || i >= rows.len() {
        None
    } else if same_key_ignoring_case(key.code, rows[i].key.code) && key.modifiers.control
        == rows[i].key.modifiers.control && key.modifiers.alt == rows[i].key.modifiers.alt {
        Some(i)
    } else {
        first_leader_match(rows, key, i + 1)
    }
}

/// The action a key activates in the leader menu: that of the first row
/// the key selects, when that row is enabled; nothing otherwise.
pub fn activate_leader_key(rows: &[LeaderMenuRow], key: &Key) -> (r: Option<AppAction>)
    ensures
        r == match first_leader_match(rows@, *key, 0) {
            Some(i) => if rows@[i].row_style == RowStyle::Enabled {
                Some(rows@[i].action_token)
            } else {
                None
            },
            None => None,
        },
{
    let mut i: usize = 0;
    while i < rows.len()
        invariant
            0 <= i <= rows.len(),
            first_leader_match(rows@, *key, i as int) == first_leader_match(rows@, *key, 0),
        decreases rows.len() - i,
    {
        if matches_leader_binding(key, &rows[i].key) {
            proof {
                lemma_first_leader_match_bounds(rows@, *key, 0);
            }
            return if matches!(rows[i].row_style, RowStyle::Enabled) {
                Some(rows[i].action_token)
            } else {
                None
            };
        }
        i += 1;
    }
    None
}

proof fn lemma_first_leader_match_bounds(rows: Seq<LeaderMenuRow>, key: Key, i: int)
    requires
        0 <= i,
    ensures
        first_leader_match(rows, key, i) matches Some(j) ==> i <= j < rows.len(),
    decreases rows.len() - i,
{
    if i < rows.len() && !(same_key_ignoring_case(key.code, rows[i].key.code) && key.modifiers.control
        == rows[i].key.modifiers.control && key.modifiers.alt == rows[i].key.modifiers.alt) {
        lemma_first_leader_match_bounds(rows, key, i + 1);
    }
}

/// Enter in the leader menu activates the selected row as if its key was
/// pressed.
pub fn activate_leader_selection(rows: &[LeaderMenuRow], selected: usize) -> (r: Option<AppAction>)
    ensures
        selected >= rows.len() ==> r is None,
        selected < rows.len() ==> r == match first_leader_match(rows@, rows@[selected as int].key, 0) {
            Some(i) => if rows@[i].row_style == RowStyle::Enabled {
                Some(rows@[i].action_token)
            } else {
                None
            },
            None => None,
        },
{
    if selected >= rows.len() {
        return None;
    }
    let key = rows[selected].key;
    activate_leader_key(rows, &key)
}

proof fn lemma_first_per_key_distinct(bindings: Seq<LeaderBinding>)
    ensures
        forall|a: int, b: int|
            0 <= a < b < first_per_key(bindings).len() ==> first_per_key(bindings)[a].key != first_per_key(bindings)[b].key,
    decreases bindings.len(),
{
    if bindings.len() > 0 {
        lemma_first_per_key_distinct(bindings.drop_last());
        let kept = first_per_key(bindings.drop_last());
        if !(exists|i: int| 0 <= i < kept.len() && kept[i].key == bindings.last().key) {
            let all = kept.push(bindings.last());
            assert forall|a: int, b: int| 0 <= a < b < all.len() implies all[a].key != all[b].key by {
                if b == kept.len() {
                    assert(all[a] == kept[a]);
                } else {
                    assert(all[a] == kept[a] && all[b] == kept[b]);
                }
            }
        }
    }
}

/// The rows of a leader menu have distinct keys, so a key selects at most
/// one row.
pub proof fn lemma_leader_keys_distinct(bindings: Seq<LeaderBinding>, rows: Seq<LeaderMenuRow>)
    requires
        rows.len() == first_per_key(bindings).len(),
        forall|i: int| 0 <= i < rows.len() ==> leader_row_matches(#[trigger] rows[i], first_per_key(bindings)[i]),
    ensures
        forall|a: int, b: int| 0 <= a < b < rows.len() ==> rows[a].key != rows[b].key,
{
    lemma_first_per_key_distinct(bindings);
    assert forall|a: int, b: int| 0 <= a < b < rows.len() implies rows[a].key != rows[b].key by {
        assert(leader_row_matches(rows[a], first_per_key(bindings)[a]));
        assert(leader_row_matches(rows[b], first_per_key(bindings)[b]));
    }
}

} // verus!
