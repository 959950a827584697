//! The catalogue of contextual actions, the rules that decide whether an
//! action can be activated in the current context, and the menu rows built
//! from both.
use vstd::prelude::*;

use crate::actions::{FocusPane, Section};

verus! {

/// Whether an action is already implemented or only planned.
#[derive(Clone, Copy, Debug, Eq, PartialEq, Structural)]
pub enum ImplementationStatus {
    Implemented,
    Planned,
}

/// Whether an action may run, and why not when it may not.
#[derive(Clone, Copy, Debug, Eq, PartialEq)]
pub struct ActionAvailability {
    pub implementation: ImplementationStatus,
    pub capability: bool,
    pub permission: bool,
    pub reason: Option<&'static str>,
}

/// The reason text of an availability, as characters.
pub open spec fn reason_view(reason: Option<&'static str>) -> Option<Seq<char>> {
    match reason {
        Some(text) => Some(text@),
        None => None,
    }
}

/// An availability may be activated when it is implemented, capable and
/// permitted.
pub open spec fn is_activatable(a: ActionAvailability) -> bool {
    a.implementation == ImplementationStatus::Implemented && a.capability && a.permission
}

impl ActionAvailability {
    /// A planned action: not capable, not permitted, "not implemented".
    pub fn planned() -> (a: ActionAvailability)
        ensures
            a.implementation == ImplementationStatus::Planned,
            !a.capability,
            !a.permission,
            reason_view(a.reason) == Some("not implemented"@),
    {
        ActionAvailability {
            implementation: ImplementationStatus::Planned,
            capability: false,
            permission: false,
            reason: Some("not implemented"),
        }
    }

    /// An implemented, capable and permitted action with no reason.
    pub fn enabled() -> (a: ActionAvailability)
        ensures
            a.implementation == ImplementationStatus::Implemented,
            a.capability,
            a.permission,
            a.reason is None,
    {
        ActionAvailability {
            implementation: ImplementationStatus::Implemented,
            capability: true,
            permission: true,
            reason: None,
        }
    }

    /// An implemented and capable action that is not permitted, for `reason`.
    pub fn disabled(reason: &'static str) -> (a: ActionAvailability)
        ensures
            a.implementation == ImplementationStatus::Implemented,
            a.capability,
            !a.permission,
            a.reason == Some(reason),
    {
        ActionAvailability {
            implementation: ImplementationStatus::Implemented,
            capability: true,
            permission: false,
            reason: Some(reason),
        }
    }

    /// Whether the action may run now.
    pub fn activatable(self) -> (b: bool)
        ensures
            b == is_activatable(self),
    {
        matches!(self.implementation, ImplementationStatus::Implemented) && self.capability
            && self.permission
    }
}

/// How a menu row is drawn.
#[derive(Clone, Copy, Debug, Eq, PartialEq, Structural)]
pub enum RowStyle {
    Enabled,
    Disabled,
}

/// What the availability rules need to know.
#[derive(Clone, Copy, Debug, Eq, PartialEq, Structural)]
pub struct AvailabilityFacts {
    pub contextual: Option<ContextualContext>,
    pub contextual_activatable: bool,
}

/// The action catalogue.
#[derive(Clone, Copy, Debug, Eq, PartialEq, Structural)]
pub enum ContextualAction {
    Starred,
    ReadAll,
    NewGroup,
    NewCommunity,
    StatusPrivacy,
    MarkRead,
    ViewContact,
    Pin,
    Mute,
    Hide,
    DeleteForMe,
    DeleteForEveryone,
    Share,
    Star,
    ReplyPrivately,
    Copy,
    React,
    Reply,
    Attach,
    Open,
    ViewAttachment,
    GoToReference,
    Quit,
}

/// Actions that need a selected message outside the Status section.
pub open spec fn needs_selected_message(action: ContextualAction) -> bool {
    match action {
        ContextualAction::DeleteForEveryone | ContextualAction::Share
        | ContextualAction::ReplyPrivately | ContextualAction::React | ContextualAction::Reply
        | ContextualAction::Open | ContextualAction::ViewAttachment => true,
        _ => false,
    }
}

/// Why an implemented action is not permitted, in rule order, or `None`
/// when it is; a planned action is always "not implemented".
pub open spec fn availability_reason(
    implementation: ImplementationStatus,
    action: Option<ContextualAction>,
    facts: AvailabilityFacts,
) -> Option<Seq<char>> {
    if implementation == ImplementationStatus::Planned {
        Some("not implemented"@)
    } else if action == Some(ContextualAction::Copy) && !(facts.contextual matches Some(c)
        && c.selected_text) {
        Some("text message required"@)
    } else if action == Some(ContextualAction::GoToReference) && !(facts.contextual matches Some(
        c,
    ) && c.has_reference) {
        Some("reference unavailable"@)
    } else if action == Some(ContextualAction::Attach) && (facts.contextual matches Some(c)
        && c.attach_blocked) {
        Some("attachment unavailable"@)
    } else if (action matches Some(a) && needs_selected_message(a)) && (facts.contextual matches Some(
        c,
    ) && (!c.has_selected_message || c.section == Section::Status)) {
        Some("not available in this view"@)
    } else if action is None && !facts.contextual_activatable {
        Some("no activatable actions"@)
    } else {
        None
    }
}

fn context_has(facts: &AvailabilityFacts) -> (r: (bool, bool, bool, bool, bool))
    ensures
        r.0 == (facts.contextual matches Some(c) && c.selected_text),
        r.1 == (facts.contextual matches Some(c) && c.has_reference),
        r.2 == (facts.contextual matches Some(c) && c.attach_blocked),
        r.3 == (facts.contextual matches Some(c) && (!c.has_selected_message || c.section
            == Section::Status)),
        r.4 == facts.contextual is Some,
{
    match &facts.contextual {
        Some(c) => (
            c.selected_text,
            c.has_reference,
            c.attach_blocked,
            !c.has_selected_message || matches!(c.section, Section::Status),
            true,
        ),
        None => (false, false, false, false, false),
    }
}

fn needs_selection(action: ContextualAction) -> (b: bool)
    ensures
        b == needs_selected_message(action),
{
    matches!(
        action,
        ContextualAction::DeleteForEveryone | ContextualAction::Share
            | ContextualAction::ReplyPrivately | ContextualAction::React | ContextualAction::Reply
            | ContextualAction::Open | ContextualAction::ViewAttachment
    )
}

/// Decides whether an action is available. A planned action is never
/// available. Copy needs a selected text message, GoToReference a quoted
/// reference, Attach an unblocked composer; message actions need a selected
/// message outside the Status section; a route with no action needs an
/// activatable child. Anything else is enabled.
pub fn evaluate_availability(
    implementation: ImplementationStatus,
    action: Option<ContextualAction>,
    facts: AvailabilityFacts,
) -> (a: ActionAvailability)
    ensures
        a.implementation == implementation,
        a.capability == (implementation == ImplementationStatus::Implemented),
        a.permission == (availability_reason(implementation, action, facts) is None),
        reason_view(a.reason) == availability_reason(implementation, action, facts),
{
    proof {
        reveal_strlit("not implemented");
        reveal_strlit("text message required");
        reveal_strlit("reference unavailable");
        reveal_strlit("attachment unavailable");
        reveal_strlit("not available in this view");
        reveal_strlit("no activatable actions");
    }
    if matches!(implementation, ImplementationStatus::Planned) {
        return ActionAvailability::planned();
    }
    let (selected_text, has_reference, attach_blocked, no_message_here, _) = context_has(&facts);
    match action {
        Some(ContextualAction::Copy) => {
            if !selected_text {
                return ActionAvailability::disabled("text message required");
            }
        },
        Some(ContextualAction::GoToReference) => {
            if !has_reference {
                return ActionAvailability::disabled("reference unavailable");
            }
        },
        Some(ContextualAction::Attach) => {
            if attach_blocked {
                return ActionAvailability::disabled("attachment unavailable");
            }
        },
        _ => {},
    }
    match action {
        Some(a) => {
            if needs_selection(a) && no_message_here {
                return ActionAvailability::disabled("not available in this view");
            }
        },
        None => {
            if !facts.contextual_activatable {
                return ActionAvailability::disabled("no activatable actions");
            }
        },
    }
    ActionAvailability::enabled()
}

/// The style of a row: enabled exactly when the action is capable,
/// permitted and implemented.
pub open spec fn style_of(a: ActionAvailability) -> RowStyle {
    if a.capability && a.permission && a.implementation == ImplementationStatus::Implemented {
        RowStyle::Enabled
    } else {
        RowStyle::Disabled
    }
}

pub fn row_style(availability: ActionAvailability) -> (s: RowStyle)
    ensures
        s == style_of(availability),
        (s == RowStyle::Enabled) == is_activatable(availability),
{
    if availability.capability && availability.permission && matches!(
        availability.implementation,
        ImplementationStatus::Implemented
    ) {
        RowStyle::Enabled
    } else {
        RowStyle::Disabled
    }
}

/// Where a catalogue entry applies.
#[derive(Clone, Copy, Debug, Eq, PartialEq, Structural)]
pub enum ContextualScope {
    SectionRail,
    ChatList,
    Conversation,
    StatusChatList,
    AnyConversation,
    /// Every view.
    Global,
}

/// One catalogue entry.
#[derive(Clone, Copy, Debug, Eq, PartialEq)]
pub struct ContextualActionMetadata {
    pub action: ContextualAction,
    pub label: &'static str,
    pub shortcut: char,
    pub scope: ContextualScope,
    pub implementation: ImplementationStatus,
}

/// Builds one catalogue entry.
pub fn m(
    action: ContextualAction,
    label: &'static str,
    shortcut: char,
    scope: ContextualScope,
    implementation: ImplementationStatus,
) -> (meta: ContextualActionMetadata)
    ensures
        meta == (ContextualActionMetadata { action, label, shortcut, scope, implementation }),
{
    ContextualActionMetadata { action, label, shortcut, scope, implementation }
}

/// The catalogue, in menu order.
pub open spec fn metadata_table() -> Seq<ContextualActionMetadata> {
    seq![
        ContextualActionMetadata { action: ContextualAction::Starred, label: "Starred", shortcut: 's', scope: ContextualScope::SectionRail, implementation: ImplementationStatus::Planned },
        ContextualActionMetadata { action: ContextualAction::ReadAll, label: "Read all", shortcut: 'r', scope: ContextualScope::SectionRail, implementation: ImplementationStatus::Planned },
        ContextualActionMetadata { action: ContextualAction::NewGroup, label: "New group", shortcut: 'g', scope: ContextualScope::SectionRail, implementation: ImplementationStatus::Planned },
        ContextualActionMetadata { action: ContextualAction::NewCommunity, label: "New community", shortcut: 'c', scope: ContextualScope::SectionRail, implementation: ImplementationStatus::Planned },
        ContextualActionMetadata { action: ContextualAction::StatusPrivacy, label: "Status privacy", shortcut: 'p', scope: ContextualScope::SectionRail, implementation: ImplementationStatus::Planned },
        ContextualActionMetadata { action: ContextualAction::MarkRead, label: "Mark as read/unread", shortcut: 'm', scope: ContextualScope::ChatList, implementation: ImplementationStatus::Planned },
        ContextualActionMetadata { action: ContextualAction::ViewContact, label: "View contact/group", shortcut: 'v', scope: ContextualScope::ChatList, implementation: ImplementationStatus::Planned },
        ContextualActionMetadata { action: ContextualAction::Pin, label: "Pin/unpin", shortcut: 'p', scope: ContextualScope::ChatList, implementation: ImplementationStatus::Planned },
        ContextualActionMetadata { action: ContextualAction::Mute, label: "Mute/unmute", shortcut: 'u', scope: ContextualScope::ChatList, implementation: ImplementationStatus::Planned },
        ContextualActionMetadata { action: ContextualAction::Hide, label: "Hide", shortcut: 'h', scope: ContextualScope::StatusChatList, implementation: ImplementationStatus::Planned },
        ContextualActionMetadata { action: ContextualAction::DeleteForMe, label: "Delete for me", shortcut: 'd', scope: ContextualScope::Conversation, implementation: ImplementationStatus::Planned },
        ContextualActionMetadata { action: ContextualAction::DeleteForEveryone, label: "Delete for everyone", shortcut: 'D', scope: ContextualScope::Conversation, implementation: ImplementationStatus::Implemented },
        ContextualActionMetadata { action: ContextualAction::Share, label: "Share", shortcut: 's', scope: ContextualScope::Conversation, implementation: ImplementationStatus::Implemented },
        ContextualActionMetadata { action: ContextualAction::Star, label: "Star/unstar", shortcut: 'S', scope: ContextualScope::Conversation, implementation: ImplementationStatus::Planned },
        ContextualActionMetadata { action: ContextualAction::ReplyPrivately, label: "Reply privately", shortcut: 'P', scope: ContextualScope::Conversation, implementation: ImplementationStatus::Implemented },
        ContextualActionMetadata { action: ContextualAction::Copy, label: "Copy", shortcut: 'y', scope: ContextualScope::Conversation, implementation: ImplementationStatus::Implemented },
        ContextualActionMetadata { action: ContextualAction::React, label: "React", shortcut: 'r', scope: ContextualScope::Conversation, implementation: ImplementationStatus::Implemented },
        ContextualActionMetadata { action: ContextualAction::Reply, label: "Reply", shortcut: 'R', scope: ContextualScope::Conversation, implementation: ImplementationStatus::Implemented },
        ContextualActionMetadata { action: ContextualAction::Attach, label: "Attach", shortcut: 'a', scope: ContextualScope::Conversation, implementation: ImplementationStatus::Implemented },
        ContextualActionMetadata { action: ContextualAction::Open, label: "Open link/document", shortcut: 'o', scope: ContextualScope::Conversation, implementation: ImplementationStatus::Implemented },
        ContextualActionMetadata { action: ContextualAction::ViewAttachment, label: "Attachment viewer", shortcut: 'v', scope: ContextualScope::Conversation, implementation: ImplementationStatus::Implemented },
        ContextualActionMetadata { action: ContextualAction::GoToReference, label: "Go to reference", shortcut: 'g', scope: ContextualScope::Conversation, implementation: ImplementationStatus::Implemented },
        ContextualActionMetadata { action: ContextualAction::Quit, label: "Quit", shortcut: 'q', scope: ContextualScope::Global, implementation: ImplementationStatus::Implemented },
    ]
}

/// The catalogue of contextual actions, in menu order.
pub fn contextual_action_metadata() -> (v: Vec<ContextualActionMetadata>)
    ensures
        v@ == metadata_table(),
{
    let v = vec![
        m(ContextualAction::Starred, "Starred", 's', ContextualScope::SectionRail, ImplementationStatus::Planned),
        m(ContextualAction::ReadAll, "Read all", 'r', ContextualScope::SectionRail, ImplementationStatus::Planned),
        m(ContextualAction::NewGroup, "New group", 'g', ContextualScope::SectionRail, ImplementationStatus::Planned),
        m(ContextualAction::NewCommunity, "New community", 'c', ContextualScope::SectionRail, ImplementationStatus::Planned),
        m(ContextualAction::StatusPrivacy, "Status privacy", 'p', ContextualScope::SectionRail, ImplementationStatus::Planned),
        m(ContextualAction::MarkRead, "Mark as read/unread", 'm', ContextualScope::ChatList, ImplementationStatus::Planned),
        m(ContextualAction::ViewContact, "View contact/group", 'v', ContextualScope::ChatList, ImplementationStatus::Planned),
        m(ContextualAction::Pin, "Pin/unpin", 'p', ContextualScope::ChatList, ImplementationStatus::Planned),
        m(ContextualAction::Mute, "Mute/unmute", 'u', ContextualScope::ChatList, ImplementationStatus::Planned),
        m(ContextualAction::Hide, "Hide", 'h', ContextualScope::StatusChatList, ImplementationStatus::Planned),
        m(ContextualAction::DeleteForMe, "Delete for me", 'd', ContextualScope::Conversation, ImplementationStatus::Planned),
        m(ContextualAction::DeleteForEveryone, "Delete for everyone", 'D', ContextualScope::Conversation, ImplementationStatus::Implemented),
        m(ContextualAction::Share, "Share", 's', ContextualScope::Conversation, ImplementationStatus::Implemented),
        m(ContextualAction::Star, "Star/unstar", 'S', ContextualScope::Conversation, ImplementationStatus::Planned),
        m(ContextualAction::ReplyPrivately, "Reply privately", 'P', ContextualScope::Conversation, ImplementationStatus::Implemented),
        m(ContextualAction::Copy, "Copy", 'y', ContextualScope::Conversation, ImplementationStatus::Implemented),
        m(ContextualAction::React, "React", 'r', ContextualScope::Conversation, ImplementationStatus::Implemented),
        m(ContextualAction::Reply, "Reply", 'R', ContextualScope::Conversation, ImplementationStatus::Implemented),
        m(ContextualAction::Attach, "Attach", 'a', ContextualScope::Conversation, ImplementationStatus::Implemented),
        m(ContextualAction::Open, "Open link/document", 'o', ContextualScope::Conversation, ImplementationStatus::Implemented),
        m(ContextualAction::ViewAttachment, "Attachment viewer", 'v', ContextualScope::Conversation, ImplementationStatus::Implemented),
        m(ContextualAction::GoToReference, "Go to reference", 'g', ContextualScope::Conversation, ImplementationStatus::Implemented),
        m(ContextualAction::Quit, "Quit", 'q', ContextualScope::Global, ImplementationStatus::Implemented),
    ];
    assert(v@ =~= metadata_table());
    v
}

/// What the contextual menu knows about the current view.
#[derive(Clone, Copy, Debug, Eq, PartialEq, Structural)]
pub struct ContextualContext {
    pub focus: FocusPane,
    pub section: Section,
    pub has_selected_message: bool,
    pub selected_text: bool,
    pub has_reference: bool,
    pub attach_blocked: bool,
}

/// One row of the contextual menu.
#[derive(Clone, Copy, Debug, Eq, PartialEq)]
pub struct ContextualMenuRow {
    pub action_token: ContextualAction,
    pub display_label: &'static str,
    pub display_shortcut: char,
    pub row_style: RowStyle,
    pub reason: Option<&'static str>,
}

/// Whether a catalogue scope applies to the context.
pub open spec fn scope_applies(scope: ContextualScope, context: ContextualContext) -> bool {
    match scope {
        ContextualScope::SectionRail => context.focus == FocusPane::SectionRail,
        ContextualScope::ChatList => context.focus == FocusPane::ChatList && context.section
            != Section::Status,
        ContextualScope::StatusChatList => context.focus == FocusPane::ChatList
            && context.section == Section::Status,
        ContextualScope::Conversation | ContextualScope::AnyConversation => context.focus
            == FocusPane::Conversation,
        ContextualScope::Global => true,
    }
}

/// The availability of a catalogue entry in the menu for `context`.
pub open spec fn menu_facts(context: ContextualContext) -> AvailabilityFacts {
    AvailabilityFacts { contextual: Some(context), contextual_activatable: false }
}

/// The menu row built from a catalogue entry for `context`.
pub open spec fn row_matches(
    row: ContextualMenuRow,
    meta: ContextualActionMetadata,
    context: ContextualContext,
) -> bool {
    let reason = availability_reason(meta.implementation, Some(meta.action), menu_facts(context));
    &&& row.action_token == meta.action
    &&& row.display_label == meta.label
    &&& row.display_shortcut == meta.shortcut
    &&& row.row_style == (if meta.implementation == ImplementationStatus::Implemented
        && reason is None {
        RowStyle::Enabled
    } else {
        RowStyle::Disabled
    })
    &&& reason_view(row.reason) == reason
}

/// The catalogue entries, in order, whose scope applies to `context`.
pub open spec fn applicable_entries(
    metas: Seq<ContextualActionMetadata>,
    context: ContextualContext,
) -> Seq<ContextualActionMetadata>
    decreases metas.len(),
{
    if metas.len() == 0 {
        Seq::empty()
    } else {
        let rest = applicable_entries(metas.drop_last(), context);
        if scope_applies(metas.last().scope, context) {
            rest.push(metas.last())
        } else {
            rest
        }
    }
}

pub fn applies(scope: ContextualScope, context: ContextualContext) -> (b: bool)
    ensures
        b == scope_applies(scope, context),
{
    match scope {
        ContextualScope::SectionRail => matches!(context.focus, FocusPane::SectionRail),
        ContextualScope::ChatList => matches!(context.focus, FocusPane::ChatList) && !matches!(
            context.section,
            Section::Status
        ),
        ContextualScope::StatusChatList => matches!(context.focus, FocusPane::ChatList)
            && matches!(context.section, Section::Status),
        ContextualScope::Conversation | ContextualScope::AnyConversation => matches!(
            context.focus,
            FocusPane::Conversation
        ),
        ContextualScope::Global => true,
    }
}

/// The contextual menu for `context`: one row per catalogue entry whose
/// scope applies, in catalogue order, styled by its availability.
pub fn contextual_menu_rows(context: ContextualContext) -> (rows: Vec<ContextualMenuRow>)
    ensures
        rows.len() == applicable_entries(metadata_table(), context).len(),
        forall|i: int|
            0 <= i < rows.len() ==> row_matches(
                #[trigger] rows@[i],
                applicable_entries(metadata_table(), context)[i],
                context,
            ),
{
    let metas = contextual_action_metadata();
    let mut rows: Vec<ContextualMenuRow> = Vec::new();
    let mut i: usize = 0;
    while i < metas.len()
        invariant
            0 <= i <= metas.len(),
            metas@ == metadata_table(),
            rows.len() == applicable_entries(metas@.subrange(0, i as int), context).len(),
            forall|j: int|
                0 <= j < rows.len() ==> row_matches(
                    #[trigger] rows@[j],
                    applicable_entries(metas@.subrange(0, i as int), context)[j],
                    context,
                ),
        decreases metas.len() - i,
    {
        let meta = metas[i];
        let ghost prefix = metas@.subrange(0, i as int);
        let ghost next = metas@.subrange(0, i + 1);
        assert(next.drop_last() =~= prefix);
        assert(next.last() == meta);
        if applies(meta.scope, context) {
            let availability = evaluate_availability(
                meta.implementation,
                Some(meta.action),
                AvailabilityFacts { contextual: Some(context), contextual_activatable: false },
            );
            let row = ContextualMenuRow {
                action_token: meta.action,
                display_label: meta.label,
                display_shortcut: meta.shortcut,
                row_style: row_style(availability),
                reason: availability.reason,
            };
            rows.push(row);
        }
        i += 1;
    }
    assert(metas@.subrange(0, metas.len() as int) =~= metas@);
    rows
}

/// The lowercase ASCII letter for an uppercase ASCII letter.
pub open spec fn lowercase_of_upper(shortcut: char, key: char) -> bool {
    'A' <= shortcut <= 'Z' && (key as u32) == (shortcut as u32) + 32
}

/// Whether `key` selects a row with `shortcut`: the shortcut itself, or the
/// lowercase form of an uppercase shortcut.
pub open spec fn shortcut_selects(shortcut: char, key: char) -> bool {
    shortcut == key || lowercase_of_upper(shortcut, key)
}

/// The action of the first row whose shortcut `key` selects.
pub open spec fn first_shortcut_match(rows: Seq<ContextualMenuRow>, key: char) -> Option<
    ContextualAction,
>
    decreases rows.len(),
{
    if rows.len() == 0 {
        None
    } else if shortcut_selects(rows[0].display_shortcut, key) {
        Some(rows[0].action_token)
    } else {
        first_shortcut_match(rows.drop_first(), key)
    }
}

fn selects(shortcut: char, key: char) -> (b: bool)
    ensures
        b == shortcut_selects(shortcut, key),
{
    shortcut == key || ('A' <= shortcut && shortcut <= 'Z' && (key as u32) == (shortcut as u32)
        + 32)
}

/// Finds the action whose shortcut the key selects, first row first. An
/// uppercase shortcut is also selected by its lowercase letter.
pub fn contextual_key_action(rows: &[ContextualMenuRow], key: char) -> (r: Option<
    ContextualAction,
>)
    ensures
        r == first_shortcut_match(rows@, key),
{
    let mut i: usize = 0;
    assert(rows@.subrange(0, rows.len() as int) =~= rows@);
    while i < rows.len()
        invariant
            0 <= i <= rows.len(),
            first_shortcut_match(rows@, key) == first_shortcut_match(
                rows@.subrange(i as int, rows.len() as int),
                key,
            ),
        decreases rows.len() - i,
    {
        let ghost rest = rows@.subrange(i as int, rows.len() as int);
        assert(rest[0] == rows@[i as int]);
        assert(rest.drop_first() =~= rows@.subrange(i + 1, rows.len() as int));
        if selects(rows[i].display_shortcut, key) {
            return Some(rows[i].action_token);
        }
        i += 1;
    }
    None
}

proof fn lemma_applicable_from(metas: Seq<ContextualActionMetadata>, context: ContextualContext)
    ensures
        forall|i: int|
            0 <= i < applicable_entries(metas, context).len() ==> metas.contains(
                #[trigger] applicable_entries(metas, context)[i],
            ),
    decreases metas.len(),
{
    if metas.len() > 0 {
        lemma_applicable_from(metas.drop_last(), context);
        let rest = applicable_entries(metas.drop_last(), context);
        let all = applicable_entries(metas, context);
        assert forall|i: int| 0 <= i < all.len() implies metas.contains(#[trigger] all[i]) by {
            if i < rest.len() {
                assert(all[i] == rest[i]);
                let k = choose|k: int| 0 <= k < metas.drop_last().len() && metas.drop_last()[k] == rest[i];
                assert(metas[k] == rest[i]);
            } else {
                assert(metas[metas.len() - 1] == all[i]);
            }
        }
    }
}

proof fn lemma_first_match_last(rows: Seq<ContextualMenuRow>, key: char)
    requires
        rows.len() > 0,
        forall|i: int| 0 <= i < rows.len() - 1 ==> !shortcut_selects(#[trigger] rows[i].display_shortcut, key),
        shortcut_selects(rows.last().display_shortcut, key),
    ensures
        first_shortcut_match(rows, key) == Some(rows.last().action_token),
    decreases rows.len(),
{
    if rows.len() > 1 {
        let d = rows.drop_first();
        assert forall|i: int| 0 <= i < d.len() - 1 implies !shortcut_selects(#[trigger] d[i].display_shortcut, key) by {
            assert(d[i] == rows[i + 1]);
        }
        assert(!shortcut_selects(rows[0].display_shortcut, key));
        lemma_first_match_last(d, key);
        assert(d.last() == rows.last());
    }
}

/// Whatever the view, the contextual menu ends with an enabled Quit row,
/// and "q" selects it.
pub proof fn lemma_q_selects_quit(context: ContextualContext, rows: Seq<ContextualMenuRow>)
    requires
        rows.len() == applicable_entries(metadata_table(), context).len(),
        forall|i: int|
            0 <= i < rows.len() ==> row_matches(#[trigger] rows[i], applicable_entries(metadata_table(), context)[i], context),
    ensures
        rows.len() > 0,
        rows.last().action_token == ContextualAction::Quit,
        rows.last().row_style == RowStyle::Enabled,
        first_shortcut_match(rows, 'q') == Some(ContextualAction::Quit),
{
    let table = metadata_table();
    let prefix = table.drop_last();
    let entries = applicable_entries(table, context);
    assert(table.last().action == ContextualAction::Quit);
    assert(scope_applies(table.last().scope, context));
    let rest = applicable_entries(prefix, context);
    assert(entries == rest.push(table.last()));
    lemma_applicable_from(prefix, context);
    assert forall|k: int| 0 <= k < prefix.len() implies !shortcut_selects(#[trigger] prefix[k].shortcut, 'q') by {
        assert(prefix[k] == table[k]);
    }
    assert forall|i: int| 0 <= i < rows.len() - 1 implies !shortcut_selects(#[trigger] rows[i].display_shortcut, 'q') by {
        assert(rows[i].display_shortcut == entries[i].shortcut);
        assert(entries[i] == rest[i]);
        assert(prefix.contains(rest[i]));
        let k = choose|k: int| 0 <= k < prefix.len() && prefix[k] == rest[i];
        assert(!shortcut_selects(prefix[k].shortcut, 'q'));
    }
    assert(row_matches(rows[rows.len() - 1], entries[rows.len() - 1], context));
    lemma_first_match_last(rows, 'q');
}

} // verus!
