//! Moving through and activating the contextual menu, and the composer's
//! map from editing keys to composer actions.
use vstd::prelude::*;

use crate::actions::{AppAction, ComposerAction, FocusPane, Section};
use crate::contextual_actions::{
    availability_reason, contextual_action_metadata, evaluate_availability, metadata_table,
    AvailabilityFacts, ContextualAction, ContextualActionMetadata, ContextualContext,
    ContextualMenuRow, ImplementationStatus,
};
use crate::keys::{Key, KeyCode};

verus! {

/// The catalogue label of `action`, or "Contextual action" when absent.
pub open spec fn catalogue_label(metas: Seq<ContextualActionMetadata>, action: ContextualAction) -> Seq<
    char,
>
    decreases metas.len(),
{
    if metas.len() == 0 {
        "Contextual action"@
    } else if metas[0].action == action {
        metas[0].label@
    } else {
        catalogue_label(metas.drop_first(), action)
    }
}

/// The catalogue status of `action`, or Planned when absent.
pub open spec fn catalogue_status(metas: Seq<ContextualActionMetadata>, action: ContextualAction) -> ImplementationStatus
    decreases metas.len(),
{
    if metas.len() == 0 {
        ImplementationStatus::Planned
    } else if metas[0].action == action {
        metas[0].implementation
    } else {
        catalogue_status(metas.drop_first(), action)
    }
}

fn find_metadata(metas: &Vec<ContextualActionMetadata>, action: ContextualAction) -> (r: Option<
    ContextualActionMetadata,
>)
    ensures
        r is Some ==> r->0.label@ == catalogue_label(metas@, action) && r->0.implementation
            == catalogue_status(metas@, action),
        r is None ==> catalogue_label(metas@, action) == "Contextual action"@
            && catalogue_status(metas@, action) == ImplementationStatus::Planned,
{
    let mut i: usize = 0;
    assert(metas@.subrange(0, metas.len() as int) =~= metas@);
    while i < metas.len()
        invariant
            0 <= i <= metas.len(),
            catalogue_label(metas@, action) == catalogue_label(
                metas@.subrange(i as int, metas.len() as int),
                action,
            ),
            catalogue_status(metas@, action) == catalogue_status(
                metas@.subrange(i as int, metas.len() as int),
                action,
            ),
        decreases metas.len() - i,
    {
        let ghost rest = metas@.subrange(i as int, metas.len() as int);
        assert(rest[0] == metas@[i as int]);
        assert(rest.drop_first() =~= metas@.subrange(i + 1, metas.len() as int));
        if metas[i].action == action {
            return Some(metas[i]);
        }
        i += 1;
    }
    None
}

/// The application action a contextual action dispatches; planned actions
/// report their catalogue label.
pub open spec fn app_action_for(action: ContextualAction) -> Option<AppAction> {
    match action {
        ContextualAction::Copy => Some(AppAction::CopyMessage),
        ContextualAction::React => Some(AppAction::ReactMessage),
        ContextualAction::Reply => Some(AppAction::ReplyMessage),
        ContextualAction::Share => Some(AppAction::ShareMessage),
        ContextualAction::ReplyPrivately => Some(AppAction::ReplyPrivately),
        ContextualAction::Open => Some(AppAction::OpenMessage),
        ContextualAction::ViewAttachment => Some(AppAction::ViewMessage),
        ContextualAction::GoToReference => Some(AppAction::GoToReference),
        ContextualAction::DeleteForEveryone => Some(AppAction::DeleteMessage),
        ContextualAction::Attach => Some(AppAction::AttachFile),
        ContextualAction::Quit => Some(AppAction::Quit),
        _ => None,
    }
}

/// Maps a contextual action to the application action it dispatches. An
/// action without one becomes a planned-action notice carrying its label.
pub fn contextual_action_to_app_action(action: ContextualAction) -> (r: AppAction)
    ensures
        app_action_for(action) is Some ==> r == app_action_for(action)->0,
        app_action_for(action) is None ==> r is PlannedLeaderAction && r->PlannedLeaderAction_0@
            == catalogue_label(metadata_table(), action),
{
    match action {
        ContextualAction::Copy => AppAction::CopyMessage,
        ContextualAction::React => AppAction::ReactMessage,
        ContextualAction::Reply => AppAction::ReplyMessage,
        ContextualAction::Share => AppAction::ShareMessage,
        ContextualAction::ReplyPrivately => AppAction::ReplyPrivately,
        ContextualAction::Open => AppAction::OpenMessage,
        ContextualAction::ViewAttachment => AppAction::ViewMessage,
        ContextualAction::GoToReference => AppAction::GoToReference,
        ContextualAction::DeleteForEveryone => AppAction::DeleteMessage,
        ContextualAction::Attach => AppAction::AttachFile,
        ContextualAction::Quit => AppAction::Quit,
        _ => {
            let metas = contextual_action_metadata();
            proof {
                reveal_strlit("Contextual action");
            }
            match find_metadata(&metas, action) {
                Some(meta) => AppAction::PlannedLeaderAction(meta.label),
                None => AppAction::PlannedLeaderAction("Contextual action"),
            }
        },
    }
}

/// The menu selection after moving by `delta`, saturating at both ends.
pub open spec fn moved_selection_spec(selected: usize, delta: isize, len: usize) -> usize {
    let target = selected + delta;
    let last = if len == 0 {
        0
    } else {
        len - 1
    };
    let saturated = if target < 0 {
        0
    } else if target > usize::MAX {
        usize::MAX as int
    } else {
        target
    };
    if saturated < last {
        saturated as usize
    } else {
        last as usize
    }
}

/// Moving a selection lands on the target row when it exists, on the
/// first row when the target is above the list, and on the last row when
/// it is below; an empty list keeps row 0.
pub proof fn lemma_moved_selection(selected: usize, delta: isize, len: usize)
    ensures
        ({
            let r = moved_selection_spec(selected, delta, len);
            &&& 0 <= selected + delta < len ==> r == selected + delta
            &&& selected + delta < 0 ==> r == 0
            &&& len > 0 && selected + delta >= len ==> r == len - 1
            &&& len == 0 ==> r == 0
        }),
{
}

/// Moves a menu selection by `delta`, staying on the first and last rows.
pub fn moved_selection(selected: usize, delta: isize, len: usize) -> (r: usize)
    ensures
        r == moved_selection_spec(selected, delta, len),
        len > 0 ==> r < len,
        0 <= selected + delta < len ==> r == selected + delta,
        selected + delta < 0 ==> r == 0,
        len > 0 && selected + delta >= len ==> r == len - 1,
{
    proof {
        lemma_moved_selection(selected, delta, len);
    }
    let target: usize = if delta >= 0 {
        let d = delta as usize;
        if selected > usize::MAX - d {
            usize::MAX
        } else {
            selected + d
        }
    } else {
        let d: i128 = -(delta as i128);
        if (selected as i128) < d {
            0
        } else {
            ((selected as i128) - d) as usize
        }
    };
    let last = len.saturating_sub(1);
    if target < last {
        target
    } else {
        last
    }
}

/// What activating the selected contextual row does: nothing when no row is
/// selected or the action is not available now, else its application action.
pub open spec fn activation_allowed(row: ContextualMenuRow, context: ContextualContext) -> bool {
    let status = catalogue_status(metadata_table(), row.action_token);
    status == ImplementationStatus::Implemented && availability_reason(
        status,
        Some(row.action_token),
        AvailabilityFacts { contextual: Some(context), contextual_activatable: false },
    ) is None
}

/// Decides the activation of the selected contextual row against the
/// current context: the action's catalogue status and its availability now.
pub fn contextual_activation(
    rows: &[ContextualMenuRow],
    selected: usize,
    context: ContextualContext,
) -> (r: Option<AppAction>)
    ensures
        selected >= rows.len() ==> r is None,
        selected < rows.len() ==> (r is Some <==> activation_allowed(rows@[selected as int], context)),
        r is Some ==> app_action_for(rows@[selected as int].action_token) is Some ==> r->0
            == app_action_for(rows@[selected as int].action_token)->0,
{
    if selected >= rows.len() {
        return None;
    }
    let row = rows[selected];
    let metas = contextual_action_metadata();
    let status = match find_metadata(&metas, row.action_token) {
        Some(meta) => meta.implementation,
        None => ImplementationStatus::Planned,
    };
    let available = evaluate_availability(
        status,
        Some(row.action_token),
        AvailabilityFacts { contextual: Some(context), contextual_activatable: false },
    );
    if !available.activatable() {
        return None;
    }
    Some(contextual_action_to_app_action(row.action_token))
}

/// The composer action for a key pressed while editing: plain Enter
/// submits, Control+v pastes, every other key is an edit.
pub open spec fn editing_key_action(key: Key) -> ComposerAction {
    if key.code == KeyCode::Enter && !key.modifiers.shift && !key.modifiers.control
        && !key.modifiers.alt {
        ComposerAction::Submit
    } else if key.code == KeyCode::Char('v') && !key.modifiers.shift && key.modifiers.control
        && !key.modifiers.alt {
        ComposerAction::Paste
    } else {
        ComposerAction::Edit(key)
    }
}

/// Maps a key pressed while editing the composer to its semantic action.
pub fn composer_action_for_editing_key(key: &Key) -> (r: ComposerAction)
    ensures
        r == editing_key_action(*key),
{
    let m = key.modifiers;
    let none = !m.shift && !m.control && !m.alt;
    let control_only = !m.shift && m.control && !m.alt;
    match key.code {
        KeyCode::Enter if none => ComposerAction::Submit,
        KeyCode::Char('v') if control_only => ComposerAction::Paste,
        _ => ComposerAction::Edit(*key),
    }
}

/// The position of the first row of `action`, which a contextual shortcut
/// selects before activating it.
pub fn contextual_shortcut_index(rows: &[ContextualMenuRow], action: ContextualAction) -> (r: Option<usize>)
    ensures
        match r {
            Some(i) => i < rows.len() && rows@[i as int].action_token == action && forall|j: int|
                0 <= j < i ==> rows@[j].action_token != action,
            None => forall|j: int| 0 <= j < rows.len() ==> rows@[j].action_token != action,
        },
{
    let mut i: usize = 0;
    while i < rows.len()
        invariant
            0 <= i <= rows.len(),
            forall|j: int| 0 <= j < i ==> rows@[j].action_token != action,
        decreases rows.len() - i,
    {
        if rows[i].action_token == action {
            return Some(i);
        }
        i += 1;
    }
    None
}

/// What the contextual menu knows of the view: the focused pane, the
/// section, the selected message (whether it is text, whether it quotes
/// another), and whether attaching is blocked (a blocked composer, or the
/// status section).
pub fn contextual_context(
    focus: FocusPane,
    section: Section,
    selected: Option<(bool, bool)>,
    composer_blocked: bool,
) -> (c: ContextualContext)
    ensures
        c == (ContextualContext {
            focus,
            section,
            has_selected_message: selected is Some,
            selected_text: selected matches Some(m) && m.0,
            has_reference: selected matches Some(m) && m.1,
            attach_blocked: composer_blocked || section == Section::Status,
        }),
{
    let (has, text, reference) = match selected {
        Some((t, r)) => (true, t, r),
        None => (false, false, false),
    };
    ContextualContext {
        focus,
        section,
        has_selected_message: has,
        selected_text: text,
        has_reference: reference,
        attach_blocked: composer_blocked || matches!(section, Section::Status),
    }
}

} // verus!
