use ratatui::widgets::ListState;
use wptui::community::{
    build_community_nodes, community_group_label, get_selected_community, merged_records, select_community_node,
    selectable_community_nodes, Communities, CommunitiesError, CommunityInfo, CommunityNode,
};
use wptui::navigation::{
    clamp_list_state, first_chat_index, jump_list_bottom, jump_list_top, move_list_selection, select_chat_row,
    ChatRow, ContactRow,
};

fn community(name: &str, jid: &str, is_parent: bool) -> CommunityInfo {
    CommunityInfo {
        jid: jid.to_string(),
        name: name.to_string(),
        parent_jid: None,
        is_parent,
        is_joined: true,
        is_default_subgroup: false,
        is_announce: Some(false),
        participant_count: None,
    }
}

fn subgroup(
    name: &str,
    jid: &str,
    parent_jid: &str,
    is_joined: bool,
    is_default_subgroup: bool,
    is_announce: Option<bool>,
    participant_count: Option<u32>,
) -> CommunityInfo {
    CommunityInfo {
        jid: jid.to_string(),
        name: name.to_string(),
        parent_jid: Some(parent_jid.to_string()),
        is_parent: false,
        is_joined,
        is_default_subgroup,
        is_announce,
        participant_count,
    }
}

fn node(jid: &str, name: &str, is_root: bool, linked: &[&str], is_joined: bool) -> CommunityNode {
    CommunityNode {
        jid: jid.to_string(),
        name: name.to_string(),
        is_root,
        linked_groups: linked.iter().map(|s| s.to_string()).collect(),
        is_joined,
        is_default_subgroup: false,
        is_announce: Some(false),
        participant_count: None,
    }
}

fn nodes() -> Vec<CommunityNode> {
    let mut root = node("root@g.us", "Community", true, &["child@g.us"], true);
    root.is_announce = None;
    vec![root, node("child@g.us", "Child", false, &[], true)]
}

fn list_state(selected: Option<usize>) -> ListState {
    let mut state = ListState::default();
    state.select(selected);
    state
}

#[test]
fn build_community_nodes_deduplicates_with_joined_metadata_precedence() {
    let nodes = build_community_nodes(&[
        subgroup("Available name", "group@g.us", "root@g.us", false, true, Some(true), Some(8)),
        subgroup("Joined name", "group@g.us", "root@g.us", true, false, Some(false), None),
        community("Community", "root@g.us", true),
    ]);
    let group = nodes.iter().find(|node| node.jid == "group@g.us").unwrap();
    assert_eq!(group.name, "Joined name");
    assert!(group.is_joined);
    assert!(!group.is_default_subgroup);
    assert_eq!(group.is_announce, Some(false));
    assert_eq!(group.participant_count, None);
}

#[test]
fn build_community_nodes_sorts_roots_and_children() {
    let mut child_record = community("Child", "child@g.us", false);
    child_record.parent_jid = Some("root@g.us".to_string());
    let built = build_community_nodes(&[child_record, community("Community", "root@g.us", true)]);
    assert_eq!(built.len(), 2);
    assert_eq!(built[0].jid, "root@g.us");
    assert_eq!(built[0].name, "Community");
    assert!(built[0].is_root);
    assert_eq!(built[0].linked_groups, vec!["child@g.us".to_string()]);
    assert_eq!(built[0].is_announce, Some(false));
    assert_eq!(built[1].jid, "child@g.us");
    assert!(!built[1].is_root);
    assert!(built[1].linked_groups.is_empty());
}

#[test]
fn communities_and_groups_are_listed_by_name() {
    let built = build_community_nodes(&[
        subgroup("Zeta", "z@g.us", "b@g.us", true, false, None, None),
        community("Beta", "b@g.us", true),
        subgroup("Alpha", "a@g.us", "b@g.us", true, false, None, None),
        community("Alpha", "a-root@g.us", true),
        subgroup("Orphan", "o@g.us", "missing@g.us", true, false, None, None),
    ]);
    let jids = built.iter().map(|n| n.jid.as_str()).collect::<Vec<_>>();
    assert_eq!(jids, ["a-root@g.us", "b@g.us", "a@g.us", "z@g.us"]);
    assert_eq!(built[1].linked_groups, vec!["a@g.us".to_string(), "z@g.us".to_string()]);
}

#[test]
fn merge_keeps_one_record_per_jid_sorted_by_metadata() {
    let merged = merged_records(&[
        community("B", "b@g.us", true),
        subgroup("A", "x@g.us", "b@g.us", false, false, None, None),
        subgroup("C", "x@g.us", "b@g.us", true, false, None, None),
    ]);
    assert_eq!(merged.len(), 2);
    assert_eq!(merged[0].name, "B");
    assert_eq!(merged[1].name, "C");
}

#[test]
fn selection_excludes_roots_and_nonjoined_groups() {
    let mut nodes = nodes();
    let mut available = node("available@g.us", "Available", false, &[], false);
    available.participant_count = Some(3);
    nodes.push(available);
    assert_eq!(selectable_community_nodes(&nodes), vec![1]);

    let state = list_state(Some(0));
    assert_eq!(get_selected_community(&nodes, &state), Some("child@g.us".to_string()));
    let state = list_state(Some(1));
    assert_eq!(get_selected_community(&nodes, &state), None);

    let mut state = list_state(Some(1));
    select_community_node(&mut state, &nodes, Some("available@g.us"));
    assert_eq!(state.selected(), Some(0));
}

#[test]
fn selection_falls_back_to_no_selection_when_no_groups_exist() {
    let mut root = node("root@g.us", "Community", true, &[], true);
    root.is_announce = None;
    let nodes = vec![root];
    let mut state = ListState::default();
    select_community_node(&mut state, &nodes, Some("root@g.us"));
    assert_eq!(state.selected(), None);
}

#[test]
fn announcement_groups_use_the_shared_main_list_label() {
    let mut node = nodes().pop().unwrap();
    node.is_default_subgroup = true;
    assert_eq!(community_group_label(&node), "Announcements");

    node.is_default_subgroup = false;
    node.is_announce = Some(true);
    assert_eq!(community_group_label(&node), "Announcements");

    node.is_announce = Some(false);
    assert_eq!(community_group_label(&node), "Child");
}

#[test]
fn communities_load_after_readiness_event() {
    let mut communities = Communities::new();
    let mut state = ListState::default();
    communities.apply_community_result(&mut state, false, Ok(vec![community("Community", "root@g.us", true)]));
    assert_eq!(communities.nodes.len(), 1);
    assert!(!communities.unavailable);
}

#[test]
fn communities_refresh_replaces_snapshot() {
    let mut communities = Communities::new();
    let mut state = ListState::default();
    communities.apply_community_result(&mut state, false, Ok(vec![community("Old", "old@g.us", true)]));
    communities.apply_community_result(&mut state, false, Ok(vec![community("New", "new@g.us", true)]));
    assert_eq!(communities.nodes[0].name, "New");
    assert_eq!(communities.nodes[0].jid, "new@g.us");
}

#[test]
fn successful_empty_communities_clears_snapshot() {
    let mut communities = Communities::new();
    let mut state = ListState::default();
    communities.apply_community_result(&mut state, false, Ok(vec![community("Old", "old@g.us", true)]));
    communities.apply_community_result(&mut state, false, Ok(Vec::new()));
    assert!(communities.nodes.is_empty());
    assert!(!communities.unavailable);
}

#[test]
fn transient_communities_failure_preserves_last_successful_snapshot() {
    let mut communities = Communities::new();
    let mut state = ListState::default();
    communities.apply_community_result(&mut state, false, Ok(vec![community("Known", "known@g.us", true)]));
    communities.apply_community_result(&mut state, false, Err(CommunitiesError::BridgeUnavailable));
    assert_eq!(communities.nodes[0].name, "Known");
    assert!(!communities.unavailable);
}

#[test]
fn a_failure_before_any_load_marks_communities_unavailable() {
    let mut communities = Communities::new();
    let mut state = ListState::default();
    communities.apply_community_result(&mut state, false, Err(CommunitiesError::BridgeUnavailable));
    assert!(communities.unavailable);
    assert!(!communities.loaded);
}

fn other_group(parent: &str) -> CommunityInfo {
    subgroup("Other", "other@g.us", parent, true, false, Some(false), None)
}

#[test]
fn communities_refresh_preserves_explicit_node_across_reorder_and_target_change() {
    let mut communities = Communities::new();
    let mut state = ListState::default();
    communities.apply_community_result(
        &mut state,
        true,
        Ok(vec![community("Selected", "selected@g.us", true), other_group("selected@g.us")]),
    );
    state.select(Some(0));
    communities.apply_community_result(
        &mut state,
        true,
        Ok(vec![
            community("Aardvark", "aardvark@g.us", true),
            community("Selected", "selected@g.us", true),
            other_group("selected@g.us"),
        ]),
    );
    assert_eq!(get_selected_community(&communities.nodes, &state), Some("other@g.us".to_string()));
}

#[test]
fn communities_refresh_falls_back_when_selected_node_is_removed() {
    let mut communities = Communities::new();
    let mut state = ListState::default();
    communities.apply_community_result(
        &mut state,
        true,
        Ok(vec![community("Removed", "removed@g.us", true), community("Kept", "kept@g.us", true)]),
    );
    state.select(Some(0));
    communities.apply_community_result(&mut state, true, Ok(vec![community("Kept", "kept@g.us", true)]));
    assert_eq!(state.selected(), None);
    assert_eq!(get_selected_community(&communities.nodes, &state), None);
}

fn row(label: &str, target: &str, members: &[&str]) -> ChatRow {
    ChatRow {
        label: label.to_string(),
        members: members.iter().map(|s| s.to_string()).collect(),
        target: target.to_string(),
    }
}

#[test]
fn select_chat_reanchors_a_row_without_changing_open_chat_or_message_selection() {
    let rows = vec![row("first", "first@example.test", &["first@example.test"]), row("second", "second@example.test", &["second@example.test"])];
    let mut state = list_state(Some(0));
    select_chat_row(&mut state, &rows, Some("second@example.test"));
    assert_eq!(state.selected(), Some(1));
    select_chat_row(&mut state, &rows, Some("missing@example.test"));
    assert_eq!(state.selected(), Some(0));
    select_chat_row(&mut state, &[], None);
    assert_eq!(state.selected(), None);
}

#[test]
fn a_community_row_is_selected_for_any_of_its_members() {
    let rows = vec![row("solo", "solo@example.test", &["solo@example.test"]), row("Team", "b@g.us", &["a@g.us", "b@g.us"])];
    let mut state = ListState::default();
    select_chat_row(&mut state, &rows, Some("a@g.us"));
    assert_eq!(state.selected(), Some(1));
}

#[test]
fn chat_list_movement_keeps_open_conversation_and_message_selection() {
    let mut state = list_state(Some(0));
    move_list_selection(&mut state, true, 2);
    assert_eq!(state.selected(), Some(1));
    move_list_selection(&mut state, true, 2);
    assert_eq!(state.selected(), Some(1));
    move_list_selection(&mut state, false, 2);
    move_list_selection(&mut state, false, 2);
    assert_eq!(state.selected(), Some(0));
    let mut none = ListState::default();
    move_list_selection(&mut none, false, 3);
    assert_eq!(none.selected(), Some(2));
}

#[test]
fn jumps_and_clamping_keep_the_selection_in_the_list() {
    let mut state = ListState::default();
    jump_list_bottom(&mut state, 4);
    assert_eq!(state.selected(), Some(3));
    jump_list_top(&mut state);
    assert_eq!(state.selected(), Some(0));
    let mut past = list_state(Some(9));
    clamp_list_state(&mut past, 3);
    assert_eq!(past.selected(), Some(2));
    clamp_list_state(&mut past, 0);
    assert_eq!(past.selected(), None);
}

#[test]
fn the_first_chat_row_follows_headers() {
    let rows = vec![
        ContactRow::Header("Groups you're in".to_string()),
        ContactRow::Action("Add group".to_string()),
        ContactRow::Chat(row("g", "g@g.us", &["g@g.us"])),
    ];
    assert_eq!(first_chat_index(&rows), Some(2));
    assert_eq!(rows[2].target().map(|s| s.as_str()), Some("g@g.us"));
    let available = ContactRow::Available { name: "A".to_string(), jid: Some("a@g.us".to_string()), participant_count: None };
    assert_eq!(available.target(), None);
    assert_eq!(available.avatar_target().map(|s| s.as_str()), Some("a@g.us"));
    assert_eq!(first_chat_index(&rows[..2]), None);
}
