use wptui::avatar_worker::{
    after_cache_lookup, fetch_report, request_is_current, worker_plan, CacheStep, FetchAnswer, FetchReport, WorkerStep,
};
use wptui::avatars::{AvatarRequest, AvatarTarget};
use wptui::community::CommunityNode;
use wptui::events::{FileKind, FileMeta, Metadata, ViewerStatus};
use wptui::keys::{Key, KeyCode};
use wptui::actions::{FocusPane, Section};
use wptui::navigation::{chat_search_step, start_chat_search, ChatRow, ChatSearchStep, ContactRow};
use wptui::projection::{
    build_chat_rows, community_detail_rows, linked_group_nodes, selected_community_contact, visible_chat_indices,
};
use wptui::read_state::{latest_status_reads, local_read_cursor, LocalReadOutcome, StoredMessage};
use wptui::viewer::{
    composer_blocked, open_attachment_viewer, plan_selected_media_launch, plan_viewer_media_launch, LaunchPlan,
    MediaMessage, ViewerOpen,
};

fn node(jid: &str, name: &str, is_root: bool, linked: &[&str], is_joined: bool) -> CommunityNode {
    CommunityNode {
        jid: jid.to_string(),
        name: name.to_string(),
        is_root,
        linked_groups: linked.iter().map(|s| s.to_string()).collect(),
        is_joined,
        is_default_subgroup: false,
        is_announce: Some(false),
        participant_count: None,
    }
}

fn strings(v: &[&str]) -> Vec<String> {
    v.iter().map(|s| s.to_string()).collect()
}

fn recency(v: &[(&str, i64)]) -> Vec<(String, i64)> {
    v.iter().map(|(j, t)| (j.to_string(), *t)).collect()
}

#[test]
fn community_rows_use_the_most_recent_linked_chat_as_target() {
    let mut root = node("community@g.us", "Project Team", true, &["first@g.us", "second@g.us"], true);
    root.is_announce = None;
    let rows = build_chat_rows(
        &[root],
        &strings(&["first@g.us", "second@g.us"]),
        &strings(&["first@g.us", "second@g.us"]),
        &recency(&[("first@g.us", 10), ("second@g.us", 20)]),
        &[],
    );
    assert_eq!(rows.len(), 1);
    assert_eq!(rows[0].label, "Project Team");
    assert_eq!(rows[0].target, "second@g.us");
    assert_eq!(rows[0].members, strings(&["first@g.us", "second@g.us"]));
}

#[test]
fn equally_recent_members_open_the_last_one() {
    let root = node("c@g.us", "Team", true, &["a@g.us", "b@g.us"], true);
    let rows = build_chat_rows(&[root], &strings(&["a@g.us", "b@g.us"]), &[], &recency(&[]), &[]);
    assert_eq!(rows[0].target, "b@g.us");
}

#[test]
fn plain_chats_are_sorted_by_recency_then_label() {
    let contacts = vec![("b@s.whatsapp.net".to_string(), "~ Bob".to_string())];
    let rows = build_chat_rows(
        &[],
        &strings(&["a@s.whatsapp.net", "b@s.whatsapp.net", "c@s.whatsapp.net"]),
        &strings(&["a@s.whatsapp.net", "b@s.whatsapp.net", "c@s.whatsapp.net"]),
        &recency(&[("c@s.whatsapp.net", 5)]),
        &contacts,
    );
    let labels = rows.iter().map(|r| r.label.as_str()).collect::<Vec<_>>();
    assert_eq!(labels, ["c@s.whatsapp.net", "Bob", "a@s.whatsapp.net"]);
}

#[test]
fn root_linked_jid_without_child_is_projected_as_joined_chat() {
    let root = node("root@g.us", "Community", true, &["orphan@g.us"], true);
    let groups = linked_group_nodes(&root.linked_groups, &[root.clone_shallow()], &strings(&["Orphan name"]));
    assert_eq!(groups.len(), 1);
    assert_eq!(groups[0].jid, "orphan@g.us");
    assert_eq!(groups[0].name, "Orphan name");
    assert!(groups[0].is_joined);
    assert!(!groups[0].is_root);
}

trait ShallowClone {
    fn clone_shallow(&self) -> CommunityNode;
}

impl ShallowClone for CommunityNode {
    fn clone_shallow(&self) -> CommunityNode {
        CommunityNode {
            jid: self.jid.clone(),
            name: self.name.clone(),
            is_root: self.is_root,
            linked_groups: self.linked_groups.clone(),
            is_joined: self.is_joined,
            is_default_subgroup: self.is_default_subgroup,
            is_announce: self.is_announce,
            participant_count: self.participant_count,
        }
    }
}

#[test]
fn projection_deduplicates_duplicate_group_jids_with_joined_precedence() {
    let root = node("root@g.us", "Community", true, &["g@g.us", "g@g.us"], true);
    let nodes = vec![
        root.clone_shallow(),
        node("g@g.us", "Not joined", false, &[], false),
        node("g@g.us", "Joined", false, &[], true),
    ];
    let groups = linked_group_nodes(&root.linked_groups, &nodes, &strings(&["x", "x"]));
    assert_eq!(groups.len(), 1);
    assert_eq!(groups[0].name, "Joined");
}

#[test]
fn detail_separates_joined_and_available_groups_without_addressing_available_rows() {
    let mut announcement = node("ann@g.us", "Community news", false, &[], true);
    announcement.is_default_subgroup = true;
    let nodes = vec![
        node("root@g.us", "Community", true, &["b@g.us", "a@g.us", "ann@g.us", "open@g.us", ""], true),
        node("a@g.us", "Alpha", false, &[], true),
        node("b@g.us", "Beta", false, &[], true),
        announcement,
        node("open@g.us", "Open", false, &[], false),
        node("", "Hidden", false, &[], false),
    ];
    let chats = strings(&["a@g.us", "b@g.us", "ann@g.us"]);
    let rows = community_detail_rows("root@g.us", &nodes, &chats, &[]);
    assert!(matches!(&rows[0], ContactRow::VirtualAnnouncement(r) if r.label == "Announcements" && r.target == "ann@g.us"));
    assert!(matches!(&rows[1], ContactRow::Header(h) if h == "Groups you're in"));
    assert!(matches!(&rows[2], ContactRow::Chat(r) if r.label == "Alpha"));
    assert!(matches!(&rows[3], ContactRow::Chat(r) if r.label == "Beta"));
    assert!(matches!(&rows[4], ContactRow::Action(a) if a == "Add group"));
    assert!(matches!(&rows[5], ContactRow::Header(h) if h == "Groups you can join"));
    assert_eq!(rows.len(), 8);
    assert!(matches!(&rows[6], ContactRow::Available { name, jid: None, .. } if name == "Hidden"));
    assert!(matches!(&rows[7], ContactRow::Available { name, jid: Some(j), .. } if name == "Open" && j == "open@g.us"));
}

#[test]
fn unknown_community_has_no_detail_rows() {
    assert!(community_detail_rows("missing@g.us", &[], &[], &[]).is_empty());
}

#[test]
fn community_search_matches_linked_group_contact_names() {
    let rows = vec![
        ChatRow { label: "Project Team".to_string(), members: strings(&["g@g.us"]), target: "g@g.us".to_string() },
        ChatRow { label: "Other".to_string(), members: strings(&["o@g.us"]), target: "o@g.us".to_string() },
    ];
    let contacts = vec![("g@g.us".to_string(), "Design Crew".to_string())];
    assert_eq!(visible_chat_indices(&rows, "crew", &contacts), vec![0]);
    assert_eq!(visible_chat_indices(&rows, "oth", &contacts), vec![1]);
    assert_eq!(visible_chat_indices(&rows, "", &contacts), vec![0, 1]);
}

fn media(id: &str, kind: Option<FileKind>, status: ViewerStatus) -> MediaMessage {
    MediaMessage { message_id: id.to_string(), file: kind.map(|k| (k, format!("{id}.bin"))), status }
}

#[test]
fn viewer_opens_on_the_selected_attachment_among_the_viewable_ones() {
    let pool = vec![
        media("a", Some(FileKind::Image), ViewerStatus::Ready),
        media("t", None, ViewerStatus::Missing),
        media("d", Some(FileKind::Document), ViewerStatus::Ready),
        media("v", Some(FileKind::Video), ViewerStatus::Downloading),
    ];
    let selected = media("v", Some(FileKind::Video), ViewerStatus::Downloading);
    match open_attachment_viewer(Some(&selected), false, &pool) {
        ViewerOpen::Open(v) => {
            assert_eq!(v.attachment_count, 2);
            assert_eq!(v.index, 1);
            assert_eq!(v.message_id, "v");
        }
        other => panic!("unexpected {other:?}"),
    }
    let outside = media("x", Some(FileKind::Image), ViewerStatus::Ready);
    match open_attachment_viewer(Some(&outside), false, &pool) {
        ViewerOpen::Open(v) => assert_eq!((v.index, v.attachment_count), (2, 3)),
        other => panic!("unexpected {other:?}"),
    }
}

#[test]
fn viewer_refuses_deleted_stickers_and_documents() {
    let sticker = media("s", Some(FileKind::Sticker), ViewerStatus::Ready);
    assert!(matches!(open_attachment_viewer(Some(&sticker), false, &[]), ViewerOpen::Unsupported(_)));
    let doc = media("d", Some(FileKind::Document), ViewerStatus::Ready);
    assert!(matches!(open_attachment_viewer(Some(&doc), false, &[]), ViewerOpen::Unavailable("View is not available")));
    assert!(matches!(
        open_attachment_viewer(Some(&doc), true, &[]),
        ViewerOpen::Unavailable("This message was deleted.")
    ));
    assert!(matches!(open_attachment_viewer(None, false, &[]), ViewerOpen::Unavailable(_)));
}

#[test]
fn only_downloaded_media_launches() {
    let image = media("a", Some(FileKind::Image), ViewerStatus::Ready);
    assert!(matches!(
        plan_selected_media_launch(Some(&image), false, Some(Metadata::File(FileMeta::Downloaded))),
        LaunchPlan::Launch(FileKind::Image, p) if p == "a.bin"
    ));
    assert!(matches!(
        plan_selected_media_launch(Some(&image), false, Some(Metadata::File(FileMeta::Downloading))),
        LaunchPlan::Unavailable("Media is not downloaded")
    ));
    assert!(matches!(plan_viewer_media_launch(None), LaunchPlan::Unavailable(_)));
}

#[test]
fn announcement_groups_block_non_admins() {
    assert!(composer_blocked(true, Some((true, false))));
    assert!(!composer_blocked(true, Some((true, true))));
    assert!(!composer_blocked(false, Some((true, false))));
    assert!(!composer_blocked(true, None));
}

fn stored(id: &str, timestamp: i64, is_from_me: bool, sender: &str) -> StoredMessage {
    StoredMessage {
        id: id.to_string(),
        chat: "chat@s.whatsapp.net".to_string(),
        sender: sender.to_string(),
        timestamp,
        is_from_me,
        read_by: 0,
    }
}

#[test]
fn linked_device_reads_move_the_cursor_forward_only() {
    let chat = vec![stored("a", 1, false, "x"), stored("b", 2, false, "x"), stored("c", 3, false, "x")];
    let cands = vec![stored("a", 1, false, "x"), stored("b", 2, false, "x")];
    assert_eq!(local_read_cursor(None, &cands, &chat), LocalReadOutcome::Applied { index: 1, pending: 1 });
    assert_eq!(local_read_cursor(Some((2, "b")), &cands, &chat), LocalReadOutcome::StaleCursor);
    assert_eq!(local_read_cursor(Some((1, "a")), &[], &chat), LocalReadOutcome::NoMessage);
}

#[test]
fn status_reads_keep_the_latest_per_sender() {
    let reads = latest_status_reads(&[stored("1", 5, false, "x"), stored("2", 3, false, "y"), stored("3", 9, false, "x")]);
    assert_eq!(reads, vec![("x".to_string(), 9), ("y".to_string(), 3)]);
}

#[test]
fn avatar_workers_skip_stale_requests_and_report_answers() {
    let desired = vec![AvatarTarget { key: "a".to_string() }];
    let request = AvatarRequest { generation: 2, target: AvatarTarget { key: "a".to_string() }, refresh: true };
    assert!(request_is_current(2, &desired, &request));
    assert!(!request_is_current(3, &desired, &request));
    assert_eq!(after_cache_lookup(false, true), CacheStep::Done);
    assert_eq!(after_cache_lookup(false, false), CacheStep::ReportFailure);
    assert_eq!(after_cache_lookup(true, true), CacheStep::Fetch);
    let same = FetchAnswer::Available { picture_id: "p1".to_string() };
    assert_eq!(fetch_report(&same, Some("p1")), FetchReport::Refreshed);
    assert_eq!(fetch_report(&same, Some("p0")), FetchReport::NewPicture);
    assert_eq!(fetch_report(&FetchAnswer::Unavailable, None), FetchReport::Unavailable);
    assert_eq!(fetch_report(&FetchAnswer::Error, None), FetchReport::Failed);
}

#[test]
fn slash_starts_chat_search_only_in_the_chats_list() {
    assert!(start_chat_search(FocusPane::ChatList, Section::Chats, &Key::c('/')));
    assert!(!start_chat_search(FocusPane::ChatList, Section::Status, &Key::c('/')));
    assert!(!start_chat_search(FocusPane::Conversation, Section::Chats, &Key::c('/')));
}

#[test]
fn active_chat_search_routes_characters_to_the_search_buffer() {
    assert_eq!(chat_search_step(&Key::c('a')), ChatSearchStep::Insert('a'));
    assert_eq!(chat_search_step(&Key::k(KeyCode::Esc)), ChatSearchStep::Leave);
    assert_eq!(chat_search_step(&Key::k(KeyCode::Tab)), ChatSearchStep::Ignore);
}

#[test]
fn community_row_aggregates_groups_and_opens_the_selected_target() {
    let root = node("community@g.us", "Project Team", true, &["first@g.us", "second@g.us"], true);
    let nodes = vec![root];
    let chats = strings(&["first@g.us", "second@g.us"]);
    let rows = build_chat_rows(&nodes, &chats, &chats, &recency(&[("first@g.us", 10)]), &[]);
    assert_eq!(rows.len(), 1);
    assert_eq!(selected_community_contact(&nodes, &chats, &[], &rows[0]), Some("community@g.us".to_string()));
    let plain = ChatRow { label: "Project Team".to_string(), members: strings(&["first@g.us"]), target: "first@g.us".to_string() };
    assert_eq!(selected_community_contact(&nodes, &chats, &[], &plain), None);
}

#[test]
fn a_cached_avatar_is_reported_before_any_fetch() {

    assert_eq!(worker_plan(true, true, true), vec![WorkerStep::ReportCached, WorkerStep::Fetch]);
    assert_eq!(worker_plan(true, false, true), vec![WorkerStep::ReportCached]);
    assert_eq!(worker_plan(true, false, false), vec![WorkerStep::ReportFailure]);
    assert_eq!(worker_plan(true, true, false), vec![WorkerStep::Fetch]);
    assert!(worker_plan(false, true, true).is_empty());
}
