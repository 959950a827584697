//! Opening the attachment viewer on the selected message: which messages
//! it can browse, and why it refuses.
use vstd::prelude::*;

use crate::events::{AttachmentViewerState, FileKind, FileMeta, Metadata, ViewerAttachment, ViewerStatus};

verus! {

/// A message as the viewer sees it: its id, its file (kind and path) if
/// it has one, and what the viewer can show of it.
#[derive(Debug)]
pub struct MediaMessage {
    pub message_id: String,
    pub file: Option<(FileKind, String)>,
    pub status: ViewerStatus,
}

/// What opening the viewer gives.
#[derive(Debug)]
pub enum ViewerOpen {
    /// Nothing to show; the notice says why.
    Unavailable(&'static str),
    /// The attachment cannot be shown here; the notice says why.
    Unsupported(&'static str),
    Open(AttachmentViewerState),
}

/// The viewer shows images and videos.
pub open spec fn viewable(kind: FileKind) -> bool {
    kind == FileKind::Image || kind == FileKind::Video
}

/// The attachment of a message, as plain values.
pub open spec fn attachment_view(a: ViewerAttachment) -> (Seq<char>, FileKind, Seq<char>, ViewerStatus) {
    (a.message_id@, a.kind, a.path@, a.status)
}

/// The attachment entry of a message with a file.
pub open spec fn entry_of(m: MediaMessage) -> (Seq<char>, FileKind, Seq<char>, ViewerStatus) {
    (m.message_id@, m.file->Some_0.0, m.file->Some_0.1@, m.status)
}

/// The viewable attachments of the first `n` messages, in order.
pub open spec fn viewable_entries(pool: Seq<MediaMessage>, n: int) -> Seq<(Seq<char>, FileKind, Seq<char>, ViewerStatus)>
    decreases n,
{
    if n <= 0 {
        Seq::empty()
    } else {
        let rest = viewable_entries(pool, n - 1);
        let m = pool[n - 1];
        if m.file is Some && viewable(m.file->Some_0.0) {
            rest.push(entry_of(m))
        } else {
            rest
        }
    }
}

/// The entries the viewer browses: the viewable attachments of the
/// messages around, and the selected one at the end where it is not among
/// them.
pub open spec fn browsed_entries(selected: MediaMessage, pool: Seq<MediaMessage>) -> Seq<
    (Seq<char>, FileKind, Seq<char>, ViewerStatus),
> {
    let found = viewable_entries(pool, pool.len() as int);
    if exists|i: int| 0 <= i < found.len() && found[i].0 == selected.message_id@ {
        found
    } else {
        found.push(entry_of(selected))
    }
}

fn entry(m: &MediaMessage) -> (a: ViewerAttachment)
    requires
        m.file is Some,
    ensures
        attachment_view(a) == entry_of(*m),
{
    match &m.file {
        Some((kind, path)) => ViewerAttachment {
            message_id: m.message_id.clone(),
            kind: *kind,
            path: path.clone(),
            status: m.status,
        },
        None => ViewerAttachment {
            message_id: m.message_id.clone(),
            kind: FileKind::Image,
            path: String::new(),
            status: m.status,
        },
    }
}

/// Opens the viewer on the selected message: a deleted or missing
/// message, or one without an image or video, is unavailable (a sticker
/// is unsupported); otherwise the viewer browses the viewable attachments
/// around it, at the selected one.
pub fn open_attachment_viewer(selected: Option<&MediaMessage>, selected_deleted: bool, pool: &[MediaMessage]) -> (r:
    ViewerOpen)
    ensures
        selected_deleted ==> r == ViewerOpen::Unavailable("This message was deleted."),
        !selected_deleted ==> match selected {
            None => r == ViewerOpen::Unavailable("View is not available"),
            Some(s) => match s.file {
                None => r == ViewerOpen::Unavailable("View is not available"),
                Some(f) => if f.0 == FileKind::Sticker {
                    r == ViewerOpen::Unsupported("Sticker viewer is not supported")
                } else if !viewable(f.0) {
                    r == ViewerOpen::Unavailable("View is not available")
                } else {
                    &&& r matches ViewerOpen::Open(v)
                    &&& v.attachments@.map_values(|a: ViewerAttachment| attachment_view(a)) == browsed_entries(
                        *s,
                        pool@,
                    )
                    &&& v.index < v.attachments.len()
                    &&& v.attachment_count == v.attachments.len()
                    &&& crate::events::shows_active(v)
                    &&& v.message_id@ == s.message_id@
                    &&& v.attachments@[v.index as int].message_id@ == s.message_id@
                    &&& forall|j: int| 0 <= j < v.index ==> v.attachments@[j].message_id@ != s.message_id@
                },
            },
        },
{
    if selected_deleted {
        return ViewerOpen::Unavailable("This message was deleted.");
    }
    let s = match selected {
        Some(s) => s,
        None => return ViewerOpen::Unavailable("View is not available"),
    };
    let kind = match &s.file {
        Some((kind, _)) => *kind,
        None => return ViewerOpen::Unavailable("View is not available"),
    };
    if matches!(kind, FileKind::Sticker) {
        return ViewerOpen::Unsupported("Sticker viewer is not supported");
    }
    if !matches!(kind, FileKind::Image | FileKind::Video) {
        return ViewerOpen::Unavailable("View is not available");
    }
    let mut attachments: Vec<ViewerAttachment> = Vec::new();
    let mut i: usize = 0;
    while i < pool.len()
        invariant
            0 <= i <= pool.len(),
            attachments@.map_values(|a: ViewerAttachment| attachment_view(a)) == viewable_entries(pool@, i as int),
        decreases pool.len() - i,
    {
        let viewable_file = match &pool[i].file {
            Some((k, _)) => matches!(k, FileKind::Image | FileKind::Video),
            None => false,
        };
        if viewable_file {
            let ghost before = attachments@.map_values(|a: ViewerAttachment| attachment_view(a));
            attachments.push(entry(&pool[i]));
            proof {
                assert(attachments@.map_values(|a: ViewerAttachment| attachment_view(a)) =~= before.push(
                    entry_of(pool@[i as int]),
                ));
            }
        }
        i += 1;
    }
    let ghost found = viewable_entries(pool@, pool@.len() as int);
    let mut index: usize = 0;
    while index < attachments.len()
        invariant
            0 <= index <= attachments.len(),
            attachments@.map_values(|a: ViewerAttachment| attachment_view(a)) == found,
            forall|j: int| 0 <= j < index ==> attachments@[j].message_id@ != s.message_id@,
        ensures
            index < attachments.len() ==> attachments@[index as int].message_id@ == s.message_id@,
        decreases attachments.len() - index,
    {
        if attachments[index].message_id == s.message_id {
            break;
        }
        index += 1;
    }
    if index == attachments.len() {
        proof {
            if exists|k: int| 0 <= k < found.len() && found[k].0 == s.message_id@ {
                let k = choose|k: int| 0 <= k < found.len() && found[k].0 == s.message_id@;
                assert(found[k].0 == attachments@[k].message_id@);
            }
        }
        let ghost before = attachments@.map_values(|a: ViewerAttachment| attachment_view(a));
        attachments.push(entry(s));
        proof {
            assert(attachments@.map_values(|a: ViewerAttachment| attachment_view(a)) =~= before.push(entry_of(*s)));
        }
    } else {
        proof {
            assert(found[index as int].0 == attachments@[index as int].message_id@);
            assert(browsed_entries(*s, pool@) == found);
        }
    }
    let ghost final_entries = attachments@.map_values(|a: ViewerAttachment| attachment_view(a));
    proof {
        assert(final_entries == browsed_entries(*s, pool@));
        assert(index < attachments.len());
        assert(attachments@[index as int].message_id@ == s.message_id@) by {
            if index == attachments.len() - 1 {
            }
        }
    }
    ViewerOpen::Open(AttachmentViewerState::from_attachments(attachments, index))
}

/// What an external media launch is asked for.
#[derive(Debug)]
pub enum LaunchPlan {
    /// Launch the file of this kind at this path.
    Launch(FileKind, String),
    /// Nothing to launch; the notice says why.
    Unavailable(&'static str),
}

/// Plans launching the selected message's file in an external viewer:
/// only a downloaded (or loaded) file of a message that was not deleted.
pub fn plan_selected_media_launch(selected: Option<&MediaMessage>, selected_deleted: bool, meta: Option<Metadata>) -> (r:
    LaunchPlan)
    ensures
        selected_deleted ==> r == LaunchPlan::Unavailable("This message was deleted."),
        !selected_deleted ==> match selected {
            Some(s) => match s.file {
                Some(f) => if meta == Some(Metadata::File(FileMeta::Downloaded)) || meta == Some(
                    Metadata::File(FileMeta::Loaded),
                ) {
                    r matches LaunchPlan::Launch(k, p) && k == f.0 && p@ == f.1@
                } else {
                    r == LaunchPlan::Unavailable("Media is not downloaded")
                },
                None => r == LaunchPlan::Unavailable("Media is not downloaded"),
            },
            None => r == LaunchPlan::Unavailable("Media is not downloaded"),
        },
{
    if selected_deleted {
        return LaunchPlan::Unavailable("This message was deleted.");
    }
    let s = match selected {
        Some(s) => s,
        None => return LaunchPlan::Unavailable("Media is not downloaded"),
    };
    match &s.file {
        Some((kind, path)) => match meta {
            Some(Metadata::File(FileMeta::Downloaded)) | Some(Metadata::File(FileMeta::Loaded)) => {
                LaunchPlan::Launch(*kind, path.clone())
            },
            _ => LaunchPlan::Unavailable("Media is not downloaded"),
        },
        None => LaunchPlan::Unavailable("Media is not downloaded"),
    }
}

/// Plans launching the viewer's attachment externally: only a ready one.
pub fn plan_viewer_media_launch(viewer: Option<&AttachmentViewerState>) -> (r: LaunchPlan)
    ensures
        match viewer {
            Some(v) => if v.status == ViewerStatus::Ready {
                r matches LaunchPlan::Launch(k, p) && k == v.kind && p@ == v.path@
            } else {
                r == LaunchPlan::Unavailable("Media is not downloaded")
            },
            None => r == LaunchPlan::Unavailable("Media is not downloaded"),
        },
{
    match viewer {
        Some(v) => {
            if matches!(v.status, ViewerStatus::Ready) {
                LaunchPlan::Launch(v.kind, v.path.clone())
            } else {
                LaunchPlan::Unavailable("Media is not downloaded")
            }
        },
        None => LaunchPlan::Unavailable("Media is not downloaded"),
    }
}

/// The composer is blocked in an announcement-only group where I am not
/// an admin: `permission` is (announcement only, admin) for the open chat.
pub fn composer_blocked(chat_open: bool, permission: Option<(bool, bool)>) -> (b: bool)
    ensures
        b == (chat_open && (permission matches Some(p) && p.0 && !p.1)),
{
    chat_open && match permission {
        Some((announce, admin)) => announce && !admin,
        None => false,
    }
}

} // verus!
