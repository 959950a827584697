//! Media state shared by the event loop: file download states, the
//! attachment viewer and its preview requests.
use vstd::prelude::*;

verus! {

/// Download and preview state of a message's file.
#[derive(Clone, Copy, Debug, Eq, PartialEq, Structural)]
pub enum FileMeta {
    Loaded,
    Loading,
    LoadFailed,
    Downloaded,
    Downloading,
    DownloadFailed,
}

/// Per-message metadata.
#[derive(Clone, Copy, Debug, Eq, PartialEq, Structural)]
pub enum Metadata {
    File(FileMeta),
}

/// The kind of a file attachment.
#[derive(Clone, Copy, Debug, Eq, PartialEq, Structural)]
pub enum FileKind {
    Image,
    Video,
    Audio,
    Document,
    Sticker,
}

/// What the viewer can show of an attachment.
#[derive(Clone, Copy, Debug, Eq, PartialEq, Structural)]
pub enum ViewerStatus {
    Ready,
    Downloading,
    Missing,
    Failed,
}

/// The owner family of an application event.
#[derive(Clone, Copy, Debug, Eq, PartialEq, Structural)]
pub enum AppEventFamily {
    Updater,
    Send,
    ReadReceipt,
    MediaViewer,
    Avatar,
}

/// Why a frame is drawn.
#[derive(Clone, Copy, Debug, Eq, PartialEq, Structural)]
pub enum DrawSource {
    Ordinary,
    GoLog,
}

/// The viewer status of a file in a given state.
pub open spec fn status_of(meta: Option<Metadata>) -> ViewerStatus {
    match meta {
        Some(Metadata::File(FileMeta::Downloaded)) | Some(Metadata::File(FileMeta::Loaded)) => ViewerStatus::Ready,
        Some(Metadata::File(FileMeta::Downloading)) | Some(Metadata::File(FileMeta::Loading)) => ViewerStatus::Downloading,
        Some(Metadata::File(FileMeta::DownloadFailed)) | Some(Metadata::File(FileMeta::LoadFailed)) => ViewerStatus::Failed,
        None => ViewerStatus::Missing,
    }
}

/// A downloaded or loaded file is ready; a download or load in progress is
/// downloading; a failed one failed; an unknown file is missing.
pub fn viewer_status(meta: Option<Metadata>) -> (s: ViewerStatus)
    ensures
        s == status_of(meta),
{
    match meta {
        Some(Metadata::File(FileMeta::Downloaded)) | Some(Metadata::File(FileMeta::Loaded)) => ViewerStatus::Ready,
        Some(Metadata::File(FileMeta::Downloading)) | Some(Metadata::File(FileMeta::Loading)) => ViewerStatus::Downloading,
        Some(Metadata::File(FileMeta::DownloadFailed)) | Some(Metadata::File(FileMeta::LoadFailed)) => ViewerStatus::Failed,
        None => ViewerStatus::Missing,
    }
}

/// The path `std::path::Path::with_extension` gives for a path and an
/// extension.
pub uninterp spec fn path_with_extension_spec(path: Seq<char>, extension: Seq<char>) -> Seq<char>;

/// Calls `Path::with_extension` on a path given as text; the result is
/// named by `path_with_extension_spec` and nothing more is claimed of it.
/// The call panics on an extension that holds a path separator, so none
/// is admitted.
#[verifier::external_body]
fn path_with_extension(path: &str, extension: &str) -> (r: String)
    requires
        !extension@.contains('/'),
        !extension@.contains('\\'),
    ensures
        r@ == path_with_extension_spec(path@, extension@),
{
    std::path::Path::new(path).with_extension(extension).to_string_lossy().into_owned()
}

/// Identifies a viewer preview: a file at a size.
#[derive(Clone, Debug, Eq, PartialEq)]
pub struct ViewerPreviewKey {
    pub path: String,
    pub is_video: bool,
    pub width: u16,
    pub height: u16,
}

/// Two preview keys name the same preview.
pub open spec fn same_key(a: ViewerPreviewKey, b: ViewerPreviewKey) -> bool {
    a.path@ == b.path@ && a.is_video == b.is_video && a.width == b.width && a.height == b.height
}

fn keys_equal(a: &ViewerPreviewKey, b: &ViewerPreviewKey) -> (r: bool)
    ensures
        r == same_key(*a, *b),
{
    a.path == b.path && a.is_video == b.is_video && a.width == b.width && a.height == b.height
}

impl ViewerPreviewKey {
    /// The key of an image preview.
    pub fn new(path: String, width: u16, height: u16) -> (k: ViewerPreviewKey)
        ensures
            k.path@ == path@,
            !k.is_video,
            k.width == width,
            k.height == height,
    {
        ViewerPreviewKey { path, is_video: false, width, height }
    }

    /// The key of an attachment's preview; videos preview a still image.
    pub fn for_attachment(path: String, kind: FileKind, width: u16, height: u16) -> (k:
        ViewerPreviewKey)
        ensures
            k.path@ == path@,
            k.is_video == (kind == FileKind::Video),
            k.width == width,
            k.height == height,
    {
        ViewerPreviewKey { path, is_video: matches!(kind, FileKind::Video), width, height }
    }

    /// The file that holds the preview: a video's preview is the same path
    /// with the "jpg" extension; an image is its own preview.
    pub fn preview_path(&self) -> (p: String)
        ensures
            self.is_video ==> p@ == path_with_extension_spec(self.path@, "jpg"@),
            !self.is_video ==> p@ == self.path@,
    {
        if self.is_video {
            proof {
                reveal_strlit("jpg");
                assert("jpg"@ =~= seq!['j', 'p', 'g']);
            }
            path_with_extension(self.path.as_str(), "jpg")
        } else {
            self.path.clone()
        }
    }
}

/// The loading state of the viewer preview; `P` is the rendered image.
pub enum ViewerPreviewState<P> {
    Loading(ViewerPreviewKey),
    Ready { key: ViewerPreviewKey, protocol: P },
    Failed(ViewerPreviewKey),
}

/// The key a preview state is for.
pub open spec fn state_key<P>(state: ViewerPreviewState<P>) -> ViewerPreviewKey {
    match state {
        ViewerPreviewState::Loading(key) => key,
        ViewerPreviewState::Ready { key, .. } => key,
        ViewerPreviewState::Failed(key) => key,
    }
}

impl<P> ViewerPreviewState<P> {
    pub fn key(&self) -> (k: &ViewerPreviewKey)
        ensures
            *k == state_key(*self),
    {
        match self {
            ViewerPreviewState::Loading(key) => key,
            ViewerPreviewState::Ready { key, .. } => key,
            ViewerPreviewState::Failed(key) => key,
        }
    }
}

/// Whether the preview for `key` still has to be loaded: no preview state
/// yet, or a state for another key.
pub fn viewer_preview_needs_load<P>(state: &Option<ViewerPreviewState<P>>, key: &ViewerPreviewKey) -> (b:
    bool)
    ensures
        b == !(*state matches Some(s) && same_key(state_key(s), *key)),
{
    match state {
        Some(current) => !keys_equal(current.key(), key),
        None => true,
    }
}

/// Requests the preview for `key`: when it is not already the current
/// preview, the state becomes Loading for it and the key is returned to be
/// loaded; otherwise nothing changes and nothing is requested.
pub fn viewer_preview_request<P>(state: &mut Option<ViewerPreviewState<P>>, key: ViewerPreviewKey) -> (r:
    Option<ViewerPreviewKey>)
    ensures
        (*old(state) matches Some(s) && same_key(state_key(s), key)) ==> r is None && *final(state)
            == *old(state),
        !(*old(state) matches Some(s) && same_key(state_key(s), key)) ==> r == Some(key)
            && *final(state) == Some(ViewerPreviewState::<P>::Loading(key)),
{
    let current = match state {
        Some(current) => keys_equal(current.key(), &key),
        None => false,
    };
    if current {
        None
    } else {
        let requested = ViewerPreviewKey {
            path: key.path.clone(),
            is_video: key.is_video,
            width: key.width,
            height: key.height,
        };
        *state = Some(ViewerPreviewState::Loading(key));
        Some(requested)
    }
}

/// An attachment the viewer can browse to.
#[derive(Clone, Debug)]
pub struct ViewerAttachment {
    pub message_id: String,
    pub kind: FileKind,
    pub path: String,
    pub status: ViewerStatus,
}

/// The attachment viewer: the browsable attachments and the active one.
#[derive(Clone, Debug)]
pub struct AttachmentViewerState {
    pub message_id: String,
    pub index: usize,
    pub attachment_count: usize,
    pub kind: FileKind,
    pub path: String,
    pub status: ViewerStatus,
    pub attachments: Vec<ViewerAttachment>,
}

/// The viewer shows the attachment at its index, or an empty placeholder
/// when there is none.
pub open spec fn shows_active(v: AttachmentViewerState) -> bool {
    if v.index < v.attachments.len() {
        let a = v.attachments@[v.index as int];
        v.message_id@ == a.message_id@ && v.kind == a.kind && v.path@ == a.path@ && v.status
            == a.status
    } else {
        v.message_id@ == Seq::<char>::empty() && v.kind == FileKind::Image && v.path@
            == Seq::<char>::empty() && v.status == ViewerStatus::Missing
    }
}

fn copy_string(s: &String) -> (r: String)
    ensures
        r@ == s@,
{
    s.clone()
}

impl AttachmentViewerState {
    /// Opens the viewer on `attachments` at `index`, clamped to the last
    /// attachment. An empty list shows one empty placeholder.
    pub fn from_attachments(attachments: Vec<ViewerAttachment>, index: usize) -> (v:
        AttachmentViewerState)
        ensures
            v.attachment_count == (if attachments.len() > 0 {
                attachments.len()
            } else {
                1
            }),
            v.index == (if index < v.attachment_count {
                index
            } else {
                (v.attachment_count - 1) as usize
            }),
            v.attachments@ == attachments@,
            shows_active(v),
    {
        let attachment_count = if attachments.len() > 0 {
            attachments.len()
        } else {
            1
        };
        let index = if index < attachment_count {
            index
        } else {
            attachment_count - 1
        };
        if index < attachments.len() {
            let active = &attachments[index];
            let message_id = copy_string(&active.message_id);
            let kind = active.kind;
            let path = copy_string(&active.path);
            let status = active.status;
            AttachmentViewerState {
                message_id,
                index,
                attachment_count,
                kind,
                path,
                status,
                attachments,
            }
        } else {
            AttachmentViewerState {
                message_id: String::new(),
                index,
                attachment_count,
                kind: FileKind::Image,
                path: String::new(),
                status: ViewerStatus::Missing,
                attachments,
            }
        }
    }

    /// Moves to another attachment by `delta`, staying within the list.
    pub fn navigate(&mut self, delta: isize)
        requires
            old(self).attachment_count >= 1,
            shows_active(*old(self)),
        ensures
            final(self).index == crate::contextual_activation::moved_selection_spec(
                old(self).index,
                delta,
                old(self).attachment_count,
            ),
            final(self).attachment_count == old(self).attachment_count,
            final(self).attachments@ == old(self).attachments@,
            final(self).index < final(self).attachments.len() ==> shows_active(*final(self)),
            final(self).index >= final(self).attachments.len() ==> final(self).message_id@
                == old(self).message_id@ && final(self).path@ == old(self).path@,
    {
        self.index = crate::contextual_activation::moved_selection(
            self.index,
            delta,
            self.attachment_count,
        );
        if self.index < self.attachments.len() {
            let message_id = copy_string(&self.attachments[self.index].message_id);
            let path = copy_string(&self.attachments[self.index].path);
            self.kind = self.attachments[self.index].kind;
            self.status = self.attachments[self.index].status;
            self.message_id = message_id;
            self.path = path;
        }
    }
}

/// The kinds of application events, without their payloads.
#[derive(Clone, Copy, Debug, Eq, PartialEq, Structural)]
pub enum AppEventKind {
    UpdateAvailable,
    OutboundSendSucceeded,
    OutboundSendFailed,
    ReadReceiptResult,
    ReadReceiptRestored,
    ReadReceiptPersisted,
    ReadReceiptCompleted,
    ReadReceiptRejected,
    DownloadFile,
    DownloadFileDone,
    LoadFilePreview,
    SetFilePreview,
    LoadViewerPreview,
    SetViewerPreview,
    SetFileState,
    SetAudioDuration,
    ContactAvatar,
    ContactAvatarRefreshed,
}

/// The runtime owner of each kind of event.
pub open spec fn family_of(kind: AppEventKind) -> AppEventFamily {
    match kind {
        AppEventKind::UpdateAvailable => AppEventFamily::Updater,
        AppEventKind::OutboundSendSucceeded | AppEventKind::OutboundSendFailed => AppEventFamily::Send,
        AppEventKind::ReadReceiptResult | AppEventKind::ReadReceiptRestored | AppEventKind::ReadReceiptPersisted
        | AppEventKind::ReadReceiptCompleted | AppEventKind::ReadReceiptRejected => AppEventFamily::ReadReceipt,
        AppEventKind::ContactAvatar | AppEventKind::ContactAvatarRefreshed => AppEventFamily::Avatar,
        _ => AppEventFamily::MediaViewer,
    }
}

impl AppEventKind {
    /// The runtime owner of events of this kind.
    pub fn family(self) -> (f: AppEventFamily)
        ensures
            f == family_of(self),
    {
        match self {
            AppEventKind::UpdateAvailable => AppEventFamily::Updater,
            AppEventKind::OutboundSendSucceeded | AppEventKind::OutboundSendFailed => AppEventFamily::Send,
            AppEventKind::ReadReceiptResult | AppEventKind::ReadReceiptRestored
            | AppEventKind::ReadReceiptPersisted | AppEventKind::ReadReceiptCompleted
            | AppEventKind::ReadReceiptRejected => AppEventFamily::ReadReceipt,
            AppEventKind::DownloadFile | AppEventKind::DownloadFileDone | AppEventKind::LoadFilePreview
            | AppEventKind::SetFilePreview | AppEventKind::LoadViewerPreview | AppEventKind::SetViewerPreview
            | AppEventKind::SetFileState | AppEventKind::SetAudioDuration => AppEventFamily::MediaViewer,
            AppEventKind::ContactAvatar | AppEventKind::ContactAvatarRefreshed => AppEventFamily::Avatar,
        }
    }
}

} // verus!
