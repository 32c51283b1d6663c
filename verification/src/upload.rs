//! Upload of completed images.
//!
//! An [`Upload`] decides what is done next. Whoever runs it performs the
//! action and hands back how that went, until there is a reply.

use vstd::prelude::*;
use vstd::string::*;

use crate::api;
use crate::api::{RemoveFileOnDrop, SetBuildingOnDrop};
use crate::db::Device;
use crate::digest;
use crate::digest::Hasher;
use crate::error::{Error, Reply, ReplyView, BAD_REQUEST, INTERNAL_SERVER_ERROR, OK, UNAUTHORIZED};
use crate::text;

verus! {

/// What an upload waits for.
#[derive(Copy, Clone, PartialEq, Eq, Structural, Debug)]
pub enum UploadStage {
    /// The comparison with the latest ALARM tarball.
    Tarball,
    /// The change of the request's status to 'writing'.
    Claim,
    /// The first form field.
    Field,
    /// The creation of the image directory.
    Directory,
    /// The creation of the image file.
    File,
    /// The next chunk of data.
    Chunk,
    /// Enough storage space for the chunk.
    Space,
    /// The end of writing the chunk.
    Write,
    /// The addition of the image to the image cache.
    Cache,
    /// The mark of the request as done.
    Finish,
    /// Nothing, since there is a reply.
    Over,
}

/// What is known of a form field before its data is read.
pub struct FieldHead {
    pub file_name: Option<String>,
    pub content_type: Option<String>,
}

/// How an action of an upload went.
pub enum UploadEvent {
    /// The upload is based on the latest tarball.
    TarballCurrent,
    /// The upload is based on another tarball than the latest one, which has
    /// this checksum as far as is known.
    TarballOutdated(Option<String>),
    /// The request's status was changed to 'writing', or not.
    Claimed(Result<(), Error>),
    /// The first field of the form, or the status code for a malformed one.
    Field(Result<Option<FieldHead>, u16>),
    /// Whether the image directory exists.
    Directory(bool),
    /// Whether the image file was created.
    Opened(bool),
    /// The next chunk of data, if there is one, or why it could not be read.
    Chunk(Result<Option<Vec<u8>>, String>),
    /// Storage space was made available, or not.
    Freed(Result<(), Error>),
    /// Whether the chunk was written.
    Written(bool),
    /// The image was added to the image cache.
    Cached,
    /// The request was marked as done, or not.
    Finished(Result<(), Error>),
}

/// What has to be done next for an upload.
pub enum UploadAction {
    /// Compare with the latest ALARM tarball.
    CheckTarball,
    /// Change the request's status to 'writing'.
    ClaimRequest,
    /// Get the first form field.
    ReadField,
    /// Create the image directory unless it exists.
    CreateDirectory,
    /// Remove the image file if it exists, and create it.
    OpenFile,
    /// Get the next chunk of data.
    ReadChunk,
    /// Make this many bytes of storage space available.
    FreeSpace(u64),
    /// Append this chunk to the image file.
    WriteChunk(Vec<u8>),
    /// Add the image to the image cache.
    CacheImage,
    /// Mark the request as done, with this checksum of the image.
    MarkDone(String),
    /// Send the reply.
    Respond(Reply),
}

/// What an [`UploadAction`] holds.
pub enum UploadActionView {
    CheckTarball,
    ClaimRequest,
    ReadField,
    CreateDirectory,
    OpenFile,
    ReadChunk,
    FreeSpace(u64),
    WriteChunk(Seq<u8>),
    CacheImage,
    MarkDone(Seq<char>),
    Respond(ReplyView),
}

impl View for UploadAction {
    type V = UploadActionView;

    open spec fn view(&self) -> UploadActionView {
        match self {
            UploadAction::CheckTarball => UploadActionView::CheckTarball,
            UploadAction::ClaimRequest => UploadActionView::ClaimRequest,
            UploadAction::ReadField => UploadActionView::ReadField,
            UploadAction::CreateDirectory => UploadActionView::CreateDirectory,
            UploadAction::OpenFile => UploadActionView::OpenFile,
            UploadAction::ReadChunk => UploadActionView::ReadChunk,
            UploadAction::FreeSpace(size) => UploadActionView::FreeSpace(*size),
            UploadAction::WriteChunk(chunk) => UploadActionView::WriteChunk(chunk@),
            UploadAction::CacheImage => UploadActionView::CacheImage,
            UploadAction::MarkDone(img_md5sum) => UploadActionView::MarkDone(img_md5sum@),
            UploadAction::Respond(reply) => UploadActionView::Respond(reply@),
        }
    }
}

/// What an [`Upload`] holds.
pub struct UploadView {
    pub stage: UploadStage,
    pub device: Device,
    pub md5sum: Seq<char>,
    pub alarm_md5sum: Seq<char>,
    /// The request which must be set to 'building' if the upload ends now.
    pub reset: Option<(Device, Seq<char>)>,
    /// The file which must be removed if the upload ends now.
    pub removal: Option<Seq<char>>,
    /// All data which was read so far.
    pub received: Seq<u8>,
    /// The chunk which waits for storage space.
    pub chunk: Option<Seq<u8>>,
}

/// The content type of images.
pub open spec fn image_content_type() -> Seq<char> {
    "application/octet-stream"@
}

/// What is wrong with a form field, if anything.
pub open spec fn field_fault(head: FieldHead) -> Option<ReplyView> {
    if head.file_name is None {
        Some(ReplyView::message(BAD_REQUEST, "multipart/form-data is missing filename"@))
    } else if text::optional(head.content_type) != Some(image_content_type()) {
        Some(
            ReplyView::message(
                BAD_REQUEST,
                "invalid multipart content type: "@ + text::optional_debug(
                    text::optional(head.content_type),
                ),
            ),
        )
    } else {
        None
    }
}

/// The message for an upload which is not based on the latest tarball.
pub open spec fn outdated_message(alarm_md5sum: Seq<char>, latest: Option<Seq<char>>) -> Seq<char> {
    "MD5 "@ + alarm_md5sum + " doesn't match ALARM tarball checksum ("@ + text::optional_debug(
        latest,
    ) + ")"@
}

impl UploadView {
    /// Whether `event` is what the upload waits for.
    pub open spec fn expects(self, event: UploadEvent) -> bool {
        match event {
            UploadEvent::TarballCurrent => self.stage == UploadStage::Tarball,
            UploadEvent::TarballOutdated(_) => self.stage == UploadStage::Tarball,
            UploadEvent::Claimed(result) => self.stage == UploadStage::Claim && (
            result matches Err(error) ==> error.in_request()),
            UploadEvent::Field(_) => self.stage == UploadStage::Field,
            UploadEvent::Directory(_) => self.stage == UploadStage::Directory,
            UploadEvent::Opened(_) => self.stage == UploadStage::File,
            UploadEvent::Chunk(_) => self.stage == UploadStage::Chunk,
            UploadEvent::Freed(result) => self.stage == UploadStage::Space && (
            result matches Err(error) ==> error.in_request()),
            UploadEvent::Written(_) => self.stage == UploadStage::Write,
            UploadEvent::Cached => self.stage == UploadStage::Cache,
            UploadEvent::Finished(result) => self.stage == UploadStage::Finish && (
            result matches Err(error) ==> error.in_request()),
        }
    }

    /// The path of the image file.
    pub open spec fn path(self) -> Seq<char> {
        api::path_of(self.device, self.md5sum)
    }

    /// What is done after `event`.
    pub open spec fn action(self, event: UploadEvent) -> UploadActionView {
        match event {
            UploadEvent::TarballCurrent => UploadActionView::ClaimRequest,
            UploadEvent::TarballOutdated(latest) => UploadActionView::Respond(
                ReplyView::message(
                    BAD_REQUEST,
                    outdated_message(self.alarm_md5sum, text::optional(latest)),
                ),
            ),
            UploadEvent::Claimed(Ok(())) => UploadActionView::ReadField,
            UploadEvent::Claimed(Err(error)) => UploadActionView::Respond(error.reply()),
            UploadEvent::Field(Ok(Some(head))) => match field_fault(head) {
                Some(reply) => UploadActionView::Respond(reply),
                None => UploadActionView::CreateDirectory,
            },
            UploadEvent::Field(Ok(None)) => UploadActionView::Respond(ReplyView::bare(BAD_REQUEST)),
            UploadEvent::Field(Err(code)) => UploadActionView::Respond(ReplyView::bare(code)),
            UploadEvent::Directory(true) => UploadActionView::OpenFile,
            UploadEvent::Opened(true) => UploadActionView::ReadChunk,
            UploadEvent::Chunk(Ok(Some(chunk))) => UploadActionView::FreeSpace(
                chunk@.len() as u64,
            ),
            UploadEvent::Chunk(Ok(None)) => UploadActionView::CacheImage,
            UploadEvent::Chunk(Err(message)) => UploadActionView::Respond(
                ReplyView::message(BAD_REQUEST, message@),
            ),
            UploadEvent::Freed(Ok(())) => UploadActionView::WriteChunk(self.chunk->0),
            UploadEvent::Freed(Err(error)) => UploadActionView::Respond(error.reply()),
            UploadEvent::Written(true) => UploadActionView::ReadChunk,
            UploadEvent::Directory(false) | UploadEvent::Opened(false) | UploadEvent::Written(
                false,
            ) => UploadActionView::Respond(ReplyView::bare(INTERNAL_SERVER_ERROR)),
            UploadEvent::Cached => UploadActionView::MarkDone(digest::md5_text(self.received)),
            UploadEvent::Finished(Ok(())) => UploadActionView::Respond(ReplyView::bare(OK)),
            UploadEvent::Finished(Err(error)) => UploadActionView::Respond(error.reply()),
        }
    }

    /// What is waited for after `event`.
    pub open spec fn next_stage(self, event: UploadEvent) -> UploadStage {
        match self.action(event) {
            UploadActionView::CheckTarball => UploadStage::Tarball,
            UploadActionView::ClaimRequest => UploadStage::Claim,
            UploadActionView::ReadField => UploadStage::Field,
            UploadActionView::CreateDirectory => UploadStage::Directory,
            UploadActionView::OpenFile => UploadStage::File,
            UploadActionView::ReadChunk => UploadStage::Chunk,
            UploadActionView::FreeSpace(_) => UploadStage::Space,
            UploadActionView::WriteChunk(_) => UploadStage::Write,
            UploadActionView::CacheImage => UploadStage::Cache,
            UploadActionView::MarkDone(_) => UploadStage::Finish,
            UploadActionView::Respond(_) => UploadStage::Over,
        }
    }

    /// The upload after `event`.
    pub open spec fn after(self, event: UploadEvent) -> UploadView {
        UploadView {
            stage: self.next_stage(event),
            reset: match event {
                UploadEvent::Claimed(Ok(())) => Some((self.device, self.md5sum)),
                UploadEvent::Cached => None,
                _ => self.reset,
            },
            removal: match event {
                UploadEvent::Opened(true) => Some(self.path()),
                UploadEvent::Cached => None,
                _ => self.removal,
            },
            received: match event {
                UploadEvent::Chunk(Ok(Some(chunk))) => self.received + chunk@,
                UploadEvent::Cached => Seq::empty(),
                _ => self.received,
            },
            chunk: match event {
                UploadEvent::Chunk(Ok(Some(chunk))) => Some(chunk@),
                UploadEvent::Freed(Ok(())) => None,
                _ => self.chunk,
            },
            ..self
        }
    }

    /// Whether exactly that is cleaned up which was done so far, and there is a
    /// chunk while one waits for storage space.
    pub open spec fn wf(self) -> bool {
        let claimed = Some((self.device, self.md5sum));
        &&& self.stage == UploadStage::Space ==> self.chunk is Some
        &&& match self.stage {
            UploadStage::Tarball | UploadStage::Claim | UploadStage::Finish => self.reset is None
                && self.removal is None,
            UploadStage::Field | UploadStage::Directory | UploadStage::File => self.reset == claimed
                && self.removal is None,
            UploadStage::Chunk | UploadStage::Space | UploadStage::Write | UploadStage::Cache =>
            self.reset == claimed && self.removal == Some(self.path()),
            UploadStage::Over => {
                &&& self.reset is None || self.reset == claimed
                &&& self.removal is None || self.removal == Some(self.path()) && self.reset
                    == claimed
            },
        }
    }
}

/// What must be cleaned up after an upload which did not succeed.
pub struct Cleanup {
    /// The request which must be set to 'building'.
    pub reset: Option<(Device, String)>,
    /// The file which must be removed.
    pub removal: Option<String>,
}

/// Upload of a completed image.
pub struct Upload {
    stage: UploadStage,
    device: Device,
    md5sum: String,
    alarm_md5sum: String,
    set_on_drop: Option<SetBuildingOnDrop>,
    file_drop: Option<RemoveFileOnDrop>,
    hasher: Hasher,
    chunk: Option<Vec<u8>>,
}

impl View for Upload {
    type V = UploadView;

    closed spec fn view(&self) -> UploadView {
        UploadView {
            stage: self.stage,
            device: self.device,
            md5sum: self.md5sum@,
            alarm_md5sum: self.alarm_md5sum@,
            reset: match self.set_on_drop {
                Some(guard) => guard@,
                None => None,
            },
            removal: match self.file_drop {
                Some(guard) => guard@,
                None => None,
            },
            received: self.hasher@,
            chunk: match self.chunk {
                Some(chunk) => Some(chunk@),
                None => None,
            },
        }
    }
}

impl Upload {
    /// Start an upload for the given request, which is based on the ALARM
    /// tarball with the given checksum.
    pub fn start(
        authorization: Option<&[u8]>,
        upload_bearer: &str,
        device: Device,
        md5sum: String,
        alarm_md5sum: String,
    ) -> (started: (Self, UploadAction))
        ensures
            started.0@.wf(),
            started.0@ == (UploadView {
                stage: if api::is_authorized(authorization, upload_bearer@) {
                    UploadStage::Tarball
                } else {
                    UploadStage::Over
                },
                device,
                md5sum: md5sum@,
                alarm_md5sum: alarm_md5sum@,
                reset: None,
                removal: None,
                received: Seq::empty(),
                chunk: None,
            }),
            started.1@ == (if api::is_authorized(authorization, upload_bearer@) {
                UploadActionView::CheckTarball
            } else {
                UploadActionView::Respond(ReplyView::bare(UNAUTHORIZED))
            }),
    {
        let (stage, action) = if api::authorized(authorization, upload_bearer) {
            (UploadStage::Tarball, UploadAction::CheckTarball)
        } else {
            (UploadStage::Over, UploadAction::Respond(Reply::bare(UNAUTHORIZED)))
        };
        let upload = Upload {
            stage,
            device,
            md5sum,
            alarm_md5sum,
            set_on_drop: None,
            file_drop: None,
            hasher: Hasher::new(),
            chunk: None,
        };
        (upload, action)
    }

    /// Whether `event` is what the upload waits for.
    pub fn expects(&self, event: &UploadEvent) -> (expected: bool)
        ensures
            expected == self@.expects(*event),
    {
        match event {
            UploadEvent::TarballCurrent => self.stage == UploadStage::Tarball,
            UploadEvent::TarballOutdated(_) => self.stage == UploadStage::Tarball,
            UploadEvent::Claimed(result) => self.stage == UploadStage::Claim && served(result),
            UploadEvent::Field(_) => self.stage == UploadStage::Field,
            UploadEvent::Directory(_) => self.stage == UploadStage::Directory,
            UploadEvent::Opened(_) => self.stage == UploadStage::File,
            UploadEvent::Chunk(_) => self.stage == UploadStage::Chunk,
            UploadEvent::Freed(result) => self.stage == UploadStage::Space && served(result),
            UploadEvent::Written(_) => self.stage == UploadStage::Write,
            UploadEvent::Cached => self.stage == UploadStage::Cache,
            UploadEvent::Finished(result) => self.stage == UploadStage::Finish && served(result),
        }
    }

    /// Decide what is done after `event`.
    pub fn step(&mut self, event: UploadEvent) -> (action: UploadAction)
        requires
            old(self)@.wf(),
            old(self)@.expects(event),
        ensures
            final(self)@.wf(),
            final(self)@ == old(self)@.after(event),
            action@ == old(self)@.action(event),
    {
        let action = match event {
            UploadEvent::TarballCurrent => UploadAction::ClaimRequest,
            UploadEvent::TarballOutdated(latest) => UploadAction::Respond(
                Reply::message(
                    BAD_REQUEST,
                    "MD5 ".to_owned().concat(self.alarm_md5sum.as_str()).concat(
                        " doesn't match ALARM tarball checksum (",
                    ).concat(text::debug_optional(&latest).as_str()).concat(")"),
                ),
            ),
            UploadEvent::Claimed(Ok(())) => {
                self.set_on_drop = Some(SetBuildingOnDrop::new(self.device, self.md5sum.clone()));
                UploadAction::ReadField
            },
            UploadEvent::Claimed(Err(error)) => UploadAction::Respond(error.into_response()),
            UploadEvent::Field(Ok(Some(head))) => match check_field(&head) {
                Ok(()) => UploadAction::CreateDirectory,
                Err(reply) => UploadAction::Respond(reply),
            },
            UploadEvent::Field(Ok(None)) => UploadAction::Respond(Reply::bare(BAD_REQUEST)),
            UploadEvent::Field(Err(code)) => UploadAction::Respond(Reply::bare(code)),
            UploadEvent::Directory(created) => if created {
                UploadAction::OpenFile
            } else {
                UploadAction::Respond(Reply::bare(INTERNAL_SERVER_ERROR))
            },
            UploadEvent::Opened(opened) => if opened {
                self.file_drop = Some(RemoveFileOnDrop::new(self.path()));
                UploadAction::ReadChunk
            } else {
                UploadAction::Respond(Reply::bare(INTERNAL_SERVER_ERROR))
            },
            UploadEvent::Chunk(Ok(Some(chunk))) => {
                let size: u64 = chunk.len() as u64;
                self.hasher.consume(chunk.as_slice());
                self.chunk = Some(chunk);
                UploadAction::FreeSpace(size)
            },
            UploadEvent::Chunk(Ok(None)) => UploadAction::CacheImage,
            UploadEvent::Chunk(Err(message)) => UploadAction::Respond(
                Reply::message(BAD_REQUEST, message),
            ),
            UploadEvent::Freed(Ok(())) => UploadAction::WriteChunk(self.chunk.take().unwrap()),
            UploadEvent::Freed(Err(error)) => UploadAction::Respond(error.into_response()),
            UploadEvent::Written(written) => if written {
                UploadAction::ReadChunk
            } else {
                UploadAction::Respond(Reply::bare(INTERNAL_SERVER_ERROR))
            },
            UploadEvent::Cached => {
                if let Some(mut guard) = self.file_drop.take() {
                    guard.reclaim();
                }
                if let Some(mut guard) = self.set_on_drop.take() {
                    let _ = guard.reclaim();
                }
                let mut hasher = Hasher::new();
                std::mem::swap(&mut self.hasher, &mut hasher);
                UploadAction::MarkDone(hasher.compute())
            },
            UploadEvent::Finished(Ok(())) => UploadAction::Respond(Reply::bare(OK)),
            UploadEvent::Finished(Err(error)) => UploadAction::Respond(error.into_response()),
        };
        self.stage = match &action {
            UploadAction::CheckTarball => UploadStage::Tarball,
            UploadAction::ClaimRequest => UploadStage::Claim,
            UploadAction::ReadField => UploadStage::Field,
            UploadAction::CreateDirectory => UploadStage::Directory,
            UploadAction::OpenFile => UploadStage::File,
            UploadAction::ReadChunk => UploadStage::Chunk,
            UploadAction::FreeSpace(_) => UploadStage::Space,
            UploadAction::WriteChunk(_) => UploadStage::Write,
            UploadAction::CacheImage => UploadStage::Cache,
            UploadAction::MarkDone(_) => UploadStage::Finish,
            UploadAction::Respond(_) => UploadStage::Over,
        };
        action
    }

    /// End the upload, whether it succeeded or not.
    ///
    /// Returns what must be cleaned up.
    pub fn end(&mut self) -> (cleanup: Cleanup)
        ensures
            final(self)@ == (UploadView {
                stage: UploadStage::Over,
                reset: None,
                removal: None,
                ..old(self)@
            }),
            text::optional(cleanup.removal) == old(self)@.removal,
            match cleanup.reset {
                Some((device, md5sum)) => old(self)@.reset == Some((device, md5sum@)),
                None => old(self)@.reset is None,
            },
    {
        self.stage = UploadStage::Over;
        let removal = match self.file_drop.take() {
            Some(mut guard) => guard.on_drop(),
            None => None,
        };
        let reset = match self.set_on_drop.take() {
            Some(mut guard) => guard.on_drop(),
            None => None,
        };
        Cleanup { reset, removal }
    }

    /// The path of the image file.
    pub fn path(&self) -> (path: String)
        ensures
            path@ == self@.path(),
    {
        api::image_path(self.device, self.md5sum.as_str())
    }
}

/// Whether a result can occur while a request is served.
fn served(result: &Result<(), Error>) -> (possible: bool)
    ensures
        possible == (result matches Err(error) ==> error.in_request()),
{
    match result {
        Err(Error::MissingUploadSecret) => false,
        _ => true,
    }
}

/// Do some basic validation of a form field.
pub fn check_field(head: &FieldHead) -> (result: Result<(), Reply>)
    ensures
        match result {
            Ok(()) => field_fault(*head) is None,
            Err(reply) => field_fault(*head) == Some(reply@),
        },
{
    if head.file_name.is_none() {
        return Err(
            Reply::message(BAD_REQUEST, "multipart/form-data is missing filename".to_owned()),
        );
    }
    let accepted = match &head.content_type {
        Some(content_type) => text::same_text(content_type.as_str(), "application/octet-stream"),
        None => false,
    };
    if accepted {
        Ok(())
    } else {
        Err(
            Reply::message(
                BAD_REQUEST,
                "invalid multipart content type: ".to_owned().concat(
                    text::debug_optional(&head.content_type).as_str(),
                ),
            ),
        )
    }
}

/// The upload after a series of events.
pub open spec fn run(start: UploadView, events: Seq<UploadEvent>) -> UploadView
    decreases events.len(),
{
    if events.len() == 0 {
        start
    } else {
        run(start, events.drop_last()).after(events.last())
    }
}

/// Whether each event of a series is expected when it occurs.
pub open spec fn is_run(start: UploadView, events: Seq<UploadEvent>) -> bool
    decreases events.len(),
{
    events.len() > 0 ==> {
        &&& is_run(start, events.drop_last())
        &&& run(start, events.drop_last()).expects(events.last())
    }
}

/// What has happened at the start of an upload which goes on.
pub open spec fn prepared(events: Seq<UploadEvent>) -> bool {
    &&& events.len() > 0 ==> events[0] == UploadEvent::TarballCurrent
    &&& events.len() > 1 ==> events[1] == UploadEvent::Claimed(Ok(()))
    &&& events.len() > 2 ==> (events[2] matches UploadEvent::Field(Ok(Some(head)))
        && field_fault(head) is None)
    &&& events.len() > 3 ==> events[3] == UploadEvent::Directory(true)
    &&& events.len() > 4 ==> events[4] == UploadEvent::Opened(true)
}

/// Whether storage space was made available for each chunk before it was
/// written, and each chunk was written before the next one was read.
pub open spec fn chunks_are_written(events: Seq<UploadEvent>) -> bool {
    forall|k: int|
        0 <= k < events.len() - 2 && (#[trigger] events[k] matches UploadEvent::Chunk(Ok(Some(_))))
            ==> events[k + 1] == UploadEvent::Freed(Ok(())) && events[k + 2]
            == UploadEvent::Written(true)
}

/// Whether `event` is one after which an upload in the given stage goes on.
spec fn goes_on(stage: UploadStage, event: UploadEvent) -> bool {
    match stage {
        UploadStage::Tarball => event == UploadEvent::TarballCurrent,
        UploadStage::Claim => event == UploadEvent::Claimed(Ok(())),
        UploadStage::Field => event matches UploadEvent::Field(Ok(Some(head))) && field_fault(head)
            is None,
        UploadStage::Directory => event == UploadEvent::Directory(true),
        UploadStage::File => event == UploadEvent::Opened(true),
        UploadStage::Chunk => event matches UploadEvent::Chunk(Ok(_)),
        UploadStage::Space => event == UploadEvent::Freed(Ok(())),
        UploadStage::Write => event == UploadEvent::Written(true),
        UploadStage::Cache => event == UploadEvent::Cached,
        UploadStage::Finish => false,
        UploadStage::Over => false,
    }
}

/// What an upload in the given stage waits for after an event with which it
/// goes on.
spec fn stage_after(stage: UploadStage, event: UploadEvent) -> UploadStage {
    match stage {
        UploadStage::Tarball => UploadStage::Claim,
        UploadStage::Claim => UploadStage::Field,
        UploadStage::Field => UploadStage::Directory,
        UploadStage::Directory => UploadStage::File,
        UploadStage::File => UploadStage::Chunk,
        UploadStage::Chunk => if event == UploadEvent::Chunk(Ok(None)) {
            UploadStage::Cache
        } else {
            UploadStage::Space
        },
        UploadStage::Space => UploadStage::Write,
        UploadStage::Write => UploadStage::Chunk,
        UploadStage::Cache => UploadStage::Finish,
        UploadStage::Finish => UploadStage::Over,
        UploadStage::Over => UploadStage::Over,
    }
}

proof fn lemma_step(upload: UploadView, event: UploadEvent)
    requires
        upload.expects(event),
        upload.after(event).stage != UploadStage::Over,
    ensures
        goes_on(upload.stage, event),
        upload.after(event).stage == stage_after(upload.stage, event),
{
    match event {
        UploadEvent::Claimed(Ok(unit)) => {
            assert(unit == ());
        },
        UploadEvent::Freed(Ok(unit)) => {
            assert(unit == ());
        },
        _ => {},
    }
}

/// The stage of an upload which went on after each of `events`.
spec fn stage_of(events: Seq<UploadEvent>) -> UploadStage
    decreases events.len(),
{
    if events.len() == 0 {
        UploadStage::Tarball
    } else {
        stage_after(stage_of(events.drop_last()), events.last())
    }
}

/// Whether an upload went on after each of `events`.
spec fn went_on(events: Seq<UploadEvent>) -> bool
    decreases events.len(),
{
    events.len() > 0 ==> {
        &&& went_on(events.drop_last())
        &&& goes_on(stage_of(events.drop_last()), events.last())
    }
}

proof fn lemma_run_went_on(start: UploadView, events: Seq<UploadEvent>)
    requires
        start.stage == UploadStage::Tarball,
        is_run(start, events),
        run(start, events).stage != UploadStage::Over,
    ensures
        went_on(events),
        run(start, events).stage == stage_of(events),
    decreases events.len(),
{
    if events.len() > 0 {
        let earlier = run(start, events.drop_last());
        assert(earlier.stage != UploadStage::Over);
        lemma_run_went_on(start, events.drop_last());
        lemma_step(earlier, events.last());
    }
}

proof fn lemma_prepared(events: Seq<UploadEvent>)
    requires
        went_on(events),
    ensures
        prepared(events),
        match stage_of(events) {
            UploadStage::Tarball => events.len() == 0,
            UploadStage::Claim => events.len() == 1,
            UploadStage::Field => events.len() == 2,
            UploadStage::Directory => events.len() == 3,
            UploadStage::File => events.len() == 4,
            UploadStage::Chunk => events.len() > 4,
            UploadStage::Space | UploadStage::Cache => events.len() > 5,
            UploadStage::Write | UploadStage::Finish => events.len() > 6,
            UploadStage::Over => false,
        },
    decreases events.len(),
{
    if events.len() > 0 {
        let earlier = events.drop_last();
        lemma_prepared(earlier);
        assert(forall|i: int| 0 <= i < earlier.len() ==> earlier[i] == events[i]);
        assert(events.last() == events[events.len() - 1]);
    }
}

proof fn lemma_went_on_before(events: Seq<UploadEvent>, count: int)
    requires
        went_on(events),
        0 <= count <= events.len(),
    ensures
        went_on(events.take(count)),
        count < events.len() ==> {
            &&& goes_on(stage_of(events.take(count)), events[count])
            &&& stage_of(events.take(count + 1)) == stage_after(
                stage_of(events.take(count)),
                events[count],
            )
        },
    decreases events.len() - count,
{
    if count == events.len() {
        assert(events.take(count) =~= events);
    } else {
        lemma_went_on_before(events, count + 1);
        assert(events.take(count + 1).drop_last() =~= events.take(count));
        assert(events.take(count + 1).last() == events[count]);
    }
}

proof fn lemma_chunks_are_written(events: Seq<UploadEvent>)
    requires
        went_on(events),
    ensures
        chunks_are_written(events),
{
    assert forall|k: int|
        0 <= k < events.len() - 2 && (#[trigger] events[k] matches UploadEvent::Chunk(
            Ok(Some(_)),
        )) implies events[k + 1] == UploadEvent::Freed(Ok(())) && events[k + 2]
        == UploadEvent::Written(true) by {
        lemma_went_on_before(events, k);
        lemma_went_on_before(events, k + 1);
        lemma_went_on_before(events, k + 2);
        assert(stage_of(events.take(k + 1)) == UploadStage::Space);
        assert(stage_of(events.take(k + 2)) == UploadStage::Write);
    }
}

/// An upload goes on only as long as everything goes well, in this order: the
/// tarball is the latest one, the request is claimed, the form field is
/// acceptable, the directory and the file are created. After that each chunk is
/// written, once there is enough space for it, before the next one is read.
pub proof fn law_upload_order(start: UploadView, events: Seq<UploadEvent>)
    requires
        start.stage == UploadStage::Tarball,
        is_run(start, events),
        run(start, events).stage != UploadStage::Over,
    ensures
        prepared(events),
        chunks_are_written(events),
{
    lemma_run_went_on(start, events);
    lemma_prepared(events);
    lemma_chunks_are_written(events);
}

/// All data in a series of events.
pub open spec fn data_of(events: Seq<UploadEvent>) -> Seq<u8>
    decreases events.len(),
{
    if events.len() == 0 {
        Seq::empty()
    } else {
        data_of(events.drop_last()) + match events.last() {
            UploadEvent::Chunk(Ok(Some(chunk))) => chunk@,
            _ => Seq::empty(),
        }
    }
}

/// What an upload has received after a series of events.
proof fn lemma_run_receives(start: UploadView, events: Seq<UploadEvent>)
    requires
        is_run(start, events),
        start.received == Seq::<u8>::empty(),
        run(start, events).stage != UploadStage::Over,
        run(start, events).stage != UploadStage::Finish,
    ensures
        run(start, events).received == data_of(events),
    decreases events.len(),
{
    if events.len() > 0 {
        lemma_run_receives(start, events.drop_last());
        assert(run(start, events).received =~= data_of(events));
    }
}

/// An upload is for the same request all the time.
pub proof fn lemma_run_keeps_request(start: UploadView, events: Seq<UploadEvent>)
    ensures
        run(start, events).device == start.device,
        run(start, events).md5sum == start.md5sum,
    decreases events.len(),
{
    if events.len() > 0 {
        lemma_run_keeps_request(start, events.drop_last());
    }
}

/// A request is marked as done only after all data was written and the image
/// was added to the image cache, and with the checksum of that data.
pub proof fn law_done_comes_last(start: UploadView, events: Seq<UploadEvent>, event: UploadEvent)
    requires
        start.stage == UploadStage::Tarball,
        start.received == Seq::<u8>::empty(),
        is_run(start, events.push(event)),
        run(start, events).action(event) is MarkDone,
    ensures
        event == UploadEvent::Cached,
        events.len() > 5,
        prepared(events),
        chunks_are_written(events),
        events.last() == UploadEvent::Chunk(Ok(None)),
        run(start, events).action(event) == UploadActionView::MarkDone(
            digest::md5_text(data_of(events)),
        ),
{
    assert(events.push(event).drop_last() =~= events);
    assert(run(start, events).stage == UploadStage::Cache);
    lemma_run_went_on(start, events);
    lemma_prepared(events);
    lemma_chunks_are_written(events);
    lemma_run_receives(start, events);
    let last = events.len() - 1;
    lemma_went_on_before(events, last);
    assert(events.take(last + 1) =~= events);
}

/// Each chunk is written as it was read, once there is enough space for it.
pub proof fn law_chunk_is_written_as_read(upload: UploadView, chunk: Vec<u8>)
    ensures
        ({
            let read = UploadEvent::Chunk(Ok(Some(chunk)));
            let freed = UploadEvent::Freed(Ok(()));
            &&& upload.action(read) == UploadActionView::FreeSpace(chunk@.len() as u64)
            &&& upload.after(read).expects(freed)
            &&& upload.after(read).action(freed) == UploadActionView::WriteChunk(chunk@)
        }),
{
}

/// While an upload runs, and when it ends, exactly that is cleaned up which was
/// done so far.
pub proof fn law_cleanup_is_complete(start: UploadView, events: Seq<UploadEvent>)
    requires
        start.wf(),
        is_run(start, events),
    ensures
        run(start, events).wf(),
    decreases events.len(),
{
    if events.len() > 0 {
        law_cleanup_is_complete(start, events.drop_last());
    }
}

/// An upload which fails after its request was claimed leaves the request to be
/// set to 'building', and the file, if it was created, to be removed. One which
/// fails earlier or succeeds leaves nothing to be cleaned up.
pub proof fn law_failed_upload_is_cleaned_up(upload: UploadView, event: UploadEvent)
    requires
        upload.wf(),
        upload.expects(event),
        upload.action(event) is Respond,
    ensures
        upload.after(event).stage == UploadStage::Over,
        match upload.stage {
            UploadStage::Tarball | UploadStage::Claim | UploadStage::Finish => {
                &&& upload.after(event).reset is None
                &&& upload.after(event).removal is None
            },
            UploadStage::Field | UploadStage::Directory | UploadStage::File => {
                &&& upload.after(event).reset == Some((upload.device, upload.md5sum))
                &&& upload.after(event).removal is None
            },
            _ => {
                &&& upload.after(event).reset == Some((upload.device, upload.md5sum))
                &&& upload.after(event).removal == Some(upload.path())
            },
        },
{
}

/// Once there is a reply, nothing else happens.
pub proof fn law_reply_ends_upload(upload: UploadView, event: UploadEvent)
    requires
        upload.stage == UploadStage::Over,
    ensures
        !upload.expects(event),
{
}

/// An action of an upload holds its parts unchanged.
pub proof fn law_actions_hold_their_parts(
    size: u64,
    chunk: Vec<u8>,
    img_md5sum: String,
    reply: Reply,
)
    ensures
        UploadAction::CheckTarball@ is CheckTarball,
        UploadAction::ClaimRequest@ is ClaimRequest,
        UploadAction::ReadField@ is ReadField,
        UploadAction::CreateDirectory@ is CreateDirectory,
        UploadAction::OpenFile@ is OpenFile,
        UploadAction::ReadChunk@ is ReadChunk,
        UploadAction::FreeSpace(size)@ == UploadActionView::FreeSpace(size),
        UploadAction::WriteChunk(chunk)@ == UploadActionView::WriteChunk(chunk@),
        UploadAction::CacheImage@ is CacheImage,
        UploadAction::MarkDone(img_md5sum)@ == UploadActionView::MarkDone(img_md5sum@),
        UploadAction::Respond(reply)@ == UploadActionView::Respond(reply@),
{
}

/// A form field is acceptable if and only if it has some file name, whatever
/// that name is, and the content type of images. Otherwise the answer is 400 and
/// tells what is wrong.
pub proof fn law_acceptable_form_fields(head: FieldHead)
    ensures
        field_fault(head) is None <==> {
            &&& head.file_name is Some
            &&& head.content_type matches Some(content_type)
            &&& content_type@ == "application/octet-stream"@
        },
        head.file_name is None ==> field_fault(head) == Some(
            ReplyView::message(400, "multipart/form-data is missing filename"@),
        ),
        head.file_name is Some && head.content_type is None ==> field_fault(head) == Some(
            ReplyView::message(400, "invalid multipart content type: None"@),
        ),
        head.file_name is Some ==> (head.content_type matches Some(content_type) && content_type@
            != "application/octet-stream"@) ==> field_fault(head) == Some(
            ReplyView::message(
                400,
                "invalid multipart content type: Some("@ + text::str_debug(head.content_type->0@)
                    + ")"@,
            ),
        ),
{
    reveal_strlit("invalid multipart content type: ");
    reveal_strlit("None");
    reveal_strlit("Some(");
    reveal_strlit("invalid multipart content type: None");
    reveal_strlit("invalid multipart content type: Some(");
    assert("invalid multipart content type: "@ + "None"@
        =~= "invalid multipart content type: None"@);
    assert("invalid multipart content type: "@ + "Some("@
        =~= "invalid multipart content type: Some("@);
    if head.content_type is Some {
        let quoted = text::str_debug(head.content_type->0@);
        assert("invalid multipart content type: "@ + ("Some("@ + quoted + ")"@)
            =~= "invalid multipart content type: Some("@ + quoted + ")"@);
    }
}

/// An upload waits for one thing at a time, whatever comes of it.
pub proof fn law_upload_waits_for_its_action(upload: UploadView, event: UploadEvent)
    ensures
        upload.expects(event) <==> {
            ||| upload.stage is Tarball && (event is TarballCurrent || event is TarballOutdated)
            ||| upload.stage is Claim && event is Claimed && event->Claimed_0
                != Err::<(), Error>(Error::MissingUploadSecret)
            ||| upload.stage is Field && event is Field
            ||| upload.stage is Directory && event is Directory
            ||| upload.stage is File && event is Opened
            ||| upload.stage is Chunk && event is Chunk
            ||| upload.stage is Space && event is Freed && event->Freed_0
                != Err::<(), Error>(Error::MissingUploadSecret)
            ||| upload.stage is Write && event is Written
            ||| upload.stage is Cache && event is Cached
            ||| upload.stage is Finish && event is Finished && event->Finished_0
                != Err::<(), Error>(Error::MissingUploadSecret)
        },
{
}

/// An upload stays with its request and its tarball. What must be cleaned up
/// changes only when the request is claimed, the file is created and the image
/// is complete.
pub proof fn law_upload_keeps_request(upload: UploadView, event: UploadEvent)
    ensures
        upload.path() == api::path_of(upload.device, upload.md5sum),
        upload.after(event).device == upload.device,
        upload.after(event).md5sum == upload.md5sum,
        upload.after(event).alarm_md5sum == upload.alarm_md5sum,
        upload.after(event).reset == (if event == UploadEvent::Claimed(Ok(())) {
            Some((upload.device, upload.md5sum))
        } else if event is Cached {
            None
        } else {
            upload.reset
        }),
        upload.after(event).removal == (if event == UploadEvent::Opened(true) {
            Some(api::path_of(upload.device, upload.md5sum))
        } else if event is Cached {
            None
        } else {
            upload.removal
        }),
{
    if let UploadEvent::Claimed(Ok(unit)) = event {
        assert(unit == ());
    }
}

/// If the tarball is the latest one, the request can be claimed, the form field
/// is acceptable and the file can be created, an upload goes on to read data:
/// for every device and every checksum.
pub proof fn law_welcome_upload_goes_on(upload: UploadView, head: FieldHead)
    requires
        upload.stage is Tarball,
        head.file_name is Some,
        head.content_type is Some,
        head.content_type->0@ == "application/octet-stream"@,
    ensures
        ({
            let current = UploadEvent::TarballCurrent;
            let claimed = UploadEvent::Claimed(Ok(()));
            let field = UploadEvent::Field(Ok(Some(head)));
            let directory = UploadEvent::Directory(true);
            let opened = UploadEvent::Opened(true);
            let second = upload.after(current);
            let third = second.after(claimed);
            let fourth = third.after(field);
            let fifth = fourth.after(directory);
            let last = fifth.after(opened);
            &&& upload.expects(current)
            &&& upload.action(current) is ClaimRequest
            &&& second.expects(claimed)
            &&& second.action(claimed) is ReadField
            &&& third.expects(field)
            &&& third.action(field) is CreateDirectory
            &&& fourth.expects(directory)
            &&& fourth.action(directory) is OpenFile
            &&& fifth.expects(opened)
            &&& fifth.action(opened) is ReadChunk
            &&& last.stage is Chunk
            &&& last.received == upload.received
            &&& last.device == upload.device
            &&& last.md5sum == upload.md5sum
        }),
{
    law_acceptable_form_fields(head);
}

/// The upload after reading a chunk, making space for it and writing it.
pub open spec fn after_chunk(upload: UploadView, chunk: Vec<u8>) -> UploadView {
    upload.after(UploadEvent::Chunk(Ok(Some(chunk)))).after(UploadEvent::Freed(Ok(()))).after(
        UploadEvent::Written(true),
    )
}

/// The upload after writing a series of chunks.
pub open spec fn after_chunks(upload: UploadView, chunks: Seq<Vec<u8>>) -> UploadView
    decreases chunks.len(),
{
    if chunks.len() == 0 {
        upload
    } else {
        after_chunk(after_chunks(upload, chunks.drop_last()), chunks.last())
    }
}

/// Each chunk is written as it was read, whatever it holds and however long it
/// is, once there is space for exactly its bytes. Then the next chunk is read.
pub proof fn law_every_chunk_is_written(upload: UploadView, chunk: Vec<u8>)
    requires
        upload.stage is Chunk,
    ensures
        ({
            let read = UploadEvent::Chunk(Ok(Some(chunk)));
            let freed = UploadEvent::Freed(Ok(()));
            let written = UploadEvent::Written(true);
            let second = upload.after(read);
            let third = second.after(freed);
            let last = after_chunk(upload, chunk);
            &&& upload.expects(read)
            &&& chunk@.len() <= u64::MAX ==> (upload.action(read) matches UploadActionView::FreeSpace(
                size,
            ) && size == chunk@.len())
            &&& second.expects(freed)
            &&& second.action(freed) == UploadActionView::WriteChunk(chunk@)
            &&& third.expects(written)
            &&& third.action(written) is ReadChunk
            &&& last.stage is Chunk
            &&& last.received == upload.received + chunk@
            &&& last.device == upload.device
            &&& last.md5sum == upload.md5sum
            &&& last.reset == upload.reset
            &&& last.removal == upload.removal
        }),
{
}

/// All bytes of a series of chunks, in their order.
pub open spec fn bytes_of(chunks: Seq<Vec<u8>>) -> Seq<u8> {
    chunks.map_values(|chunk: Vec<u8>| chunk@).flatten()
}

/// However many chunks there are, an upload goes on after writing them, and has
/// received all of their bytes.
pub proof fn law_all_chunks_are_received(upload: UploadView, chunks: Seq<Vec<u8>>)
    requires
        upload.stage is Chunk,
    ensures
        after_chunks(upload, chunks).stage is Chunk,
        after_chunks(upload, chunks).received == upload.received + bytes_of(chunks),
        after_chunks(upload, chunks).device == upload.device,
        after_chunks(upload, chunks).md5sum == upload.md5sum,
        after_chunks(upload, chunks).reset == upload.reset,
        after_chunks(upload, chunks).removal == upload.removal,
    decreases chunks.len(),
{
    let views = chunks.map_values(|chunk: Vec<u8>| chunk@);
    if chunks.len() == 0 {
        assert(bytes_of(chunks) =~= Seq::<u8>::empty());
        assert(upload.received + bytes_of(chunks) =~= upload.received);
    } else {
        let init = chunks.drop_last();
        let earlier = after_chunks(upload, init);
        law_all_chunks_are_received(upload, init);
        law_every_chunk_is_written(earlier, chunks.last());
        assert(views.drop_last() =~= init.map_values(|chunk: Vec<u8>| chunk@));
        views.lemma_flatten_and_flatten_alt_are_equivalent();
        views.drop_last().lemma_flatten_and_flatten_alt_are_equivalent();
        assert(views.flatten() =~= views.drop_last().flatten() + views.last());
        assert(upload.received + bytes_of(chunks) =~= (upload.received + bytes_of(init))
            + chunks.last()@);
    }
}

/// Once all data was read, the image is added to the image cache, its request is
/// marked as done with the checksum of all received bytes, and the upload is
/// answered with 200. Then nothing is left to be cleaned up.
pub proof fn law_complete_upload_succeeds(upload: UploadView)
    requires
        upload.stage is Chunk,
    ensures
        ({
            let end = UploadEvent::Chunk(Ok(None));
            let finished = UploadEvent::Finished(Ok(()));
            let second = upload.after(end);
            let third = second.after(UploadEvent::Cached);
            let last = third.after(finished);
            &&& upload.expects(end)
            &&& upload.action(end) is CacheImage
            &&& second.expects(UploadEvent::Cached)
            &&& second.action(UploadEvent::Cached) == UploadActionView::MarkDone(
                digest::md5_text(upload.received),
            )
            &&& third.expects(finished)
            &&& third.action(finished) == UploadActionView::Respond(ReplyView::bare(200))
            &&& last.stage is Over
            &&& last.reset is None
            &&& last.removal is None
        }),
{
}

/// What is answered to an upload which cannot be completed. Whatever comes in
/// between, it is over then.
pub proof fn law_failed_uploads_are_answered(
    upload: UploadView,
    latest: Option<String>,
    error: Error,
    head: FieldHead,
    code: u16,
    message: String,
)
    ensures
        upload.action(UploadEvent::TarballOutdated(latest)) == UploadActionView::Respond(
            ReplyView::message(
                400,
                "MD5 "@ + upload.alarm_md5sum + " doesn't match ALARM tarball checksum ("@ + (
                match latest {
                    Some(checksum) => "Some("@ + text::str_debug(checksum@) + ")"@,
                    None => "None"@,
                }) + ")"@,
            ),
        ),
        upload.action(UploadEvent::Claimed(Err(error))) == UploadActionView::Respond(error.reply()),
        upload.action(UploadEvent::Field(Ok(None))) == UploadActionView::Respond(
            ReplyView::bare(400),
        ),
        upload.action(UploadEvent::Field(Err(code))) == UploadActionView::Respond(
            ReplyView::bare(code),
        ),
        field_fault(head) matches Some(reply) ==> upload.action(UploadEvent::Field(Ok(Some(head))))
            == UploadActionView::Respond(reply),
        upload.action(UploadEvent::Directory(false)) == UploadActionView::Respond(
            ReplyView::bare(500),
        ),
        upload.action(UploadEvent::Opened(false)) == UploadActionView::Respond(
            ReplyView::bare(500),
        ),
        upload.action(UploadEvent::Chunk(Err(message))) == UploadActionView::Respond(
            ReplyView::message(400, message@),
        ),
        upload.action(UploadEvent::Freed(Err(error))) == UploadActionView::Respond(error.reply()),
        upload.action(UploadEvent::Written(false)) == UploadActionView::Respond(
            ReplyView::bare(500),
        ),
        upload.action(UploadEvent::Finished(Err(error))) == UploadActionView::Respond(
            error.reply(),
        ),
        upload.after(UploadEvent::TarballOutdated(latest)).stage is Over,
        upload.after(UploadEvent::Claimed(Err(error))).stage is Over,
        upload.after(UploadEvent::Field(Ok(None))).stage is Over,
        upload.after(UploadEvent::Field(Err(code))).stage is Over,
        field_fault(head) is Some ==> upload.after(
            UploadEvent::Field(Ok(Some(head))),
        ).stage is Over,
        upload.after(UploadEvent::Directory(false)).stage is Over,
        upload.after(UploadEvent::Opened(false)).stage is Over,
        upload.after(UploadEvent::Chunk(Err(message))).stage is Over,
        upload.after(UploadEvent::Freed(Err(error))).stage is Over,
        upload.after(UploadEvent::Written(false)).stage is Over,
        upload.after(UploadEvent::Finished(Err(error))).stage is Over,
{
}

} // verus!
