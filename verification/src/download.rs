//! Download of built images.
//!
//! A [`Download`] decides what is done next. Whoever runs it performs the
//! action and hands back how that went, until there is a reply.

use vstd::prelude::*;
use vstd::string::*;

use crate::api;
use crate::db::{Device, RequestStatus, Status};
use crate::error::{Error, Reply, ReplyView, INTERNAL_SERVER_ERROR, NOT_FOUND};
use crate::upload;

verus! {

/// What a download waits for.
#[derive(Copy, Clone, PartialEq, Eq, Structural, Debug)]
pub enum DownloadStage {
    /// The update of the ALARM tarball checksum.
    Checksum,
    /// The status of the request.
    Lookup,
    /// The image file.
    File,
    /// The removal of a request without image.
    Delete,
    /// The assembly of the response.
    Response,
    /// Nothing, since there is a reply.
    Over,
}

/// How an action of a download went.
pub enum DownloadEvent {
    /// The ALARM tarball checksum, if it has changed.
    Checked(Option<String>),
    /// The status of the request, if it is known.
    Found(Result<Option<RequestStatus>, Error>),
    /// Whether the image file was opened.
    Opened(bool),
    /// The request was removed, as far as possible.
    Deleted,
    /// Whether the response could be assembled.
    Assembled(bool),
}

/// What has to be done next for a download.
pub enum DownloadAction {
    /// Check for updates of the ALARM tarball, to invalidate old images.
    UpdateChecksum,
    /// Get the status of the request.
    FetchStatus,
    /// Mark the image as accessed and open its file.
    OpenImage,
    /// Remove the request, to allow a rebuild.
    DeleteRequest,
    /// Assemble a response with the file and its headers.
    AssembleResponse,
    /// Send the response with the file.
    SendImage,
    /// Send the reply.
    Respond(Reply),
}

/// What a [`DownloadAction`] holds.
pub enum DownloadActionView {
    UpdateChecksum,
    FetchStatus,
    OpenImage,
    DeleteRequest,
    AssembleResponse,
    SendImage,
    Respond(ReplyView),
}

impl View for DownloadAction {
    type V = DownloadActionView;

    open spec fn view(&self) -> DownloadActionView {
        match self {
            DownloadAction::UpdateChecksum => DownloadActionView::UpdateChecksum,
            DownloadAction::FetchStatus => DownloadActionView::FetchStatus,
            DownloadAction::OpenImage => DownloadActionView::OpenImage,
            DownloadAction::DeleteRequest => DownloadActionView::DeleteRequest,
            DownloadAction::AssembleResponse => DownloadActionView::AssembleResponse,
            DownloadAction::SendImage => DownloadActionView::SendImage,
            DownloadAction::Respond(reply) => DownloadActionView::Respond(reply@),
        }
    }
}

/// What a [`Download`] holds.
pub struct DownloadView {
    pub stage: DownloadStage,
    pub device: Device,
    pub md5sum: Seq<char>,
}

impl DownloadView {
    /// Whether `event` is what the download waits for.
    pub open spec fn expects(self, event: DownloadEvent) -> bool {
        match event {
            DownloadEvent::Checked(_) => self.stage == DownloadStage::Checksum,
            DownloadEvent::Found(result) => self.stage == DownloadStage::Lookup && (
            result matches Err(error) ==> error.in_request()),
            DownloadEvent::Opened(_) => self.stage == DownloadStage::File,
            DownloadEvent::Deleted => self.stage == DownloadStage::Delete,
            DownloadEvent::Assembled(_) => self.stage == DownloadStage::Response,
        }
    }

    /// What is done after `event`.
    pub open spec fn action(self, event: DownloadEvent) -> DownloadActionView {
        match event {
            DownloadEvent::Checked(None) => DownloadActionView::FetchStatus,
            DownloadEvent::Checked(Some(_)) => DownloadActionView::Respond(
                ReplyView::bare(NOT_FOUND),
            ),
            DownloadEvent::Found(Ok(Some(status))) => if status.status == Status::Done {
                DownloadActionView::OpenImage
            } else {
                DownloadActionView::Respond(ReplyView::bare(NOT_FOUND))
            },
            DownloadEvent::Found(Ok(None)) => DownloadActionView::Respond(
                ReplyView::bare(NOT_FOUND),
            ),
            DownloadEvent::Found(Err(error)) => DownloadActionView::Respond(error.reply()),
            DownloadEvent::Opened(true) => DownloadActionView::AssembleResponse,
            DownloadEvent::Opened(false) => DownloadActionView::DeleteRequest,
            DownloadEvent::Assembled(true) => DownloadActionView::SendImage,
            DownloadEvent::Deleted | DownloadEvent::Assembled(false) => DownloadActionView::Respond(
                ReplyView::bare(INTERNAL_SERVER_ERROR),
            ),
        }
    }

    /// The download after `event`.
    pub open spec fn after(self, event: DownloadEvent) -> DownloadView {
        DownloadView {
            stage: match self.action(event) {
                DownloadActionView::UpdateChecksum => DownloadStage::Checksum,
                DownloadActionView::FetchStatus => DownloadStage::Lookup,
                DownloadActionView::OpenImage => DownloadStage::File,
                DownloadActionView::DeleteRequest => DownloadStage::Delete,
                DownloadActionView::AssembleResponse => DownloadStage::Response,
                DownloadActionView::SendImage => DownloadStage::Over,
                DownloadActionView::Respond(_) => DownloadStage::Over,
            },
            ..self
        }
    }
}

/// The `content-disposition` header for an image file.
pub open spec fn disposition_of(filename: Seq<char>) -> Seq<char> {
    "attachment; filename=\""@ + filename + "\""@
}

/// Download of a built image.
pub struct Download {
    stage: DownloadStage,
    device: Device,
    md5sum: String,
}

impl View for Download {
    type V = DownloadView;

    closed spec fn view(&self) -> DownloadView {
        DownloadView { stage: self.stage, device: self.device, md5sum: self.md5sum@ }
    }
}

impl Download {
    /// Start the download of the image for the given request.
    pub fn start(device: Device, md5sum: String) -> (started: (Self, DownloadAction))
        ensures
            started.0@ == (DownloadView { stage: DownloadStage::Checksum, device, md5sum: md5sum@ }),
            started.1@ == DownloadActionView::UpdateChecksum,
    {
        let download = Download { stage: DownloadStage::Checksum, device, md5sum };
        (download, DownloadAction::UpdateChecksum)
    }

    /// Whether `event` is what the download waits for.
    pub fn expects(&self, event: &DownloadEvent) -> (expected: bool)
        ensures
            expected == self@.expects(*event),
    {
        match event {
            DownloadEvent::Checked(_) => self.stage == DownloadStage::Checksum,
            DownloadEvent::Found(Err(Error::MissingUploadSecret)) => false,
            DownloadEvent::Found(_) => self.stage == DownloadStage::Lookup,
            DownloadEvent::Opened(_) => self.stage == DownloadStage::File,
            DownloadEvent::Deleted => self.stage == DownloadStage::Delete,
            DownloadEvent::Assembled(_) => self.stage == DownloadStage::Response,
        }
    }

    /// Decide what is done after `event`.
    pub fn step(&mut self, event: DownloadEvent) -> (action: DownloadAction)
        requires
            old(self)@.expects(event),
        ensures
            final(self)@ == old(self)@.after(event),
            action@ == old(self)@.action(event),
    {
        let action = match event {
            DownloadEvent::Checked(None) => DownloadAction::FetchStatus,
            DownloadEvent::Checked(Some(_)) => DownloadAction::Respond(Reply::bare(NOT_FOUND)),
            DownloadEvent::Found(Ok(Some(status))) => if status.status == Status::Done {
                DownloadAction::OpenImage
            } else {
                DownloadAction::Respond(Reply::bare(NOT_FOUND))
            },
            DownloadEvent::Found(Ok(None)) => DownloadAction::Respond(Reply::bare(NOT_FOUND)),
            DownloadEvent::Found(Err(error)) => DownloadAction::Respond(error.into_response()),
            DownloadEvent::Opened(opened) => if opened {
                DownloadAction::AssembleResponse
            } else {
                DownloadAction::DeleteRequest
            },
            DownloadEvent::Deleted => DownloadAction::Respond(Reply::bare(INTERNAL_SERVER_ERROR)),
            DownloadEvent::Assembled(assembled) => if assembled {
                DownloadAction::SendImage
            } else {
                DownloadAction::Respond(Reply::bare(INTERNAL_SERVER_ERROR))
            },
        };
        self.stage = match &action {
            DownloadAction::UpdateChecksum => DownloadStage::Checksum,
            DownloadAction::FetchStatus => DownloadStage::Lookup,
            DownloadAction::OpenImage => DownloadStage::File,
            DownloadAction::DeleteRequest => DownloadStage::Delete,
            DownloadAction::AssembleResponse => DownloadStage::Response,
            DownloadAction::SendImage => DownloadStage::Over,
            DownloadAction::Respond(_) => DownloadStage::Over,
        };
        action
    }

    /// The path of the image file.
    pub fn path(&self) -> (path: String)
        ensures
            path@ == api::path_of(self@.device, self@.md5sum),
    {
        api::image_path(self.device, self.md5sum.as_str())
    }

    /// The `content-disposition` header of the response.
    pub fn content_disposition(&self) -> (header: String)
        ensures
            header@ == disposition_of(api::filename_of(self@.device, self@.md5sum)),
    {
        "attachment; filename=\"".to_owned().concat(
            api::image_filename(self.device, self.md5sum.as_str()).as_str(),
        ).concat("\"")
    }

    /// The `content-type` header of the response.
    pub fn content_type(&self) -> (header: &'static str)
        ensures
            header@ == upload::image_content_type(),
    {
        "application/octet-stream"
    }
}

/// The download after a series of events.
pub open spec fn run(start: DownloadView, events: Seq<DownloadEvent>) -> DownloadView
    decreases events.len(),
{
    if events.len() == 0 {
        start
    } else {
        run(start, events.drop_last()).after(events.last())
    }
}

/// Whether each event of a series is expected when it occurs.
pub open spec fn is_run(start: DownloadView, events: Seq<DownloadEvent>) -> bool
    decreases events.len(),
{
    events.len() > 0 ==> {
        &&& is_run(start, events.drop_last())
        &&& run(start, events.drop_last()).expects(events.last())
    }
}

/// An image is sent only if the tarball has not changed, the request is done
/// and the file could be opened.
pub proof fn law_image_is_sent_only_if_done(
    start: DownloadView,
    events: Seq<DownloadEvent>,
    event: DownloadEvent,
)
    requires
        start.stage == DownloadStage::Checksum,
        is_run(start, events.push(event)),
        run(start, events).action(event) == DownloadActionView::SendImage,
    ensures
        events.len() == 3,
        events[0] matches DownloadEvent::Checked(None),
        events[1] matches DownloadEvent::Found(Ok(Some(status))) && status.status == Status::Done,
        events[2] == DownloadEvent::Opened(true),
        event == DownloadEvent::Assembled(true),
{
    assert(events.push(event).drop_last() =~= events);
    reveal_with_fuel(run, 5);
    reveal_with_fuel(is_run, 5);
    let third = events.drop_last();
    let second = third.drop_last();
    let first = second.drop_last();
    assert(run(start, events).stage == DownloadStage::Response);
    assert(events.len() > 0);
    assert(run(start, third).stage == DownloadStage::File);
    assert(third.len() > 0);
    assert(third.last() == events[events.len() - 2]);
    assert(run(start, second).stage == DownloadStage::Lookup);
    assert(second.len() > 0);
    assert(second.last() == events[events.len() - 3]);
    assert(run(start, first).stage == DownloadStage::Checksum);
    if first.len() > 0 {
        assert(run(start, first) == run(start, first.drop_last()).after(first.last()));
    }
}

/// A request is removed only if it is done and its image file could not be
/// opened, and then the download fails.
pub proof fn law_request_is_removed_only_without_image(download: DownloadView, event: DownloadEvent)
    requires
        download.expects(event),
        download.action(event) == DownloadActionView::DeleteRequest,
    ensures
        download.stage == DownloadStage::File,
        event == DownloadEvent::Opened(false),
        download.after(event).action(DownloadEvent::Deleted) == DownloadActionView::Respond(
            ReplyView::bare(INTERNAL_SERVER_ERROR),
        ),
{
}

/// After a change of the tarball no image is found.
pub proof fn law_changed_tarball_invalidates_images(download: DownloadView, checksum: String)
    requires
        download.stage == DownloadStage::Checksum,
    ensures
        download.action(DownloadEvent::Checked(Some(checksum))) == DownloadActionView::Respond(
            ReplyView::bare(NOT_FOUND),
        ),
{
}

/// An action of a download holds its reply.
pub proof fn law_actions_hold_their_parts(reply: Reply)
    ensures
        DownloadAction::UpdateChecksum@ is UpdateChecksum,
        DownloadAction::FetchStatus@ is FetchStatus,
        DownloadAction::OpenImage@ is OpenImage,
        DownloadAction::DeleteRequest@ is DeleteRequest,
        DownloadAction::AssembleResponse@ is AssembleResponse,
        DownloadAction::SendImage@ is SendImage,
        DownloadAction::Respond(reply)@ == DownloadActionView::Respond(reply@),
{
}

/// A download waits for one thing at a time, whatever comes of it.
pub proof fn law_download_waits_for_its_action(download: DownloadView, event: DownloadEvent)
    ensures
        download.expects(event) <==> {
            ||| download.stage is Checksum && event is Checked
            ||| download.stage is Lookup && event is Found && !(event->Found_0 matches Err(error)
                && error is MissingUploadSecret)
            ||| download.stage is File && event is Opened
            ||| download.stage is Delete && event is Deleted
            ||| download.stage is Response && event is Assembled
        },
{
}

/// A download stays with its request.
pub proof fn law_download_keeps_request(download: DownloadView, event: DownloadEvent)
    ensures
        download.after(event).device == download.device,
        download.after(event).md5sum == download.md5sum,
{
}

/// If the tarball has not changed, the request is done, the file can be opened
/// and the response assembled, the image is sent: for every device and every
/// checksum.
pub proof fn law_finished_image_is_sent(
    download: DownloadView,
    status: RequestStatus,
)
    requires
        download.stage is Checksum,
        status.status is Done,
    ensures
        ({
            let checked = DownloadEvent::Checked(None);
            let found = DownloadEvent::Found(Ok(Some(status)));
            let opened = DownloadEvent::Opened(true);
            let assembled = DownloadEvent::Assembled(true);
            let second = download.after(checked);
            let third = second.after(found);
            let fourth = third.after(opened);
            let events = seq![checked, found, opened, assembled];
            &&& download.expects(checked)
            &&& download.action(checked) is FetchStatus
            &&& second.expects(found)
            &&& second.action(found) is OpenImage
            &&& third.expects(opened)
            &&& third.action(opened) is AssembleResponse
            &&& fourth.expects(assembled)
            &&& fourth.action(assembled) is SendImage
            &&& fourth.after(assembled).stage is Over
            &&& is_run(download, events)
            &&& run(download, events) == fourth.after(assembled)
        }),
{
    let checked = DownloadEvent::Checked(None);
    let found = DownloadEvent::Found(Ok(Some(status)));
    let opened = DownloadEvent::Opened(true);
    let assembled = DownloadEvent::Assembled(true);
    let four = seq![checked, found, opened, assembled];
    let three = seq![checked, found, opened];
    let two = seq![checked, found];
    let one = seq![checked];
    reveal_with_fuel(run, 5);
    reveal_with_fuel(is_run, 5);
    assert(four.drop_last() =~= three);
    assert(three.drop_last() =~= two);
    assert(two.drop_last() =~= one);
    assert(one.drop_last() =~= Seq::<DownloadEvent>::empty());
}

/// What is answered to a download which cannot be served: 404 if the tarball has
/// changed or the request is unknown or not done, 500 if the file is missing or
/// cannot be sent, and otherwise what the error stands for. The request is
/// removed if and only if its file is missing.
pub proof fn law_unserved_downloads_are_answered(
    download: DownloadView,
    checksum: String,
    status: RequestStatus,
    error: Error,
)
    ensures
        download.action(DownloadEvent::Checked(Some(checksum))) == DownloadActionView::Respond(
            ReplyView::bare(404),
        ),
        download.action(DownloadEvent::Found(Ok(None))) == DownloadActionView::Respond(
            ReplyView::bare(404),
        ),
        !(status.status is Done) ==> download.action(DownloadEvent::Found(Ok(Some(status))))
            == DownloadActionView::Respond(ReplyView::bare(404)),
        download.action(DownloadEvent::Found(Err(error))) == DownloadActionView::Respond(
            error.reply(),
        ),
        download.action(DownloadEvent::Opened(false)) is DeleteRequest,
        download.after(DownloadEvent::Opened(false)).expects(DownloadEvent::Deleted),
        download.action(DownloadEvent::Deleted) == DownloadActionView::Respond(
            ReplyView::bare(500),
        ),
        download.action(DownloadEvent::Assembled(false)) == DownloadActionView::Respond(
            ReplyView::bare(500),
        ),
        download.after(DownloadEvent::Checked(Some(checksum))).stage is Over,
        download.after(DownloadEvent::Found(Ok(None))).stage is Over,
        !(status.status is Done) ==> download.after(
            DownloadEvent::Found(Ok(Some(status))),
        ).stage is Over,
        download.after(DownloadEvent::Found(Err(error))).stage is Over,
        download.after(DownloadEvent::Deleted).stage is Over,
        download.after(DownloadEvent::Assembled(false)).stage is Over,
{
}

/// A client is told to save the image under the name of its file.
pub proof fn law_image_is_saved_under_its_name(filename: Seq<char>)
    ensures
        disposition_of(filename) == "attachment; filename=\""@ + filename + "\""@,
        upload::image_content_type() == "application/octet-stream"@,
{
}

} // verus!
