use isotopia::db::{Db, Device, RequestStatus, Status};
use isotopia::download::{Download, DownloadAction, DownloadEvent};
use isotopia::error::{Body, Error, IoErrorKind, Reply};
use isotopia::upload::{FieldHead, Upload, UploadAction, UploadEvent};

const PATH: &str = "./images/alarm-pinephone-abc.img.xz";

fn start() -> Upload {
    let (upload, action) = Upload::start(
        Some(b"Bearer x"),
        "Bearer x",
        Device::PinePhone,
        "abc".into(),
        "tarball".into(),
    );
    assert!(matches!(action, UploadAction::CheckTarball));
    upload
}

fn step(upload: &mut Upload, event: UploadEvent) -> UploadAction {
    assert!(upload.expects(&event));
    upload.step(event)
}

fn head(file_name: Option<&str>, content_type: Option<&str>) -> UploadEvent {
    UploadEvent::Field(Ok(Some(FieldHead {
        file_name: file_name.map(String::from),
        content_type: content_type.map(String::from),
    })))
}

fn good_head() -> UploadEvent {
    head(Some("image"), Some("application/octet-stream"))
}

/// An upload after its first `count` events went well.
fn after(count: usize) -> Upload {
    let mut upload = start();
    let events = vec![
        UploadEvent::TarballCurrent,
        UploadEvent::Claimed(Ok(())),
        good_head(),
        UploadEvent::Directory(true),
        UploadEvent::Opened(true),
        UploadEvent::Chunk(Ok(Some(b"chunk".to_vec()))),
        UploadEvent::Freed(Ok(())),
        UploadEvent::Written(true),
        UploadEvent::Chunk(Ok(None)),
        UploadEvent::Cached,
    ];
    for event in events.into_iter().take(count) {
        step(&mut upload, event);
    }
    upload
}

fn refused(upload: &mut Upload, event: UploadEvent) -> Reply {
    match step(upload, event) {
        UploadAction::Respond(reply) => reply,
        _ => panic!("upload goes on"),
    }
}

fn check_cleanup(mut upload: Upload, reset: bool, removal: bool) {
    let cleanup = upload.end();
    let request = (Device::PinePhone, "abc".to_string());
    assert_eq!(cleanup.reset, if reset { Some(request) } else { None });
    assert_eq!(cleanup.removal, if removal { Some(PATH.to_string()) } else { None });
    let cleanup = upload.end();
    assert_eq!(cleanup.reset, None);
    assert_eq!(cleanup.removal, None);
}

fn bare(code: u16) -> Reply {
    Reply { code, body: Body::Empty }
}

fn text(code: u16, message: &str) -> Reply {
    Reply { code, body: Body::Text(message.into()) }
}

#[test]
fn successful_upload() {
    let mut upload = start();
    assert_eq!(upload.path(), PATH);
    assert!(matches!(
        step(&mut upload, UploadEvent::TarballCurrent),
        UploadAction::ClaimRequest
    ));
    assert!(matches!(
        step(&mut upload, UploadEvent::Claimed(Ok(()))),
        UploadAction::ReadField
    ));
    assert!(matches!(step(&mut upload, good_head()), UploadAction::CreateDirectory));
    assert!(matches!(
        step(&mut upload, UploadEvent::Directory(true)),
        UploadAction::OpenFile
    ));
    assert!(matches!(step(&mut upload, UploadEvent::Opened(true)), UploadAction::ReadChunk));
    for chunk in ["img ", "", "content"] {
        let chunk = chunk.as_bytes().to_vec();
        assert!(matches!(
            step(&mut upload, UploadEvent::Chunk(Ok(Some(chunk.clone())))),
            UploadAction::FreeSpace(size) if size == chunk.len() as u64
        ));
        assert!(matches!(
            step(&mut upload, UploadEvent::Freed(Ok(()))),
            UploadAction::WriteChunk(written) if written == chunk
        ));
        assert!(matches!(
            step(&mut upload, UploadEvent::Written(true)),
            UploadAction::ReadChunk
        ));
    }
    assert!(matches!(
        step(&mut upload, UploadEvent::Chunk(Ok(None))),
        UploadAction::CacheImage
    ));
    assert!(matches!(
        step(&mut upload, UploadEvent::Cached),
        UploadAction::MarkDone(img_md5sum)
            if img_md5sum == format!("{:x}", md5::compute("img content"))
    ));
    assert_eq!(refused(&mut upload, UploadEvent::Finished(Ok(()))), bare(200));
    check_cleanup(upload, false, false);
}

#[test]
fn unauthorized_upload() {
    let (upload, action) =
        Upload::start(None, "Bearer x", Device::PinePhone, "abc".into(), "tarball".into());
    assert!(matches!(action, UploadAction::Respond(reply) if reply == bare(401)));
    assert!(!upload.expects(&UploadEvent::TarballCurrent));
    check_cleanup(upload, false, false);
}

#[test]
fn outdated_upload() {
    let mut upload = start();
    let event = UploadEvent::TarballOutdated(Some("new".into()));
    assert_eq!(
        refused(&mut upload, event),
        text(400, "MD5 tarball doesn't match ALARM tarball checksum (Some(\"new\"))")
    );
    check_cleanup(upload, false, false);
    let mut upload = start();
    assert_eq!(
        refused(&mut upload, UploadEvent::TarballOutdated(None)),
        text(400, "MD5 tarball doesn't match ALARM tarball checksum (None)")
    );
}

#[test]
fn unclaimed_upload() {
    let mut upload = after(1);
    let event = UploadEvent::Claimed(Err(Error::StatusConflict));
    assert_eq!(refused(&mut upload, event), bare(409));
    check_cleanup(upload, false, false);
    assert!(!after(1).expects(&UploadEvent::Claimed(Err(Error::MissingUploadSecret))));
}

#[test]
fn malformed_upload() {
    for (event, reply) in [
        (UploadEvent::Field(Ok(None)), bare(400)),
        (UploadEvent::Field(Err(413)), bare(413)),
        (
            head(None, Some("application/octet-stream")),
            text(400, "multipart/form-data is missing filename"),
        ),
        (
            head(Some("image"), Some("text/plain")),
            text(400, "invalid multipart content type: Some(\"text/plain\")"),
        ),
        (head(Some("image"), None), text(400, "invalid multipart content type: None")),
    ] {
        let mut upload = after(2);
        assert_eq!(refused(&mut upload, event), reply);
        check_cleanup(upload, true, false);
    }
}

#[test]
fn failed_upload() {
    let io = || Error::Io(IoErrorKind::StorageFull, "full".into());
    for (count, event, reply, removal) in [
        (3, UploadEvent::Directory(false), bare(500), false),
        (4, UploadEvent::Opened(false), bare(500), false),
        (5, UploadEvent::Chunk(Err("cut".into())), text(400, "cut"), true),
        (6, UploadEvent::Freed(Err(io())), bare(500), true),
        (7, UploadEvent::Written(false), bare(500), true),
    ] {
        let mut upload = after(count);
        assert_eq!(refused(&mut upload, event), reply);
        check_cleanup(upload, true, removal);
    }
}

#[test]
fn interrupted_upload() {
    for count in 0..=10 {
        check_cleanup(after(count), (2..10).contains(&count), (5..10).contains(&count));
    }
}

#[test]
fn unfinished_upload() {
    let mut upload = after(10);
    let event = UploadEvent::Finished(Err(Error::Sql("locked".into())));
    assert_eq!(refused(&mut upload, event), bare(200));
    check_cleanup(upload, false, false);
}

fn download() -> Download {
    let (download, action) = Download::start(Device::PinePhone, "abc".into());
    assert!(matches!(action, DownloadAction::UpdateChecksum));
    download
}

fn found(status: Status) -> DownloadEvent {
    DownloadEvent::Found(Ok(Some(RequestStatus { img_md5sum: None, status })))
}

fn proceed(download: &mut Download, event: DownloadEvent) -> DownloadAction {
    assert!(download.expects(&event));
    download.step(event)
}

fn answered(download: &mut Download, event: DownloadEvent) -> Reply {
    match proceed(download, event) {
        DownloadAction::Respond(reply) => reply,
        _ => panic!("download goes on"),
    }
}

#[test]
fn successful_download() {
    let mut download = download();
    assert_eq!(download.path(), PATH);
    assert_eq!(
        download.content_disposition(),
        "attachment; filename=\"alarm-pinephone-abc.img.xz\""
    );
    assert_eq!(download.content_type(), "application/octet-stream");
    assert!(matches!(
        proceed(&mut download, DownloadEvent::Checked(None)),
        DownloadAction::FetchStatus
    ));
    assert!(matches!(proceed(&mut download, found(Status::Done)), DownloadAction::OpenImage));
    assert!(matches!(
        proceed(&mut download, DownloadEvent::Opened(true)),
        DownloadAction::AssembleResponse
    ));
    assert!(matches!(
        proceed(&mut download, DownloadEvent::Assembled(true)),
        DownloadAction::SendImage
    ));
    assert!(!download.expects(&DownloadEvent::Deleted));
}

#[test]
fn changed_tarball_invalidates_images() {
    let event = DownloadEvent::Checked(Some("new".into()));
    assert_eq!(answered(&mut download(), event), bare(404));
}

#[test]
fn missing_images() {
    for (event, reply) in [
        (found(Status::Pending), bare(404)),
        (found(Status::Building), bare(404)),
        (found(Status::Writing), bare(404)),
        (DownloadEvent::Found(Ok(None)), bare(404)),
        (DownloadEvent::Found(Err(Error::Rustix("x".into()))), bare(500)),
    ] {
        let mut download = download();
        proceed(&mut download, DownloadEvent::Checked(None));
        assert_eq!(answered(&mut download, event), reply);
    }
}

#[test]
fn lost_image_removes_request() {
    let mut download = download();
    proceed(&mut download, DownloadEvent::Checked(None));
    proceed(&mut download, found(Status::Done));
    assert!(matches!(
        proceed(&mut download, DownloadEvent::Opened(false)),
        DownloadAction::DeleteRequest
    ));
    assert_eq!(answered(&mut download, DownloadEvent::Deleted), bare(500));
}

#[test]
fn unsendable_image() {
    let mut download = download();
    proceed(&mut download, DownloadEvent::Checked(None));
    proceed(&mut download, found(Status::Done));
    proceed(&mut download, DownloadEvent::Opened(true));
    assert_eq!(answered(&mut download, DownloadEvent::Assembled(false)), bare(500));
}

#[test]
fn completed_upload_can_be_downloaded() {
    let device = Device::PinePhone;
    let mut db = Db::new();
    db.insert_request(device, "abc".into(), "kumo".into(), 1);
    db.set_status(device, "abc", Status::Building, 2).unwrap();
    db.set_status(device, "abc", Status::Writing, 3).unwrap();

    let mut upload = after(9);
    match step(&mut upload, UploadEvent::Cached) {
        UploadAction::MarkDone(img_md5sum) => db.set_done(device, "abc", &img_md5sum, 4),
        _ => panic!("upload is not done"),
    }
    assert_eq!(refused(&mut upload, UploadEvent::Finished(Ok(()))), bare(200));
    let status = db.status(device, "abc").unwrap();
    assert_eq!(status.img_md5sum, Some(format!("{:x}", md5::compute("chunk"))));

    let mut served = download();
    proceed(&mut served, DownloadEvent::Checked(None));
    assert!(matches!(
        proceed(&mut served, DownloadEvent::Found(Ok(Some(status)))),
        DownloadAction::OpenImage
    ));
    assert_eq!(served.path(), upload.path());

    // Nothing can be downloaded after a change of the tarball.
    db.delete_done();
    let mut missed = download();
    proceed(&mut missed, DownloadEvent::Checked(None));
    let event = DownloadEvent::Found(Ok(db.status(device, "abc")));
    assert_eq!(answered(&mut missed, event), bare(404));

    // Another build can be requested.
    let request = db.insert_request(device, "abc".into(), "kumo".into(), 5);
    assert_eq!(request.status, Status::Pending);
}
