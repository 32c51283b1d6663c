use isotopia::api::{
    authorized, get_pending, get_status, image_filename, image_path, post_request,
    post_request_reply, put_status, put_status_reply, upload_bearer, RemoveFileOnDrop,
    SetBuildingOnDrop,
};
use isotopia::db::{Device, InsertedRequest, Request, RequestStatus, Status};
use isotopia::error::{Body, Error, IoErrorKind, Reply};

fn bare(code: u16) -> Reply {
    Reply { code, body: Body::Empty }
}

fn text(code: u16, message: &str) -> Reply {
    Reply { code, body: Body::Text(message.into()) }
}

#[test]
fn image_paths() {
    assert_eq!(image_filename(Device::PinePhonePro, "abc"), "alarm-pinephone-pro-abc.img.xz");
    assert_eq!(image_path(Device::Fairphone5, "abc"), "./images/alarm-fairphone-fp5-abc.img.xz");
    assert_ne!(image_path(Device::PinePhone, "abc"), image_path(Device::PinePhonePro, "abc"));
}

#[test]
fn credentials() {
    assert_eq!(upload_bearer(None), Err(Error::MissingUploadSecret));
    let bearer = upload_bearer(Some("sécret")).unwrap();
    assert_eq!(bearer, "Bearer sécret");
    assert!(authorized(Some("Bearer sécret".as_bytes()), &bearer));
    assert!(!authorized(Some(b"Bearer secret"), &bearer));
    assert!(!authorized(Some(b"Bearer "), &bearer));
    assert!(!authorized(Some(b""), &bearer));
    assert!(!authorized(None, &bearer));
}

#[test]
fn pending_replies() {
    let request = || Request {
        md5sum: "a".into(),
        device: Device::PinePhone,
        packages: "p".into(),
        status: Status::Pending,
        updated_at: 3,
    };
    let reply = get_pending(Ok(vec![request()]));
    assert_eq!(reply, Reply { code: 200, body: Body::Requests(vec![request()]) });
    assert_eq!(get_pending(Err(Error::Sql("locked".into()))), bare(200));
}

#[test]
fn status_replies() {
    assert_eq!(put_status(Status::Building), Ok(Status::Building));
    for status in [Status::Pending, Status::Writing, Status::Done] {
        assert_eq!(put_status(status), Err(bare(400)));
    }
    assert_eq!(put_status_reply(Ok(())), bare(200));
    assert_eq!(put_status_reply(Err(Error::StatusConflict)), bare(409));

    let status = || RequestStatus { img_md5sum: None, status: Status::Writing };
    let reply = get_status(Ok(Some(status())));
    assert_eq!(reply, Reply { code: 200, body: Body::Status(status()) });
    assert_eq!(get_status(Ok(None)), bare(404));
    assert_eq!(get_status(Err(Error::Io(IoErrorKind::Other, "x".into()))), bare(500));
}

#[test]
fn request_replies() {
    assert_eq!(post_request(&["kumo".into()]), Ok(()));
    assert_eq!(
        post_request(&["kumo".into(), "-x".into()]),
        Err(text(400, "invalid package \"-x\""))
    );
    let request =
        || InsertedRequest { md5sum: "a".into(), status: Status::Done, updated_at: 4 };
    let reply = post_request_reply(Ok(request()));
    assert_eq!(reply, Reply { code: 200, body: Body::Inserted(request()) });
    assert_eq!(post_request_reply(Err(Error::Sql("x".into()))), bare(200));
}

#[test]
fn error_replies() {
    assert_eq!(Error::Rustix("x".into()).into_response(), bare(500));
    assert_eq!(Error::Io(IoErrorKind::Other, "x".into()).into_response(), bare(500));
    assert_eq!(Error::Sql("x".into()).into_response(), bare(200));
    assert_eq!(Error::StatusConflict.into_response(), bare(409));
    assert_eq!(
        Error::InvalidDevice("fp\n".into()).into_response(),
        text(
            400,
            "unexpected device \"fp\\n\"; expected one of `pinephone`, or `pinephone-pro`"
        )
    );
    assert_eq!(Error::InvalidPackage(".".into()).into_response(), text(400, "invalid package \".\""));
}

#[test]
fn error_messages() {
    assert_eq!(Error::Rustix("r".into()).message(), "r");
    assert_eq!(Error::Sql("s".into()).message(), "s");
    assert_eq!(Error::Io(IoErrorKind::Other, "i".into()).message(), "i");
    assert_eq!(Error::InvalidDevice("d".into()).message(), "invalid device \"d\"");
    assert_eq!(Error::InvalidPackage("p".into()).message(), "invalid package \"p\"");
    assert_eq!(
        Error::MissingUploadSecret.message(),
        "missing UPLOAD_SECRET environment variable"
    );
    assert_eq!(Error::StatusConflict.message(), "invalid request status transition");
}

#[test]
fn guards() {
    let mut guard = RemoveFileOnDrop::new("path".into());
    assert_eq!(guard.on_drop(), Some("path".to_string()));
    assert_eq!(guard.on_drop(), None);
    let mut guard = RemoveFileOnDrop::new("path".into());
    guard.reclaim();
    assert_eq!(guard.on_drop(), None);

    let mut guard = SetBuildingOnDrop::new(Device::PinePhone, "a".into());
    assert_eq!(guard.on_drop(), Some((Device::PinePhone, "a".to_string())));
    assert_eq!(guard.on_drop(), None);
    let mut guard = SetBuildingOnDrop::new(Device::PinePhone, "a".into());
    let reclaimed = guard.reclaim();
    assert_eq!((reclaimed.device, reclaimed.md5sum.as_str()), (Device::PinePhone, "a"));
    assert_eq!(guard.on_drop(), None);
}
