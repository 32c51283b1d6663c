//! REST API endpoints.

use vstd::prelude::*;
use vstd::string::*;

use crate::db;
use crate::db::{Device, InsertedRequest, Request, RequestStatus, Status};
use crate::error::{Body, BodyView, Error, Reply, ReplyView, BAD_REQUEST, NOT_FOUND, OK};
use crate::packages;
use crate::text;

verus! {

/// Default image output directory.
pub const IMAGE_DIRECTORY: &'static str = "./images";

/// Name of the image file for a request.
pub open spec fn filename_of(device: Device, md5sum: Seq<char>) -> Seq<char> {
    "alarm-"@ + device.name() + "-"@ + md5sum + ".img.xz"@
}

/// Path of the image file for a request.
pub open spec fn path_of(device: Device, md5sum: Seq<char>) -> Seq<char> {
    IMAGE_DIRECTORY@ + "/"@ + filename_of(device, md5sum)
}

/// Name of the image file for a request.
pub fn image_filename(device: Device, md5sum: &str) -> (filename: String)
    ensures
        filename@ == filename_of(device, md5sum@),
{
    "alarm-".to_owned().concat(device.as_str()).concat("-").concat(md5sum).concat(".img.xz")
}

/// Path of the image file for a request.
pub fn image_path(device: Device, md5sum: &str) -> (path: String)
    ensures
        path@ == path_of(device, md5sum@),
{
    IMAGE_DIRECTORY.to_owned().concat("/").concat(image_filename(device, md5sum).as_str())
}

/// The credentials which an upload must present.
pub open spec fn bearer(secret: Seq<char>) -> Seq<char> {
    "Bearer "@ + secret
}

/// The credentials which an upload must present, from the `UPLOAD_SECRET`
/// environment variable.
pub fn upload_bearer(variable: Option<&str>) -> (result: Result<String, Error>)
    ensures
        match result {
            Ok(credentials) => variable is Some && credentials@ == bearer(variable->0@),
            Err(error) => variable is None && error == Error::MissingUploadSecret,
        },
{
    match variable {
        Some(secret) => Ok("Bearer ".to_owned().concat(secret)),
        None => Err(Error::MissingUploadSecret),
    }
}

/// Whether the bytes of an `authorization` header are the expected credentials.
pub open spec fn is_authorized(authorization: Option<&[u8]>, upload_bearer: Seq<char>) -> bool {
    match authorization {
        Some(bytes) => bytes@ == vstd::utf8::encode_utf8(upload_bearer),
        None => false,
    }
}

/// Validate the `authorization` header of an upload.
pub fn authorized(authorization: Option<&[u8]>, upload_bearer: &str) -> (accepted: bool)
    ensures
        accepted == is_authorized(authorization, upload_bearer@),
{
    match authorization {
        Some(bytes) => text::same_bytes(bytes, upload_bearer.as_bytes()),
        None => false,
    }
}

/// Get pending build requests, given what the database returned.
pub fn get_pending(pending: Result<Vec<Request>, Error>) -> (reply: Reply)
    requires
        pending matches Err(error) ==> error.in_request(),
    ensures
        reply@ == (match pending {
            Ok(requests) => ReplyView {
                code: OK,
                body: BodyView::Requests(db::request_views(requests@)),
            },
            Err(error) => error.reply(),
        }),
{
    match pending {
        Ok(requests) => Reply { code: OK, body: Body::Requests(requests) },
        Err(error) => error.into_response(),
    }
}

/// Check what status a worker wants to set for a request.
///
/// Only 'building' can be set this way.
pub fn put_status(status: Status) -> (result: Result<Status, Reply>)
    ensures
        match result {
            Ok(accepted) => status == Status::Building && accepted == Status::Building,
            Err(reply) => status != Status::Building && reply@ == ReplyView::bare(BAD_REQUEST),
        },
{
    match status {
        Status::Building => Ok(Status::Building),
        _ => Err(Reply::bare(BAD_REQUEST)),
    }
}

/// The reply after a worker's status was set, given what the database returned.
pub fn put_status_reply(updated: Result<(), Error>) -> (reply: Reply)
    requires
        updated matches Err(error) ==> error.in_request(),
    ensures
        reply@ == (match updated {
            Ok(()) => ReplyView::bare(OK),
            Err(error) => error.reply(),
        }),
{
    match updated {
        Ok(()) => Reply::bare(OK),
        Err(error) => error.into_response(),
    }
}

/// Get the status of a build request, given what the database returned.
pub fn get_status(status: Result<Option<RequestStatus>, Error>) -> (reply: Reply)
    requires
        status matches Err(error) ==> error.in_request(),
    ensures
        reply@ == (match status {
            Ok(Some(status)) => ReplyView { code: OK, body: BodyView::Status(status@) },
            Ok(None) => ReplyView::bare(NOT_FOUND),
            Err(error) => error.reply(),
        }),
{
    match status {
        Ok(Some(status)) => Reply { code: OK, body: Body::Status(status) },
        Ok(None) => Reply::bare(NOT_FOUND),
        Err(error) => error.into_response(),
    }
}

/// Check the packages of a new build request.
pub fn post_request(packages: &[String]) -> (result: Result<(), Reply>)
    ensures
        match result {
            Ok(()) => forall|i: int|
                0 <= i < packages@.len() ==> packages::is_package_name(#[trigger] packages@[i]@),
            Err(reply) => exists|i: int|
                #[trigger] packages::is_first_invalid(text::texts(packages@), i) && reply@
                    == Error::InvalidPackage(packages@[i]).reply(),
        },
{
    match packages::validate_packages(packages) {
        Ok(()) => Ok(()),
        Err(error) => Err(error.into_response()),
    }
}

/// The reply to a new build request, given what the database returned.
pub fn post_request_reply(inserted: Result<InsertedRequest, Error>) -> (reply: Reply)
    requires
        inserted matches Err(error) ==> error.in_request(),
    ensures
        reply@ == (match inserted {
            Ok(request) => ReplyView { code: OK, body: BodyView::Inserted(request@) },
            Err(error) => error.reply(),
        }),
{
    match inserted {
        Ok(request) => Reply { code: OK, body: Body::Inserted(request) },
        Err(error) => error.into_response(),
    }
}

/// Guard for automatically setting a request's status to 'building' on drop.
pub struct SetBuildingOnDrop {
    request: Option<(Device, String)>,
}

/// Container used when consuming [`SetBuildingOnDrop`].
pub struct ReclaimedSetBuildingOnDrop {
    pub device: Device,
    pub md5sum: String,
}

impl View for SetBuildingOnDrop {
    type V = Option<(Device, Seq<char>)>;

    /// The request whose status will be set.
    closed spec fn view(&self) -> Option<(Device, Seq<char>)> {
        match self.request {
            Some((device, md5sum)) => Some((device, md5sum@)),
            None => None,
        }
    }
}

impl SetBuildingOnDrop {
    /// A guard for the given request.
    pub fn new(device: Device, md5sum: String) -> (guard: Self)
        ensures
            guard@ == Some((device, md5sum@)),
    {
        SetBuildingOnDrop { request: Some((device, md5sum)) }
    }

    /// Reclaim the request, so that nothing is left to be done on drop.
    pub fn reclaim(&mut self) -> (request: ReclaimedSetBuildingOnDrop)
        requires
            old(self)@ is Some,
        ensures
            final(self)@ is None,
            old(self)@ == Some((request.device, request.md5sum@)),
    {
        let (device, md5sum) = self.request.take().unwrap();
        ReclaimedSetBuildingOnDrop { device, md5sum }
    }

    /// What is left to be done on drop: the request whose status must be set.
    pub fn on_drop(&mut self) -> (request: Option<(Device, String)>)
        ensures
            final(self)@ is None,
            match request {
                Some((device, md5sum)) => old(self)@ == Some((device, md5sum@)),
                None => old(self)@ is None,
            },
    {
        self.request.take()
    }
}

/// Guard for automatically removing a file on drop.
pub struct RemoveFileOnDrop {
    path: Option<String>,
}

impl View for RemoveFileOnDrop {
    type V = Option<Seq<char>>;

    /// The path of the file which will be removed.
    closed spec fn view(&self) -> Option<Seq<char>> {
        text::optional(self.path)
    }
}

impl RemoveFileOnDrop {
    /// A guard for the file at the given path.
    pub fn new(path: String) -> (guard: Self)
        ensures
            guard@ == Some(path@),
    {
        RemoveFileOnDrop { path: Some(path) }
    }

    /// Reclaim the path, preventing cleanup on drop.
    pub fn reclaim(&mut self)
        ensures
            final(self)@ is None,
    {
        self.path = None;
    }

    /// What is left to be done on drop: the path of the file which must be
    /// removed.
    pub fn on_drop(&mut self) -> (path: Option<String>)
        ensures
            final(self)@ is None,
            text::optional(path) == old(self)@,
    {
        self.path.take()
    }
}

/// No two requests share an image file, unless the package checksum of one for
/// the PinePhone consists of `pro-` and the package checksum of the other.
pub proof fn law_image_paths_are_distinct(
    device: Device,
    md5sum: Seq<char>,
    other_device: Device,
    other_md5sum: Seq<char>,
)
    requires
        path_of(device, md5sum) == path_of(other_device, other_md5sum),
        !(device == Device::PinePhone && md5sum == "pro-"@ + other_md5sum),
        !(other_device == Device::PinePhone && other_md5sum == "pro-"@ + md5sum),
    ensures
        device == other_device,
        md5sum == other_md5sum,
{
    reveal_strlit("pinephone-pro");
    reveal_strlit("pinephone");
    reveal_strlit("fairphone-fp5");
    reveal_strlit("./images");
    reveal_strlit("/");
    reveal_strlit("alarm-");
    reveal_strlit("-");
    reveal_strlit("pro-");
    let start: int = 15;
    let a = path_of(device, md5sum);
    let b = path_of(other_device, other_md5sum);
    let end = a.len() - ".img.xz"@.len();
    assert(a[start] == device.name()[0]);
    assert(b[start] == other_device.name()[0]);
    assert(a.subrange(start, end) =~= device.name() + "-"@ + md5sum);
    assert(b.subrange(start, end) =~= other_device.name() + "-"@ + other_md5sum);
    let name_end = start + device.name().len() + 1;
    let other_end = start + other_device.name().len() + 1;
    assert(a.subrange(name_end, end) =~= md5sum);
    assert(b.subrange(other_end, end) =~= other_md5sum);
    if device == Device::PinePhone && other_device == Device::PinePhonePro {
        assert(b.subrange(name_end, end) =~= "pro-"@ + other_md5sum);
    }
    if device == Device::PinePhonePro && other_device == Device::PinePhone {
        assert(a.subrange(other_end, end) =~= "pro-"@ + md5sum);
    }
}

/// The image file of a request is named after its device and package checksum,
/// and stands in the image directory.
pub proof fn law_image_files_are_named_after_requests(md5sum: Seq<char>)
    ensures
        filename_of(Device::PinePhone, md5sum) == "alarm-pinephone-"@ + md5sum + ".img.xz"@,
        filename_of(Device::PinePhonePro, md5sum) == "alarm-pinephone-pro-"@ + md5sum + ".img.xz"@,
        filename_of(Device::Fairphone5, md5sum) == "alarm-fairphone-fp5-"@ + md5sum + ".img.xz"@,
        path_of(Device::PinePhone, md5sum) == "./images/alarm-pinephone-"@ + md5sum + ".img.xz"@,
        path_of(Device::PinePhonePro, md5sum) == "./images/alarm-pinephone-pro-"@ + md5sum
            + ".img.xz"@,
        path_of(Device::Fairphone5, md5sum) == "./images/alarm-fairphone-fp5-"@ + md5sum
            + ".img.xz"@,
        IMAGE_DIRECTORY@ == "./images"@,
{
    reveal_strlit("./images");
    reveal_strlit("/");
    reveal_strlit("alarm-");
    reveal_strlit("-");
    reveal_strlit("pinephone");
    reveal_strlit("pinephone-pro");
    reveal_strlit("fairphone-fp5");
    reveal_strlit("alarm-pinephone-");
    reveal_strlit("alarm-pinephone-pro-");
    reveal_strlit("alarm-fairphone-fp5-");
    reveal_strlit("./images/alarm-pinephone-");
    reveal_strlit("./images/alarm-pinephone-pro-");
    reveal_strlit("./images/alarm-fairphone-fp5-");
    assert("alarm-"@ + "pinephone"@ + "-"@ =~= "alarm-pinephone-"@);
    assert("alarm-"@ + "pinephone-pro"@ + "-"@ =~= "alarm-pinephone-pro-"@);
    assert("alarm-"@ + "fairphone-fp5"@ + "-"@ =~= "alarm-fairphone-fp5-"@);
    assert("./images"@ + "/"@ + "alarm-pinephone-"@ =~= "./images/alarm-pinephone-"@);
    assert("./images"@ + "/"@ + "alarm-pinephone-pro-"@ =~= "./images/alarm-pinephone-pro-"@);
    assert("./images"@ + "/"@ + "alarm-fairphone-fp5-"@ =~= "./images/alarm-fairphone-fp5-"@);
    assert(path_of(Device::PinePhone, md5sum) =~= "./images/alarm-pinephone-"@ + md5sum
        + ".img.xz"@);
    assert(path_of(Device::PinePhonePro, md5sum) =~= "./images/alarm-pinephone-pro-"@ + md5sum
        + ".img.xz"@);
    assert(path_of(Device::Fairphone5, md5sum) =~= "./images/alarm-fairphone-fp5-"@ + md5sum
        + ".img.xz"@);
}

/// An upload is authorized if and only if it presents the upload secret behind
/// the word `Bearer` and a space, and nothing else.
pub proof fn law_uploads_need_the_secret(
    authorization: Option<&[u8]>,
    secret: Seq<char>,
    presented: Seq<char>,
)
    ensures
        authorization is None ==> !is_authorized(authorization, bearer(secret)),
        authorization matches Some(bytes) ==> (is_authorized(authorization, bearer(secret))
            <==> bytes@ == vstd::utf8::encode_utf8("Bearer "@ + secret)),
        authorization matches Some(bytes) ==> bytes@ == vstd::utf8::encode_utf8(
            "Bearer "@ + presented,
        ) ==> (is_authorized(authorization, bearer(secret)) <==> presented == secret),
{
    vstd::utf8::encode_utf8_decode_utf8("Bearer "@ + secret);
    vstd::utf8::encode_utf8_decode_utf8("Bearer "@ + presented);
    if "Bearer "@ + presented == "Bearer "@ + secret {
        assert(("Bearer "@ + presented).skip("Bearer "@.len() as int) =~= presented);
        assert(("Bearer "@ + secret).skip("Bearer "@.len() as int) =~= secret);
    }
}

} // verus!
