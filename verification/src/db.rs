//! Build requests and their life cycle.

use vstd::prelude::*;
use vstd::string::*;

use crate::digest;
use crate::error::Error;
use crate::packages;
use crate::text;

verus! {

/// Seconds after which a build counts as failed and may be started again.
pub const BUILD_TIMEOUT: i64 = 1800;

/// Seconds after which a build counts as slow.
pub const SLOW_BUILD: i64 = 900;

/// Image build request status.
#[derive(Copy, Clone, PartialEq, Eq, Structural, Debug)]
pub enum Status {
    /// Image build was requested.
    Pending,
    /// Worker is currently building the image.
    Building,
    /// Image is currently being written to FS.
    Writing,
    /// A built image is present.
    Done,
}

/// Image target device.
#[derive(Copy, Clone, PartialEq, Eq, Structural, Debug)]
pub enum Device {
    PinePhonePro,
    PinePhone,
    Fairphone5,
}

impl Device {
    /// The device's name.
    pub open spec fn name(self) -> Seq<char> {
        match self {
            Device::PinePhonePro => "pinephone-pro"@,
            Device::PinePhone => "pinephone"@,
            Device::Fairphone5 => "fairphone-fp5"@,
        }
    }

    /// The device with the given name.
    pub open spec fn named(name: Seq<char>) -> Option<Device> {
        if name == "pinephone-pro"@ {
            Some(Device::PinePhonePro)
        } else if name == "fairphone-fp5"@ {
            Some(Device::Fairphone5)
        } else if name == "pinephone"@ {
            Some(Device::PinePhone)
        } else {
            None
        }
    }

    /// The device's name.
    pub fn as_str(&self) -> (name: &'static str)
        ensures
            name@ == self.name(),
    {
        match self {
            Device::PinePhonePro => "pinephone-pro",
            Device::Fairphone5 => "fairphone-fp5",
            Device::PinePhone => "pinephone",
        }
    }
}

impl vstd::std_specs::convert::TryFromSpecImpl<&str> for Device {
    open spec fn obeys_try_from_spec() -> bool {
        true
    }

    open spec fn try_from_spec(s: &str) -> Result<Device, ()> {
        match Device::named(s@) {
            Some(device) => Ok(device),
            None => Err(()),
        }
    }
}

impl TryFrom<&str> for Device {
    type Error = ();

    fn try_from(s: &str) -> (device: Result<Self, ()>) {
        if text::same_text(s, "pinephone-pro") {
            Ok(Device::PinePhonePro)
        } else if text::same_text(s, "fairphone-fp5") {
            Ok(Device::Fairphone5)
        } else if text::same_text(s, "pinephone") {
            Ok(Device::PinePhone)
        } else {
            Err(())
        }
    }
}

/// Every device is found by its name, and by no other.
pub proof fn law_device_names(device: Device, name: Seq<char>)
    ensures
        Device::named(device.name()) == Some(device),
        Device::named(name) == Some(device) ==> name == device.name(),
{
    reveal_strlit("pinephone-pro");
    reveal_strlit("pinephone");
    reveal_strlit("fairphone-fp5");
    assert("pinephone-pro"@.len() != "pinephone"@.len());
    assert("fairphone-fp5"@[0] != "pinephone-pro"@[0]);
    assert("fairphone-fp5"@[0] != "pinephone"@[0]);
}

/// What a [`Request`] holds.
#[verifier::ext_equal]
pub struct RequestView {
    pub md5sum: Seq<char>,
    pub device: Device,
    pub packages: Seq<char>,
    pub status: Status,
    pub updated_at: i64,
}

/// Image build request.
#[derive(PartialEq, Eq, Debug)]
pub struct Request {
    /// MD5 checksum of the package list.
    pub md5sum: String,
    /// Requested target device.
    pub device: Device,
    /// Whitespace separated list of packages.
    pub packages: String,
    /// Build request status.
    pub status: Status,
    /// Last request change, in seconds since the Unix epoch.
    pub updated_at: i64,
}

impl View for Request {
    type V = RequestView;

    open spec fn view(&self) -> RequestView {
        RequestView {
            md5sum: self.md5sum@,
            device: self.device,
            packages: self.packages@,
            status: self.status,
            updated_at: self.updated_at,
        }
    }
}

/// What an [`InsertedRequest`] holds.
#[verifier::ext_equal]
pub struct InsertedRequestView {
    pub md5sum: Seq<char>,
    pub status: Status,
    pub updated_at: i64,
}

/// Image build request return value on insertion.
///
/// This has the package list stripped to avoid pointless large data transfers.
#[derive(PartialEq, Eq, Debug)]
pub struct InsertedRequest {
    /// MD5 checksum of the package list.
    pub md5sum: String,
    /// Build request status.
    pub status: Status,
    /// Last request change, in seconds since the Unix epoch.
    pub updated_at: i64,
}

impl View for InsertedRequest {
    type V = InsertedRequestView;

    open spec fn view(&self) -> InsertedRequestView {
        InsertedRequestView {
            md5sum: self.md5sum@,
            status: self.status,
            updated_at: self.updated_at,
        }
    }
}

/// What a [`RequestStatus`] holds.
#[verifier::ext_equal]
pub struct RequestStatusView {
    pub img_md5sum: Option<Seq<char>>,
    pub status: Status,
}

/// Status of a build request.
#[derive(PartialEq, Eq, Debug)]
pub struct RequestStatus {
    /// MD5 checksum of the built image.
    pub img_md5sum: Option<String>,
    /// Build request status.
    pub status: Status,
}

impl View for RequestStatus {
    type V = RequestStatusView;

    open spec fn view(&self) -> RequestStatusView {
        RequestStatusView { img_md5sum: text::optional(self.img_md5sum), status: self.status }
    }
}

/// What a [`Record`] holds.
#[verifier::ext_equal]
pub struct RecordView {
    pub md5sum: Seq<char>,
    pub device: Device,
    pub packages: Seq<char>,
    pub status: Status,
    pub img_md5sum: Option<Seq<char>>,
    pub updated_at: i64,
    pub downloads: i64,
}

impl RecordView {
    /// Whether this is the request with the given device and package checksum.
    pub open spec fn is_for(self, device: Device, md5sum: Seq<char>) -> bool {
        self.device == device && self.md5sum == md5sum
    }

    /// Whether this request has been building for more than `limit` seconds.
    pub open spec fn building_longer_than(self, limit: i64, now: i64) -> bool {
        self.status == Status::Building && self.updated_at < now - limit
    }

    /// Whether a worker should build this request.
    pub open spec fn needs_build(self, now: i64) -> bool {
        self.status == Status::Pending || self.building_longer_than(BUILD_TIMEOUT, now)
    }

    /// Whether this request is subject to a change to `status` which was asked
    /// for with the given device and package checksum.
    pub open spec fn takes(self, device: Device, md5sum: Seq<char>, status: Status, now: i64) -> bool {
        self.is_for(device, md5sum) && match status {
            Status::Pending => false,
            Status::Building => self.needs_build(now),
            Status::Writing => self.status == Status::Building,
            Status::Done => false,
        }
    }

    /// This request after its status was set.
    pub open spec fn with_status(self, status: Status, now: i64) -> RecordView {
        RecordView { status, updated_at: now, ..self }
    }

    /// This request after its image was completed.
    pub open spec fn with_image(self, img_md5sum: Seq<char>, now: i64) -> RecordView {
        RecordView { img_md5sum: Some(img_md5sum), ..self.with_status(Status::Done, now) }
    }

    /// This request after one more download.
    pub open spec fn downloaded(self) -> RecordView {
        RecordView { downloads: (self.downloads + 1) as i64, ..self }
    }

    /// What is told of this request to workers.
    pub open spec fn request(self) -> RequestView {
        RequestView {
            md5sum: self.md5sum,
            device: self.device,
            packages: self.packages,
            status: self.status,
            updated_at: self.updated_at,
        }
    }

    /// What is told of this request when it is inserted.
    pub open spec fn inserted(self) -> InsertedRequestView {
        InsertedRequestView {
            md5sum: self.md5sum,
            status: self.status,
            updated_at: self.updated_at,
        }
    }

    /// What is told of this request when its status is asked for.
    pub open spec fn request_status(self) -> RequestStatusView {
        RequestStatusView { img_md5sum: self.img_md5sum, status: self.status }
    }
}

/// A build request as it is stored.
#[derive(PartialEq, Eq, Debug)]
pub struct Record {
    /// MD5 checksum of the package list.
    pub md5sum: String,
    /// Requested target device.
    pub device: Device,
    /// Whitespace separated list of packages.
    pub packages: String,
    /// Build request status.
    pub status: Status,
    /// MD5 checksum of the built image.
    pub img_md5sum: Option<String>,
    /// Time of the last status change, in seconds since the Unix epoch.
    pub updated_at: i64,
    /// Number of times that the image was downloaded.
    pub downloads: i64,
}

impl View for Record {
    type V = RecordView;

    open spec fn view(&self) -> RecordView {
        RecordView {
            md5sum: self.md5sum@,
            device: self.device,
            packages: self.packages@,
            status: self.status,
            img_md5sum: text::optional(self.img_md5sum),
            updated_at: self.updated_at,
            downloads: self.downloads,
        }
    }
}

impl Clone for Record {
    fn clone(&self) -> (record: Self)
        ensures
            record@ == self@,
    {
        Record {
            md5sum: self.md5sum.clone(),
            device: self.device,
            packages: self.packages.clone(),
            status: self.status,
            img_md5sum: text::clone_optional(&self.img_md5sum),
            updated_at: self.updated_at,
            downloads: self.downloads,
        }
    }
}

impl Record {
    fn is_for(&self, device: Device, md5sum: &str) -> (found: bool)
        ensures
            found == self@.is_for(device, md5sum@),
    {
        self.device == device && text::same_text(self.md5sum.as_str(), md5sum)
    }

    fn building_longer_than(&self, limit: i64, now: i64) -> (late: bool)
        ensures
            late == self@.building_longer_than(limit, now),
    {
        self.status == Status::Building && (self.updated_at as i128) < now as i128 - limit as i128
    }

    fn needs_build(&self, now: i64) -> (open: bool)
        ensures
            open == self@.needs_build(now),
    {
        self.status == Status::Pending || self.building_longer_than(BUILD_TIMEOUT, now)
    }

    fn takes(&self, device: Device, md5sum: &str, status: Status, now: i64) -> (taken: bool)
        ensures
            taken == self@.takes(device, md5sum@, status, now),
    {
        self.is_for(device, md5sum) && match status {
            // Ignore changes to 'pending', since it is automatic during insert.
            Status::Pending => false,
            // Only allow this change if 'pending' or timed out 'building'.
            Status::Building => self.needs_build(now),
            Status::Writing => self.status == Status::Building,
            // Ignore changes to 'done', since it requires setting a checksum.
            Status::Done => false,
        }
    }

    fn request(&self) -> (request: Request)
        ensures
            request@ == self@.request(),
    {
        Request {
            md5sum: self.md5sum.clone(),
            device: self.device,
            packages: self.packages.clone(),
            status: self.status,
            updated_at: self.updated_at,
        }
    }

    fn inserted(&self) -> (request: InsertedRequest)
        ensures
            request@ == self@.inserted(),
    {
        InsertedRequest {
            md5sum: self.md5sum.clone(),
            status: self.status,
            updated_at: self.updated_at,
        }
    }

    fn request_status(&self) -> (status: RequestStatus)
        ensures
            status@ == self@.request_status(),
    {
        RequestStatus { img_md5sum: text::clone_optional(&self.img_md5sum), status: self.status }
    }
}

/// What a list of records holds.
pub open spec fn record_views(records: Seq<Record>) -> Seq<RecordView> {
    records.map_values(|record: Record| record@)
}

/// What a list of requests holds.
pub open spec fn request_views(requests: Seq<Request>) -> Seq<RequestView> {
    requests.map_values(|request: Request| request@)
}

/// Whether no two requests in `table` share device and package checksum.
pub open spec fn keys_are_unique(table: Seq<RecordView>) -> bool {
    forall|i: int, j: int|
        0 <= i < j < table.len() ==> !(#[trigger] table[i]).is_for(
            (#[trigger] table[j]).device,
            table[j].md5sum,
        )
}

/// Whether request `i` of `table` has the given device and package checksum.
pub open spec fn is_at(table: Seq<RecordView>, i: int, device: Device, md5sum: Seq<char>) -> bool {
    0 <= i < table.len() && table[i].is_for(device, md5sum)
}

/// The request with the given device and package checksum.
pub open spec fn lookup(table: Seq<RecordView>, device: Device, md5sum: Seq<char>) -> Option<
    RecordView,
> {
    if exists|i: int| #[trigger] is_at(table, i, device, md5sum) {
        Some(table[choose|i: int| #[trigger] is_at(table, i, device, md5sum)])
    } else {
        None
    }
}

/// Whether `status` is what is told of the request with the given device and
/// package checksum when its status is asked for.
pub open spec fn is_status_of(
    table: Seq<RecordView>,
    device: Device,
    md5sum: Seq<char>,
    status: Option<RequestStatus>,
) -> bool {
    match status {
        Some(status) => lookup(table, device, md5sum) matches Some(record) && status@
            == record.request_status(),
        None => lookup(table, device, md5sum) is None,
    }
}

/// The requests in `table` which satisfy `pred`, as they are told to workers.
pub open spec fn selected(table: Seq<RecordView>, pred: spec_fn(RecordView) -> bool) -> Seq<
    RequestView,
> {
    table.filter(pred).map_values(|record: RecordView| record.request())
}

/// The requests in `table` which a worker should build.
pub open spec fn open_requests(table: Seq<RecordView>, now: i64) -> Seq<RequestView> {
    selected(table, |record: RecordView| record.needs_build(now))
}

/// `table` after a change to `status` was asked for.
pub open spec fn after_set_status(
    table: Seq<RecordView>,
    device: Device,
    md5sum: Seq<char>,
    status: Status,
    now: i64,
) -> Seq<RecordView> {
    table.map_values(
        |record: RecordView|
            if record.takes(device, md5sum, status, now) {
                record.with_status(status, now)
            } else {
                record
            },
    )
}

/// Whether a change to `status` concerns any request of `table`.
pub open spec fn any_takes(
    table: Seq<RecordView>,
    device: Device,
    md5sum: Seq<char>,
    status: Status,
    now: i64,
) -> bool {
    exists|i: int|
        0 <= i < table.len() && (#[trigger] table[i]).takes(device, md5sum, status, now)
}

/// `table` with the request that has the given device and package checksum
/// replaced by what `change` makes of it.
pub open spec fn changed(
    table: Seq<RecordView>,
    device: Device,
    md5sum: Seq<char>,
    change: spec_fn(RecordView) -> RecordView,
) -> Seq<RecordView> {
    table.map_values(
        |record: RecordView|
            if record.is_for(device, md5sum) {
                change(record)
            } else {
                record
            },
    )
}

/// `table` after a request was marked as done.
pub open spec fn after_done(
    table: Seq<RecordView>,
    device: Device,
    md5sum: Seq<char>,
    img_md5sum: Seq<char>,
    now: i64,
) -> Seq<RecordView> {
    changed(table, device, md5sum, |record: RecordView| record.with_image(img_md5sum, now))
}

/// `table` after all finished requests were removed.
pub open spec fn after_delete_done(table: Seq<RecordView>) -> Seq<RecordView> {
    table.filter(|record: RecordView| record.status != Status::Done)
}

/// A request which was never seen before.
pub open spec fn fresh_record(
    device: Device,
    md5sum: Seq<char>,
    packages: Seq<char>,
    now: i64,
) -> RecordView {
    RecordView {
        md5sum,
        device,
        packages,
        status: Status::Pending,
        img_md5sum: None,
        updated_at: now,
        downloads: 0,
    }
}

/// `table` after a request was inserted. A request which is already present
/// stays as it is.
pub open spec fn after_insert(
    table: Seq<RecordView>,
    device: Device,
    md5sum: Seq<char>,
    packages: Seq<char>,
    now: i64,
) -> Seq<RecordView> {
    if lookup(table, device, md5sum) is Some {
        table
    } else {
        table.push(fresh_record(device, md5sum, packages, now))
    }
}

/// A request is found by its device and package checksum.
pub proof fn lemma_lookup_at(table: Seq<RecordView>, i: int, device: Device, md5sum: Seq<char>)
    requires
        keys_are_unique(table),
        is_at(table, i, device, md5sum),
    ensures
        lookup(table, device, md5sum) == Some(table[i]),
{
    let k = choose|k: int| #[trigger] is_at(table, k, device, md5sum);
    assert(is_at(table, k, device, md5sum));
    lemma_others_are_not_for(table, i, device, md5sum);
}

/// Adding a request which is not present keeps the keys unique.
pub proof fn lemma_push_keeps_unique(table: Seq<RecordView>, record: RecordView)
    requires
        keys_are_unique(table),
        lookup(table, record.device, record.md5sum) is None,
    ensures
        keys_are_unique(table.push(record)),
{
    let after = table.push(record);
    assert forall|i: int, j: int| 0 <= i < j < after.len() implies !(#[trigger] after[i]).is_for(
        (#[trigger] after[j]).device,
        after[j].md5sum,
    ) by {
        assert(!is_at(table, i, record.device, record.md5sum));
        if j < table.len() {
            assert(!table[i].is_for(table[j].device, table[j].md5sum));
        }
    }
}

/// The requests database.
pub struct Db {
    records: Vec<Record>,
}

impl View for Db {
    type V = Seq<RecordView>;

    /// All requests, in the order in which they were inserted.
    closed spec fn view(&self) -> Seq<RecordView> {
        record_views(self.records@)
    }
}

impl Db {
    /// Whether no request is stored twice.
    pub open spec fn wf(&self) -> bool {
        keys_are_unique(self@)
    }

    /// A database without requests.
    pub fn new() -> (db: Self)
        ensures
            db.wf(),
            db@ == Seq::<RecordView>::empty(),
    {
        let db = Db { records: Vec::new() };
        assert(db@ =~= Seq::<RecordView>::empty());
        db
    }

    /// Position of the request with the given device and package checksum.
    fn position(&self, device: Device, md5sum: &str) -> (position: Option<usize>)
        requires
            self.wf(),
        ensures
            match position {
                Some(i) => {
                    &&& is_at(self@, i as int, device, md5sum@)
                    &&& i < self.records@.len()
                    &&& lookup(self@, device, md5sum@) == Some(self@[i as int])
                },
                None => {
                    &&& forall|i: int| 0 <= i < self@.len() ==> !(#[trigger] self@[i]).is_for(device, md5sum@)
                    &&& lookup(self@, device, md5sum@) is None
                },
            },
    {
        let mut i: usize = 0;
        while i < self.records.len()
            invariant
                i <= self.records@.len(),
                self.wf(),
                forall|j: int| 0 <= j < i ==> !(#[trigger] self@[j]).is_for(device, md5sum@),
            decreases self.records@.len() - i,
        {
            if self.records[i].is_for(device, md5sum) {
                proof {
                    lemma_lookup_at(self@, i as int, device, md5sum@);
                }
                return Some(i);
            }
            i += 1;
        }
        None
    }

    /// The requests for which `wanted` holds, as they are told to workers.
    fn select<F: Fn(&Record) -> bool>(
        &self,
        wanted: F,
        Ghost(pred): Ghost<spec_fn(RecordView) -> bool>,
    ) -> (requests: Vec<Request>)
        requires
            forall|record: &Record| #[trigger] call_requires(wanted, (record,)),
            forall|record: &Record, result: bool| #[trigger]
                call_ensures(wanted, (record,), result) ==> result == pred(record@),
        ensures
            request_views(requests@) == selected(self@, pred),
    {
        let mut requests: Vec<Request> = Vec::new();
        let mut i: usize = 0;
        proof {
            lemma_selected_none(self@, pred);
        }
        assert(request_views(requests@) =~= Seq::<RequestView>::empty());
        while i < self.records.len()
            invariant
                i <= self.records@.len(),
                forall|record: &Record| #[trigger] call_requires(wanted, (record,)),
                forall|record: &Record, result: bool| #[trigger]
                    call_ensures(wanted, (record,), result) ==> result == pred(record@),
                request_views(requests@) == selected(self@.take(i as int), pred),
            decreases self.records@.len() - i,
        {
            let ghost before = request_views(requests@);
            proof {
                lemma_selected_step(self@, i as int, pred);
            }
            if wanted(&self.records[i]) {
                requests.push(self.records[i].request());
                assert(request_views(requests@) =~= before.push(self@[i as int].request()));
            }
            i += 1;
        }
        assert(self@.take(i as int) =~= self@);
        requests
    }

    /// Get pending build requests.
    pub fn pending(&self, now: i64) -> (requests: Vec<Request>)
        ensures
            request_views(requests@) == open_requests(self@, now),
    {
        let open = |record: &Record| -> (result: bool)
            ensures
                result == record@.needs_build(now),
        {
            record.needs_build(now)
        };
        self.select(open, Ghost(|record: RecordView| record.needs_build(now)))
    }

    /// Get possibly failed build requests.
    pub fn slow_requests(&self, now: i64) -> (requests: Vec<Request>)
        ensures
            request_views(requests@) == selected(
                self@,
                |record: RecordView| record.building_longer_than(SLOW_BUILD, now),
            ),
    {
        let slow = |record: &Record| -> (result: bool)
            ensures
                result == record@.building_longer_than(SLOW_BUILD, now),
        {
            record.building_longer_than(SLOW_BUILD, now)
        };
        self.select(slow, Ghost(|record: RecordView| record.building_longer_than(SLOW_BUILD, now)))
    }

    /// Store a build request, given the stored form of its package list and
    /// the checksum of it.
    ///
    /// A request which is already present is left as it is.
    pub fn insert_request(
        &mut self,
        device: Device,
        md5sum: String,
        packages: String,
        now: i64,
    ) -> (request: InsertedRequest)
        requires
            old(self).wf(),
        ensures
            final(self).wf(),
            final(self)@ == after_insert(old(self)@, device, md5sum@, packages@, now),
            lookup(final(self)@, device, md5sum@) matches Some(record) && request@
                == record.inserted(),
    {
        let position = self.position(device, md5sum.as_str());
        if let Some(i) = position {
            return self.records[i].inserted();
        }
        let record = Record {
            md5sum,
            device,
            packages,
            status: Status::Pending,
            img_md5sum: None,
            updated_at: now,
            downloads: 0,
        };
        let request = record.inserted();
        self.records.push(record);
        proof {
            assert(self@ =~= old(self)@.push(record@));
            lemma_lookup_at(self@, self@.len() - 1, device, md5sum@);
        }
        request
    }

    /// Request a new image to be built.
    ///
    /// The returned status tells whether the request was already known.
    pub fn add_request(&mut self, device: Device, packages: Vec<String>, now: i64) -> (request:
        InsertedRequest)
        requires
            old(self).wf(),
        ensures
            final(self).wf(),
            ({
                let stored = packages::combined(text::texts(packages@));
                let md5sum = digest::md5_text(vstd::utf8::encode_utf8(stored));
                &&& final(self)@ == after_insert(old(self)@, device, md5sum, stored, now)
                &&& lookup(final(self)@, device, md5sum) matches Some(record) && request@
                    == record.inserted()
                &&& request@.md5sum == md5sum
                &&& digest::is_checksum(md5sum)
            }),
    {
        let stored = packages::combine_packages(packages);
        let md5sum = packages::packages_checksum(stored.as_str());
        self.insert_request(device, md5sum, stored, now)
    }

    /// Get the status of a build.
    pub fn status(&self, device: Device, md5sum: &str) -> (status: Option<RequestStatus>)
        requires
            self.wf(),
        ensures
            is_status_of(self@, device, md5sum@, status),
    {
        match self.position(device, md5sum) {
            Some(i) => Some(self.records[i].request_status()),
            None => None,
        }
    }

    /// Update the status of a build.
    ///
    /// Changes to 'pending' are ignored, since a request starts with it, and so
    /// are changes to 'done', since these require a checksum of the image, see
    /// [`Db::set_done`].
    pub fn set_status(&mut self, device: Device, md5sum: &str, status: Status, now: i64) -> (result:
        Result<(), Error>)
        requires
            old(self).wf(),
        ensures
            final(self).wf(),
            final(self)@ == after_set_status(old(self)@, device, md5sum@, status, now),
            match result {
                Ok(()) => status == Status::Pending || status == Status::Done || any_takes(
                    old(self)@,
                    device,
                    md5sum@,
                    status,
                    now,
                ),
                Err(error) => {
                    &&& error == Error::StatusConflict
                    &&& status == Status::Building || status == Status::Writing
                    &&& !any_takes(old(self)@, device, md5sum@, status, now)
                    &&& final(self)@ == old(self)@
                },
            },
    {
        let ghost table = self@;
        let ghost target = after_set_status(table, device, md5sum@, status, now);
        if let Some(i) = self.position(device, md5sum) {
            proof {
                lemma_others_are_not_for(table, i as int, device, md5sum@);
            }
            if self.records[i].takes(device, md5sum, status, now) {
                self.records[i].status = status;
                self.records[i].updated_at = now;
                assert(self@ =~= table.update(i as int, table[i as int].with_status(status, now)));
                assert(self@ =~= target);
                assert(table[i as int].takes(device, md5sum@, status, now));
                return Ok(());
            }
        }
        assert(!any_takes(table, device, md5sum@, status, now));
        assert(target =~= table);
        match status {
            Status::Pending | Status::Done => Ok(()),
            Status::Building | Status::Writing => Err(Error::StatusConflict),
        }
    }

    /// Update the status of a build, without verifying the origin state.
    ///
    /// Using this to change to a status like 'done' leaves the request without
    /// an image, which might require manual intervention to resolve.
    pub fn set_status_unchecked(&mut self, device: Device, md5sum: &str, status: Status, now: i64)
        requires
            old(self).wf(),
        ensures
            final(self).wf(),
            final(self)@ == changed(
                old(self)@,
                device,
                md5sum@,
                |record: RecordView| record.with_status(status, now),
            ),
    {
        let ghost table = self@;
        let ghost change = |record: RecordView| record.with_status(status, now);
        match self.position(device, md5sum) {
            Some(i) => {
                proof {
                    lemma_changed_at(table, i as int, device, md5sum@, change);
                }
                self.records[i].status = status;
                self.records[i].updated_at = now;
                assert(self@ =~= table.update(i as int, table[i as int].with_status(status, now)));
            },
            None => {
                assert(changed(table, device, md5sum@, change) =~= table);
            },
        }
    }

    /// Mark request as done.
    pub fn set_done(&mut self, device: Device, packages_md5sum: &str, img_md5sum: &str, now: i64)
        requires
            old(self).wf(),
        ensures
            final(self).wf(),
            final(self)@ == after_done(
                old(self)@,
                device,
                packages_md5sum@,
                img_md5sum@,
                now,
            ),
    {
        let ghost table = self@;
        let ghost change = |record: RecordView| record.with_image(img_md5sum@, now);
        match self.position(device, packages_md5sum) {
            Some(i) => {
                proof {
                    lemma_changed_at(table, i as int, device, packages_md5sum@, change);
                }
                self.records[i].status = Status::Done;
                self.records[i].img_md5sum = Some(img_md5sum.to_owned());
                self.records[i].updated_at = now;
                assert(self@ =~= table.update(
                    i as int,
                    table[i as int].with_image(img_md5sum@, now),
                ));
            },
            None => {
                assert(changed(table, device, packages_md5sum@, change) =~= table);
            },
        }
    }

    /// Add 1 to the request's download count.
    pub fn increment_downloads(&mut self, device: Device, md5sum: &str)
        requires
            old(self).wf(),
            lookup(old(self)@, device, md5sum@) matches Some(record) ==> record.downloads
                < i64::MAX,
        ensures
            final(self).wf(),
            final(self)@ == changed(
                old(self)@,
                device,
                md5sum@,
                |record: RecordView| record.downloaded(),
            ),
    {
        let ghost table = self@;
        let ghost change = |record: RecordView| record.downloaded();
        match self.position(device, md5sum) {
            Some(i) => {
                proof {
                    lemma_changed_at(table, i as int, device, md5sum@, change);
                    assert(table[i as int].downloads == self.records@[i as int].downloads);
                }
                let downloads: i64 = self.records[i].downloads;
                self.records[i].downloads = downloads + 1;
                assert(self@ =~= table.update(i as int, table[i as int].downloaded()));
            },
            None => {
                assert(changed(table, device, md5sum@, change) =~= table);
            },
        }
    }

    /// Remove all requests for which `keep` does not hold.
    fn retain<F: Fn(&Record) -> bool>(
        &mut self,
        keep: F,
        Ghost(kept): Ghost<spec_fn(RecordView) -> bool>,
    )
        requires
            old(self).wf(),
            forall|record: &Record| #[trigger] call_requires(keep, (record,)),
            forall|record: &Record, result: bool| #[trigger]
                call_ensures(keep, (record,), result) ==> result == kept(record@),
        ensures
            final(self).wf(),
            final(self)@ == old(self)@.filter(kept),
    {
        let ghost table = self@;
        let ghost mut seen: int = 0;
        let mut i: usize = 0;
        proof {
            lemma_kept_none(table, kept);
        }
        while i < self.records.len()
            invariant
                0 <= seen <= table.len(),
                i == table.take(seen).filter(kept).len(),
                self@ == table.take(seen).filter(kept) + table.skip(seen),
                forall|record: &Record| #[trigger] call_requires(keep, (record,)),
                forall|record: &Record, result: bool| #[trigger]
                    call_ensures(keep, (record,), result) ==> result == kept(record@),
            decreases table.len() - seen,
        {
            let ghost before = self@;
            proof {
                assert(self@.len() == i + (table.len() - seen));
                assert(self@[i as int] == table[seen]);
                lemma_kept_step(table, seen, kept);
            }
            if keep(&self.records[i]) {
                i += 1;
            } else {
                self.records.remove(i);
                assert(self@ =~= before.remove(i as int));
            }
            proof {
                seen = seen + 1;
                assert(self@ =~= table.take(seen).filter(kept) + table.skip(seen));
            }
        }
        proof {
            assert(table.take(seen) =~= table);
            assert(self@ =~= table.filter(kept));
            lemma_kept_are_unique(table, kept);
        }
    }

    /// Remove a request.
    pub fn delete(&mut self, device: Device, md5sum: &str)
        requires
            old(self).wf(),
        ensures
            final(self).wf(),
            final(self)@ == old(self)@.filter(
                |record: RecordView| !record.is_for(device, md5sum@),
            ),
    {
        let keep = |record: &Record| -> (result: bool)
            ensures
                result == !record@.is_for(device, md5sum@),
        {
            !record.is_for(device, md5sum)
        };
        self.retain(keep, Ghost(|record: RecordView| !record.is_for(device, md5sum@)));
    }

    /// Remove all finished requests.
    ///
    /// This should be called whenever the image files have been deleted, to
    /// avoid inconsistency between database and image storage.
    pub fn delete_done(&mut self)
        requires
            old(self).wf(),
        ensures
            final(self).wf(),
            final(self)@ == after_delete_done(old(self)@),
    {
        let keep = |record: &Record| -> (result: bool)
            ensures
                result == (record@.status != Status::Done),
        {
            record.status != Status::Done
        };
        self.retain(keep, Ghost(|record: RecordView| record.status != Status::Done));
    }

    /// A database which holds `records`.
    ///
    /// Returns `None` if two of them share device and package checksum.
    pub fn from_records(records: Vec<Record>) -> (db: Option<Self>)
        ensures
            match db {
                Some(db) => db.wf() && db@ == record_views(records@),
                None => !keys_are_unique(record_views(records@)),
            },
    {
        let mut db = Db { records: Vec::new() };
        let mut rest = records;
        let ghost table = record_views(records@);
        assert(record_views(rest@) =~= table.skip(0));
        assert(db@ =~= table.take(0));
        while rest.len() > 0
            invariant
                db.wf(),
                table == record_views(records@),
                db@.len() + rest@.len() == table.len(),
                db@ == table.take(db@.len() as int),
                record_views(rest@) == table.skip(db@.len() as int),
            decreases rest@.len(),
        {
            let ghost done = db@.len() as int;
            let ghost before = rest@;
            let record = rest.remove(0);
            assert(record@ == record_views(before)[0]);
            assert(record@ == table[done]);
            if let Some(i) = db.position(record.device, record.md5sum.as_str()) {
                assert(table[i as int] == db@[i as int]);
                assert(table[i as int].is_for(table[done].device, table[done].md5sum));
                return None;
            }
            let ghost earlier = db@;
            db.records.push(record);
            proof {
                assert(db@ =~= earlier.push(record@));
                assert(db@ =~= table.take(done + 1));
                assert forall|j: int| 0 <= j < rest@.len() implies #[trigger] record_views(rest@)[j]
                    == table.skip(done + 1)[j] by {
                    assert(record_views(before)[j + 1] == table.skip(done)[j + 1]);
                }
                assert(record_views(rest@) =~= table.skip(done + 1));
            }
        }
        assert(db@ =~= table);
        Some(db)
    }

    /// All requests, in the order in which they were inserted.
    pub fn records(&self) -> (records: &Vec<Record>)
        ensures
            record_views(records@) == self@,
    {
        &self.records
    }
}

proof fn lemma_kept_none(table: Seq<RecordView>, kept: spec_fn(RecordView) -> bool)
    ensures
        table.take(0).filter(kept) == Seq::<RecordView>::empty(),
        table.take(0).filter(kept) + table.skip(0) == table,
{
    reveal(Seq::filter);
    assert(table.take(0).filter(kept) =~= Seq::<RecordView>::empty());
    assert(table.take(0).filter(kept) + table.skip(0) =~= table);
}

proof fn lemma_kept_step(table: Seq<RecordView>, i: int, kept: spec_fn(RecordView) -> bool)
    requires
        0 <= i < table.len(),
    ensures
        table.take(i + 1).filter(kept) == (if kept(table[i]) {
            table.take(i).filter(kept).push(table[i])
        } else {
            table.take(i).filter(kept)
        }),
{
    reveal(Seq::filter);
    assert(table.take(i + 1).drop_last() =~= table.take(i));
}

/// Removing requests leaves no two which share device and package checksum.
pub proof fn lemma_kept_are_unique(table: Seq<RecordView>, kept: spec_fn(RecordView) -> bool)
    requires
        keys_are_unique(table),
    ensures
        keys_are_unique(table.filter(kept)),
    decreases table.len(),
{
    reveal(Seq::filter);
    if table.len() > 0 {
        let init = table.drop_last();
        let rest = init.filter(kept);
        assert(keys_are_unique(init)) by {
            assert forall|i: int, j: int| 0 <= i < j < init.len() implies !(#[trigger] init[i]).is_for(
                (#[trigger] init[j]).device,
                init[j].md5sum,
            ) by {
                assert(!table[i].is_for(table[j].device, table[j].md5sum));
            }
        }
        lemma_kept_are_unique(init, kept);
        if kept(table.last()) {
            assert forall|i: int| 0 <= i < rest.len() implies !(#[trigger] rest[i]).is_for(
                table.last().device,
                table.last().md5sum,
            ) by {
                assert(rest.contains(rest[i]));
                init.lemma_filter_contains_rev(kept, rest[i]);
                let k = choose|k: int| 0 <= k < init.len() && init[k] == rest[i];
                assert(!table[k].is_for(table[table.len() - 1].device, table[table.len() - 1].md5sum));
            }
        }
    }
}

/// No request but the one at `i` has its device and package checksum.
pub proof fn lemma_others_are_not_for(
    table: Seq<RecordView>,
    i: int,
    device: Device,
    md5sum: Seq<char>,
)
    requires
        keys_are_unique(table),
        is_at(table, i, device, md5sum),
    ensures
        forall|j: int|
            0 <= j < table.len() && j != i ==> !(#[trigger] table[j]).is_for(device, md5sum),
{
    assert forall|j: int| 0 <= j < table.len() && j != i implies !(#[trigger] table[j]).is_for(
        device,
        md5sum,
    ) by {
        if j < i {
            assert(!table[j].is_for(table[i].device, table[i].md5sum));
        } else {
            assert(!table[i].is_for(table[j].device, table[j].md5sum));
        }
    }
}

proof fn lemma_changed_at(
    table: Seq<RecordView>,
    i: int,
    device: Device,
    md5sum: Seq<char>,
    change: spec_fn(RecordView) -> RecordView,
)
    requires
        keys_are_unique(table),
        is_at(table, i, device, md5sum),
    ensures
        changed(table, device, md5sum, change) == table.update(i, change(table[i])),
{
    lemma_others_are_not_for(table, i, device, md5sum);
    assert(changed(table, device, md5sum, change) =~= table.update(i, change(table[i])));
}

proof fn lemma_selected_none(table: Seq<RecordView>, pred: spec_fn(RecordView) -> bool)
    ensures
        selected(table.take(0), pred) == Seq::<RequestView>::empty(),
{
    reveal(Seq::filter);
    assert(selected(table.take(0), pred) =~= Seq::<RequestView>::empty());
}

proof fn lemma_selected_step(table: Seq<RecordView>, i: int, pred: spec_fn(RecordView) -> bool)
    requires
        0 <= i < table.len(),
    ensures
        selected(table.take(i + 1), pred) == (if pred(table[i]) {
            selected(table.take(i), pred).push(table[i].request())
        } else {
            selected(table.take(i), pred)
        }),
{
    reveal(Seq::filter);
    assert(table.take(i + 1).drop_last() =~= table.take(i));
    if pred(table[i]) {
        assert(selected(table.take(i + 1), pred) =~= selected(table.take(i), pred).push(
            table[i].request(),
        ));
    }
}

} // verus!
