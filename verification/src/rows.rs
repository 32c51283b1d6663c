//! What the operations on the requests table mean for its rows.

use vstd::prelude::*;

use crate::db;
use crate::db::{Db, Device, InsertedRequest, Record, RecordView, Request, RequestStatus, RequestView, Status};
use crate::text;

verus! {

/// A device is found by exactly one of these names.
pub proof fn law_devices_have_names(name: &str)
    ensures
        Device::PinePhonePro.name() == "pinephone-pro"@,
        Device::PinePhone.name() == "pinephone"@,
        Device::Fairphone5.name() == "fairphone-fp5"@,
        <Device as vstd::std_specs::convert::TryFromSpec<&str>>::obeys_try_from_spec(),
        <Device as vstd::std_specs::convert::TryFromSpec<&str>>::try_from_spec(name) == (if name@
            == "pinephone-pro"@ {
            Ok::<Device, ()>(Device::PinePhonePro)
        } else if name@ == "pinephone"@ {
            Ok(Device::PinePhone)
        } else if name@ == "fairphone-fp5"@ {
            Ok(Device::Fairphone5)
        } else {
            Err(())
        }),
{
    db::law_device_names(Device::PinePhonePro, name@);
    db::law_device_names(Device::PinePhone, name@);
    db::law_device_names(Device::Fairphone5, name@);
}

/// What is stored of a request, and what is told of it, holds each of its parts
/// unchanged.
pub proof fn law_requests_hold_their_parts(
    record: Record,
    request: Request,
    inserted: InsertedRequest,
    status: RequestStatus,
)
    ensures
        record@.md5sum == record.md5sum@,
        record@.device == record.device,
        record@.packages == record.packages@,
        record@.status == record.status,
        record@.img_md5sum is Some <==> record.img_md5sum is Some,
        record.img_md5sum matches Some(img_md5sum) ==> record@.img_md5sum == Some(img_md5sum@),
        record@.updated_at == record.updated_at,
        record@.downloads == record.downloads,
        request@.md5sum == request.md5sum@,
        request@.device == request.device,
        request@.packages == request.packages@,
        request@.status == request.status,
        request@.updated_at == request.updated_at,
        inserted@.md5sum == inserted.md5sum@,
        inserted@.status == inserted.status,
        inserted@.updated_at == inserted.updated_at,
        status@.status == status.status,
        status@.img_md5sum is Some <==> status.img_md5sum is Some,
        status.img_md5sum matches Some(img_md5sum) ==> status@.img_md5sum == Some(img_md5sum@),
{
}

/// Lists of requests hold each of them, in the same place.
pub proof fn law_lists_hold_their_requests(records: Seq<Record>, requests: Seq<Request>)
    ensures
        db::record_views(records).len() == records.len(),
        forall|i: int| 0 <= i < records.len() ==> #[trigger] db::record_views(records)[i] == records[i]@,
        db::request_views(requests).len() == requests.len(),
        forall|i: int|
            0 <= i < requests.len() ==> #[trigger] db::request_views(requests)[i] == requests[i]@,
{
}

/// Workers and clients are told of a request what is stored of it.
pub proof fn law_stored_parts_are_told(record: RecordView)
    ensures
        record.request().md5sum == record.md5sum,
        record.request().device == record.device,
        record.request().packages == record.packages,
        record.request().status == record.status,
        record.request().updated_at == record.updated_at,
        record.inserted().md5sum == record.md5sum,
        record.inserted().status == record.status,
        record.inserted().updated_at == record.updated_at,
        record.request_status().status == record.status,
        record.request_status().img_md5sum == record.img_md5sum,
{
}

/// A request needs a worker if and only if it is pending, or has been building
/// for more than half an hour. After a quarter of an hour a build is slow.
pub proof fn law_time_limits(record: RecordView, now: i64)
    ensures
        record.needs_build(now) <==> {
            ||| record.status is Pending
            ||| record.status is Building && now - record.updated_at > 30 * 60
        },
        record.building_longer_than(db::BUILD_TIMEOUT, now) <==> record.status is Building && now
            - record.updated_at > 30 * 60,
        record.building_longer_than(db::SLOW_BUILD, now) <==> record.status is Building && now
            - record.updated_at > 15 * 60,
{
}

/// A checked change of the status is possible only for the request with the
/// given device and package checksum: to 'building' if it needs a worker, to
/// 'writing' if it is being built, and to nothing else.
pub proof fn law_possible_changes(
    record: RecordView,
    device: Device,
    md5sum: Seq<char>,
    status: Status,
    now: i64,
)
    ensures
        record.is_for(device, md5sum) <==> record.device == device && record.md5sum == md5sum,
        record.takes(device, md5sum, status, now) ==> record.device == device && record.md5sum
            == md5sum,
        record.device == device && record.md5sum == md5sum ==> {
            &&& record.takes(device, md5sum, Status::Building, now) <==> {
                ||| record.status is Pending
                ||| record.status is Building && now - record.updated_at > 30 * 60
            }
            &&& record.takes(device, md5sum, Status::Writing, now) <==> record.status is Building
        },
        status is Pending || status is Done ==> !record.takes(device, md5sum, status, now),
{
}

/// Each change of a request changes what it is for, and nothing else.
pub proof fn law_changes_leave_the_rest(
    record: RecordView,
    status: Status,
    img_md5sum: Seq<char>,
    now: i64,
)
    ensures
        ({
            let after = record.with_status(status, now);
            &&& after.status == status
            &&& after.updated_at == now
            &&& after.md5sum == record.md5sum
            &&& after.device == record.device
            &&& after.packages == record.packages
            &&& after.img_md5sum == record.img_md5sum
            &&& after.downloads == record.downloads
        }),
        ({
            let after = record.with_image(img_md5sum, now);
            &&& after.status == Status::Done
            &&& after.img_md5sum == Some(img_md5sum)
            &&& after.updated_at == now
            &&& after.md5sum == record.md5sum
            &&& after.device == record.device
            &&& after.packages == record.packages
            &&& after.downloads == record.downloads
        }),
        record.downloads < i64::MAX ==> {
            let after = record.downloaded();
            &&& after.downloads == record.downloads + 1
            &&& after.status == record.status
            &&& after.img_md5sum == record.img_md5sum
            &&& after.updated_at == record.updated_at
            &&& after.md5sum == record.md5sum
            &&& after.device == record.device
            &&& after.packages == record.packages
        },
{
}

/// A table is in order if and only if any two of its requests differ in device
/// or package checksum.
pub proof fn law_tables_in_order(table: Seq<RecordView>, db: Db)
    ensures
        db::keys_are_unique(table) <==> forall|i: int, j: int|
            0 <= i < table.len() && 0 <= j < table.len() && i != j ==> (#[trigger] table[i]).device
                != (#[trigger] table[j]).device || table[i].md5sum != table[j].md5sum,
        db.wf() <==> db::keys_are_unique(db@),
{
    if db::keys_are_unique(table) {
        assert forall|i: int, j: int|
            0 <= i < table.len() && 0 <= j < table.len() && i != j implies (
        #[trigger] table[i]).device != (#[trigger] table[j]).device || table[i].md5sum
            != table[j].md5sum by {
            if i < j {
                assert(!table[i].is_for(table[j].device, table[j].md5sum));
            } else {
                assert(!table[j].is_for(table[i].device, table[i].md5sum));
            }
        }
    }
}

/// A request is found if and only if it is in the table, under its own device
/// and package checksum.
pub proof fn law_requests_are_found(
    table: Seq<RecordView>,
    device: Device,
    md5sum: Seq<char>,
    record: RecordView,
)
    requires
        db::keys_are_unique(table),
    ensures
        db::lookup(table, device, md5sum) == Some(record) <==> table.contains(record)
            && record.device == device && record.md5sum == md5sum,
        db::lookup(table, device, md5sum) is None <==> forall|i: int|
            0 <= i < table.len() ==> (#[trigger] table[i]).device != device || table[i].md5sum
                != md5sum,
{
    if db::lookup(table, device, md5sum) is Some {
        let i = choose|i: int| #[trigger] db::is_at(table, i, device, md5sum);
        assert(db::is_at(table, i, device, md5sum));
        assert(table[i].device == device && table[i].md5sum == md5sum);
    } else {
        assert forall|i: int| 0 <= i < table.len() implies (#[trigger] table[i]).device != device
            || table[i].md5sum != md5sum by {
            assert(!db::is_at(table, i, device, md5sum));
        }
    }
    if table.contains(record) && record.device == device && record.md5sum == md5sum {
        let i = choose|i: int| 0 <= i < table.len() && table[i] == record;
        assert(db::is_at(table, i, device, md5sum));
        db::lemma_lookup_at(table, i, device, md5sum);
    }
}

/// The status which is told of a request is that of the one in the table, and
/// nothing is told of a request which is not there.
pub proof fn law_status_is_told(
    table: Seq<RecordView>,
    device: Device,
    md5sum: Seq<char>,
    status: RequestStatus,
)
    ensures
        db::is_status_of(table, device, md5sum, None) <==> db::lookup(table, device, md5sum) is None,
        db::is_status_of(table, device, md5sum, Some(status)) <==> {
            &&& db::lookup(table, device, md5sum) matches Some(record)
            &&& status.status == record.status
            &&& text::optional(status.img_md5sum) == record.img_md5sum
        },
{
}

/// The list of a table which is made of two parts is the list of the first and
/// then that of the second. A single request is listed, once and as it is, if
/// and only if it satisfies the condition.
pub proof fn law_lists_are_complete(
    a: Seq<RecordView>,
    b: Seq<RecordView>,
    record: RecordView,
    pred: spec_fn(RecordView) -> bool,
)
    ensures
        db::selected(a + b, pred) == db::selected(a, pred) + db::selected(b, pred),
        pred(record) ==> db::selected(seq![record], pred) == seq![record.request()],
        !pred(record) ==> db::selected(seq![record], pred) == Seq::<RequestView>::empty(),
        db::selected(Seq::empty(), pred) == Seq::<RequestView>::empty(),
{
    Seq::filter_distributes_over_add(a, b, pred);
    assert(db::selected(a + b, pred) =~= db::selected(a, pred) + db::selected(b, pred));
    reveal(Seq::filter);
    let none = Seq::<RecordView>::empty();
    assert(seq![record].drop_last() =~= none);
    assert(none.filter(pred) =~= none);
    assert(db::selected(none, pred) =~= Seq::<RequestView>::empty());
    if pred(record) {
        assert(seq![record].filter(pred) =~= seq![record]);
        assert(db::selected(seq![record], pred) =~= seq![record.request()]);
    } else {
        assert(db::selected(seq![record], pred) =~= Seq::<RequestView>::empty());
    }
}

/// The requests told to workers are, in the order of the table, each pending one
/// and each which has been building for more than half an hour.
pub proof fn law_workers_see_open_requests(
    a: Seq<RecordView>,
    b: Seq<RecordView>,
    record: RecordView,
    now: i64,
)
    ensures
        db::open_requests(a + b, now) == db::open_requests(a, now) + db::open_requests(b, now),
        db::open_requests(seq![record], now) == (if record.status is Pending || (
        record.status is Building && now - record.updated_at > 30 * 60) {
            seq![record.request()]
        } else {
            Seq::<RequestView>::empty()
        }),
{
    law_lists_are_complete(a, b, record, |record: RecordView| record.needs_build(now));
    law_time_limits(record, now);
}

/// A checked change of the status gives the request with the given device and
/// package checksum the new status if that is possible, and leaves all others
/// and the order of the table as they are.
pub proof fn law_status_change_of_rows(
    table: Seq<RecordView>,
    device: Device,
    md5sum: Seq<char>,
    status: Status,
    now: i64,
    i: int,
)
    requires
        0 <= i < table.len(),
    ensures
        ({
            let after = db::after_set_status(table, device, md5sum, status, now);
            &&& after.len() == table.len()
            &&& table[i].takes(device, md5sum, status, now) ==> after[i] == table[i].with_status(
                status,
                now,
            )
            &&& !table[i].takes(device, md5sum, status, now) ==> after[i] == table[i]
            &&& table[i].takes(device, md5sum, status, now) ==> db::any_takes(
                table,
                device,
                md5sum,
                status,
                now,
            )
        }),
{
}

/// A checked change of the status is possible only if it is possible for some
/// request of the table.
pub proof fn law_possible_change_concerns_some_row(
    table: Seq<RecordView>,
    device: Device,
    md5sum: Seq<char>,
    status: Status,
    now: i64,
) -> (i: int)
    requires
        db::any_takes(table, device, md5sum, status, now),
    ensures
        0 <= i < table.len(),
        table[i].takes(device, md5sum, status, now),
{
    choose|i: int| 0 <= i < table.len() && (#[trigger] table[i]).takes(device, md5sum, status, now)
}

/// A change to a single request applies to the one with the given device and
/// package checksum, and leaves all others and the order of the table as they
/// are.
pub proof fn law_change_of_rows(
    table: Seq<RecordView>,
    device: Device,
    md5sum: Seq<char>,
    change: spec_fn(RecordView) -> RecordView,
    i: int,
)
    requires
        0 <= i < table.len(),
    ensures
        db::changed(table, device, md5sum, change).len() == table.len(),
        db::changed(table, device, md5sum, change)[i] == (if table[i].device == device
            && table[i].md5sum == md5sum {
            change(table[i])
        } else {
            table[i]
        }),
{
}

/// Marking a request as done gives it that status and the checksum of its image,
/// and leaves everything else as it is.
pub proof fn law_done_row(
    table: Seq<RecordView>,
    device: Device,
    md5sum: Seq<char>,
    img_md5sum: Seq<char>,
    now: i64,
    i: int,
)
    requires
        0 <= i < table.len(),
    ensures
        ({
            let after = db::after_done(table, device, md5sum, img_md5sum, now);
            &&& after.len() == table.len()
            &&& after[i] == (if table[i].device == device && table[i].md5sum == md5sum {
                RecordView {
                    status: Status::Done,
                    img_md5sum: Some(img_md5sum),
                    updated_at: now,
                    ..table[i]
                }
            } else {
                table[i]
            })
        }),
{
}

/// Removing the finished requests takes out each request which is done, and
/// keeps all others in their order.
pub proof fn law_removal_of_finished_rows(
    a: Seq<RecordView>,
    b: Seq<RecordView>,
    record: RecordView,
)
    ensures
        db::after_delete_done(a + b) == db::after_delete_done(a) + db::after_delete_done(b),
        record.status is Done ==> db::after_delete_done(seq![record]) == Seq::<RecordView>::empty(),
        !(record.status is Done) ==> db::after_delete_done(seq![record]) == seq![record],
{
    let kept = |record: RecordView| record.status != Status::Done;
    Seq::filter_distributes_over_add(a, b, kept);
    reveal(Seq::filter);
    let none = Seq::<RecordView>::empty();
    assert(seq![record].drop_last() =~= none);
    assert(none.filter(kept) =~= none);
    assert(none.push(record) =~= seq![record]);
}

/// Inserting a request which is not present puts it behind all others, which
/// stay as they are. It is pending, for the given device, and holds the whole
/// package list and its checksum as they were given. A request which is present
/// is not inserted again.
pub proof fn law_inserted_row(
    table: Seq<RecordView>,
    device: Device,
    md5sum: Seq<char>,
    packages: Seq<char>,
    now: i64,
)
    requires
        db::keys_are_unique(table),
    ensures
        ({
            let after = db::after_insert(table, device, md5sum, packages, now);
            let present = exists|i: int|
                0 <= i < table.len() && (#[trigger] table[i]).device == device && table[i].md5sum
                    == md5sum;
            &&& present ==> after == table
            &&& !present ==> {
                &&& after.len() == table.len() + 1
                &&& after.drop_last() == table
                &&& after.last().device == device
                &&& after.last().md5sum == md5sum
                &&& after.last().packages == packages
                &&& after.last().status == Status::Pending
                &&& after.last().img_md5sum is None
                &&& after.last().updated_at == now
                &&& after.last().downloads == 0
            }
        }),
{
    let after = db::after_insert(table, device, md5sum, packages, now);
    if db::lookup(table, device, md5sum) is Some {
        let i = choose|i: int| #[trigger] db::is_at(table, i, device, md5sum);
        assert(db::is_at(table, i, device, md5sum));
        assert(table[i].device == device && table[i].md5sum == md5sum);
    } else {
        assert forall|i: int| 0 <= i < table.len() implies (#[trigger] table[i]).device != device
            || table[i].md5sum != md5sum by {
            assert(!db::is_at(table, i, device, md5sum));
        }
        assert(after.drop_last() =~= table);
    }
}

/// What a client asks for is what workers are told to build: a new request is
/// listed with the whole package list, its checksum and its device.
pub proof fn law_new_request_reaches_workers(
    table: Seq<RecordView>,
    device: Device,
    md5sum: Seq<char>,
    packages: Seq<char>,
    now: i64,
    later: i64,
)
    requires
        forall|i: int|
            0 <= i < table.len() ==> (#[trigger] table[i]).device != device || table[i].md5sum
                != md5sum,
    ensures
        ({
            let before = db::open_requests(table, later);
            let after = db::open_requests(
                db::after_insert(table, device, md5sum, packages, now),
                later,
            );
            &&& after.len() == before.len() + 1
            &&& after.drop_last() == before
            &&& after.last().device == device
            &&& after.last().md5sum == md5sum
            &&& after.last().packages == packages
            &&& after.last().status == Status::Pending
            &&& after.last().updated_at == now
        }),
{
    assert forall|i: int| !#[trigger] db::is_at(table, i, device, md5sum) by {
        if 0 <= i < table.len() {
            assert(table[i].device != device || table[i].md5sum != md5sum);
        }
    }
    let record = db::fresh_record(device, md5sum, packages, now);
    law_workers_see_open_requests(table, seq![record], record, later);
    assert(table + seq![record] =~= table.push(record));
    let before = db::open_requests(table, later);
    assert((before + seq![record.request()]).drop_last() =~= before);
}

} // verus!
