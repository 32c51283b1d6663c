//! What holds of build requests over several operations.

use vstd::prelude::*;

use crate::db;
use crate::db::{Device, RecordView, RequestView, Status};

verus! {

/// Whether `after` lists the same requests as `before`, in whatever status.
spec fn same_keys(before: Seq<RecordView>, after: Seq<RecordView>) -> bool {
    &&& before.len() == after.len()
    &&& forall|i: int|
        0 <= i < before.len() ==> (#[trigger] after[i]).is_for(before[i].device, before[i].md5sum)
}

/// Finding a request depends on devices and checksums only.
proof fn lemma_lookup_same_keys(
    before: Seq<RecordView>,
    after: Seq<RecordView>,
    device: Device,
    md5sum: Seq<char>,
) -> (i: int)
    requires
        db::keys_are_unique(before),
        same_keys(before, after),
    ensures
        db::keys_are_unique(after),
        match db::lookup(before, device, md5sum) {
            Some(record) => {
                &&& db::is_at(before, i, device, md5sum)
                &&& record == before[i]
                &&& db::lookup(after, device, md5sum) == Some(after[i])
            },
            None => db::lookup(after, device, md5sum) is None,
        },
{
    assert forall|i: int, j: int| 0 <= i < j < after.len() implies !(#[trigger] after[i]).is_for(
        (#[trigger] after[j]).device,
        after[j].md5sum,
    ) by {
        assert(!before[i].is_for(before[j].device, before[j].md5sum));
    }
    let i = choose|i: int| #[trigger] db::is_at(before, i, device, md5sum);
    if db::lookup(before, device, md5sum) is Some {
        assert(db::is_at(before, i, device, md5sum));
        assert(db::is_at(after, i, device, md5sum));
        db::lemma_lookup_at(before, i, device, md5sum);
        db::lemma_lookup_at(after, i, device, md5sum);
    } else {
        assert forall|k: int| !#[trigger] db::is_at(after, k, device, md5sum) by {
            assert(!db::is_at(before, k, device, md5sum));
        }
    }
    i
}

/// A checked status change keeps the keys unique.
pub proof fn lemma_status_change_keeps_unique(
    table: Seq<RecordView>,
    device: Device,
    md5sum: Seq<char>,
    status: Status,
    now: i64,
)
    requires
        db::keys_are_unique(table),
    ensures
        db::keys_are_unique(db::after_set_status(table, device, md5sum, status, now)),
{
    let after = db::after_set_status(table, device, md5sum, status, now);
    let _ = lemma_lookup_same_keys(table, after, device, md5sum);
}

/// A change to a single request keeps the keys unique.
pub proof fn lemma_change_keeps_unique(
    table: Seq<RecordView>,
    device: Device,
    md5sum: Seq<char>,
    change: spec_fn(RecordView) -> RecordView,
)
    requires
        db::keys_are_unique(table),
        forall|record: RecordView|
            (#[trigger] change(record)).is_for(record.device, record.md5sum),
    ensures
        db::keys_are_unique(db::changed(table, device, md5sum, change)),
{
    let after = db::changed(table, device, md5sum, change);
    let _ = lemma_lookup_same_keys(table, after, device, md5sum);
}

proof fn lemma_lookup_none(table: Seq<RecordView>, device: Device, md5sum: Seq<char>)
    requires
        forall|i: int| 0 <= i < table.len() ==> !(#[trigger] table[i]).is_for(device, md5sum),
    ensures
        db::lookup(table, device, md5sum) is None,
{
    assert forall|i: int| !#[trigger] db::is_at(table, i, device, md5sum) by {
        if 0 <= i < table.len() {
            assert(!table[i].is_for(device, md5sum));
        }
    }
}

/// After an insertion a request is known. A request which was known before
/// keeps everything, and a new one is pending.
pub proof fn law_inserted_request_is_known(
    table: Seq<RecordView>,
    device: Device,
    md5sum: Seq<char>,
    packages: Seq<char>,
    now: i64,
)
    requires
        db::keys_are_unique(table),
    ensures
        db::lookup(db::after_insert(table, device, md5sum, packages, now), device, md5sum) == (
        match db::lookup(table, device, md5sum) {
            Some(record) => Some(record),
            None => Some(db::fresh_record(device, md5sum, packages, now)),
        }),
{
    let after = db::after_insert(table, device, md5sum, packages, now);
    if db::lookup(table, device, md5sum) is None {
        db::lemma_push_keeps_unique(table, db::fresh_record(device, md5sum, packages, now));
        db::lemma_lookup_at(after, table.len() as int, device, md5sum);
    }
}

/// Inserting the same request again changes nothing.
pub proof fn law_insertion_is_idempotent(
    table: Seq<RecordView>,
    device: Device,
    md5sum: Seq<char>,
    packages: Seq<char>,
    now: i64,
    packages_again: Seq<char>,
    later: i64,
)
    requires
        db::keys_are_unique(table),
    ensures
        ({
            let once = db::after_insert(table, device, md5sum, packages, now);
            db::after_insert(once, device, md5sum, packages_again, later) == once
        }),
{
    law_inserted_request_is_known(table, device, md5sum, packages, now);
}

/// An insertion leaves all other requests as they are, in particular those
/// with the same packages for another device.
pub proof fn law_insertion_keeps_others(
    table: Seq<RecordView>,
    device: Device,
    md5sum: Seq<char>,
    packages: Seq<char>,
    now: i64,
    other_device: Device,
    other_md5sum: Seq<char>,
)
    requires
        db::keys_are_unique(table),
        other_device != device || other_md5sum != md5sum,
    ensures
        db::lookup(
            db::after_insert(table, device, md5sum, packages, now),
            other_device,
            other_md5sum,
        ) == db::lookup(table, other_device, other_md5sum),
{
    let after = db::after_insert(table, device, md5sum, packages, now);
    if db::lookup(table, device, md5sum) is None {
        db::lemma_push_keeps_unique(table, db::fresh_record(device, md5sum, packages, now));
        if db::lookup(table, other_device, other_md5sum) is Some {
            let i = choose|i: int| #[trigger] db::is_at(table, i, other_device, other_md5sum);
            assert(db::is_at(after, i, other_device, other_md5sum));
            db::lemma_lookup_at(after, i, other_device, other_md5sum);
        } else {
            assert forall|i: int| 0 <= i < after.len() implies !(#[trigger] after[i]).is_for(
                other_device,
                other_md5sum,
            ) by {
                assert(!db::is_at(table, i, other_device, other_md5sum));
            }
            lemma_lookup_none(after, other_device, other_md5sum);
        }
    }
}

/// A claim for building succeeds if and only if the request is pending or its
/// build timed out.
pub proof fn law_claim_needs_open_build(
    table: Seq<RecordView>,
    device: Device,
    md5sum: Seq<char>,
    now: i64,
)
    requires
        db::keys_are_unique(table),
    ensures
        db::any_takes(table, device, md5sum, Status::Building, now) <==> (db::lookup(
            table,
            device,
            md5sum,
        ) matches Some(record) && record.needs_build(now)),
{
    if db::any_takes(table, device, md5sum, Status::Building, now) {
        let i = choose|i: int|
            0 <= i < table.len() && (#[trigger] table[i]).takes(
                device,
                md5sum,
                Status::Building,
                now,
            );
        db::lemma_lookup_at(table, i, device, md5sum);
    }
    if db::lookup(table, device, md5sum) is Some {
        let i = choose|i: int| #[trigger] db::is_at(table, i, device, md5sum);
        assert(table[i].is_for(device, md5sum));
    }
}

/// A request can be claimed for building if and only if it is listed for
/// workers.
pub proof fn law_listed_requests_can_be_claimed(
    table: Seq<RecordView>,
    device: Device,
    md5sum: Seq<char>,
    now: i64,
)
    requires
        db::keys_are_unique(table),
    ensures
        db::any_takes(table, device, md5sum, Status::Building, now) <==> exists|request: RequestView|
            request.device == device && request.md5sum == md5sum && #[trigger] db::open_requests(
                table,
                now,
            ).contains(request),
{
    let pred = |record: RecordView| record.needs_build(now);
    let list = db::open_requests(table, now);
    law_claim_needs_open_build(table, device, md5sum, now);
    if db::any_takes(table, device, md5sum, Status::Building, now) {
        law_pending_lists_open_builds(table, device, md5sum, now);
        let i = choose|i: int| #[trigger] db::is_at(table, i, device, md5sum);
        db::lemma_lookup_at(table, i, device, md5sum);
        assert(list.contains(table[i].request()));
    }
    if exists|request: RequestView|
        request.device == device && request.md5sum == md5sum && #[trigger] list.contains(request) {
        let request = choose|request: RequestView|
            request.device == device && request.md5sum == md5sum && #[trigger] list.contains(request);
        law_selection(table, pred, request);
        let i = choose|i: int|
            0 <= i < table.len() && pred(#[trigger] table[i]) && table[i].request() == request;
        assert(table[i].takes(device, md5sum, Status::Building, now));
    }
}

/// A request which was claimed for building cannot be claimed a second time,
/// until its build times out.
pub proof fn law_cannot_build_twice(
    table: Seq<RecordView>,
    device: Device,
    md5sum: Seq<char>,
    now: i64,
    later: i64,
)
    requires
        db::keys_are_unique(table),
        db::any_takes(table, device, md5sum, Status::Building, now),
    ensures
        db::any_takes(
            db::after_set_status(table, device, md5sum, Status::Building, now),
            device,
            md5sum,
            Status::Building,
            later,
        ) <==> later > now + db::BUILD_TIMEOUT,
{
    let after = db::after_set_status(table, device, md5sum, Status::Building, now);
    law_claim_needs_open_build(table, device, md5sum, now);
    let i = lemma_lookup_same_keys(table, after, device, md5sum);
    law_claim_needs_open_build(after, device, md5sum, later);
}

/// Whether a checked status change is possible depends on the request which was
/// asked for alone. One which is not possible changes nothing.
pub proof fn law_status_change_needs_request(
    table: Seq<RecordView>,
    device: Device,
    md5sum: Seq<char>,
    status: Status,
    now: i64,
)
    requires
        db::keys_are_unique(table),
    ensures
        db::any_takes(table, device, md5sum, status, now) <==> (db::lookup(
            table,
            device,
            md5sum,
        ) matches Some(record) && record.takes(device, md5sum, status, now)),
        !db::any_takes(table, device, md5sum, status, now) ==> db::after_set_status(
            table,
            device,
            md5sum,
            status,
            now,
        ) == table,
{
    if db::any_takes(table, device, md5sum, status, now) {
        let i = choose|i: int|
            0 <= i < table.len() && (#[trigger] table[i]).takes(device, md5sum, status, now);
        db::lemma_lookup_at(table, i, device, md5sum);
    } else {
        assert(db::after_set_status(table, device, md5sum, status, now) =~= table);
    }
    if db::lookup(table, device, md5sum) is Some {
        let i = choose|i: int| #[trigger] db::is_at(table, i, device, md5sum);
        assert(table[i].is_for(device, md5sum));
    }
}

/// A claim restarts the time limit of the build.
pub proof fn law_claim_restarts_time_limit(
    table: Seq<RecordView>,
    device: Device,
    md5sum: Seq<char>,
    now: i64,
    i: int,
    later: i64,
)
    requires
        0 <= i < table.len(),
        table[i].takes(device, md5sum, Status::Building, now),
        later <= now + db::BUILD_TIMEOUT,
    ensures
        !db::after_set_status(table, device, md5sum, Status::Building, now)[i].building_longer_than(
            db::BUILD_TIMEOUT,
            later,
        ),
{
}

/// An image can be written for a request if and only if the request is being
/// built.
pub proof fn law_write_needs_build(
    table: Seq<RecordView>,
    device: Device,
    md5sum: Seq<char>,
    now: i64,
)
    requires
        db::keys_are_unique(table),
    ensures
        db::any_takes(table, device, md5sum, Status::Writing, now) <==> (db::lookup(
            table,
            device,
            md5sum,
        ) matches Some(record) && record.status == Status::Building),
{
    if db::any_takes(table, device, md5sum, Status::Writing, now) {
        let i = choose|i: int|
            0 <= i < table.len() && (#[trigger] table[i]).takes(
                device,
                md5sum,
                Status::Writing,
                now,
            );
        db::lemma_lookup_at(table, i, device, md5sum);
    }
    if db::lookup(table, device, md5sum) is Some {
        let i = choose|i: int| #[trigger] db::is_at(table, i, device, md5sum);
        assert(table[i].is_for(device, md5sum));
    }
}

/// A checked status change never takes a request anywhere but from pending to
/// building and from building to writing, and changes nothing else but the
/// time of the last change. In particular a finished request stays as it is.
pub proof fn law_checked_changes_follow_life_cycle(
    table: Seq<RecordView>,
    device: Device,
    md5sum: Seq<char>,
    status: Status,
    now: i64,
    i: int,
)
    requires
        0 <= i < table.len(),
    ensures
        ({
            let before = table[i];
            let after = db::after_set_status(table, device, md5sum, status, now)[i];
            &&& after == (RecordView { status: after.status, updated_at: after.updated_at, ..before })
            &&& after.status != before.status ==> {
                ||| before.status == Status::Pending && after.status == Status::Building
                ||| before.status == Status::Building && after.status == Status::Writing
            }
            &&& before.status == Status::Done ==> after == before
            &&& before.status == Status::Writing ==> after == before
        }),
{
}

/// A checked status change leaves all other requests as they are.
pub proof fn law_status_change_keeps_others(
    table: Seq<RecordView>,
    device: Device,
    md5sum: Seq<char>,
    status: Status,
    now: i64,
    other_device: Device,
    other_md5sum: Seq<char>,
)
    requires
        db::keys_are_unique(table),
        other_device != device || other_md5sum != md5sum,
    ensures
        db::lookup(
            db::after_set_status(table, device, md5sum, status, now),
            other_device,
            other_md5sum,
        ) == db::lookup(table, other_device, other_md5sum),
{
    let after = db::after_set_status(table, device, md5sum, status, now);
    let _ = lemma_lookup_same_keys(table, after, other_device, other_md5sum);
}

/// What is read of a request after a checked status change which concerned it.
pub proof fn law_status_change_is_read_back(
    table: Seq<RecordView>,
    device: Device,
    md5sum: Seq<char>,
    status: Status,
    now: i64,
)
    requires
        db::keys_are_unique(table),
        db::lookup(table, device, md5sum) matches Some(record) && record.takes(
            device,
            md5sum,
            status,
            now,
        ),
    ensures
        db::lookup(db::after_set_status(table, device, md5sum, status, now), device, md5sum)
            == Some(db::lookup(table, device, md5sum)->0.with_status(status, now)),
{
    let after = db::after_set_status(table, device, md5sum, status, now);
    let _ = lemma_lookup_same_keys(table, after, device, md5sum);
}

/// What is read of a request after a change to it alone: the changed request.
/// All other requests are read as before.
pub proof fn law_change_is_read_back(
    table: Seq<RecordView>,
    device: Device,
    md5sum: Seq<char>,
    change: spec_fn(RecordView) -> RecordView,
    other_device: Device,
    other_md5sum: Seq<char>,
)
    requires
        db::keys_are_unique(table),
        forall|record: RecordView|
            (#[trigger] change(record)).is_for(record.device, record.md5sum),
    ensures
        db::lookup(db::changed(table, device, md5sum, change), device, md5sum) == (match db::lookup(
            table,
            device,
            md5sum,
        ) {
            Some(record) => Some(change(record)),
            None => None,
        }),
        other_device != device || other_md5sum != md5sum ==> db::lookup(
            db::changed(table, device, md5sum, change),
            other_device,
            other_md5sum,
        ) == db::lookup(table, other_device, other_md5sum),
{
    let after = db::changed(table, device, md5sum, change);
    let _ = lemma_lookup_same_keys(table, after, device, md5sum);
    let _ = lemma_lookup_same_keys(table, after, other_device, other_md5sum);
}

/// After a request was marked as done, its status is 'done' and the checksum
/// of its image is known.
pub proof fn law_done_is_read_back(
    table: Seq<RecordView>,
    device: Device,
    md5sum: Seq<char>,
    img_md5sum: Seq<char>,
    now: i64,
)
    requires
        db::keys_are_unique(table),
        db::lookup(table, device, md5sum) is Some,
    ensures
        db::lookup(
            db::after_done(table, device, md5sum, img_md5sum, now),
            device,
            md5sum,
        ) matches Some(record) && record.status == Status::Done && record.img_md5sum == Some(
            img_md5sum,
        ) && record.updated_at == now,
{
    law_change_is_read_back(
        table,
        device,
        md5sum,
        |record: RecordView| record.with_image(img_md5sum, now),
        device,
        md5sum,
    );
}

/// A download is counted once.
pub proof fn law_download_is_counted(table: Seq<RecordView>, device: Device, md5sum: Seq<char>)
    requires
        db::keys_are_unique(table),
        db::lookup(table, device, md5sum) matches Some(record) && record.downloads < i64::MAX,
    ensures
        db::lookup(
            db::changed(table, device, md5sum, |record: RecordView| record.downloaded()),
            device,
            md5sum,
        ) matches Some(record) && record.downloads == db::lookup(table, device, md5sum)->0.downloads
            + 1,
{
    law_change_is_read_back(
        table,
        device,
        md5sum,
        |record: RecordView| record.downloaded(),
        device,
        md5sum,
    );
}

/// A request whose upload failed is building again, so that another upload can
/// be started for it.
pub proof fn law_failed_upload_can_be_repeated(
    table: Seq<RecordView>,
    device: Device,
    md5sum: Seq<char>,
    now: i64,
    later: i64,
)
    requires
        db::keys_are_unique(table),
        db::lookup(table, device, md5sum) is Some,
    ensures
        db::any_takes(
            db::changed(
                table,
                device,
                md5sum,
                |record: RecordView| record.with_status(Status::Building, now),
            ),
            device,
            md5sum,
            Status::Writing,
            later,
        ),
{
    let change = |record: RecordView| record.with_status(Status::Building, now);
    let after = db::changed(table, device, md5sum, change);
    let i = choose|i: int| #[trigger] db::is_at(table, i, device, md5sum);
    assert(after[i].takes(device, md5sum, Status::Writing, later));
}

/// Removing requests leaves exactly those which are kept.
pub proof fn law_removal(
    table: Seq<RecordView>,
    kept: spec_fn(RecordView) -> bool,
    device: Device,
    md5sum: Seq<char>,
)
    requires
        db::keys_are_unique(table),
    ensures
        db::lookup(table.filter(kept), device, md5sum) == (match db::lookup(table, device, md5sum) {
            Some(record) => if kept(record) {
                Some(record)
            } else {
                None
            },
            None => None,
        }),
{
    let rest = table.filter(kept);
    db::lemma_kept_are_unique(table, kept);
    broadcast use vstd::seq_lib::group_filter_ensures;

    if db::lookup(table, device, md5sum) is Some {
        let i = choose|i: int| #[trigger] db::is_at(table, i, device, md5sum);
        db::lemma_lookup_at(table, i, device, md5sum);
        if kept(table[i]) {
            assert(rest.contains(table[i]));
            let k = choose|k: int| 0 <= k < rest.len() && rest[k] == table[i];
            db::lemma_lookup_at(rest, k, device, md5sum);
        }
    }
    if db::lookup(rest, device, md5sum) is Some {
        let k = choose|k: int| #[trigger] db::is_at(rest, k, device, md5sum);
        assert(rest.contains(rest[k]));
        table.lemma_filter_contains_rev(kept, rest[k]);
        let i = choose|i: int| 0 <= i < table.len() && table[i] == rest[k];
        db::lemma_lookup_at(table, i, device, md5sum);
        assert(kept(rest[k]));
    }
}

/// The requests told to workers are exactly those which satisfy the condition.
pub proof fn law_selection(
    table: Seq<RecordView>,
    pred: spec_fn(RecordView) -> bool,
    request: RequestView,
)
    ensures
        db::selected(table, pred).contains(request) <==> exists|i: int|
            0 <= i < table.len() && pred(#[trigger] table[i]) && table[i].request() == request,
{
    broadcast use vstd::seq_lib::group_filter_ensures;

    let kept = table.filter(pred);
    let list = db::selected(table, pred);
    if list.contains(request) {
        let k = choose|k: int| 0 <= k < list.len() && list[k] == request;
        assert(kept.contains(kept[k]));
        table.lemma_filter_contains_rev(pred, kept[k]);
        let i = choose|i: int| 0 <= i < table.len() && table[i] == kept[k];
        assert(pred(kept[k]));
        assert(pred(table[i]));
    }
    if exists|i: int| 0 <= i < table.len() && pred(#[trigger] table[i]) && table[i].request()
        == request {
        let i = choose|i: int|
            0 <= i < table.len() && pred(#[trigger] table[i]) && table[i].request() == request;
        assert(kept.contains(table[i]));
        let k = choose|k: int| 0 <= k < kept.len() && kept[k] == table[i];
        assert(list[k] == request);
    }
}

/// A request which is being written or done, or whose build is within the time
/// limit, is hidden from the list of pending requests.
pub proof fn law_pending_hides_running_builds(
    table: Seq<RecordView>,
    device: Device,
    md5sum: Seq<char>,
    now: i64,
    listed: RequestView,
)
    requires
        db::keys_are_unique(table),
        db::lookup(table, device, md5sum) matches Some(record) && record.status != Status::Pending
            && !record.building_longer_than(db::BUILD_TIMEOUT, now),
        db::open_requests(table, now).contains(listed),
    ensures
        listed.device != device || listed.md5sum != md5sum,
{
    let pred = |record: RecordView| record.needs_build(now);
    law_selection(table, pred, listed);
    let i = choose|i: int|
        0 <= i < table.len() && pred(#[trigger] table[i]) && table[i].request() == listed;
    if table[i].is_for(device, md5sum) {
        db::lemma_lookup_at(table, i, device, md5sum);
    }
}

/// A pending request, and one whose build timed out, is listed for workers.
pub proof fn law_pending_lists_open_builds(
    table: Seq<RecordView>,
    device: Device,
    md5sum: Seq<char>,
    now: i64,
)
    requires
        db::lookup(table, device, md5sum) matches Some(record) && record.needs_build(now),
    ensures
        db::open_requests(table, now).contains(
            db::lookup(table, device, md5sum)->0.request(),
        ),
{
    let pred = |record: RecordView| record.needs_build(now);
    let i = choose|i: int| #[trigger] db::is_at(table, i, device, md5sum);
    assert(pred(table[i]));
    law_selection(table, pred, table[i].request());
}

/// Every build which timed out is reported as slow.
pub proof fn law_timed_out_builds_are_slow(record: RecordView, now: i64)
    ensures
        record.building_longer_than(db::BUILD_TIMEOUT, now) ==> record.building_longer_than(
            db::SLOW_BUILD,
            now,
        ),
{
}

} // verus!
