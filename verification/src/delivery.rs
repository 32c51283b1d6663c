//! How requests, uploads and downloads work together.

use vstd::prelude::*;

use crate::api;
use crate::db;
use crate::db::{Device, RecordView, RequestStatus, Status};
use crate::digest;
use crate::download::{DownloadActionView, DownloadEvent, DownloadStage, DownloadView};
use crate::error::{ReplyView, NOT_FOUND};
use crate::lifecycle;
use crate::paths;
use crate::upload;
use crate::upload::{FieldHead, UploadActionView, UploadEvent, UploadStage, UploadView};

verus! {

/// A completed upload ends with its request marked as done, with the checksum of
/// all data which was uploaded. From then on the status of the request is
/// 'done' with that checksum, and a download of the image opens the file which
/// the upload has written.
pub proof fn law_completed_upload_can_be_downloaded(
    start: UploadView,
    events: Seq<UploadEvent>,
    table: Seq<RecordView>,
    now: i64,
    status: Option<RequestStatus>,
    download: DownloadView,
)
    requires
        start.stage == UploadStage::Tarball,
        start.received == Seq::<u8>::empty(),
        upload::is_run(start, events),
        upload::run(start, events).stage == UploadStage::Cache,
        db::keys_are_unique(table),
        db::lookup(table, start.device, start.md5sum) is Some,
        db::is_status_of(
            db::after_done(
                table,
                start.device,
                start.md5sum,
                digest::md5_text(upload::data_of(events)),
                now,
            ),
            start.device,
            start.md5sum,
            status,
        ),
        download.stage == DownloadStage::Lookup,
        download.device == start.device,
        download.md5sum == start.md5sum,
    ensures
        ({
            let img_md5sum = digest::md5_text(upload::data_of(events));
            &&& upload::run(start, events).action(UploadEvent::Cached)
                == UploadActionView::MarkDone(img_md5sum)
            &&& status matches Some(found)
            &&& found@.status == Status::Done
            &&& found@.img_md5sum == Some(img_md5sum)
            &&& download.expects(DownloadEvent::Found(Ok(status)))
            &&& download.action(DownloadEvent::Found(Ok(status))) == DownloadActionView::OpenImage
            &&& api::path_of(download.device, download.md5sum) == upload::run(start, events).path()
        }),
{
    let img_md5sum = digest::md5_text(upload::data_of(events));
    let all = events.push(UploadEvent::Cached);
    assert(all.drop_last() =~= events);
    upload::law_done_comes_last(start, events, UploadEvent::Cached);
    upload::lemma_run_keeps_request(start, events);
    lifecycle::law_done_is_read_back(table, start.device, start.md5sum, img_md5sum, now);
}

/// After the finished requests were removed, no image can be downloaded: every
/// download is answered that there is nothing.
pub proof fn law_no_download_after_removal(
    table: Seq<RecordView>,
    status: Option<RequestStatus>,
    download: DownloadView,
)
    requires
        db::keys_are_unique(table),
        db::is_status_of(db::after_delete_done(table), download.device, download.md5sum, status),
        download.stage == DownloadStage::Lookup,
    ensures
        download.expects(DownloadEvent::Found(Ok(status))),
        download.action(DownloadEvent::Found(Ok(status))) == DownloadActionView::Respond(
            ReplyView::bare(NOT_FOUND),
        ),
{
    lifecycle::law_removal(
        table,
        |record: RecordView| record.status != Status::Done,
        download.device,
        download.md5sum,
    );
}

/// The removal of all finished requests removes nothing else.
pub proof fn law_unfinished_requests_are_kept(
    table: Seq<RecordView>,
    device: Device,
    md5sum: Seq<char>,
)
    requires
        db::keys_are_unique(table),
    ensures
        db::lookup(db::after_delete_done(table), device, md5sum) == (match db::lookup(
            table,
            device,
            md5sum,
        ) {
            Some(record) => if record.status != Status::Done {
                Some(record)
            } else {
                None
            },
            None => None,
        }),
{
    lifecycle::law_removal(
        table,
        |record: RecordView| record.status != Status::Done,
        device,
        md5sum,
    );
}

/// The life of a request: once inserted it is pending, can be claimed for
/// building, then for writing, and then be marked as done. Inserting it again
/// changes nothing, until the removal of all finished requests makes room for a
/// new build.
pub proof fn law_request_life_cycle(
    table: Seq<RecordView>,
    device: Device,
    md5sum: Seq<char>,
    packages: Seq<char>,
    img_md5sum: Seq<char>,
    times: (i64, i64, i64, i64, i64),
)
    requires
        db::keys_are_unique(table),
        db::lookup(table, device, md5sum) is None,
    ensures
        ({
            let requested = db::fresh_record(device, md5sum, packages, times.0);
            let pending = db::after_insert(table, device, md5sum, packages, times.0);
            let building = db::after_set_status(pending, device, md5sum, Status::Building, times.1);
            let writing = db::after_set_status(building, device, md5sum, Status::Writing, times.2);
            let done = db::after_done(writing, device, md5sum, img_md5sum, times.3);
            let removed = db::after_delete_done(done);
            &&& db::lookup(pending, device, md5sum) == Some(requested)
            &&& db::any_takes(pending, device, md5sum, Status::Building, times.1)
            &&& db::lookup(building, device, md5sum) == Some(
                requested.with_status(Status::Building, times.1),
            )
            &&& db::any_takes(building, device, md5sum, Status::Writing, times.2)
            &&& db::lookup(writing, device, md5sum) == Some(
                requested.with_status(Status::Writing, times.2),
            )
            &&& db::lookup(done, device, md5sum) == Some(requested.with_image(img_md5sum, times.3))
            &&& db::after_insert(done, device, md5sum, packages, times.4) == done
            &&& db::lookup(removed, device, md5sum) is None
            &&& db::lookup(
                db::after_insert(removed, device, md5sum, packages, times.4),
                device,
                md5sum,
            ) == Some(db::fresh_record(device, md5sum, packages, times.4))
        }),
{
    let requested = db::fresh_record(device, md5sum, packages, times.0);
    let pending = db::after_insert(table, device, md5sum, packages, times.0);
    db::lemma_push_keeps_unique(table, requested);
    lifecycle::law_inserted_request_is_known(table, device, md5sum, packages, times.0);
    lifecycle::law_status_change_needs_request(pending, device, md5sum, Status::Building, times.1);
    lifecycle::law_status_change_is_read_back(pending, device, md5sum, Status::Building, times.1);
    let building = db::after_set_status(pending, device, md5sum, Status::Building, times.1);
    lifecycle::lemma_status_change_keeps_unique(pending, device, md5sum, Status::Building, times.1);
    lifecycle::law_status_change_needs_request(building, device, md5sum, Status::Writing, times.2);
    lifecycle::law_status_change_is_read_back(building, device, md5sum, Status::Writing, times.2);
    let writing = db::after_set_status(building, device, md5sum, Status::Writing, times.2);
    lifecycle::lemma_status_change_keeps_unique(building, device, md5sum, Status::Writing, times.2);
    let change = |record: RecordView| record.with_image(img_md5sum, times.3);
    lifecycle::law_change_is_read_back(writing, device, md5sum, change, device, md5sum);
    let done = db::after_done(writing, device, md5sum, img_md5sum, times.3);
    lifecycle::lemma_change_keeps_unique(writing, device, md5sum, change);
    assert(requested.with_status(Status::Writing, times.2).with_image(img_md5sum, times.3)
        =~= requested.with_image(img_md5sum, times.3));
    law_unfinished_requests_are_kept(done, device, md5sum);
    let removed = db::after_delete_done(done);
    db::lemma_kept_are_unique(done, |record: RecordView| record.status != Status::Done);
    lifecycle::law_inserted_request_is_known(removed, device, md5sum, packages, times.4);
}

/// Every welcome upload of an image, for every device and in whatever chunks its
/// data arrives, ends with the request marked as done with the checksum of
/// exactly that data.
pub proof fn law_uploaded_data_is_accounted_for(
    upload: UploadView,
    head: FieldHead,
    chunks: Seq<Vec<u8>>,
)
    requires
        upload.stage is Tarball,
        upload.received == Seq::<u8>::empty(),
        head.file_name is Some,
        head.content_type is Some,
        head.content_type->0@ == "application/octet-stream"@,
    ensures
        ({
            let opened = upload.after(UploadEvent::TarballCurrent).after(
                UploadEvent::Claimed(Ok(())),
            ).after(UploadEvent::Field(Ok(Some(head)))).after(UploadEvent::Directory(true)).after(
                UploadEvent::Opened(true),
            );
            let written = upload::after_chunks(opened, chunks);
            let complete = written.after(UploadEvent::Chunk(Ok(None)));
            &&& complete.expects(UploadEvent::Cached)
            &&& complete.action(UploadEvent::Cached) == UploadActionView::MarkDone(
                digest::md5_text(upload::bytes_of(chunks)),
            )
            &&& complete.device == upload.device
            &&& complete.md5sum == upload.md5sum
        }),
{
    let opened = upload.after(UploadEvent::TarballCurrent).after(UploadEvent::Claimed(Ok(()))).after(
        UploadEvent::Field(Ok(Some(head))),
    ).after(UploadEvent::Directory(true)).after(UploadEvent::Opened(true));
    upload::law_welcome_upload_goes_on(upload, head);
    upload::law_all_chunks_are_received(opened, chunks);
    upload::law_complete_upload_succeeds(upload::after_chunks(opened, chunks));
    assert(Seq::<u8>::empty() + upload::bytes_of(chunks) =~= upload::bytes_of(chunks));
}

proof fn lemma_image_path_bytes(device: Device, md5sum: Seq<char>) -> (name: Seq<u8>)
    requires
        digest::is_checksum(md5sum),
    ensures
        vstd::utf8::encode_utf8(api::path_of(device, md5sum)) == vstd::utf8::encode_utf8(
            "./images"@,
        ).push(0x2f) + name,
        name.len() == api::filename_of(device, md5sum).len(),
        name.len() > 1,
        !name.contains(0x2f),
        forall|i: int|
            0 <= i < name.len() ==> #[trigger] name[i] as int == api::filename_of(
                device,
                md5sum,
            )[i] as int,
{
    reveal_strlit("./images");
    reveal_strlit("/");
    reveal_strlit("alarm-");
    reveal_strlit("-");
    reveal_strlit(".img.xz");
    reveal_strlit("pinephone");
    reveal_strlit("pinephone-pro");
    reveal_strlit("fairphone-fp5");
    let filename = api::filename_of(device, md5sum);
    let path = api::path_of(device, md5sum);
    let head = "alarm-"@ + device.name() + "-"@;
    assert forall|i: int| 0 <= i < filename.len() implies #[trigger] filename[i]
        <= '\u{7f}' && filename[i] != '/' by {
        if i < head.len() {
            assert(filename[i] == head[i]);
        } else if i < head.len() + md5sum.len() {
            assert(filename[i] == md5sum[i - head.len()]);
            assert(digest::is_hex_digit(md5sum[i - head.len()]));
        } else {
            assert(filename[i] == ".img.xz"@[i - head.len() - md5sum.len()]);
        }
    }
    assert(path =~= "./images"@ + "/"@ + filename);
    assert forall|i: int| 0 <= i < path.len() implies '\0' <= #[trigger] path[i] <= '\u{7f}' by {
        if i >= 9 {
            assert(path[i] == filename[i - 9]);
        }
    }
    assert(vstd::utf8::is_ascii_chars(path));
    assert(vstd::utf8::is_ascii_chars("./images"@));
    vstd::utf8::is_ascii_chars_encode_utf8(path);
    vstd::utf8::is_ascii_chars_encode_utf8("./images"@);
    let bytes = vstd::utf8::encode_utf8(path);
    let dir = vstd::utf8::encode_utf8("./images"@);
    let name = bytes.skip(9);
    assert forall|i: int| 0 <= i < name.len() implies #[trigger] name[i] as int
        == filename[i] as int && name[i] != 0x2f by {
        assert(name[i] == bytes[i + 9]);
        assert(path[i + 9] == filename[i]);
        assert(filename[i] <= '\u{7f}');
    }
    assert forall|i: int| 0 <= i < 9 implies bytes[i] == dir.push(0x2f)[i] by {
        if i < 8 {
            assert(path[i] == "./images"@[i]);
        } else {
            assert(path[8] == '/');
        }
    }
    assert(bytes =~= dir.push(0x2f) + name);
    name
}

/// The image files of different requests are different files, so that an access
/// to one of them never concerns another one.
pub proof fn law_images_are_told_apart(
    device: Device,
    md5sum: Seq<char>,
    other_device: Device,
    other_md5sum: Seq<char>,
)
    requires
        digest::is_checksum(md5sum),
        digest::is_checksum(other_md5sum),
    ensures
        paths::same_path(
            vstd::utf8::encode_utf8(api::path_of(device, md5sum)),
            vstd::utf8::encode_utf8(api::path_of(other_device, other_md5sum)),
        ) <==> device == other_device && md5sum == other_md5sum,
{
    reveal_strlit("./images");
    reveal_strlit("pro-");
    let dir = vstd::utf8::encode_utf8("./images"@);
    let name = lemma_image_path_bytes(device, md5sum);
    let other_name = lemma_image_path_bytes(other_device, other_md5sum);
    assert(vstd::utf8::is_ascii_chars("./images"@));
    vstd::utf8::is_ascii_chars_encode_utf8("./images"@);
    paths::law_files_are_told_apart(dir, name, dir, other_name);
    if name == other_name {
        let filename = api::filename_of(device, md5sum);
        let other_filename = api::filename_of(other_device, other_md5sum);
        assert forall|i: int| 0 <= i < filename.len() implies filename[i] == other_filename[i] by {
            assert(name[i] as int == filename[i] as int);
            assert(other_name[i] as int == other_filename[i] as int);
        }
        assert(filename =~= other_filename);
        api::law_image_paths_are_distinct(device, md5sum, other_device, other_md5sum);
    }
}

} // verus!
