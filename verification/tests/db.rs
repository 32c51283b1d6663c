use isotopia::db::{Db, Device, InsertedRequest, Record, Request, Status};
use isotopia::error::Error;

const NOW: i64 = 1_700_000_000;

fn md5sum_of(text: &str) -> String {
    format!("{:x}", md5::compute(text))
}

fn is_listed(requests: &[Request], device: Device, md5sum: &str) -> bool {
    requests.iter().any(|r| r.md5sum == md5sum && r.device == device)
}

fn record(device: Device, md5sum: &str, status: Status, updated_at: i64) -> Record {
    Record {
        md5sum: md5sum.into(),
        device,
        packages: "kumo".into(),
        status,
        img_md5sum: None,
        updated_at,
        downloads: 0,
    }
}

#[test]
fn build_lifecycle() {
    let mut db = Db::new();

    let packages = vec!["__test_build_lifecycle".to_string(), "kumo".into(), "catacomb".into()];
    let combined_packages = "__test_build_lifecycle catacomb kumo";
    let md5sum = md5sum_of(combined_packages);
    let device = Device::PinePhonePro;

    // Ensure requests are initially empty.
    assert!(!is_listed(&db.pending(NOW), device, &md5sum));

    // Create a new build request.
    let request = db.add_request(device, packages.clone(), NOW);
    assert_eq!(request.status, Status::Pending);
    assert_eq!(request.md5sum, md5sum);

    // Validate updated pending builds.
    let is_pending = db
        .pending(NOW)
        .iter()
        .any(|r| r.md5sum == md5sum && r.device == device && r.packages == combined_packages);
    assert!(is_pending);

    // Mark request as building.
    db.set_status(device, &md5sum, Status::Building, NOW).unwrap();

    // Building jobs should be hidden from pending list.
    assert!(!is_listed(&db.pending(NOW), device, &md5sum));

    // Mark request as done.
    db.set_done(device, &md5sum, "xxx", NOW);

    // Done jobs should be hidden from pending list.
    assert!(!is_listed(&db.pending(NOW), device, &md5sum));

    // Starting a finished build should return `Done` status.
    let request = db.add_request(device, packages, NOW);
    assert_eq!(request.status, Status::Done);
}

#[test]
fn timestamp_update_trigger() {
    let mut db = Db::new();
    let packages = vec!["__test_timestamp_update_trigger".to_string()];
    let md5sum = md5sum_of(&packages[0]);
    let device = Device::PinePhone;

    // Get timestamp after insert.
    db.add_request(device, packages.clone(), NOW);
    let initial_timestamp = db.records()[0].updated_at;
    assert_eq!(initial_timestamp, NOW);

    // Get timestamp after status change.
    db.set_done(device, &md5sum, "xxx", NOW + 1);
    let after_update = db.records()[0].updated_at;
    assert_ne!(after_update, initial_timestamp);
}

#[test]
fn cannot_update_done() {
    let mut db = Db::new();
    let packages = vec!["__test_cannot_update_done".to_string()];
    let md5sum = md5sum_of(&packages[0]);
    let device = Device::PinePhonePro;

    // Mark package as done.
    db.add_request(device, packages.clone(), NOW);
    db.set_done(device, &md5sum, "xxx", NOW);

    // Ensure status cannot 'regress'.
    db.set_status(device, &md5sum, Status::Pending, NOW).unwrap();
    assert!(!is_listed(&db.pending(NOW), device, &md5sum));
    assert_eq!(
        db.set_status(device, &md5sum, Status::Building, NOW),
        Err(Error::StatusConflict)
    );
    assert_eq!(db.set_status(device, &md5sum, Status::Writing, NOW), Err(Error::StatusConflict));
    assert_eq!(db.status(device, &md5sum).unwrap().status, Status::Done);
}

#[test]
fn cannot_build_twice() {
    let mut db = Db::new();
    let packages = vec!["__test_cannot_build_twice".to_string()];
    let md5sum = md5sum_of(&packages[0]);
    let device = Device::PinePhone;

    db.add_request(device, packages.clone(), NOW);
    db.set_status(device, &md5sum, Status::Building, NOW).unwrap();

    let result = db.set_status(device, &md5sum, Status::Building, NOW);
    assert!(matches!(result, Err(Error::StatusConflict)));
}

#[test]
fn separate_devices_no_conflict() {
    let mut db = Db::new();
    let packages = vec!["__test_separate_devices_no_conflict".to_string()];
    let md5sum = md5sum_of(&packages[0]);

    // Put PP into pending state.
    db.add_request(Device::PinePhone, packages.clone(), NOW);

    // Put PPP into building state.
    db.add_request(Device::PinePhonePro, packages.clone(), NOW);
    db.set_status(Device::PinePhonePro, &md5sum, Status::Building, NOW).unwrap();

    // Reinsert PPP to ensure it's still building.
    let ppp_status = db.status(Device::PinePhonePro, &md5sum).unwrap();
    assert_eq!(ppp_status.status, Status::Building);

    // Reinsert PP to ensure it's still pending.
    let pp_status = db.status(Device::PinePhone, &md5sum).unwrap();
    assert_eq!(pp_status.status, Status::Pending);
}

#[test]
fn delete_done() {
    let mut db = Db::new();
    let packages = vec!["__test_delete_done".to_string()];
    let md5sum = md5sum_of(&packages[0]);
    let device = Device::PinePhone;

    // Pending requests aren't deleted.
    db.add_request(device, packages.clone(), NOW);
    db.delete_done();
    assert!(db.status(device, &md5sum).is_some());

    // Done requests are deleted.
    db.set_done(device, &md5sum, "xxx", NOW);
    db.delete_done();
    assert!(db.status(device, &md5sum).is_none());
}

#[test]
fn slow_requests() {
    let mut db = Db::new();
    let packages = vec!["__test_slow_requests".to_string()];
    let md5sum = md5sum_of(&packages[0]);
    let device = Device::PinePhone;

    // Create new building request.
    db.add_request(device, packages.clone(), NOW);
    db.set_status(device, &md5sum, Status::Building, NOW).unwrap();
    assert_eq!(db.slow_requests(NOW), Vec::new());

    // Manually timewarp request to the Unix epoch.
    let mut records = db.records().clone();
    records[0].updated_at = 0;
    let db = Db::from_records(records).unwrap();

    // Ensure request is marked as slow now.
    assert_eq!(
        db.slow_requests(NOW),
        vec![Request {
            packages: packages.join(" "),
            md5sum,
            device,
            updated_at: 0,
            status: Status::Building,
        }]
    );
}

#[test]
fn increment_download_count() {
    let mut db = Db::new();
    let packages = vec!["__test_increment_download_count".to_string()];
    let md5sum = md5sum_of(&packages[0]);
    let device = Device::PinePhone;

    // Create new request.
    db.add_request(device, packages.clone(), NOW);

    // Increment download count by one.
    db.increment_downloads(device, &md5sum);

    // Ensure count is actually 1.
    assert_eq!(db.records()[0].downloads, 1);
}

#[test]
fn set_status_done() {
    let mut db = Db::new();
    let packages = vec!["__test_set_status_done".to_string()];
    let packages_md5sum = md5sum_of(&packages[0]);
    let img_md5sum = md5sum_of("img content");
    let device = Device::PinePhone;

    // Create new building request.
    db.add_request(device, packages.clone(), NOW);
    db.set_status(device, &packages_md5sum, Status::Building, NOW).unwrap();
    let status = db.status(device, &packages_md5sum).unwrap();
    assert_eq!(status.status, Status::Building);

    // Ensure done without content checksum is ignored.
    db.set_status(device, &packages_md5sum, Status::Done, NOW).unwrap();
    let status = db.status(device, &packages_md5sum).unwrap();
    assert_eq!(status.status, Status::Building);

    // Mark request as done.
    db.set_done(device, &packages_md5sum, &img_md5sum, NOW);
    let status = db.status(device, &packages_md5sum).unwrap();
    assert_eq!(status.img_md5sum, Some(img_md5sum));
    assert_eq!(status.status, Status::Done);
}

#[test]
fn devices() {
    let mut db = Db::new();
    let packages = vec!["__test_devices".to_string()];
    let md5sum = md5sum_of(&packages[0]);

    for device in [Device::PinePhone, Device::PinePhonePro, Device::Fairphone5] {
        assert_eq!(db.status(device, &md5sum), None);
        db.add_request(device, packages.clone(), NOW);
        assert_eq!(db.status(device, &md5sum).unwrap().status, Status::Pending);
    }
}

#[test]
fn device_names() {
    for (device, name) in [
        (Device::PinePhonePro, "pinephone-pro"),
        (Device::PinePhone, "pinephone"),
        (Device::Fairphone5, "fairphone-fp5"),
    ] {
        assert_eq!(device.as_str(), name);
        assert_eq!(Device::try_from(name), Ok(device));
    }
    assert_eq!(Device::try_from("pinephone-"), Err(()));
    assert_eq!(Device::try_from(""), Err(()));
    assert_eq!(Device::try_from("PinePhone"), Err(()));
}

#[test]
fn time_limits_are_exclusive() {
    let device = Device::Fairphone5;
    let db = Db::from_records(vec![record(device, "a", Status::Building, NOW)]).unwrap();
    assert!(db.pending(NOW + 1800).is_empty());
    assert_eq!(db.pending(NOW + 1801).len(), 1);
    assert!(db.slow_requests(NOW + 900).is_empty());
    assert_eq!(db.slow_requests(NOW + 901).len(), 1);
    assert!(db.pending(i64::MIN).is_empty());

    let done = Db::from_records(vec![record(device, "a", Status::Done, 0)]).unwrap();
    assert!(done.pending(NOW).is_empty());
    assert!(done.slow_requests(NOW).is_empty());
}

#[test]
fn timed_out_build_can_be_claimed() {
    let device = Device::PinePhone;
    let mut db = Db::from_records(vec![record(device, "a", Status::Building, NOW)]).unwrap();
    assert_eq!(
        db.set_status(device, "a", Status::Building, NOW + 1800),
        Err(Error::StatusConflict)
    );
    assert_eq!(db.set_status(device, "a", Status::Building, NOW + 1801), Ok(()));
    assert_eq!(db.records()[0].updated_at, NOW + 1801);
}

#[test]
fn claim_concerns_the_asked_request_alone() {
    let device = Device::PinePhone;
    let records = || {
        vec![
            record(device, "old", Status::Building, 0),
            record(device, "new", Status::Pending, NOW),
            record(device, "other", Status::Pending, NOW),
        ]
    };
    let mut db = Db::from_records(records()).unwrap();
    assert_eq!(db.set_status(device, "new", Status::Building, NOW + 7), Ok(()));
    assert_eq!(db.records()[0], records()[0]);
    assert_eq!(db.records()[1].status, Status::Building);
    assert_eq!(db.records()[1].updated_at, NOW + 7);
    assert_eq!(db.records()[2], records()[2]);

    // A build which timed out does not make another request claimable.
    for (device, md5sum) in [(device, "missing"), (Device::Fairphone5, "old"), (device, "new")] {
        let before: Vec<Record> = db.records().clone();
        assert_eq!(
            db.set_status(device, md5sum, Status::Building, NOW + 8),
            Err(Error::StatusConflict)
        );
        assert_eq!(db.records(), &before);
    }
}

#[test]
fn listed_requests_can_be_claimed() {
    let device = Device::Fairphone5;
    let records = vec![
        record(device, "pending", Status::Pending, NOW),
        record(device, "running", Status::Building, NOW),
        record(device, "stuck", Status::Building, NOW - 1801),
        record(device, "writing", Status::Writing, 0),
        record(device, "done", Status::Done, 0),
    ];
    let db = Db::from_records(records.clone()).unwrap();
    let pending = db.pending(NOW);
    for record in &records {
        let mut db = Db::from_records(records.clone()).unwrap();
        let claimed = db.set_status(device, &record.md5sum, Status::Building, NOW).is_ok();
        assert_eq!(claimed, is_listed(&pending, device, &record.md5sum));
    }
    assert_eq!(pending.len(), 2);
}

#[test]
fn write_needs_build() {
    let device = Device::PinePhone;
    let mut db = Db::from_records(vec![record(device, "a", Status::Pending, NOW)]).unwrap();
    assert_eq!(db.set_status(device, "a", Status::Writing, NOW), Err(Error::StatusConflict));
    assert_eq!(db.set_status(device, "a", Status::Building, NOW), Ok(()));
    assert_eq!(
        db.set_status(Device::PinePhonePro, "a", Status::Writing, NOW),
        Err(Error::StatusConflict)
    );
    assert_eq!(db.set_status(device, "a", Status::Writing, NOW), Ok(()));
    assert_eq!(db.set_status(device, "a", Status::Writing, NOW), Err(Error::StatusConflict));

    // A failed upload can be repeated.
    db.set_status_unchecked(device, "a", Status::Building, NOW + 5);
    assert_eq!(db.records()[0].updated_at, NOW + 5);
    assert_eq!(db.set_status(device, "a", Status::Writing, NOW + 5), Ok(()));
}

#[test]
fn insertion_is_idempotent() {
    let mut db = Db::new();
    let device = Device::PinePhone;
    let inserted = InsertedRequest { md5sum: "a".into(), status: Status::Pending, updated_at: NOW };
    assert_eq!(db.insert_request(device, "a".into(), "p".into(), NOW), inserted);
    assert_eq!(db.insert_request(device, "a".into(), "q".into(), NOW + 9), inserted);
    assert_eq!(db.records().len(), 1);
    assert_eq!(db.records()[0].packages, "p");
    db.insert_request(Device::Fairphone5, "a".into(), "p".into(), NOW);
    assert_eq!(db.records().len(), 2);
}

#[test]
fn removal() {
    let mut db = Db::from_records(vec![
        record(Device::PinePhone, "a", Status::Done, NOW),
        record(Device::PinePhonePro, "a", Status::Writing, NOW),
        record(Device::PinePhone, "b", Status::Done, NOW),
    ])
    .unwrap();
    db.delete(Device::PinePhone, "a");
    assert_eq!(db.records().len(), 2);
    assert_eq!(db.status(Device::PinePhone, "a"), None);
    db.delete(Device::PinePhone, "missing");
    assert_eq!(db.records().len(), 2);
    db.delete_done();
    assert_eq!(db.records().len(), 1);
    assert!(db.status(Device::PinePhonePro, "a").is_some());
}

#[test]
fn unknown_requests_are_left_alone() {
    let mut db = Db::new();
    db.set_done(Device::PinePhone, "a", "b", NOW);
    db.set_status_unchecked(Device::PinePhone, "a", Status::Done, NOW);
    db.increment_downloads(Device::PinePhone, "a");
    assert!(db.records().is_empty());
}

#[test]
fn duplicate_records_are_refused() {
    let twice = vec![
        record(Device::PinePhone, "a", Status::Done, NOW),
        record(Device::PinePhone, "a", Status::Pending, NOW),
    ];
    assert!(Db::from_records(twice).is_none());
}
