use ground_heatmap::error::Error;
use ground_heatmap::shared::SharedData;
use ground_heatmap::watch::{after_cycle, on_change, ChangeKind, WatchStep};
use std::time::{Duration, SystemTime};

#[test]
fn messages_name_each_error() {
    assert_eq!(Error::Generic(String::from("bad row")).message(), "Error: bad row");
    assert_eq!(Error::FileRemoved.message(), "File was removed");
    assert_eq!(
        Error::ImageSizeError(String::from("too small")).message(),
        "Image size error, too small"
    );
    assert_eq!(Error::StateGuardError.message(), "Shared state access error");
    assert_eq!(Error::ConfigurationError.message(), "Invalid canvas or grid configuration");
}

#[test]
fn only_removal_and_configuration_are_fatal() {
    assert!(Error::FileRemoved.is_fatal());
    assert!(Error::ConfigurationError.is_fatal());
    assert!(!Error::Generic(String::new()).is_fatal());
    assert!(!Error::ImageSizeError(String::new()).is_fatal());
    assert!(!Error::StateGuardError.is_fatal());
}

#[test]
fn a_new_snapshot_is_empty() {
    let before = SystemTime::now();
    let data: SharedData<(i64, i64)> = SharedData::new();
    assert!(data.points.is_empty());
    assert_eq!(data.point_count(), 0);
    assert!(data.last_updated >= before);
}

#[test]
fn new_at_keeps_the_given_time() {
    let stamp = SystemTime::UNIX_EPOCH + Duration::from_secs(5);
    let data: SharedData<u8> = SharedData::new_at(stamp);
    assert!(data.points.is_empty());
    assert_eq!(data.last_updated, stamp);
}

#[test]
fn update_points_replaces_the_snapshot() {
    let mut data: SharedData<(i64, i64)> = SharedData::new_at(SystemTime::UNIX_EPOCH);
    let before = SystemTime::now();
    data.update_points(vec![(1, 2), (3, 4)]);
    assert_eq!(data.points, vec![(1, 2), (3, 4)]);
    assert!(data.last_updated >= before);
    data.update_points(vec![(5, 6)]);
    assert_eq!(data.points, vec![(5, 6)]);
    assert_eq!(data.point_count(), 1);
}

#[test]
fn publish_sets_points_and_time() {
    let mut data: SharedData<u8> = SharedData::new_at(SystemTime::UNIX_EPOCH);
    let stamp = SystemTime::UNIX_EPOCH + Duration::from_secs(9);
    data.publish(vec![1, 2, 3], stamp);
    assert_eq!(data.points, vec![1, 2, 3]);
    assert_eq!(data.last_updated, stamp);
}

#[test]
fn a_failed_ingestion_keeps_the_snapshot() {
    let stamp = SystemTime::UNIX_EPOCH + Duration::from_secs(9);
    let mut data: SharedData<u8> = SharedData::new_at(SystemTime::UNIX_EPOCH);
    data.publish(vec![1, 2, 3], stamp);
    let res = data.ingest(Err(Error::Generic(String::from("row 3"))));
    match res {
        Err(Error::Generic(text)) => assert_eq!(text, "row 3"),
        other => panic!("unexpected outcome {:?}", other),
    }
    assert_eq!(data.points, vec![1, 2, 3]);
    assert_eq!(data.last_updated, stamp);
}

#[test]
fn a_successful_ingestion_replaces_the_snapshot() {
    let mut data: SharedData<u8> = SharedData::new_at(SystemTime::UNIX_EPOCH);
    data.publish(vec![1, 2, 3], SystemTime::UNIX_EPOCH);
    assert!(data.ingest(Ok(vec![7])).is_ok());
    assert_eq!(data.points, vec![7]);
}

#[test]
fn changes_refresh_and_removal_stops() {
    assert!(matches!(on_change(ChangeKind::Modify), WatchStep::Refresh));
    assert!(matches!(on_change(ChangeKind::Create), WatchStep::Refresh));
    assert!(matches!(on_change(ChangeKind::Remove), WatchStep::Stop(Error::FileRemoved)));
    assert!(matches!(on_change(ChangeKind::Other), WatchStep::Ignore));
}

#[test]
fn only_fatal_errors_end_the_loop() {
    assert!(matches!(after_cycle(Ok(())), WatchStep::Ignore));
    assert!(matches!(
        after_cycle(Err(Error::ImageSizeError(String::from("x")))),
        WatchStep::Ignore
    ));
    assert!(matches!(after_cycle(Err(Error::Generic(String::from("x")))), WatchStep::Ignore));
    assert!(matches!(after_cycle(Err(Error::StateGuardError)), WatchStep::Ignore));
    assert!(matches!(after_cycle(Err(Error::FileRemoved)), WatchStep::Stop(Error::FileRemoved)));
    assert!(matches!(
        after_cycle(Err(Error::ConfigurationError)),
        WatchStep::Stop(Error::ConfigurationError)
    ));
}
