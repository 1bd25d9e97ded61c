use usbmount::mount::MountError;
use usbmount::unmount::{PointOutcome, UnmountAction, UnmountPhase, UnmountSession};
use usbmount::PartitionDevice;

fn mounted_at(points: &[&str]) -> PartitionDevice {
    PartitionDevice {
        dev_path: "/dev/sdb1".to_string(),
        partition_label: Some("DATA".to_string()),
        partition_filesystem: "vfat".to_string(),
        partition_size: 1048576,
        usb_model_name: None,
        mounted_points: points.iter().map(|point| point.to_string()).collect(),
    }
}

#[test]
fn unmount_of_an_unmounted_partition_is_refused() {
    assert_eq!(UnmountSession::begin(&mounted_at(&[])), Err(MountError::NotMounted));
}

#[test]
fn unmount_begins_with_the_first_mount_point() {
    let (session, action) = UnmountSession::begin(&mounted_at(&["/mnt/a", "/mnt/b"])).unwrap();
    assert_eq!(action, UnmountAction::Unmount("/mnt/a".to_string()));
    assert_eq!(session.mount_points, vec!["/mnt/a", "/mnt/b"]);
    assert_eq!(session.outcomes, Vec::new());
    assert_eq!(session.phase, UnmountPhase::Unmounting(0));
}

#[test]
fn marked_directory_is_removed_after_the_unmount() {
    let (mut session, _) = UnmountSession::begin(&mounted_at(&["/run/media/u/DATA"])).unwrap();
    assert_eq!(
        session.step(true),
        UnmountAction::ProbeMarker("/run/media/u/DATA/.create_by_usbmount".to_string())
    );
    assert_eq!(
        session.step(true),
        UnmountAction::RemoveMarker("/run/media/u/DATA/.create_by_usbmount".to_string())
    );
    assert_eq!(session.step(true), UnmountAction::RemoveDirectory("/run/media/u/DATA".to_string()));
    assert_eq!(session.step(true), UnmountAction::Finished);
    assert_eq!(session.outcomes, vec![PointOutcome::Removed]);
    assert_eq!(session.phase, UnmountPhase::Finished);
}

#[test]
fn unmarked_directory_is_left_alone() {
    let (mut session, _) = UnmountSession::begin(&mounted_at(&["/mnt"])).unwrap();
    assert_eq!(session.step(true), UnmountAction::ProbeMarker("/mnt/.create_by_usbmount".to_string()));
    assert_eq!(session.step(false), UnmountAction::Finished);
    assert_eq!(session.outcomes, vec![PointOutcome::Left]);
}

#[test]
fn failed_first_point_does_not_stop_the_second() {
    let (mut session, action) = UnmountSession::begin(&mounted_at(&["/mnt/a", "/mnt/b"])).unwrap();
    let mut actions = vec![action];
    for report in vec![false, true, true, true, true] {
        actions.push(session.step(report));
    }
    assert_eq!(
        actions,
        vec![
            UnmountAction::Unmount("/mnt/a".to_string()),
            UnmountAction::Unmount("/mnt/b".to_string()),
            UnmountAction::ProbeMarker("/mnt/b/.create_by_usbmount".to_string()),
            UnmountAction::RemoveMarker("/mnt/b/.create_by_usbmount".to_string()),
            UnmountAction::RemoveDirectory("/mnt/b".to_string()),
            UnmountAction::Finished,
        ]
    );
    assert_eq!(session.outcomes, vec![PointOutcome::UnmountFailed, PointOutcome::Removed]);
}

#[test]
fn failed_first_point_and_unmarked_second() {
    let (mut session, _) = UnmountSession::begin(&mounted_at(&["/mnt/a", "/mnt/b"])).unwrap();
    assert_eq!(session.step(false), UnmountAction::Unmount("/mnt/b".to_string()));
    assert_eq!(
        session.step(true),
        UnmountAction::ProbeMarker("/mnt/b/.create_by_usbmount".to_string())
    );
    assert_eq!(session.step(false), UnmountAction::Finished);
    assert_eq!(session.outcomes, vec![PointOutcome::UnmountFailed, PointOutcome::Left]);
}

#[test]
fn every_point_is_dealt_with_in_order() {
    let (mut session, _) =
        UnmountSession::begin(&mounted_at(&["/mnt/a", "/mnt/b", "/mnt/c"])).unwrap();
    assert_eq!(session.step(true), UnmountAction::ProbeMarker("/mnt/a/.create_by_usbmount".to_string()));
    assert_eq!(session.step(false), UnmountAction::Unmount("/mnt/b".to_string()));
    assert_eq!(session.step(false), UnmountAction::Unmount("/mnt/c".to_string()));
    assert_eq!(session.step(false), UnmountAction::Finished);
    assert_eq!(
        session.outcomes,
        vec![PointOutcome::Left, PointOutcome::UnmountFailed, PointOutcome::UnmountFailed]
    );
    assert_eq!(session.step(true), UnmountAction::Finished);
    assert_eq!(session.outcomes.len(), 3);
}

#[test]
fn failed_removal_of_the_marker_ends_the_unmount() {
    let (mut session, _) = UnmountSession::begin(&mounted_at(&["/mnt/a", "/mnt/b"])).unwrap();
    session.step(true);
    session.step(true);
    assert_eq!(session.step(false), UnmountAction::Finished);
    assert_eq!(session.outcomes, vec![PointOutcome::CleanupFailed]);
    assert_eq!(session.phase, UnmountPhase::Finished);
}

#[test]
fn failed_removal_of_the_directory_ends_the_unmount() {
    let (mut session, _) = UnmountSession::begin(&mounted_at(&["/mnt/a", "/mnt/b"])).unwrap();
    session.step(true);
    session.step(true);
    session.step(true);
    assert_eq!(session.step(false), UnmountAction::Finished);
    assert_eq!(session.outcomes, vec![PointOutcome::CleanupFailed]);
}

#[test]
fn session_beyond_its_mount_points_is_over() {
    let mut session = UnmountSession {
        mount_points: vec!["/mnt/a".to_string()],
        outcomes: Vec::new(),
        phase: UnmountPhase::RemovingMarker(1),
    };
    assert_eq!(session.step(true), UnmountAction::Finished);
    assert_eq!(session.phase, UnmountPhase::Finished);
    assert_eq!(session.outcomes, Vec::new());
}
