use usbmount::mount::{
    mount_base_name, mount_options, Identity, MountAction, MountError, MountFailure, MountPhase,
    MountSession,
};
use usbmount::PartitionDevice;

fn stick() -> PartitionDevice {
    PartitionDevice {
        dev_path: "/dev/sdb1".to_string(),
        partition_label: Some("DATA".to_string()),
        partition_filesystem: "vfat".to_string(),
        partition_size: 1048576,
        usb_model_name: Some("Cruzer_Blade".to_string()),
        mounted_points: Vec::new(),
    }
}

fn alice() -> Identity {
    Identity { user: "alice".to_string(), uid: "1000".to_string(), gid: "1001".to_string() }
}

fn begin_for(device: &PartitionDevice) -> (MountSession, MountAction) {
    MountSession::begin(device, &None, &None, "/var/run/media/", &alice()).unwrap()
}

fn text(value: &str) -> Option<String> {
    Some(value.to_string())
}

#[test]
fn identity_prefers_the_invoking_user() {
    let identity =
        Identity::resolve(text("alice"), text("1000"), text("1001"), "root".to_string(), 0, 0);
    assert_eq!(identity, alice());
}

#[test]
fn identity_falls_back_to_the_process() {
    let identity = Identity::resolve(None, None, None, "bob".to_string(), 1234, 100);
    assert_eq!(
        identity,
        Identity { user: "bob".to_string(), uid: "1234".to_string(), gid: "100".to_string() }
    );
    let root = Identity::resolve(None, None, None, "root".to_string(), 0, u32::MAX);
    assert_eq!(root.uid, "0");
    assert_eq!(root.gid, "4294967295");
}

#[test]
fn identity_resolves_each_part_by_itself() {
    let identity = Identity::resolve(text("alice"), None, text("1001"), "root".to_string(), 7, 8);
    assert_eq!(
        identity,
        Identity { user: "alice".to_string(), uid: "7".to_string(), gid: "1001".to_string() }
    );
}

#[test]
fn default_options_name_the_owner_where_the_filesystem_has_none() {
    for filesystem in vec!["ntfs", "vfat", "exfat"] {
        assert_eq!(
            mount_options(&None, &filesystem.to_string(), &alice()),
            "uid=1000,gid=1001",
            "{}",
            filesystem
        );
    }
}

#[test]
fn default_options_are_empty_for_other_filesystems() {
    for filesystem in vec!["ext4", "btrfs", "xfs", "NTFS", "ntfs3", "fat", ""] {
        assert_eq!(mount_options(&None, &filesystem.to_string(), &alice()), "", "{}", filesystem);
    }
}

#[test]
fn requested_options_are_taken_as_they_are() {
    assert_eq!(mount_options(&text("ro,noexec"), &"vfat".to_string(), &alice()), "ro,noexec");
    assert_eq!(mount_options(&text("ro"), &"ext4".to_string(), &alice()), "ro");
    assert_eq!(mount_options(&text(""), &"vfat".to_string(), &alice()), "");
}

#[test]
fn base_name_is_the_label_or_the_device_name() {
    assert_eq!(mount_base_name(&stick()), text("DATA"));
    let mut unlabelled = stick();
    unlabelled.partition_label = None;
    assert_eq!(mount_base_name(&unlabelled), text("sdb1"));
    unlabelled.dev_path = "/dev/mapper/luks-1".to_string();
    assert_eq!(mount_base_name(&unlabelled), text("luks-1"));
    unlabelled.dev_path = "/".to_string();
    assert_eq!(mount_base_name(&unlabelled), None);
}

#[test]
fn mount_of_a_mounted_partition_is_refused_before_any_action() {
    let mut device = stick();
    device.mounted_points = vec!["/mnt/first".to_string(), "/mnt/second".to_string()];
    assert_eq!(
        MountSession::begin(&device, &None, &None, "/var/run/media/", &alice()),
        Err(MountError::AlreadyMounted("/mnt/first".to_string()))
    );
    assert_eq!(
        MountSession::begin(&device, &text("/mnt/x"), &text("ro"), "/var/run/media/", &alice()),
        Err(MountError::AlreadyMounted("/mnt/first".to_string()))
    );
}

#[test]
fn mount_without_base_name_is_refused() {
    let mut device = stick();
    device.partition_label = None;
    device.dev_path = "/dev/..".to_string();
    assert_eq!(
        MountSession::begin(&device, &None, &None, "/var/run/media/", &alice()),
        Err(MountError::NoBaseName)
    );
}

#[test]
fn label_that_begins_with_a_slash_stays_below_the_user() {
    let mut device = stick();
    device.partition_label = text("/etc");
    let (mut session, action) =
        MountSession::begin(&device, &None, &None, "/var/run/media/", &alice()).unwrap();
    assert_eq!(action, MountAction::Probe("/var/run/media/alice//etc".to_string()));
    assert_eq!(session.step(true), MountAction::Probe("/var/run/media/alice//etc-0".to_string()));
    assert_eq!(
        session.step(false),
        MountAction::CreateDirectory("/var/run/media/alice//etc-0".to_string())
    );
    assert_eq!(
        session.step(true),
        MountAction::CreateMarker("/var/run/media/alice//etc-0/.create_by_usbmount".to_string())
    );
}

#[test]
fn label_with_a_slash_inside_names_a_directory_further_down() {
    let mut device = stick();
    device.partition_label = text("my/disk");
    let (mut session, action) =
        MountSession::begin(&device, &None, &None, "/var/run/media/", &alice()).unwrap();
    assert_eq!(action, MountAction::Probe("/var/run/media/alice/my/disk".to_string()));
    assert_eq!(
        session.step(false),
        MountAction::CreateDirectory("/var/run/media/alice/my/disk".to_string())
    );
    assert_eq!(
        session.step(true),
        MountAction::CreateMarker("/var/run/media/alice/my/disk/.create_by_usbmount".to_string())
    );
}

#[test]
fn every_label_gets_a_candidate_below_the_user() {
    for label in vec!["", ".", "..", "/", "a/b", "../../etc", "DATA/", "/etc"] {
        let mut device = stick();
        device.partition_label = text(label);
        let (mut session, action) =
            MountSession::begin(&device, &None, &None, "/var/run/media/", &alice()).unwrap();
        assert_eq!(action, MountAction::Probe(format!("/var/run/media/alice/{}", label)));
        assert_eq!(
            session.step(true),
            MountAction::Probe(format!("/var/run/media/alice/{}-0", label))
        );
        assert_eq!(
            session.step(true),
            MountAction::Probe(format!("/var/run/media/alice/{}-1", label))
        );
        assert_eq!(
            session.step(false),
            MountAction::CreateDirectory(format!("/var/run/media/alice/{}-1", label))
        );
    }
}

#[test]
fn every_user_gets_a_candidate_below_the_root() {
    for user in vec!["", ".", "..", "/root", "a/b", "alice"] {
        let identity =
            Identity { user: user.to_string(), uid: "1000".to_string(), gid: "1001".to_string() };
        let (_, action) =
            MountSession::begin(&stick(), &None, &None, "/var/run/media", &identity).unwrap();
        let home = format!("/var/run/media/{}", user);
        let expected = if home.ends_with('/') {
            format!("{}DATA", home)
        } else {
            format!("{}/DATA", home)
        };
        assert_eq!(action, MountAction::Probe(expected), "{:?}", user);
    }
}

#[test]
fn mounted_partition_is_refused_whatever_its_label() {
    let mut device = stick();
    device.partition_label = text("/etc");
    device.mounted_points = vec!["/mnt/first".to_string()];
    assert_eq!(
        MountSession::begin(&device, &None, &None, "/var/run/media/", &alice()),
        Err(MountError::AlreadyMounted("/mnt/first".to_string()))
    );
}

#[test]
fn given_path_is_taken_whatever_the_names() {
    let mut device = stick();
    device.partition_label = text("/etc");
    let identity = Identity { user: String::new(), uid: "7".to_string(), gid: "8".to_string() };
    let (_, action) =
        MountSession::begin(&device, &text("/mnt/usb"), &None, "/var/run/media/", &identity)
            .unwrap();
    assert_eq!(
        action,
        MountAction::Mount {
            source: "/dev/sdb1".to_string(),
            target: "/mnt/usb".to_string(),
            options: "uid=7,gid=8".to_string(),
        }
    );
}

#[test]
fn every_action_of_a_search_stays_in_the_directory_of_the_user() {
    for label in vec!["DATA", "...", "..x", "My Disk", "-0", "a.b"] {
        for root in vec!["/var/run/media/", "/var/run/media", "/media"] {
            let mut device = stick();
            device.partition_label = text(label);
            let (mut session, mut action) =
                MountSession::begin(&device, &None, &None, root, &alice()).unwrap();
            let home = format!("{}/alice/", root.trim_end_matches('/'));
            for report in vec![true, true, true, false, true, true, true] {
                let path = match &action {
                    MountAction::Probe(path) => path.clone(),
                    MountAction::CreateDirectory(path) => path.clone(),
                    MountAction::CreateMarker(path) => path.clone(),
                    MountAction::Mount { target, .. } => target.clone(),
                    other => panic!("{:?}", other),
                };
                assert!(path.starts_with(&home), "{:?} {:?}", path, home);
                let rest = &path[home.len()..];
                assert!(rest.starts_with(label), "{:?}", path);
                assert!(!rest.contains("..") || label.contains(".."), "{:?}", path);
                assert_eq!(
                    rest.matches('/').count(),
                    if matches!(action, MountAction::CreateMarker(_)) { 1 } else { 0 },
                    "{:?}",
                    path
                );
                action = session.step(report);
            }
            assert_eq!(action, MountAction::Mounted(format!("{}{}-2", home, label)));
        }
    }
}

#[test]
fn mount_at_a_given_path_mounts_at_once() {
    let (mut session, action) =
        MountSession::begin(&stick(), &text("/mnt/usb"), &None, "/var/run/media/", &alice())
            .unwrap();
    assert_eq!(
        action,
        MountAction::Mount {
            source: "/dev/sdb1".to_string(),
            target: "/mnt/usb".to_string(),
            options: "uid=1000,gid=1001".to_string(),
        }
    );
    assert_eq!(session.phase, MountPhase::Mounting);
    assert_eq!(session.step(true), MountAction::Mounted("/mnt/usb".to_string()));
    assert_eq!(session.phase, MountPhase::Finished);
    assert_eq!(session.step(true), MountAction::Nothing);
    assert_eq!(session.step(false), MountAction::Nothing);
}

#[test]
fn mount_at_a_given_path_with_given_options() {
    let mut device = stick();
    device.partition_filesystem = "ext4".to_string();
    let (_, action) =
        MountSession::begin(&device, &text("/mnt/usb"), &text("ro"), "/var/run/media/", &alice())
            .unwrap();
    assert_eq!(
        action,
        MountAction::Mount {
            source: "/dev/sdb1".to_string(),
            target: "/mnt/usb".to_string(),
            options: "ro".to_string(),
        }
    );
}

#[test]
fn free_first_candidate_is_taken() {
    let (mut session, action) = begin_for(&stick());
    assert_eq!(action, MountAction::Probe("/var/run/media/alice/DATA".to_string()));
    assert_eq!(session.phase, MountPhase::Probing(0));
    assert_eq!(
        session.step(false),
        MountAction::CreateDirectory("/var/run/media/alice/DATA".to_string())
    );
    assert_eq!(
        session.step(true),
        MountAction::CreateMarker("/var/run/media/alice/DATA/.create_by_usbmount".to_string())
    );
    assert_eq!(
        session.step(true),
        MountAction::Mount {
            source: "/dev/sdb1".to_string(),
            target: "/var/run/media/alice/DATA".to_string(),
            options: "uid=1000,gid=1001".to_string(),
        }
    );
    assert_eq!(session.step(true), MountAction::Mounted("/var/run/media/alice/DATA".to_string()));
    assert_eq!(session.phase, MountPhase::Finished);
}

#[test]
fn taken_first_candidate_makes_way_for_suffix_zero() {
    let (mut session, action) = begin_for(&stick());
    assert_eq!(action, MountAction::Probe("/var/run/media/alice/DATA".to_string()));
    assert_eq!(session.step(true), MountAction::Probe("/var/run/media/alice/DATA-0".to_string()));
    assert_eq!(
        session.step(false),
        MountAction::CreateDirectory("/var/run/media/alice/DATA-0".to_string())
    );
    assert_eq!(session.target, "/var/run/media/alice/DATA-0");
    assert_eq!(
        session.step(true),
        MountAction::CreateMarker("/var/run/media/alice/DATA-0/.create_by_usbmount".to_string())
    );
}

#[test]
fn taken_suffix_zero_makes_way_for_suffix_one() {
    let (mut session, _) = begin_for(&stick());
    assert_eq!(session.step(true), MountAction::Probe("/var/run/media/alice/DATA-0".to_string()));
    assert_eq!(session.step(true), MountAction::Probe("/var/run/media/alice/DATA-1".to_string()));
    assert_eq!(
        session.step(false),
        MountAction::CreateDirectory("/var/run/media/alice/DATA-1".to_string())
    );
    assert_eq!(session.step(true), MountAction::CreateMarker(
        "/var/run/media/alice/DATA-1/.create_by_usbmount".to_string()
    ));
    assert_eq!(
        session.step(true),
        MountAction::Mount {
            source: "/dev/sdb1".to_string(),
            target: "/var/run/media/alice/DATA-1".to_string(),
            options: "uid=1000,gid=1001".to_string(),
        }
    );
}

#[test]
fn search_goes_on_beyond_single_digits() {
    let (mut session, _) = begin_for(&stick());
    let mut last = MountAction::Nothing;
    for _ in 0..12 {
        last = session.step(true);
    }
    assert_eq!(last, MountAction::Probe("/var/run/media/alice/DATA-11".to_string()));
    assert_eq!(session.phase, MountPhase::Probing(12));
}

#[test]
fn unlabelled_partition_is_mounted_under_its_device_name() {
    let mut device = stick();
    device.partition_label = None;
    device.partition_filesystem = "ext4".to_string();
    let (mut session, action) =
        MountSession::begin(&device, &None, &None, "/media", &alice()).unwrap();
    assert_eq!(action, MountAction::Probe("/media/alice/sdb1".to_string()));
    assert_eq!(session.step(false), MountAction::CreateDirectory("/media/alice/sdb1".to_string()));
    session.step(true);
    assert_eq!(
        session.step(true),
        MountAction::Mount {
            source: "/dev/sdb1".to_string(),
            target: "/media/alice/sdb1".to_string(),
            options: String::new(),
        }
    );
}

#[test]
fn exhausted_suffixes_end_the_mount() {
    let mut session = MountSession {
        source: "/dev/sdb1".to_string(),
        options: String::new(),
        first: "/m/DATA".to_string(),
        target: "/m/DATA".to_string(),
        phase: MountPhase::Probing(u64::MAX - 1),
    };
    assert_eq!(session.step(true), MountAction::Probe("/m/DATA-18446744073709551614".to_string()));
    assert_eq!(session.step(true), MountAction::Abandon(MountFailure::NoFreePath));
    assert_eq!(session.phase, MountPhase::Finished);
}

#[test]
fn failed_directory_ends_the_mount() {
    let (mut session, _) = begin_for(&stick());
    session.step(false);
    assert_eq!(session.step(false), MountAction::Abandon(MountFailure::DirectoryNotCreated));
    assert_eq!(session.phase, MountPhase::Finished);
    assert_eq!(session.step(true), MountAction::Nothing);
}

#[test]
fn failed_marker_ends_the_mount() {
    let (mut session, _) = begin_for(&stick());
    session.step(false);
    session.step(true);
    assert_eq!(session.step(false), MountAction::Abandon(MountFailure::MarkerNotCreated));
    assert_eq!(session.phase, MountPhase::Finished);
}

#[test]
fn refused_mount_ends_the_mount() {
    let (mut session, _) = begin_for(&stick());
    session.step(false);
    session.step(true);
    session.step(true);
    assert_eq!(session.step(false), MountAction::Abandon(MountFailure::MountRefused));
    assert_eq!(session.phase, MountPhase::Finished);
}
