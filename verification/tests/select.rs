use usbmount::select::{
    choose_device, select_mount_device, select_umount_device, ChoiceError, DeviceChoice,
    SelectError, Selection,
};
use usbmount::PartitionDevice;

fn partition(dev_path: &str, mounted_points: &[&str]) -> PartitionDevice {
    PartitionDevice {
        dev_path: dev_path.to_string(),
        partition_label: None,
        partition_filesystem: "ext4".to_string(),
        partition_size: 512,
        usb_model_name: None,
        mounted_points: mounted_points.iter().map(|point| point.to_string()).collect(),
    }
}

fn inventory() -> Vec<PartitionDevice> {
    vec![
        partition("/dev/sdb1", &["/mnt/a"]),
        partition("/dev/sdb2", &[]),
        partition("/dev/sdc1", &["/mnt/c", "/mnt/d"]),
        partition("/dev/sdd1", &[]),
    ]
}

#[test]
fn without_a_path_the_only_partition_is_taken() {
    let devices = vec![partition("/dev/sdb1", &[])];
    assert_eq!(choose_device(&devices, &None), Ok(DeviceChoice::Use(0)));
}

#[test]
fn without_a_path_an_empty_inventory_is_an_error() {
    assert_eq!(choose_device(&Vec::new(), &None), Err(ChoiceError::NoDevice));
}

#[test]
fn without_a_path_the_operator_picks_among_several() {
    assert_eq!(choose_device(&inventory(), &None), Ok(DeviceChoice::Ask));
    let two = vec![partition("/dev/sdb1", &[]), partition("/dev/sdb2", &[])];
    assert_eq!(choose_device(&two, &None), Ok(DeviceChoice::Ask));
}

#[test]
fn a_path_names_its_partition() {
    assert_eq!(
        choose_device(&inventory(), &Some("/dev/sdc1".to_string())),
        Ok(DeviceChoice::Use(2))
    );
    assert_eq!(
        choose_device(&inventory(), &Some("/dev/sdb1".to_string())),
        Ok(DeviceChoice::Use(0))
    );
}

#[test]
fn a_path_outside_the_inventory_is_an_error() {
    assert_eq!(
        choose_device(&inventory(), &Some("/dev/sda1".to_string())),
        Err(ChoiceError::UnknownDevice)
    );
    assert_eq!(
        choose_device(&Vec::new(), &Some("/dev/sdb1".to_string())),
        Err(ChoiceError::UnknownDevice)
    );
}

#[test]
fn a_path_that_occurs_twice_names_the_last() {
    let devices = vec![
        partition("/dev/sdb1", &[]),
        partition("/dev/sdb2", &[]),
        partition("/dev/sdb1", &["/mnt"]),
    ];
    assert_eq!(
        choose_device(&devices, &Some("/dev/sdb1".to_string())),
        Ok(DeviceChoice::Use(2))
    );
}

#[test]
fn mount_selection_offers_the_unmounted_partitions() {
    let selection = select_mount_device(&inventory()).unwrap();
    assert_eq!(selection.devices, vec![1, 3]);
    assert_eq!(
        selection.labels,
        vec![
            "/dev/sdb2 [FileSystem(\"ext4\") Size(\"512 B\") Label(None) Model(None)]",
            "/dev/sdd1 [FileSystem(\"ext4\") Size(\"512 B\") Label(None) Model(None)]",
        ]
    );
}

#[test]
fn umount_selection_offers_the_mounted_partitions() {
    let selection = select_umount_device(&inventory()).unwrap();
    assert_eq!(selection.devices, vec![0, 2]);
    assert_eq!(
        selection.labels,
        vec![
            "/dev/sdb1 [MountPoint([\"/mnt/a\"]) FileSystem(\"ext4\") Size(\"512 B\") Label(None) \
             Model(None)]",
            "/dev/sdc1 [MountPoint([\"/mnt/c\",\"/mnt/d\"]) FileSystem(\"ext4\") Size(\"512 B\") \
             Label(None) Model(None)]",
        ]
    );
}

#[test]
fn selection_without_candidates_is_an_error() {
    let mounted = vec![partition("/dev/sdb1", &["/mnt/a"]), partition("/dev/sdc1", &["/mnt/c"])];
    assert_eq!(select_mount_device(&mounted), Err(SelectError::NothingToSelect));
    let unmounted = vec![partition("/dev/sdb1", &[]), partition("/dev/sdc1", &[])];
    assert_eq!(select_umount_device(&unmounted), Err(SelectError::NothingToSelect));
    assert_eq!(select_mount_device(&Vec::new()), Err(SelectError::NothingToSelect));
    assert_eq!(select_umount_device(&Vec::new()), Err(SelectError::NothingToSelect));
}

#[test]
fn pick_maps_the_answer_to_the_inventory() {
    let selection = select_mount_device(&inventory()).unwrap();
    assert_eq!(selection.pick(Some(0)), Ok(1));
    assert_eq!(selection.pick(Some(1)), Ok(3));
}

#[test]
fn pick_without_answer_is_cancelled() {
    let selection = select_umount_device(&inventory()).unwrap();
    assert_eq!(selection.pick(None), Err(SelectError::Cancelled));
}

#[test]
fn pick_beyond_the_list_is_invalid() {
    let selection = select_umount_device(&inventory()).unwrap();
    assert_eq!(selection.pick(Some(2)), Err(SelectError::InvalidAnswer));
    let empty = Selection { devices: Vec::new(), labels: Vec::new() };
    assert_eq!(empty.pick(Some(0)), Err(SelectError::InvalidAnswer));
}
