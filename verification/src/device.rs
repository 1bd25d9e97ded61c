//! Classification of block devices: which of them are partitions of
//! removable, USB-attached storage, and what is known of each.

use crate::mount_table::{lookup, MountInfo};
use crate::text::{parse_u64, parsed_u64, same_text};
use vstd::prelude::*;

verus! {

/// The property that names the detected filesystem.
pub const FS_TYPE_PROPERTY: &'static str = "ID_FS_TYPE";

/// The property that holds the filesystem label.
pub const FS_LABEL_PROPERTY: &'static str = "ID_FS_LABEL";

/// The property that holds the model name of the hardware.
pub const MODEL_PROPERTY: &'static str = "ID_MODEL";

/// The property that only device-mapper devices carry.
pub const DM_NAME_PROPERTY: &'static str = "DM_NAME";

/// The subsystem of USB devices.
pub const USB_SUBSYSTEM: &'static str = "usb";

/// The size of the sectors in which a device reports its size.
pub const SECTOR_BYTES: u64 = 512;

/// One property of a device, as the device database reports it.
#[derive(Debug, PartialEq, Eq)]
pub struct Property {
    pub name: String,
    pub value: String,
}

impl DeepView for Property {
    type V = (Seq<char>, Seq<char>);

    open spec fn deep_view(&self) -> (Seq<char>, Seq<char>) {
        (self.name@, self.value@)
    }
}

/// A device that backs a device-mapper device, as far as it matters here.
pub struct SlaveView {
    pub ancestors: Seq<Seq<char>>,
    pub properties: Seq<(Seq<char>, Seq<char>)>,
}

/// A device that backs a device-mapper device.
#[derive(Debug, PartialEq, Eq)]
pub struct SlaveDevice {
    /// The subsystems found along the parent chain, nearest parent first.
    pub ancestors: Vec<String>,
    /// The properties of the device, in the order of the database.
    pub properties: Vec<Property>,
}

impl DeepView for SlaveDevice {
    type V = SlaveView;

    open spec fn deep_view(&self) -> SlaveView {
        SlaveView {
            ancestors: self.ancestors.deep_view(),
            properties: self.properties.deep_view(),
        }
    }
}

/// A block device as a plain value.
pub struct DeviceView {
    pub syspath: Seq<char>,
    pub devnode: Option<Seq<char>>,
    pub properties: Seq<(Seq<char>, Seq<char>)>,
    pub size: Option<Seq<char>>,
    pub dev: Option<Seq<char>>,
    pub ancestors: Seq<Seq<char>>,
    pub slaves: Seq<Option<SlaveView>>,
}

/// A snapshot of one block device: everything that classification reads.
#[derive(Debug, PartialEq, Eq)]
pub struct DeviceRecord {
    /// The path of the device in sysfs.
    pub syspath: String,
    /// The path of the block special file, if the device has one.
    pub devnode: Option<String>,
    /// The properties of the device, in the order of the database; where a
    /// name occurs twice, its last value counts.
    pub properties: Vec<Property>,
    /// The `size` attribute: the number of sectors, in decimal.
    pub size: Option<String>,
    /// The `dev` attribute: the `major:minor` identifier of the device.
    pub dev: Option<String>,
    /// The subsystems found along the parent chain, nearest parent first.
    pub ancestors: Vec<String>,
    /// The backing devices in the order of their listing; `None` stands for
    /// one that the device database could not resolve.
    pub slaves: Vec<Option<SlaveDevice>>,
}

impl View for DeviceRecord {
    type V = DeviceView;

    open spec fn view(&self) -> DeviceView {
        DeviceView {
            syspath: self.syspath@,
            devnode: self.devnode.deep_view(),
            properties: self.properties.deep_view(),
            size: self.size.deep_view(),
            dev: self.dev.deep_view(),
            ancestors: self.ancestors.deep_view(),
            slaves: self.slaves.deep_view(),
        }
    }
}

impl DeepView for DeviceRecord {
    type V = DeviceView;

    open spec fn deep_view(&self) -> DeviceView {
        self@
    }
}

/// A partition as a plain value.
pub struct PartitionView {
    pub dev_path: Seq<char>,
    pub partition_label: Option<Seq<char>>,
    pub partition_filesystem: Seq<char>,
    pub partition_size: nat,
    pub usb_model_name: Option<Seq<char>>,
    pub mounted_points: Seq<Seq<char>>,
}

/// A partition of removable storage that can be mounted or unmounted.
#[derive(Debug, PartialEq, Eq)]
pub struct PartitionDevice {
    /// The path of the block special file.
    pub dev_path: String,
    /// The label of the filesystem, if it has one.
    pub partition_label: Option<String>,
    /// The type of the filesystem.
    pub partition_filesystem: String,
    /// The size of the partition in bytes.
    pub partition_size: u64,
    /// The model name of the USB device that holds the partition.
    pub usb_model_name: Option<String>,
    /// Where the partition is mounted at present, in mount-table order.
    pub mounted_points: Vec<String>,
}

impl View for PartitionDevice {
    type V = PartitionView;

    open spec fn view(&self) -> PartitionView {
        PartitionView {
            dev_path: self.dev_path@,
            partition_label: self.partition_label.deep_view(),
            partition_filesystem: self.partition_filesystem@,
            partition_size: self.partition_size as nat,
            usb_model_name: self.usb_model_name.deep_view(),
            mounted_points: self.mounted_points.deep_view(),
        }
    }
}

impl DeepView for PartitionDevice {
    type V = PartitionView;

    open spec fn deep_view(&self) -> PartitionView {
        self@
    }
}

/// An attribute that a classified device must have and does not.
#[derive(Debug, Clone, Copy, PartialEq, Eq, Structural)]
pub enum AttributeError {
    /// The device has no block special file.
    MissingDevnode,
    /// The device reports no size.
    MissingSize,
    /// The reported size is no unsigned decimal number that fits 64 bits.
    InvalidSize,
    /// The size in bytes does not fit 64 bits.
    SizeOverflow,
    /// The device reports no `major:minor` identifier.
    MissingDeviceId,
}

/// A classified device of the inventory that lacks a required attribute.
#[derive(Debug, Clone, Copy, PartialEq, Eq, Structural)]
pub struct InventoryError {
    /// Zero-based index of the device among those handed in.
    pub device: usize,
    pub cause: AttributeError,
}

/// The value of the property `name`: that of its last occurrence.
pub open spec fn property_of(properties: Seq<(Seq<char>, Seq<char>)>, name: Seq<char>) -> Option<
    Seq<char>,
>
    decreases properties.len(),
{
    if properties.len() == 0 {
        None
    } else if properties.last().0 == name {
        Some(properties.last().1)
    } else {
        property_of(properties.drop_last(), name)
    }
}

/// Whether a parent chain holds a device of the USB subsystem.
pub open spec fn has_usb_ancestor(ancestors: Seq<Seq<char>>) -> bool {
    exists|i: int| 0 <= i < ancestors.len() && ancestors[i] == USB_SUBSYSTEM@
}

/// The backing device that stands for a device-mapper device: the last of
/// its listing, if that one could be resolved.
pub open spec fn chosen_slave(device: DeviceView) -> Option<SlaveView> {
    if device.slaves.len() == 0 {
        None
    } else {
        device.slaves.last()
    }
}

/// Whether the device hangs off a USB device itself.
pub open spec fn attached_directly(device: DeviceView) -> bool {
    has_usb_ancestor(device.ancestors)
}

/// Whether the device is a device-mapper device on top of a USB-attached one.
pub open spec fn attached_through_slave(device: DeviceView) -> bool {
    &&& !has_usb_ancestor(device.ancestors)
    &&& property_of(device.properties, DM_NAME_PROPERTY@) is Some
    &&& chosen_slave(device) is Some
    &&& has_usb_ancestor(chosen_slave(device)->0.ancestors)
}

/// Whether the device belongs to the inventory: it carries a filesystem
/// and is attached to USB, directly or through its backing device.
pub open spec fn eligible(device: DeviceView) -> bool {
    &&& property_of(device.properties, FS_TYPE_PROPERTY@) is Some
    &&& (attached_directly(device) || attached_through_slave(device))
}

/// The model name of the USB device behind an eligible device: its own
/// when it is attached directly, else that of its backing device.
pub open spec fn usb_model_name(device: DeviceView) -> Option<Seq<char>> {
    if attached_directly(device) {
        property_of(device.properties, MODEL_PROPERTY@)
    } else {
        property_of(chosen_slave(device)->0.properties, MODEL_PROPERTY@)
    }
}

/// The first required attribute that the device lacks, if any: the block
/// special file, the size, then the device identifier.
pub open spec fn attribute_fault(device: DeviceView) -> Option<AttributeError> {
    if device.devnode is None {
        Some(AttributeError::MissingDevnode)
    } else if device.size is None {
        Some(AttributeError::MissingSize)
    } else if parsed_u64(device.size->0) is None {
        Some(AttributeError::InvalidSize)
    } else if parsed_u64(device.size->0)->0 * SECTOR_BYTES > u64::MAX {
        Some(AttributeError::SizeOverflow)
    } else if device.dev is None {
        Some(AttributeError::MissingDeviceId)
    } else {
        None
    }
}

/// The partition that an eligible device with all its attributes stands for.
pub open spec fn partition_of(
    device: DeviceView,
    mounts: Map<Seq<char>, Seq<Seq<char>>>,
) -> PartitionView {
    PartitionView {
        dev_path: device.devnode->0,
        partition_label: property_of(device.properties, FS_LABEL_PROPERTY@),
        partition_filesystem: property_of(device.properties, FS_TYPE_PROPERTY@)->0,
        partition_size: (parsed_u64(device.size->0)->0 * SECTOR_BYTES) as nat,
        usb_model_name: usb_model_name(device),
        mounted_points: lookup(mounts, device.dev->0),
    }
}

/// What classification makes of a device: nothing when it is not
/// eligible, a fault when it is eligible and lacks an attribute, else its
/// partition.
pub open spec fn classify(device: DeviceView, mounts: Map<Seq<char>, Seq<Seq<char>>>) -> Result<
    Option<PartitionView>,
    AttributeError,
> {
    if !eligible(device) {
        Ok(None)
    } else {
        match attribute_fault(device) {
            Some(fault) => Err(fault),
            None => Ok(Some(partition_of(device, mounts))),
        }
    }
}

/// Whether the device belongs to the inventory and lacks an attribute.
pub open spec fn faulty(device: DeviceView) -> bool {
    eligible(device) && attribute_fault(device) is Some
}

/// The inventory of a set of devices: the partitions of those that are
/// eligible, in the order of the devices.
pub open spec fn inventory(devices: Seq<DeviceView>, mounts: Map<Seq<char>, Seq<Seq<char>>>) -> Seq<
    PartitionView,
> {
    devices.filter(|device: DeviceView| eligible(device)).map_values(
        |device: DeviceView| partition_of(device, mounts),
    )
}

/// Looks a property up by name; of several with that name the last counts.
pub fn property_value(properties: &Vec<Property>, name: &str) -> (value: Option<String>)
    ensures
        value.deep_view() == property_of(properties.deep_view(), name@),
{
    let mut i: usize = properties.len();
    assert(properties.deep_view().take(i as int) =~= properties.deep_view());
    while i > 0
        invariant
            i <= properties.len(),
            property_of(properties.deep_view(), name@) == property_of(
                properties.deep_view().take(i as int),
                name@,
            ),
        decreases i,
    {
        let ghost upto = properties.deep_view().take(i as int);
        assert(upto.drop_last() =~= properties.deep_view().take(i - 1));
        i = i - 1;
        if same_text(&properties[i].name, name) {
            return Some(properties[i].value.clone());
        }
    }
    None
}

impl PartitionDevice {
    /// Whether a parent chain shows that the device is attached to USB.
    pub fn check_is_usb_device(ancestors: &Vec<String>) -> (usb: bool)
        ensures
            usb == has_usb_ancestor(ancestors.deep_view()),
    {
        let mut i: usize = 0;
        while i < ancestors.len()
            invariant
                i <= ancestors.len(),
                forall|j: int| 0 <= j < i ==> ancestors.deep_view()[j] != USB_SUBSYSTEM@,
            decreases ancestors.len() - i,
        {
            if same_text(&ancestors[i], USB_SUBSYSTEM) {
                assert(ancestors.deep_view()[i as int] == USB_SUBSYSTEM@);
                return true;
            }
            i = i + 1;
        }
        false
    }

    /// Classifies one block device against the mount table.
    ///
    /// A device without a filesystem, or one that is attached to USB
    /// neither directly nor through its backing device, is no partition of
    /// the inventory: `Ok(None)`. A device of the inventory must have a
    /// block special file, a size and a device identifier; the first of
    /// these that is missing or unusable is the error.
    pub fn from_device(device: &DeviceRecord, mounts: &MountInfo) -> (r: Result<
        Option<PartitionDevice>,
        AttributeError,
    >)
        ensures
            match r {
                Ok(Some(partition)) => classify(device@, mounts@) == Ok::<
                    Option<PartitionView>,
                    AttributeError,
                >(Some(partition@)),
                Ok(None) => classify(device@, mounts@) == Ok::<
                    Option<PartitionView>,
                    AttributeError,
                >(None),
                Err(fault) => classify(device@, mounts@) == Err::<
                    Option<PartitionView>,
                    AttributeError,
                >(fault),
            },
    {
        let filesystem = match property_value(&device.properties, FS_TYPE_PROPERTY) {
            None => {
                return Ok(None);
            },
            Some(filesystem) => filesystem,
        };
        let model = if PartitionDevice::check_is_usb_device(&device.ancestors) {
            property_value(&device.properties, MODEL_PROPERTY)
        } else if property_value(&device.properties, DM_NAME_PROPERTY).is_some() {
            if device.slaves.len() == 0 {
                return Ok(None);
            }
            let last = device.slaves.len() - 1;
            match &device.slaves[last] {
                None => {
                    return Ok(None);
                },
                Some(slave) => {
                    if !PartitionDevice::check_is_usb_device(&slave.ancestors) {
                        return Ok(None);
                    }
                    property_value(&slave.properties, MODEL_PROPERTY)
                },
            }
        } else {
            return Ok(None);
        };
        let dev_path = match &device.devnode {
            None => {
                return Err(AttributeError::MissingDevnode);
            },
            Some(devnode) => devnode.clone(),
        };
        let sectors = match &device.size {
            None => {
                return Err(AttributeError::MissingSize);
            },
            Some(size) => match parse_u64(size.as_str()) {
                None => {
                    return Err(AttributeError::InvalidSize);
                },
                Some(sectors) => sectors,
            },
        };
        let partition_size = match sectors.checked_mul(SECTOR_BYTES) {
            None => {
                return Err(AttributeError::SizeOverflow);
            },
            Some(bytes) => bytes,
        };
        let mounted_points = match &device.dev {
            None => {
                return Err(AttributeError::MissingDeviceId);
            },
            Some(dev) => mounts.get_mount_points_by_id(dev),
        };
        let partition_label = property_value(&device.properties, FS_LABEL_PROPERTY);
        Ok(
            Some(
                PartitionDevice {
                    dev_path,
                    partition_label,
                    partition_filesystem: filesystem,
                    partition_size,
                    usb_model_name: model,
                    mounted_points,
                },
            ),
        )
    }
}

/// The inventory of a set of devices with one more device at its end.
proof fn lemma_inventory_push(
    devices: Seq<DeviceView>,
    device: DeviceView,
    mounts: Map<Seq<char>, Seq<Seq<char>>>,
)
    ensures
        inventory(devices.push(device), mounts) == if eligible(device) {
            inventory(devices, mounts).push(partition_of(device, mounts))
        } else {
            inventory(devices, mounts)
        },
{
    reveal(Seq::filter);
    assert(devices.push(device).drop_last() =~= devices);
}

/// Lists the partitions of removable storage among the given block
/// devices, in their order, each with its current mount points.
///
/// The first device that belongs to the inventory and lacks a required
/// attribute ends the listing and is reported.
pub fn get_available_partition_devices(devices: &Vec<DeviceRecord>, mounts: &MountInfo) -> (r: Result<
    Vec<PartitionDevice>,
    InventoryError,
>)
    ensures
        match r {
            Ok(partitions) => {
                &&& forall|i: int| 0 <= i < devices.len() ==> !faulty(devices[i]@)
                &&& partitions.deep_view() == inventory(devices.deep_view(), mounts@)
            },
            Err(e) => {
                &&& e.device < devices.len()
                &&& eligible(devices[e.device as int]@)
                &&& attribute_fault(devices[e.device as int]@) == Some(e.cause)
                &&& forall|i: int| 0 <= i < e.device ==> !faulty(devices[i]@)
            },
        },
{
    let mut partitions: Vec<PartitionDevice> = Vec::new();
    let mut i: usize = 0;
    while i < devices.len()
        invariant
            i <= devices.len(),
            forall|j: int| 0 <= j < i ==> !faulty(devices[j]@),
            partitions.deep_view() == inventory(devices.deep_view().take(i as int), mounts@),
        decreases devices.len() - i,
    {
        proof {
            assert(devices.deep_view().take(i + 1) =~= devices.deep_view().take(i as int).push(
                devices[i as int]@,
            ));
            lemma_inventory_push(devices.deep_view().take(i as int), devices[i as int]@, mounts@);
        }
        match PartitionDevice::from_device(&devices[i], mounts) {
            Err(cause) => {
                return Err(InventoryError { device: i, cause });
            },
            Ok(None) => {},
            Ok(Some(partition)) => {
                partitions.push(partition);
            },
        }
        i = i + 1;
    }
    assert(devices.deep_view().take(devices.len() as int) =~= devices.deep_view());
    Ok(partitions)
}

/// What one device contributes to the inventory: its partition when it
/// is eligible, nothing otherwise.
pub open spec fn contribution(device: DeviceView, mounts: Map<Seq<char>, Seq<Seq<char>>>) -> Seq<
    PartitionView,
> {
    if eligible(device) {
        seq![partition_of(device, mounts)]
    } else {
        Seq::empty()
    }
}

/// The inventory is put together device by device: it is what the devices
/// before any one of them contribute, then what that device contributes,
/// then what the devices after it contribute.
pub proof fn lemma_inventory_by_device(
    devices: Seq<DeviceView>,
    at: int,
    mounts: Map<Seq<char>, Seq<Seq<char>>>,
)
    requires
        0 <= at < devices.len(),
    ensures
        inventory(devices, mounts) == inventory(devices.take(at), mounts) + contribution(
            devices[at],
            mounts,
        ) + inventory(devices.skip(at + 1), mounts),
    decreases devices.len(),
{
    let last = devices.len() - 1;
    assert(devices =~= devices.drop_last().push(devices[last]));
    lemma_inventory_push(devices.drop_last(), devices[last], mounts);
    if at == last {
    } else {
        lemma_inventory_by_device(devices.drop_last(), at, mounts);
        assert(devices.drop_last().take(at) =~= devices.take(at));
        assert(devices.skip(at + 1) =~= devices.drop_last().skip(at + 1).push(devices[last]));
        lemma_inventory_push(devices.drop_last().skip(at + 1), devices[last], mounts);
    }
}

/// A device without a filesystem-type property is not classified, whatever
/// else it reports, and contributes nothing to the inventory.
pub proof fn lemma_without_filesystem_left_out(
    device: DeviceView,
    mounts: Map<Seq<char>, Seq<Seq<char>>>,
)
    requires
        property_of(device.properties, FS_TYPE_PROPERTY@) is None,
    ensures
        classify(device, mounts) == Ok::<Option<PartitionView>, AttributeError>(None),
        contribution(device, mounts) == Seq::<PartitionView>::empty(),
{
}

/// A device with a filesystem-type property and a USB ancestor belongs to
/// the inventory, and the model name of its partition is its own model
/// property.
pub proof fn lemma_usb_device_listed(device: DeviceView, mounts: Map<Seq<char>, Seq<Seq<char>>>)
    requires
        property_of(device.properties, FS_TYPE_PROPERTY@) is Some,
        has_usb_ancestor(device.ancestors),
    ensures
        eligible(device),
        contribution(device, mounts) == seq![partition_of(device, mounts)],
        partition_of(device, mounts).usb_model_name == property_of(
            device.properties,
            MODEL_PROPERTY@,
        ),
        attribute_fault(device) is None ==> classify(device, mounts) == Ok::<
            Option<PartitionView>,
            AttributeError,
        >(Some(partition_of(device, mounts))),
{
}

/// A device-mapper device with a filesystem-type property and no USB
/// ancestor of its own, whose only backing device has a USB ancestor,
/// belongs to the inventory, and the model name of its partition is the
/// model property of the backing device.
pub proof fn lemma_mapped_device_listed(
    device: DeviceView,
    slave: SlaveView,
    mounts: Map<Seq<char>, Seq<Seq<char>>>,
)
    requires
        property_of(device.properties, FS_TYPE_PROPERTY@) is Some,
        property_of(device.properties, DM_NAME_PROPERTY@) is Some,
        !has_usb_ancestor(device.ancestors),
        device.slaves == seq![Some(slave)],
        has_usb_ancestor(slave.ancestors),
    ensures
        eligible(device),
        contribution(device, mounts) == seq![partition_of(device, mounts)],
        partition_of(device, mounts).usb_model_name == property_of(
            slave.properties,
            MODEL_PROPERTY@,
        ),
        attribute_fault(device) is None ==> classify(device, mounts) == Ok::<
            Option<PartitionView>,
            AttributeError,
        >(Some(partition_of(device, mounts))),
{
}

/// A device without a USB ancestor of its own whose backing device is
/// unknown, unresolved or without a USB ancestor is not classified and
/// contributes nothing to the inventory.
pub proof fn lemma_mapped_device_left_out(
    device: DeviceView,
    mounts: Map<Seq<char>, Seq<Seq<char>>>,
)
    requires
        !has_usb_ancestor(device.ancestors),
        chosen_slave(device) is None || !has_usb_ancestor(chosen_slave(device)->0.ancestors),
    ensures
        classify(device, mounts) == Ok::<Option<PartitionView>, AttributeError>(None),
        contribution(device, mounts) == Seq::<PartitionView>::empty(),
{
}

/// The size of a partition is the reported number of sectors times 512.
pub proof fn lemma_size_is_sectors_times_512(
    device: DeviceView,
    mounts: Map<Seq<char>, Seq<Seq<char>>>,
    sectors: u64,
)
    requires
        device.size is Some,
        parsed_u64(device.size->0) == Some(sectors),
    ensures
        partition_of(device, mounts).partition_size == sectors * 512,
        classify(device, mounts) matches Ok(Some(partition)) ==> partition.partition_size
            == sectors * 512,
{
}

} // verus!
