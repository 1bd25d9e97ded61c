//! Choosing the partition to act on: by its device path, by default when
//! there is only one, or from a list that is put before the operator.

use crate::device::{PartitionDevice, PartitionView};
use crate::display::{description, format_description, format_mount_label, mount_label};
use vstd::prelude::*;

verus! {

/// How the partition to act on is found.
#[derive(Debug, Clone, Copy, PartialEq, Eq, Structural)]
pub enum DeviceChoice {
    /// The partition at this position of the inventory.
    Use(usize),
    /// The operator has to pick one.
    Ask,
}

/// Why no partition can be chosen.
#[derive(Debug, Clone, Copy, PartialEq, Eq, Structural)]
pub enum ChoiceError {
    /// The inventory is empty.
    NoDevice,
    /// No partition of the inventory has the requested device path.
    UnknownDevice,
}

/// Why a selection yields no partition.
#[derive(Debug, Clone, Copy, PartialEq, Eq, Structural)]
pub enum SelectError {
    /// No partition of the inventory qualifies for the action.
    NothingToSelect,
    /// The operator left the prompt without picking.
    Cancelled,
    /// The answer names no line of the list.
    InvalidAnswer,
}

/// The partitions that are offered to the operator.
#[derive(Debug, PartialEq, Eq)]
pub struct Selection {
    /// The position in the inventory of each partition on offer.
    pub devices: Vec<usize>,
    /// The line that is shown for each of them.
    pub labels: Vec<String>,
}

/// Whether a partition is mounted somewhere.
pub open spec fn is_mounted(partition: PartitionView) -> bool {
    partition.mounted_points.len() > 0
}

/// The last position of the inventory that holds `dev_path`.
pub open spec fn position_of(partitions: Seq<PartitionView>, dev_path: Seq<char>) -> Option<int>
    decreases partitions.len(),
{
    if partitions.len() == 0 {
        None
    } else if partitions.last().dev_path == dev_path {
        Some(partitions.len() - 1)
    } else {
        position_of(partitions.drop_last(), dev_path)
    }
}

/// How the partition to act on is found: a requested device path has to be
/// in the inventory; without one, the only partition is taken, and the
/// operator is asked when there are several.
pub open spec fn choice(partitions: Seq<PartitionView>, dev_path: Option<Seq<char>>) -> Result<
    DeviceChoice,
    ChoiceError,
> {
    match dev_path {
        Some(dev_path) => match position_of(partitions, dev_path) {
            Some(at) => Ok(DeviceChoice::Use(at as usize)),
            None => Err(ChoiceError::UnknownDevice),
        },
        None => if partitions.len() == 0 {
            Err(ChoiceError::NoDevice)
        } else if partitions.len() == 1 {
            Ok(DeviceChoice::Use(0))
        } else {
            Ok(DeviceChoice::Ask)
        },
    }
}

/// The positions, in ascending order, of the partitions that are mounted
/// (`mounted`) or not mounted (`!mounted`).
pub open spec fn positions(partitions: Seq<PartitionView>, mounted: bool) -> Seq<int>
    decreases partitions.len(),
{
    if partitions.len() == 0 {
        Seq::empty()
    } else if is_mounted(partitions.last()) == mounted {
        positions(partitions.drop_last(), mounted).push(partitions.len() - 1)
    } else {
        positions(partitions.drop_last(), mounted)
    }
}

/// The line that is shown for a partition: its full description when the
/// mounted ones are on offer, else without the mount points.
pub open spec fn label(partition: PartitionView, mounted: bool) -> Seq<char> {
    if mounted {
        description(partition)
    } else {
        mount_label(partition)
    }
}

/// The lines that are shown for the partitions on offer, in their order.
pub open spec fn labels(partitions: Seq<PartitionView>, mounted: bool) -> Seq<Seq<char>> {
    positions(partitions, mounted).map_values(|at: int| label(partitions[at], mounted))
}

/// Whether a selection offers exactly the partitions that are mounted
/// (`mounted`) or not mounted (`!mounted`), in the order of the inventory,
/// each with its line.
pub open spec fn offers(selection: Selection, partitions: Seq<PartitionView>, mounted: bool) -> bool {
    &&& selection.devices@.map_values(|at: usize| at as int) == positions(partitions, mounted)
    &&& selection.labels.deep_view() == labels(partitions, mounted)
}

/// Every position on offer is a position of the inventory.
pub proof fn lemma_positions_in_range(partitions: Seq<PartitionView>, mounted: bool)
    ensures
        forall|k: int|
            0 <= k < positions(partitions, mounted).len() ==> 0 <= #[trigger] positions(
                partitions,
                mounted,
            )[k] < partitions.len() && is_mounted(partitions[positions(partitions, mounted)[k]])
                == mounted,
    decreases partitions.len(),
{
    if partitions.len() > 0 {
        lemma_positions_in_range(partitions.drop_last(), mounted);
        let before = positions(partitions.drop_last(), mounted);
        let all = positions(partitions, mounted);
        assert forall|k: int| 0 <= k < all.len() implies 0 <= #[trigger] all[k] < partitions.len()
            && is_mounted(partitions[all[k]]) == mounted by {
            if k < before.len() {
                assert(all[k] == before[k]);
            }
        }
    }
}

/// Finds the partition to act on.
///
/// With a device path, the partition of that path (the last of them, should
/// several share it) or `UnknownDevice`. Without one: `NoDevice` for an
/// empty inventory, the only partition of an inventory of one, and `Ask`
/// otherwise.
pub fn choose_device(devices: &Vec<PartitionDevice>, dev_path: &Option<String>) -> (r: Result<
    DeviceChoice,
    ChoiceError,
>)
    ensures
        r == choice(devices.deep_view(), dev_path.deep_view()),
{
    match dev_path {
        None => {
            if devices.len() == 0 {
                Err(ChoiceError::NoDevice)
            } else if devices.len() == 1 {
                Ok(DeviceChoice::Use(0))
            } else {
                Ok(DeviceChoice::Ask)
            }
        },
        Some(wanted) => {
            let ghost partitions = devices.deep_view();
            let mut i: usize = devices.len();
            assert(partitions.take(i as int) =~= partitions);
            while i > 0
                invariant
                    i <= devices.len(),
                    partitions == devices.deep_view(),
                    dev_path.deep_view() == Some(wanted@),
                    position_of(partitions, wanted@) == position_of(
                        partitions.take(i as int),
                        wanted@,
                    ),
                decreases i,
            {
                let ghost upto = partitions.take(i as int);
                assert(upto.drop_last() =~= partitions.take(i - 1));
                i = i - 1;
                if devices[i].dev_path == *wanted {
                    return Ok(DeviceChoice::Use(i));
                }
            }
            Err(ChoiceError::UnknownDevice)
        },
    }
}

/// Puts before the operator the partitions that are mounted (`mounted`) or
/// not mounted (`!mounted`).
fn select(devices: &Vec<PartitionDevice>, mounted: bool) -> (r: Result<Selection, SelectError>)
    ensures
        match r {
            Ok(selection) => positions(devices.deep_view(), mounted).len() > 0 && offers(
                selection,
                devices.deep_view(),
                mounted,
            ),
            Err(e) => e == SelectError::NothingToSelect && positions(
                devices.deep_view(),
                mounted,
            ).len() == 0,
        },
{
    let ghost partitions = devices.deep_view();
    let mut selection = Selection { devices: Vec::new(), labels: Vec::new() };
    let mut i: usize = 0;
    assert(offers(selection, partitions.take(0), mounted)) by {
        assert(selection.devices@.map_values(|at: usize| at as int) =~= Seq::<int>::empty());
        assert(selection.labels.deep_view() =~= labels(partitions.take(0), mounted));
    }
    while i < devices.len()
        invariant
            i <= devices.len(),
            partitions == devices.deep_view(),
            offers(selection, partitions.take(i as int), mounted),
        decreases devices.len() - i,
    {
        let ghost seen = partitions.take(i as int);
        let ghost upto = partitions.take(i + 1);
        let ghost offered = selection.devices@;
        let ghost shown = selection.labels.deep_view();
        proof {
            assert(upto.drop_last() =~= seen);
            lemma_positions_in_range(seen, mounted);
        }
        if (devices[i].mounted_points.len() > 0) == mounted {
            let text = if mounted {
                format_description(&devices[i])
            } else {
                format_mount_label(&devices[i])
            };
            selection.devices.push(i);
            selection.labels.push(text);
            proof {
                assert(selection.devices@.map_values(|at: usize| at as int) =~= offered.map_values(
                    |at: usize| at as int,
                ).push(i as int));
                assert(selection.labels.deep_view() =~= shown.push(text@));
                assert(labels(upto, mounted) =~= labels(seen, mounted).push(
                    label(upto.last(), mounted),
                ));
            }
        } else {
            assert(labels(upto, mounted) =~= labels(seen, mounted));
        }
        i = i + 1;
    }
    assert(partitions.take(devices.len() as int) =~= partitions);
    if selection.devices.len() == 0 {
        Err(SelectError::NothingToSelect)
    } else {
        Ok(selection)
    }
}

/// Puts the partitions that can be mounted before the operator: those that
/// are mounted nowhere, in the order of the inventory, each with its device
/// path and properties. With none of them there is nothing to select.
pub fn select_mount_device(devices: &Vec<PartitionDevice>) -> (r: Result<Selection, SelectError>)
    ensures
        match r {
            Ok(selection) => positions(devices.deep_view(), false).len() > 0 && offers(
                selection,
                devices.deep_view(),
                false,
            ),
            Err(e) => e == SelectError::NothingToSelect && positions(
                devices.deep_view(),
                false,
            ).len() == 0,
        },
{
    select(devices, false)
}

/// Puts the partitions that can be unmounted before the operator: those
/// that are mounted somewhere, in the order of the inventory, each with its
/// full description. With none of them there is nothing to select.
pub fn select_umount_device(devices: &Vec<PartitionDevice>) -> (r: Result<Selection, SelectError>)
    ensures
        match r {
            Ok(selection) => positions(devices.deep_view(), true).len() > 0 && offers(
                selection,
                devices.deep_view(),
                true,
            ),
            Err(e) => e == SelectError::NothingToSelect && positions(
                devices.deep_view(),
                true,
            ).len() == 0,
        },
{
    select(devices, true)
}

impl Selection {
    /// Turns the operator's answer into a position of the inventory: the
    /// partition on the picked line, `Cancelled` without an answer, and
    /// `InvalidAnswer` for a line that is not on the list.
    pub fn pick(&self, answer: Option<usize>) -> (r: Result<usize, SelectError>)
        ensures
            r == match answer {
                None => Err::<usize, SelectError>(SelectError::Cancelled),
                Some(line) => if line < self.devices.len() {
                    Ok(self.devices[line as int])
                } else {
                    Err(SelectError::InvalidAnswer)
                },
            },
    {
        match answer {
            None => Err(SelectError::Cancelled),
            Some(line) => if line < self.devices.len() {
                Ok(self.devices[line])
            } else {
                Err(SelectError::InvalidAnswer)
            },
        }
    }
}

} // verus!
