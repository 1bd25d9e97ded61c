//! How partitions are written out: quoted fields, sizes in binary units,
//! lists of mount points, and the line that describes a partition.

use crate::device::{PartitionDevice, PartitionView};
use crate::text::push_char;
use vstd::prelude::*;
use vstd::string::StringExecFns;

verus! {

/// The text that the unit formatter writes for a size in bytes: the size
/// in the largest binary unit that it exceeds, with two decimals
/// (`"1.50 KiB"`), or in whole bytes (`"1024 B"`).
pub uninterp spec fn binary_size_text(bytes: u64) -> Seq<char>;

/// Writes a size in the binary unit that suits it.
///
/// Trusted: `byte_unit::Byte::from_bytes` wraps the number,
/// `Byte::get_appropriate_unit(true)` picks among the binary units, and the
/// `Display` of the adjusted value writes it. The text depends on the
/// number alone and is named by [`binary_size_text`]; nothing more is
/// claimed of it.
#[verifier::external_body]
fn size_text(bytes: u64) -> (text: String)
    ensures
        text@ == binary_size_text(bytes),
{
    byte_unit::Byte::from_bytes(bytes.into()).get_appropriate_unit(true).to_string()
}

/// `text` between double quotes.
pub open spec fn quoted(text: Seq<char>) -> Seq<char> {
    seq!['"'] + text + seq!['"']
}

/// A field that may be absent: quoted when present, else the word `None`.
pub open spec fn optional_text(value: Option<Seq<char>>) -> Seq<char> {
    match value {
        Some(text) => quoted(text),
        None => "None"@,
    }
}

/// The quoted mount points, separated by commas.
pub open spec fn joined_quoted(points: Seq<Seq<char>>) -> Seq<char>
    decreases points.len(),
{
    if points.len() == 0 {
        Seq::empty()
    } else if points.len() == 1 {
        quoted(points[0])
    } else {
        joined_quoted(points.drop_last()) + seq![','] + quoted(points.last())
    }
}

/// A list of mount points: quoted, separated by commas, in square brackets.
pub open spec fn mount_points_text(points: Seq<Seq<char>>) -> Seq<char> {
    seq!['['] + joined_quoted(points) + seq![']']
}

/// A size in bytes, quoted, in the unit that suits it.
pub open spec fn size_field(bytes: u64) -> Seq<char> {
    quoted(binary_size_text(bytes))
}

/// The filesystem, size, label and model of a partition, each in its field.
pub open spec fn properties_text(partition: PartitionView) -> Seq<char> {
    "FileSystem("@ + quoted(partition.partition_filesystem) + ") Size("@ + size_field(
        partition.partition_size as u64,
    ) + ") Label("@ + optional_text(partition.partition_label) + ") Model("@ + optional_text(
        partition.usb_model_name,
    ) + ")]"@
}

/// The line that offers a partition for mounting: its device path and its
/// properties.
pub open spec fn mount_label(partition: PartitionView) -> Seq<char> {
    partition.dev_path + " ["@ + properties_text(partition)
}

/// The line that describes a partition in full: its device path, its mount
/// points and its properties.
pub open spec fn description(partition: PartitionView) -> Seq<char> {
    partition.dev_path + " [MountPoint("@ + mount_points_text(partition.mounted_points) + ") "@
        + properties_text(partition)
}

/// Puts a text between double quotes.
pub fn quote(text: &str) -> (out: String)
    ensures
        out@ == quoted(text@),
{
    let mut out = String::new();
    push_char(&mut out, '"');
    out.append(text);
    push_char(&mut out, '"');
    out
}

/// Writes an optional field: the text in double quotes, or `None`.
pub fn format_optional_string(value: &Option<String>) -> (text: String)
    ensures
        text@ == optional_text(value.deep_view()),
{
    match value {
        Some(value) => quote(value.as_str()),
        None => String::from_str("None"),
    }
}

/// Writes a size in bytes in the binary unit that suits it, in double
/// quotes.
pub fn format_partition_size(size: u64) -> (text: String)
    ensures
        text@ == size_field(size),
{
    quote(size_text(size).as_str())
}

/// Writes a list of mount points: each in double quotes, separated by
/// commas, the whole in square brackets.
pub fn format_mount_points(mount_points: &Vec<String>) -> (text: String)
    ensures
        text@ == mount_points_text(mount_points.deep_view()),
{
    let ghost points = mount_points.deep_view();
    let mut text = String::new();
    push_char(&mut text, '[');
    let mut i: usize = 0;
    while i < mount_points.len()
        invariant
            i <= mount_points.len(),
            points == mount_points.deep_view(),
            text@ == seq!['['] + joined_quoted(points.take(i as int)),
        decreases mount_points.len() - i,
    {
        if i > 0 {
            push_char(&mut text, ',');
        }
        text.append(quote(mount_points[i].as_str()).as_str());
        proof {
            let upto = points.take(i + 1);
            assert(upto.drop_last() =~= points.take(i as int));
        }
        i = i + 1;
    }
    assert(points.take(mount_points.len() as int) =~= points);
    push_char(&mut text, ']');
    text
}

/// Appends the properties of a partition, each in its field.
fn push_properties(out: &mut String, partition: &PartitionDevice)
    ensures
        final(out)@ == old(out)@ + properties_text(partition@),
{
    out.append("FileSystem(");
    out.append(quote(partition.partition_filesystem.as_str()).as_str());
    out.append(") Size(");
    out.append(format_partition_size(partition.partition_size).as_str());
    out.append(") Label(");
    out.append(format_optional_string(&partition.partition_label).as_str());
    out.append(") Model(");
    out.append(format_optional_string(&partition.usb_model_name).as_str());
    out.append(")]");
}

/// Writes the line that offers a partition for mounting.
pub fn format_mount_label(partition: &PartitionDevice) -> (text: String)
    ensures
        text@ == mount_label(partition@),
{
    let mut text = partition.dev_path.clone();
    text.append(" [");
    push_properties(&mut text, partition);
    text
}

/// Writes the line that describes a partition in full.
pub fn format_description(partition: &PartitionDevice) -> (text: String)
    ensures
        text@ == description(partition@),
{
    let mut text = partition.dev_path.clone();
    text.append(" [MountPoint(");
    text.append(format_mount_points(&partition.mounted_points).as_str());
    text.append(") ");
    push_properties(&mut text, partition);
    text
}

} // verus!
