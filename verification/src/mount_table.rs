//! The kernel mount table, indexed from device identifier to mount points.
//!
//! Every line of the table is matched against [`MOUNT_LINE_PATTERN`]; the
//! device identifier and the mount point of each line go into a
//! [`MountInfo`], which answers where a device is currently mounted.

use crate::text::copy_strings;
use vstd::prelude::*;

verus! {

/// The shape of one line of the mount table:
/// `<id> <parent id> <major>:<minor> <root> <mount point> <mount options>
/// <optional tags> - <filesystem> <mount source> <super options>`.
/// The optional tags are any number of fields without whitespace, none at
/// all included; they end at the first field that is a lone `-`.
pub const MOUNT_LINE_PATTERN: &'static str =
    r"(\d*)\s(\d*)\s(\d*:\d*)\s([\S]*)\s([\S]*)\s([A-Za-z0-9,]*)\s+((?:\S+\s+)*?)\- ([\S]*)\s([\S]*)(.*)";

/// The capture group that holds the `major:minor` device identifier.
pub const DEVICE_ID_GROUP: usize = 3;

/// The capture group that holds the mount point.
pub const MOUNT_POINT_GROUP: usize = 5;

/// Whether the regular-expression engine accepts `pattern`.
pub uninterp spec fn regex_compiles(pattern: Seq<char>) -> bool;

/// The capture groups of the leftmost match of `pattern` in `haystack`:
/// `None` when nothing matches, else one entry per group of the pattern,
/// group 0 being the whole match and a group that took no part being `None`.
pub uninterp spec fn regex_captures(pattern: Seq<char>, haystack: Seq<char>) -> Option<
    Seq<Option<Seq<char>>>,
>;

/// `regex::Error`, which the engine hands out for a pattern that it rejects;
/// nothing is read from it.
#[verifier::external_type_specification]
#[verifier::external_body]
pub struct ExRegexError(regex::Error);

/// Matches `haystack` against `pattern` and hands out the text of every
/// capture group.
///
/// Trusted: `regex::Regex::new` compiles the pattern and fails exactly when
/// the engine rejects it; `regex::Regex::captures` then searches the
/// haystack for the leftmost match. Both depend on their arguments alone,
/// so their outcomes are named by [`regex_compiles`] and
/// [`regex_captures`]; nothing more is claimed of them.
#[verifier::external_body]
fn captures(pattern: &str, haystack: &str) -> (r: Result<Option<Vec<Option<String>>>, regex::Error>)
    ensures
        r is Ok <==> regex_compiles(pattern@),
        r matches Ok(groups) ==> groups.deep_view() == regex_captures(pattern@, haystack@),
{
    let re = regex::Regex::new(pattern)?;
    Ok(re.captures(haystack).map(|c| c.iter().map(|g| g.map(|m| m.as_str().to_string())).collect()))
}

/// What the index keeps of one line of the mount table.
pub struct MountRow {
    pub id: Seq<char>,
    pub mount_point: Seq<char>,
}

/// Why a line of the mount table was refused.
#[derive(Debug, Clone, Copy, PartialEq, Eq, Structural)]
pub enum ParseReason {
    /// The engine rejected the pattern itself.
    PatternRejected,
    /// The line does not have the shape of a mount-table line.
    ShapeMismatch,
    /// The line matched, but the device identifier or the mount point took
    /// no part in the match.
    FieldAbsent,
}

/// A refused line of the mount table.
#[derive(Debug, Clone, Copy, PartialEq, Eq, Structural)]
pub struct ParseError {
    /// Zero-based index of the refused line.
    pub line: usize,
    pub reason: ParseReason,
}

/// The row that a set of capture groups stands for, if it holds both the
/// device identifier and the mount point.
pub open spec fn row_of_groups(groups: Seq<Option<Seq<char>>>) -> Option<MountRow> {
    if groups.len() > MOUNT_POINT_GROUP && groups[DEVICE_ID_GROUP as int] is Some
        && groups[MOUNT_POINT_GROUP as int] is Some {
        Some(
            MountRow {
                id: groups[DEVICE_ID_GROUP as int]->0,
                mount_point: groups[MOUNT_POINT_GROUP as int]->0,
            },
        )
    } else {
        None
    }
}

/// The row that a search for the pattern stands for, or why it stands
/// for none: nothing was found, or what was found lacks a field.
pub open spec fn row_of_match(found: Option<Seq<Option<Seq<char>>>>) -> Result<
    MountRow,
    ParseReason,
> {
    match found {
        None => Err(ParseReason::ShapeMismatch),
        Some(groups) => match row_of_groups(groups) {
            None => Err(ParseReason::FieldAbsent),
            Some(row) => Ok(row),
        },
    }
}

/// The row of a line under a pattern, or why the line is refused.
pub open spec fn row_under(pattern: Seq<char>, line: Seq<char>) -> Result<MountRow, ParseReason> {
    if !regex_compiles(pattern) {
        Err(ParseReason::PatternRejected)
    } else {
        row_of_match(regex_captures(pattern, line))
    }
}

/// The row of one line of the mount table, or why the line is refused.
pub open spec fn line_row(line: Seq<char>) -> Result<MountRow, ParseReason> {
    row_under(MOUNT_LINE_PATTERN@, line)
}

/// The rows of a mount table all of whose lines are accepted.
pub open spec fn rows_of(lines: Seq<Seq<char>>) -> Seq<MountRow> {
    Seq::new(lines.len(), |i: int| line_row(lines[i])->Ok_0)
}

/// The mount points of the rows that carry `id`, in table order.
pub open spec fn points_for(rows: Seq<MountRow>, id: Seq<char>) -> Seq<Seq<char>>
    decreases rows.len(),
{
    if rows.len() == 0 {
        Seq::empty()
    } else if rows.last().id == id {
        points_for(rows.drop_last(), id).push(rows.last().mount_point)
    } else {
        points_for(rows.drop_last(), id)
    }
}

/// The index of a mount table: every identifier that some row carries,
/// mapped to the mount points of its rows in table order.
pub open spec fn index_of(rows: Seq<MountRow>) -> Map<Seq<char>, Seq<Seq<char>>> {
    Map::new(
        |id: Seq<char>| points_for(rows, id).len() > 0,
        |id: Seq<char>| points_for(rows, id),
    )
}

/// Picks the device identifier and the mount point out of the capture
/// groups of one matched line.
pub fn entry_of_groups(groups: &Vec<Option<String>>) -> (entry: Option<(String, String)>)
    ensures
        match entry {
            Some((id, mount_point)) => row_of_groups(groups.deep_view()) == Some(
                MountRow { id: id@, mount_point: mount_point@ },
            ),
            None => row_of_groups(groups.deep_view()) is None,
        },
{
    if groups.len() <= MOUNT_POINT_GROUP {
        return None;
    }
    match (&groups[DEVICE_ID_GROUP], &groups[MOUNT_POINT_GROUP]) {
        (Some(id), Some(mount_point)) => Some((id.clone(), mount_point.clone())),
        _ => None,
    }
}

/// Reads the device identifier and the mount point off the outcome of a
/// search for the pattern in a line.
pub fn entry_of_match(found: &Option<Vec<Option<String>>>) -> (entry: Result<
    (String, String),
    ParseReason,
>)
    ensures
        match entry {
            Ok((id, mount_point)) => row_of_match(found.deep_view()) == Ok::<MountRow, ParseReason>(
                MountRow { id: id@, mount_point: mount_point@ },
            ),
            Err(reason) => row_of_match(found.deep_view()) == Err::<MountRow, ParseReason>(reason),
        },
{
    match found {
        None => Err(ParseReason::ShapeMismatch),
        Some(groups) => match entry_of_groups(groups) {
            None => Err(ParseReason::FieldAbsent),
            Some(entry) => Ok(entry),
        },
    }
}

/// Reads one line under a pattern whose third group is the device
/// identifier and whose fifth group is the mount point.
pub fn match_line(pattern: &str, line: &str) -> (entry: Result<(String, String), ParseReason>)
    ensures
        match entry {
            Ok((id, mount_point)) => row_under(pattern@, line@) == Ok::<MountRow, ParseReason>(
                MountRow { id: id@, mount_point: mount_point@ },
            ),
            Err(reason) => row_under(pattern@, line@) == Err::<MountRow, ParseReason>(reason),
        },
{
    match captures(pattern, line) {
        Err(_) => Err(ParseReason::PatternRejected),
        Ok(found) => entry_of_match(&found),
    }
}

/// Reads one line of the mount table.
pub fn parse_line(line: &String) -> (entry: Result<(String, String), ParseReason>)
    ensures
        match entry {
            Ok((id, mount_point)) => line_row(line@) == Ok::<MountRow, ParseReason>(
                MountRow { id: id@, mount_point: mount_point@ },
            ),
            Err(reason) => line_row(line@) == Err::<MountRow, ParseReason>(reason),
        },
{
    match_line(MOUNT_LINE_PATTERN, line.as_str())
}

/// The mount points that an index holds for `id`; none for an identifier
/// that the index does not know.
pub open spec fn lookup(index: Map<Seq<char>, Seq<Seq<char>>>, id: Seq<char>) -> Seq<Seq<char>> {
    if index.contains_key(id) {
        index[id]
    } else {
        Seq::empty()
    }
}

/// The mount points gathered under one device identifier.
#[derive(Debug)]
struct MountGroup {
    id: String,
    points: Vec<String>,
}

/// The mount table of the running kernel, indexed by device identifier.
///
/// Its view maps each identifier that the table carries to the mount points
/// of that device, in table order.
#[derive(Debug)]
pub struct MountInfo {
    groups: Vec<MountGroup>,
}

/// The mount points of the first group that is filed under `id`.
spec fn group_points(groups: Seq<MountGroup>, id: Seq<char>) -> Seq<Seq<char>>
    decreases groups.len(),
{
    if groups.len() == 0 {
        Seq::empty()
    } else if groups[0].id@ == id {
        groups[0].points.deep_view()
    } else {
        group_points(groups.drop_first(), id)
    }
}

/// The first group that is filed under `id` holds its mount points.
proof fn lemma_group_found(groups: Seq<MountGroup>, id: Seq<char>, at: int)
    requires
        0 <= at < groups.len(),
        groups[at].id@ == id,
        forall|j: int| 0 <= j < at ==> groups[j].id@ != id,
    ensures
        group_points(groups, id) == groups[at].points.deep_view(),
    decreases groups.len(),
{
    if at > 0 {
        lemma_group_found(groups.drop_first(), id, at - 1);
    }
}

/// An identifier under which no group is filed has no mount points.
proof fn lemma_group_absent(groups: Seq<MountGroup>, id: Seq<char>)
    requires
        forall|j: int| 0 <= j < groups.len() ==> groups[j].id@ != id,
    ensures
        group_points(groups, id) == Seq::<Seq<char>>::empty(),
    decreases groups.len(),
{
    if groups.len() > 0 {
        lemma_group_absent(groups.drop_first(), id);
    }
}

/// Replacing the first group of an identifier by another one under the
/// same identifier changes the mount points of that identifier alone.
proof fn lemma_group_replaced(groups: Seq<MountGroup>, at: int, group: MountGroup, id: Seq<char>)
    requires
        0 <= at < groups.len(),
        group.id@ == groups[at].id@,
        forall|j: int| 0 <= j < at ==> groups[j].id@ != group.id@,
    ensures
        group_points(groups.update(at, group), id) == if id == group.id@ {
            group.points.deep_view()
        } else {
            group_points(groups, id)
        },
    decreases groups.len(),
{
    if at > 0 {
        assert(groups.update(at, group).drop_first() =~= groups.drop_first().update(
            at - 1,
            group,
        ));
        lemma_group_replaced(groups.drop_first(), at - 1, group, id);
    } else {
        assert(groups.update(at, group).drop_first() =~= groups.drop_first());
    }
}

/// Filing a group under a new identifier changes the mount points of that
/// identifier alone.
proof fn lemma_group_added(groups: Seq<MountGroup>, group: MountGroup, id: Seq<char>)
    requires
        forall|j: int| 0 <= j < groups.len() ==> groups[j].id@ != group.id@,
    ensures
        group_points(groups.push(group), id) == if id == group.id@ {
            group.points.deep_view()
        } else {
            group_points(groups, id)
        },
    decreases groups.len(),
{
    if groups.len() > 0 {
        assert(groups.push(group).drop_first() =~= groups.drop_first().push(group));
        lemma_group_added(groups.drop_first(), group, id);
    } else {
        assert(groups.push(group).drop_first() =~= groups);
    }
}

/// Filing one more row extends the mount points of its identifier and
/// leaves every other identifier as it was.
pub proof fn lemma_index_of_push(rows: Seq<MountRow>, row: MountRow)
    ensures
        index_of(rows.push(row)) == index_of(rows).insert(
            row.id,
            lookup(index_of(rows), row.id).push(row.mount_point),
        ),
{
    assert(rows.push(row).drop_last() =~= rows);
    assert forall|id: Seq<char>| #[trigger]
        points_for(rows.push(row), id) == (if id == row.id {
            points_for(rows, id).push(row.mount_point)
        } else {
            points_for(rows, id)
        }) by {}
    assert(lookup(index_of(rows), row.id) =~= points_for(rows, row.id));
}

impl View for MountInfo {
    type V = Map<Seq<char>, Seq<Seq<char>>>;

    closed spec fn view(&self) -> Map<Seq<char>, Seq<Seq<char>>> {
        Map::new(
            |id: Seq<char>| group_points(self.groups@, id).len() > 0,
            |id: Seq<char>| group_points(self.groups@, id),
        )
    }
}

impl MountInfo {
    /// No identifier is filed twice, and each one that is filed has a mount
    /// point.
    #[verifier::type_invariant]
    spec fn well_formed(self) -> bool {
        &&& forall|i: int, j: int|
            0 <= i < j < self.groups.len() ==> self.groups[i].id@ != self.groups[j].id@
        &&& forall|i: int| 0 <= i < self.groups.len() ==> self.groups[i].points.len() > 0
    }

    /// An index without any mount.
    pub fn new() -> (info: MountInfo)
        ensures
            info@ == Map::<Seq<char>, Seq<Seq<char>>>::empty(),
    {
        MountInfo { groups: Vec::new() }
    }

    /// Files one more mount: `mount_point` comes after the mount points
    /// already known for `id`.
    pub fn record(&mut self, id: String, mount_point: String)
        ensures
            final(self)@ == old(self)@.insert(id@, lookup(old(self)@, id@).push(mount_point@)),
    {
        proof {
            use_type_invariant(&*self);
        }
        let mut groups: Vec<MountGroup> = Vec::new();
        std::mem::swap(&mut groups, &mut self.groups);
        let ghost before = groups@;
        let mut at: usize = 0;
        while at < groups.len() && groups[at].id != id
            invariant
                groups@ == before,
                at <= groups.len(),
                forall|j: int| 0 <= j < at ==> groups[j].id@ != id@,
            decreases groups.len() - at,
        {
            at = at + 1;
        }
        if at < groups.len() {
            let ghost known = groups[at as int].points.deep_view();
            groups[at].points.push(mount_point);
            proof {
                let group = groups[at as int];
                lemma_group_found(before, id@, at as int);
                assert forall|other: Seq<char>|
                    group_points(groups@, other) == (if other == id@ {
                        known.push(mount_point@)
                    } else {
                        group_points(before, other)
                    }) by {
                    lemma_group_replaced(before, at as int, group, other);
                }
            }
        } else {
            let mut points: Vec<String> = Vec::new();
            points.push(mount_point);
            let group = MountGroup { id, points };
            proof {
                lemma_group_absent(before, id@);
                assert forall|other: Seq<char>|
                    group_points(before.push(group), other) == (if other == id@ {
                        Seq::<Seq<char>>::empty().push(mount_point@)
                    } else {
                        group_points(before, other)
                    }) by {
                    lemma_group_added(before, group, other);
                }
            }
            groups.push(group);
        }
        self.groups = groups;
        assert(lookup(old(self)@, id@) =~= group_points(before, id@));
    }

    /// Builds the index from the lines of the mount table, in table order.
    ///
    /// Every line has to be accepted: the first refused line ends the
    /// parse and is reported with its index and the reason.
    pub fn parse(lines: &Vec<String>) -> (r: Result<MountInfo, ParseError>)
        ensures
            match r {
                Ok(info) => {
                    &&& forall|i: int| 0 <= i < lines.len() ==> line_row(lines[i]@) is Ok
                    &&& info@ == index_of(rows_of(lines.deep_view()))
                },
                Err(e) => {
                    &&& e.line < lines.len()
                    &&& line_row(lines[e.line as int]@) == Err::<MountRow, ParseReason>(e.reason)
                    &&& forall|i: int| 0 <= i < e.line ==> line_row(lines[i]@) is Ok
                },
            },
    {
        let mut info = MountInfo::new();
        let ghost rows = rows_of(lines.deep_view());
        let mut i: usize = 0;
        while i < lines.len()
            invariant
                i <= lines.len(),
                rows == rows_of(lines.deep_view()),
                forall|j: int| 0 <= j < i ==> line_row(lines[j]@) is Ok,
                info@ == index_of(rows.take(i as int)),
            decreases lines.len() - i,
        {
            match parse_line(&lines[i]) {
                Err(reason) => {
                    return Err(ParseError { line: i, reason });
                },
                Ok((id, mount_point)) => {
                    proof {
                        assert(rows.take(i + 1) =~= rows.take(i as int).push(rows[i as int]));
                        lemma_index_of_push(rows.take(i as int), rows[i as int]);
                    }
                    info.record(id, mount_point);
                },
            }
            i = i + 1;
        }
        assert(rows.take(lines.len() as int) =~= rows);
        Ok(info)
    }

    /// The mount points of the device `id`, in table order; none when the
    /// table does not carry `id`.
    pub fn get_mount_points_by_id(&self, id: &String) -> (points: Vec<String>)
        ensures
            points.deep_view() == lookup(self@, id@),
    {
        let mut at: usize = 0;
        while at < self.groups.len() && self.groups[at].id != *id
            invariant
                at <= self.groups.len(),
                forall|j: int| 0 <= j < at ==> self.groups[j].id@ != id@,
            decreases self.groups.len() - at,
        {
            at = at + 1;
        }
        if at < self.groups.len() {
            proof {
                lemma_group_found(self.groups@, id@, at as int);
            }
            copy_strings(&self.groups[at].points)
        } else {
            proof {
                lemma_group_absent(self.groups@, id@);
            }
            Vec::new()
        }
    }
}

/// Looking an identifier up in the index of a table yields exactly the
/// mount points of the rows that carry it, in table order, and nothing
/// for an identifier that no row carries.
pub proof fn lemma_lookup_follows_rows(rows: Seq<MountRow>, id: Seq<char>)
    ensures
        lookup(index_of(rows), id) == points_for(rows, id),
        points_for(rows, id) == rows.filter(|row: MountRow| row.id == id).map_values(
            |row: MountRow| row.mount_point,
        ),
        (forall|i: int| 0 <= i < rows.len() ==> rows[i].id != id) ==> lookup(index_of(rows), id)
            == Seq::<Seq<char>>::empty(),
    decreases rows.len(),
{
    reveal(Seq::filter);
    if rows.len() > 0 {
        lemma_lookup_follows_rows(rows.drop_last(), id);
    }
}

} // verus!
