//! Mounting a partition: on whose behalf, with which options, where, and
//! in which steps.
//!
//! The work on the filesystem and the mount itself are not done here. A
//! [`MountSession`] says what is to be done next; whoever drives it does
//! that and reports how it went.

use crate::device::{PartitionDevice, PartitionView};
use crate::paths::{
    as_directory,
    below,
    candidate,
    candidate_path,
    file_name,
    final_component,
    lemma_candidate_below,
    lemma_candidate_is_plain,
    marker_of,
    marker_path,
    path_below,
    plain_name,
    IDENTIFY_FILE,
};
use crate::text::{decimal, decimal_string, same_text};
use vstd::prelude::*;
use vstd::string::StringExecFns;

verus! {

/// On whose behalf a partition is mounted.
#[derive(Debug, PartialEq, Eq)]
pub struct Identity {
    /// The name of the user; it names the directory of their mounts.
    pub user: String,
    /// The user id that owns the files of a mount without owners of its own.
    pub uid: String,
    /// The group id that owns the files of a mount without owners of its own.
    pub gid: String,
}

/// The user on whose behalf the process acts: the invoking user where the
/// process was started on behalf of one, else the current user.
pub open spec fn acting_user(invoking: Option<Seq<char>>, current: Seq<char>) -> Seq<char> {
    match invoking {
        Some(user) => user,
        None => current,
    }
}

/// The id on whose behalf the process acts: the invoking id where the
/// process was started on behalf of one, else the effective id in decimal.
pub open spec fn acting_id(invoking: Option<Seq<char>>, effective: u32) -> Seq<char> {
    match invoking {
        Some(id) => id,
        None => decimal(effective as nat),
    }
}

/// The invoking id where it is known, else the effective one in decimal.
fn resolve_id(invoking: Option<String>, effective: u32) -> (id: String)
    ensures
        id@ == acting_id(invoking.deep_view(), effective),
{
    match invoking {
        Some(id) => id,
        None => decimal_string(effective as u64),
    }
}

impl Identity {
    /// Finds out on whose behalf the process acts. The invoking user, user
    /// id and group id are those of the user who asked for the privileges
    /// that the process has now; each of them counts where it is known.
    pub fn resolve(
        invoking_user: Option<String>,
        invoking_uid: Option<String>,
        invoking_gid: Option<String>,
        current_user: String,
        effective_uid: u32,
        effective_gid: u32,
    ) -> (identity: Identity)
        ensures
            identity.user@ == acting_user(invoking_user.deep_view(), current_user@),
            identity.uid@ == acting_id(invoking_uid.deep_view(), effective_uid),
            identity.gid@ == acting_id(invoking_gid.deep_view(), effective_gid),
    {
        let user = match invoking_user {
            Some(user) => user,
            None => current_user,
        };
        Identity {
            user,
            uid: resolve_id(invoking_uid, effective_uid),
            gid: resolve_id(invoking_gid, effective_gid),
        }
    }
}

/// Whether a filesystem keeps no owners of its own, so that a mount of it
/// has to name the owner of its files.
pub open spec fn needs_owner(filesystem: Seq<char>) -> bool {
    filesystem == "ntfs"@ || filesystem == "vfat"@ || filesystem == "exfat"@
}

/// The options that a mount gets when none are asked for: the owner for a
/// filesystem that needs one, else none.
pub open spec fn default_options(filesystem: Seq<char>, uid: Seq<char>, gid: Seq<char>) -> Seq<
    char,
> {
    if needs_owner(filesystem) {
        "uid="@ + uid + ",gid="@ + gid
    } else {
        Seq::empty()
    }
}

/// The options of a mount: those asked for, else the default ones.
pub open spec fn options_for(
    requested: Option<Seq<char>>,
    filesystem: Seq<char>,
    uid: Seq<char>,
    gid: Seq<char>,
) -> Seq<char> {
    match requested {
        Some(options) => options,
        None => default_options(filesystem, uid, gid),
    }
}

/// The options of a mount: those asked for, else the owner for a
/// filesystem that keeps none of its own, else none.
pub fn mount_options(requested: &Option<String>, filesystem: &String, identity: &Identity) -> (options:
    String)
    ensures
        options@ == options_for(requested.deep_view(), filesystem@, identity.uid@, identity.gid@),
{
    match requested {
        Some(options) => options.clone(),
        None => {
            let mut options = String::new();
            if same_text(filesystem, "ntfs") || same_text(filesystem, "vfat") || same_text(
                filesystem,
                "exfat",
            ) {
                options.append("uid=");
                options.append(identity.uid.as_str());
                options.append(",gid=");
                options.append(identity.gid.as_str());
            }
            options
        },
    }
}

/// The name of the directory at which a partition is mounted: its label,
/// else the final component of its device path.
pub open spec fn base_name(partition: PartitionView) -> Option<Seq<char>> {
    match partition.partition_label {
        Some(label) => Some(label),
        None => final_component(partition.dev_path),
    }
}

/// The directory that holds the mounts of a user: `<root>/<user>`.
pub open spec fn home_of(root: Seq<char>, user: Seq<char>) -> Seq<char> {
    below(root, user)
}

/// The first path that is tried for the mount of a partition:
/// `<root>/<user>/<base name>`.
pub open spec fn first_candidate(root: Seq<char>, user: Seq<char>, base: Seq<char>) -> Seq<char> {
    below(home_of(root, user), base)
}

/// Why a partition cannot be mounted or unmounted.
#[derive(Debug, PartialEq, Eq)]
pub enum MountError {
    /// The partition is mounted already; this is its first mount point.
    AlreadyMounted(String),
    /// The partition is not mounted anywhere.
    NotMounted,
    /// The partition has no label and its device path no final component.
    NoBaseName,
}

/// A [`MountError`] as a plain value.
pub enum MountErrorView {
    AlreadyMounted(Seq<char>),
    NotMounted,
    NoBaseName,
}

impl View for MountError {
    type V = MountErrorView;

    open spec fn view(&self) -> MountErrorView {
        match self {
            MountError::AlreadyMounted(at) => MountErrorView::AlreadyMounted(at@),
            MountError::NotMounted => MountErrorView::NotMounted,
            MountError::NoBaseName => MountErrorView::NoBaseName,
        }
    }
}

/// Why a mount that was begun came to nothing.
#[derive(Debug, Clone, Copy, PartialEq, Eq, Structural)]
pub enum MountFailure {
    /// Every candidate path is taken.
    NoFreePath,
    /// The mount directory could not be created.
    DirectoryNotCreated,
    /// The marker file could not be created.
    MarkerNotCreated,
    /// The mount itself failed.
    MountRefused,
}

/// Where a mount stands.
#[derive(Debug, Clone, Copy, PartialEq, Eq, Structural)]
pub enum MountPhase {
    /// It is being found out whether the candidate of this attempt exists.
    Probing(u64),
    /// The mount directory is being created.
    CreatingDirectory,
    /// The marker file is being created.
    CreatingMarker,
    /// The partition is being mounted.
    Mounting,
    /// Nothing is left to do.
    Finished,
}

/// What is to be done next for a mount.
#[derive(Debug, PartialEq, Eq)]
pub enum MountAction {
    /// Find out whether anything exists at this path.
    Probe(String),
    /// Create this directory and the directories above it that are missing.
    CreateDirectory(String),
    /// Create this empty file.
    CreateMarker(String),
    /// Mount `source` at `target` with `options`.
    Mount { source: String, target: String, options: String },
    /// The partition is mounted at this path; the mount is over.
    Mounted(String),
    /// The mount is given up.
    Abandon(MountFailure),
    /// The mount was over before.
    Nothing,
}

/// A [`MountAction`] as a plain value.
pub enum MountActionView {
    Probe(Seq<char>),
    CreateDirectory(Seq<char>),
    CreateMarker(Seq<char>),
    Mount { source: Seq<char>, target: Seq<char>, options: Seq<char> },
    Mounted(Seq<char>),
    Abandon(MountFailure),
    Nothing,
}

impl View for MountAction {
    type V = MountActionView;

    open spec fn view(&self) -> MountActionView {
        match self {
            MountAction::Probe(path) => MountActionView::Probe(path@),
            MountAction::CreateDirectory(path) => MountActionView::CreateDirectory(path@),
            MountAction::CreateMarker(path) => MountActionView::CreateMarker(path@),
            MountAction::Mount { source, target, options } => MountActionView::Mount {
                source: source@,
                target: target@,
                options: options@,
            },
            MountAction::Mounted(path) => MountActionView::Mounted(path@),
            MountAction::Abandon(failure) => MountActionView::Abandon(*failure),
            MountAction::Nothing => MountActionView::Nothing,
        }
    }
}

/// A [`MountSession`] as a plain value.
pub struct MountSessionView {
    pub source: Seq<char>,
    pub options: Seq<char>,
    pub first: Seq<char>,
    pub target: Seq<char>,
    pub phase: MountPhase,
}

/// The mount of one partition, from the choice of its directory to the
/// mount itself.
#[derive(Debug, PartialEq, Eq)]
pub struct MountSession {
    /// The device path of the partition.
    pub source: String,
    /// The mount options.
    pub options: String,
    /// The first candidate for the mount directory.
    pub first: String,
    /// The mount directory, once it is chosen.
    pub target: String,
    /// Where the mount stands.
    pub phase: MountPhase,
}

impl View for MountSession {
    type V = MountSessionView;

    open spec fn view(&self) -> MountSessionView {
        MountSessionView {
            source: self.source@,
            options: self.options@,
            first: self.first@,
            target: self.target@,
            phase: self.phase,
        }
    }
}

/// How a mount begins.
///
/// A partition that is mounted already is refused, with its first mount
/// point. With a mount path the partition is mounted there at once.
/// Without one, the mount directory is looked for among the candidates
/// that begin with `<root>/<user>/<base name>`, whatever the base name and
/// the name of the user are; that very path is probed first. Only a
/// partition without any base name has no candidate.
pub open spec fn mount_start(
    partition: PartitionView,
    mount_path: Option<Seq<char>>,
    mount_option: Option<Seq<char>>,
    auto_mount_dir: Seq<char>,
    user: Seq<char>,
    uid: Seq<char>,
    gid: Seq<char>,
) -> Result<(MountSessionView, MountActionView), MountErrorView> {
    let source = partition.dev_path;
    let options = options_for(mount_option, partition.partition_filesystem, uid, gid);
    if partition.mounted_points.len() > 0 {
        Err(MountErrorView::AlreadyMounted(partition.mounted_points[0]))
    } else {
        match mount_path {
            Some(target) => Ok(
                (
                    MountSessionView {
                        source,
                        options,
                        first: target,
                        target,
                        phase: MountPhase::Mounting,
                    },
                    MountActionView::Mount { source, target, options },
                ),
            ),
            None => match base_name(partition) {
                None => Err(MountErrorView::NoBaseName),
                Some(base) => {
                    let first = first_candidate(auto_mount_dir, user, base);
                    Ok(
                        (
                            MountSessionView {
                                source,
                                options,
                                first,
                                target: first,
                                phase: MountPhase::Probing(0),
                            },
                            MountActionView::Probe(first),
                        ),
                    )
                },
            },
        }
    }
}

/// How a mount goes on once the last action is reported: `positive` says
/// that the probed path exists, or that the action succeeded.
///
/// A candidate that exists makes way for the next one; the first that does
/// not exist becomes the mount directory. It is created, then marked, then
/// the partition is mounted at it. The first action that fails ends the
/// mount, and so does its success.
pub open spec fn mount_step(session: MountSessionView, positive: bool) -> (
    MountSessionView,
    MountActionView,
) {
    let over = MountSessionView { phase: MountPhase::Finished, ..session };
    match session.phase {
        MountPhase::Probing(attempt) => if !positive {
            let target = candidate(session.first, attempt as nat);
            (
                MountSessionView { target, phase: MountPhase::CreatingDirectory, ..session },
                MountActionView::CreateDirectory(target),
            )
        } else if attempt == u64::MAX {
            (over, MountActionView::Abandon(MountFailure::NoFreePath))
        } else {
            (
                MountSessionView { phase: MountPhase::Probing((attempt + 1) as u64), ..session },
                MountActionView::Probe(candidate(session.first, (attempt + 1) as nat)),
            )
        },
        MountPhase::CreatingDirectory => if positive {
            (
                MountSessionView { phase: MountPhase::CreatingMarker, ..session },
                MountActionView::CreateMarker(marker_of(session.target)),
            )
        } else {
            (over, MountActionView::Abandon(MountFailure::DirectoryNotCreated))
        },
        MountPhase::CreatingMarker => if positive {
            (
                MountSessionView { phase: MountPhase::Mounting, ..session },
                MountActionView::Mount {
                    source: session.source,
                    target: session.target,
                    options: session.options,
                },
            )
        } else {
            (over, MountActionView::Abandon(MountFailure::MarkerNotCreated))
        },
        MountPhase::Mounting => if positive {
            (over, MountActionView::Mounted(session.target))
        } else {
            (over, MountActionView::Abandon(MountFailure::MountRefused))
        },
        MountPhase::Finished => (session, MountActionView::Nothing),
    }
}

/// The name of the directory at which a partition is mounted.
pub fn mount_base_name(device: &PartitionDevice) -> (name: Option<String>)
    ensures
        name.deep_view() == base_name(device@),
{
    match &device.partition_label {
        Some(label) => Some(label.clone()),
        None => file_name(device.dev_path.as_str()),
    }
}

impl MountSession {
    /// Begins the mount of a partition and says what is to be done first.
    ///
    /// A partition that is mounted already is refused before anything is
    /// done: the error holds its first mount point and there is no action.
    /// Without a mount path the search for the mount directory begins, for
    /// every base name and every user, at `<root>/<user>/<base name>`.
    pub fn begin(
        device: &PartitionDevice,
        mount_path: &Option<String>,
        mount_option: &Option<String>,
        auto_mount_dir: &str,
        identity: &Identity,
    ) -> (r: Result<(MountSession, MountAction), MountError>)
        ensures
            device.mounted_points.len() > 0 <==> (r matches Err(MountError::AlreadyMounted(at))
                && at@ == device.mounted_points[0]@),
            match r {
                Ok((session, action)) => mount_start(
                    device@,
                    mount_path.deep_view(),
                    mount_option.deep_view(),
                    auto_mount_dir@,
                    identity.user@,
                    identity.uid@,
                    identity.gid@,
                ) == Ok::<(MountSessionView, MountActionView), MountErrorView>(
                    (session@, action@),
                ),
                Err(e) => mount_start(
                    device@,
                    mount_path.deep_view(),
                    mount_option.deep_view(),
                    auto_mount_dir@,
                    identity.user@,
                    identity.uid@,
                    identity.gid@,
                ) == Err::<(MountSessionView, MountActionView), MountErrorView>(e@),
            },
    {
        if device.mounted_points.len() > 0 {
            return Err(MountError::AlreadyMounted(device.mounted_points[0].clone()));
        }
        let options = mount_options(mount_option, &device.partition_filesystem, identity);
        match mount_path {
            Some(target) => {
                let action = MountAction::Mount {
                    source: device.dev_path.clone(),
                    target: target.clone(),
                    options: options.clone(),
                };
                let session = MountSession {
                    source: device.dev_path.clone(),
                    options,
                    first: target.clone(),
                    target: target.clone(),
                    phase: MountPhase::Mounting,
                };
                Ok((session, action))
            },
            None => match mount_base_name(device) {
                None => Err(MountError::NoBaseName),
                Some(base) => {
                    let home = path_below(auto_mount_dir, identity.user.as_str());
                    let first = path_below(home.as_str(), base.as_str());
                    let session = MountSession {
                        source: device.dev_path.clone(),
                        options,
                        first: first.clone(),
                        target: first.clone(),
                        phase: MountPhase::Probing(0),
                    };
                    Ok((session, MountAction::Probe(first)))
                },
            },
        }
    }

    /// Takes the report on the last action and says what is to be done
    /// next: `positive` says that the probed path exists, or that the
    /// action succeeded.
    pub fn step(&mut self, positive: bool) -> (action: MountAction)
        ensures
            (final(self)@, action@) == mount_step(old(self)@, positive),
    {
        match self.phase {
            MountPhase::Probing(attempt) => {
                if !positive {
                    let target = candidate_path(&self.first, attempt);
                    self.target = target.clone();
                    self.phase = MountPhase::CreatingDirectory;
                    MountAction::CreateDirectory(target)
                } else if attempt == u64::MAX {
                    self.phase = MountPhase::Finished;
                    MountAction::Abandon(MountFailure::NoFreePath)
                } else {
                    self.phase = MountPhase::Probing(attempt + 1);
                    MountAction::Probe(candidate_path(&self.first, attempt + 1))
                }
            },
            MountPhase::CreatingDirectory => {
                if positive {
                    self.phase = MountPhase::CreatingMarker;
                    MountAction::CreateMarker(marker_path(self.target.as_str()))
                } else {
                    self.phase = MountPhase::Finished;
                    MountAction::Abandon(MountFailure::DirectoryNotCreated)
                }
            },
            MountPhase::CreatingMarker => {
                if positive {
                    self.phase = MountPhase::Mounting;
                    MountAction::Mount {
                        source: self.source.clone(),
                        target: self.target.clone(),
                        options: self.options.clone(),
                    }
                } else {
                    self.phase = MountPhase::Finished;
                    MountAction::Abandon(MountFailure::MarkerNotCreated)
                }
            },
            MountPhase::Mounting => {
                self.phase = MountPhase::Finished;
                if positive {
                    MountAction::Mounted(self.target.clone())
                } else {
                    MountAction::Abandon(MountFailure::MountRefused)
                }
            },
            MountPhase::Finished => MountAction::Nothing,
        }
    }
}

/// Where the search for a mount directory ends when the paths of `taken`
/// exist and no others: the session is stepped with what each probe finds
/// until it probes no more.
pub open spec fn search(session: MountSessionView, taken: Set<Seq<char>>) -> (
    MountSessionView,
    MountActionView,
)
    decreases
        (if session.phase is Probing {
            u64::MAX - session.phase->Probing_0 + 1
        } else {
            0
        }),
{
    match session.phase {
        MountPhase::Probing(attempt) => {
            let next = mount_step(session, taken.contains(candidate(session.first, attempt as nat)));
            if next.0.phase is Probing {
                search(next.0, taken)
            } else {
                next
            }
        },
        _ => (session, MountActionView::Nothing),
    }
}

/// The search for a mount directory takes the first candidate that does
/// not exist: the first path itself, else the first of `-0`, `-1` and so
/// on. That directory is then to be created.
pub proof fn lemma_search_takes_first_free(
    session: MountSessionView,
    taken: Set<Seq<char>>,
    free: nat,
)
    requires
        session.phase is Probing,
        session.phase->Probing_0 <= free <= u64::MAX,
        forall|attempt: nat|
            session.phase->Probing_0 <= attempt < free ==> taken.contains(
                #[trigger] candidate(session.first, attempt),
            ),
        !taken.contains(candidate(session.first, free)),
    ensures
        search(session, taken).1 == MountActionView::CreateDirectory(
            candidate(session.first, free),
        ),
        search(session, taken).0 == (MountSessionView {
            target: candidate(session.first, free),
            phase: MountPhase::CreatingDirectory,
            ..session
        }),
    decreases free - session.phase->Probing_0,
{
    let attempt = session.phase->Probing_0;
    if attempt < free {
        let next = mount_step(session, true).0;
        lemma_search_takes_first_free(next, taken, free);
    }
}

/// Every partition that is not mounted and has a base name gets a mount
/// directory: the first candidate that does not exist, beginning with
/// `<root>/<user>/<base name>` itself, then `-0`, `-1` and so on; that
/// directory is to be created, and none that exists is taken.
pub proof fn lemma_mount_allocates_first_free(
    partition: PartitionView,
    mount_option: Option<Seq<char>>,
    auto_mount_dir: Seq<char>,
    user: Seq<char>,
    uid: Seq<char>,
    gid: Seq<char>,
    taken: Set<Seq<char>>,
    free: nat,
)
    requires
        partition.mounted_points.len() == 0,
        base_name(partition) is Some,
        free <= u64::MAX,
        forall|attempt: nat|
            attempt < free ==> taken.contains(
                #[trigger] candidate(
                    first_candidate(auto_mount_dir, user, base_name(partition)->0),
                    attempt,
                ),
            ),
        !taken.contains(
            candidate(first_candidate(auto_mount_dir, user, base_name(partition)->0), free),
        ),
    ensures
        mount_start(partition, None, mount_option, auto_mount_dir, user, uid, gid) matches Ok(
            (session, action),
        ) && {
            let first = first_candidate(auto_mount_dir, user, base_name(partition)->0);
            &&& session.first == first
            &&& session.phase == MountPhase::Probing(0)
            &&& action == MountActionView::Probe(first)
            &&& search(session, taken).1 == MountActionView::CreateDirectory(candidate(first, free))
            &&& search(session, taken).0.target == candidate(first, free)
            &&& !taken.contains(candidate(first, free))
        },
{
    let begun = mount_start(partition, None, mount_option, auto_mount_dir, user, uid, gid)->Ok_0;
    lemma_search_takes_first_free(begun.0, taken, free);
}

/// Every candidate for a mount directory begins with `<root>/<user>/`,
/// whatever the base name and the name of the user are: nothing in a name
/// takes the place of the root or of the directory of the user. The marker
/// of a candidate begins with the candidate.
pub proof fn lemma_candidates_begin_with_home(
    auto_mount_dir: Seq<char>,
    user: Seq<char>,
    base: Seq<char>,
    attempt: nat,
)
    ensures
        home_of(auto_mount_dir, user) == as_directory(auto_mount_dir) + user,
        candidate(first_candidate(auto_mount_dir, user, base), attempt) == as_directory(
            home_of(auto_mount_dir, user),
        ) + candidate(base, attempt),
        marker_of(candidate(first_candidate(auto_mount_dir, user, base), attempt)) == as_directory(
            candidate(first_candidate(auto_mount_dir, user, base), attempt),
        ) + IDENTIFY_FILE@,
{
    lemma_candidate_below(home_of(auto_mount_dir, user), base, attempt);
}

/// Where the base name and the name of the user are plain names, every
/// candidate lies right in the directory of the user: it is `<root>/<user>`,
/// a `/`, and a plain name, which is the base name or the base name with
/// its suffix; and the marker lies right inside the candidate.
pub proof fn lemma_plain_names_stay_in_home(
    auto_mount_dir: Seq<char>,
    user: Seq<char>,
    base: Seq<char>,
    attempt: nat,
)
    requires
        plain_name(user),
        plain_name(base),
    ensures
        plain_name(candidate(base, attempt)),
        candidate(first_candidate(auto_mount_dir, user, base), attempt) == home_of(
            auto_mount_dir,
            user,
        ) + seq!['/'] + candidate(base, attempt),
        marker_of(candidate(first_candidate(auto_mount_dir, user, base), attempt)) == candidate(
            first_candidate(auto_mount_dir, user, base),
            attempt,
        ) + seq!['/'] + IDENTIFY_FILE@,
{
    lemma_candidate_is_plain(base, attempt);
    lemma_candidate_below(home_of(auto_mount_dir, user), base, attempt);
}

} // verus!
