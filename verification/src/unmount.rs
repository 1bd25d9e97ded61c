//! Unmounting a partition from every one of its mount points, and clearing
//! away the mount directories that were made for it.
//!
//! The unmount itself and the work on the filesystem are not done here. An
//! [`UnmountSession`] says what is to be done next; whoever drives it does
//! that and reports how it went.

use crate::device::{PartitionDevice, PartitionView};
use crate::mount::{MountError, MountErrorView};
use crate::paths::{marker_of, marker_path};
use crate::text::copy_strings;
use vstd::prelude::*;

verus! {

/// What became of one mount point.
#[derive(Debug, Clone, Copy, PartialEq, Eq, Structural)]
pub enum PointOutcome {
    /// The unmount failed; the mount point is as it was.
    UnmountFailed,
    /// Unmounted; the directory bears no marker and is left alone.
    Left,
    /// Unmounted; the marker and the directory are removed.
    Removed,
    /// Unmounted, but the marker or the directory could not be removed.
    CleanupFailed,
}

/// Where an unmount stands; the number is the position of the mount point
/// that is being dealt with.
#[derive(Debug, Clone, Copy, PartialEq, Eq, Structural)]
pub enum UnmountPhase {
    /// The mount point is being unmounted.
    Unmounting(usize),
    /// It is being found out whether the directory bears the marker.
    ProbingMarker(usize),
    /// The marker is being removed.
    RemovingMarker(usize),
    /// The directory is being removed.
    RemovingDirectory(usize),
    /// Nothing is left to do.
    Finished,
}

/// What is to be done next for an unmount.
#[derive(Debug, PartialEq, Eq)]
pub enum UnmountAction {
    /// Unmount what is mounted at this path.
    Unmount(String),
    /// Find out whether this marker file exists.
    ProbeMarker(String),
    /// Remove this marker file.
    RemoveMarker(String),
    /// Remove this empty directory.
    RemoveDirectory(String),
    /// The unmount is over.
    Finished,
}

/// An [`UnmountAction`] as a plain value.
pub enum UnmountActionView {
    Unmount(Seq<char>),
    ProbeMarker(Seq<char>),
    RemoveMarker(Seq<char>),
    RemoveDirectory(Seq<char>),
    Finished,
}

impl View for UnmountAction {
    type V = UnmountActionView;

    open spec fn view(&self) -> UnmountActionView {
        match self {
            UnmountAction::Unmount(path) => UnmountActionView::Unmount(path@),
            UnmountAction::ProbeMarker(path) => UnmountActionView::ProbeMarker(path@),
            UnmountAction::RemoveMarker(path) => UnmountActionView::RemoveMarker(path@),
            UnmountAction::RemoveDirectory(path) => UnmountActionView::RemoveDirectory(path@),
            UnmountAction::Finished => UnmountActionView::Finished,
        }
    }
}

/// An [`UnmountSession`] as a plain value.
pub struct UnmountSessionView {
    pub mount_points: Seq<Seq<char>>,
    pub outcomes: Seq<PointOutcome>,
    pub phase: UnmountPhase,
}

/// The unmount of one partition from all its mount points.
#[derive(Debug, PartialEq, Eq)]
pub struct UnmountSession {
    /// The mount points of the partition, in mount-table order.
    pub mount_points: Vec<String>,
    /// What became of the mount points that are dealt with, in their order.
    pub outcomes: Vec<PointOutcome>,
    /// Where the unmount stands.
    pub phase: UnmountPhase,
}

impl View for UnmountSession {
    type V = UnmountSessionView;

    open spec fn view(&self) -> UnmountSessionView {
        UnmountSessionView {
            mount_points: self.mount_points.deep_view(),
            outcomes: self.outcomes@,
            phase: self.phase,
        }
    }
}

/// The mount point that a phase deals with, if it deals with one.
pub open spec fn current(phase: UnmountPhase) -> Option<usize> {
    match phase {
        UnmountPhase::Unmounting(at) => Some(at),
        UnmountPhase::ProbingMarker(at) => Some(at),
        UnmountPhase::RemovingMarker(at) => Some(at),
        UnmountPhase::RemovingDirectory(at) => Some(at),
        UnmountPhase::Finished => None,
    }
}

/// Whether a session is sound: it has no more mount points than can be
/// counted, and it deals with one of them and knows what became of each
/// one before it, or it is over and knows what became of every mount
/// point, unless a removal failed and ended it early.
pub open spec fn sound(session: UnmountSessionView) -> bool {
    &&& session.mount_points.len() <= usize::MAX
    &&& match current(session.phase) {
        Some(at) => at < session.mount_points.len() && session.outcomes.len() == at,
        None => {
            ||| session.outcomes.len() == session.mount_points.len()
            ||| 0 < session.outcomes.len() <= session.mount_points.len()
                && session.outcomes.last() == PointOutcome::CleanupFailed
        },
    }
}

/// How an unmount begins: a partition that is mounted nowhere is refused;
/// otherwise its first mount point is to be unmounted.
pub open spec fn unmount_start(partition: PartitionView) -> Result<
    (UnmountSessionView, UnmountActionView),
    MountErrorView,
> {
    if partition.mounted_points.len() == 0 {
        Err(MountErrorView::NotMounted)
    } else {
        Ok(
            (
                UnmountSessionView {
                    mount_points: partition.mounted_points,
                    outcomes: Seq::empty(),
                    phase: UnmountPhase::Unmounting(0),
                },
                UnmountActionView::Unmount(partition.mounted_points[0]),
            ),
        )
    }
}

/// The unmount goes on with the next mount point once it is known what
/// became of the one at `at`; after the last one it is over.
pub open spec fn settle(session: UnmountSessionView, at: usize, outcome: PointOutcome) -> (
    UnmountSessionView,
    UnmountActionView,
) {
    let outcomes = session.outcomes.push(outcome);
    if at + 1 < session.mount_points.len() {
        (
            UnmountSessionView {
                outcomes,
                phase: UnmountPhase::Unmounting((at + 1) as usize),
                ..session
            },
            UnmountActionView::Unmount(session.mount_points[at + 1]),
        )
    } else {
        (
            UnmountSessionView { outcomes, phase: UnmountPhase::Finished, ..session },
            UnmountActionView::Finished,
        )
    }
}

/// The unmount ends at once with the given outcome for the mount point
/// that is being dealt with.
pub open spec fn give_up(session: UnmountSessionView, outcome: PointOutcome) -> (
    UnmountSessionView,
    UnmountActionView,
) {
    (
        UnmountSessionView {
            outcomes: session.outcomes.push(outcome),
            phase: UnmountPhase::Finished,
            ..session
        },
        UnmountActionView::Finished,
    )
}

/// How an unmount goes on once the last action is reported: `positive`
/// says that the action succeeded, or that the marker exists.
///
/// A mount point whose unmount fails is given up and the next one is
/// turned to. After an unmount that succeeded the directory is looked at:
/// without the marker it is left alone; with it, the marker is removed and
/// then the directory. A removal that fails ends the whole unmount.
pub open spec fn unmount_step(session: UnmountSessionView, positive: bool) -> (
    UnmountSessionView,
    UnmountActionView,
) {
    match current(session.phase) {
        Some(at) => if at >= session.mount_points.len() {
            (
                UnmountSessionView { phase: UnmountPhase::Finished, ..session },
                UnmountActionView::Finished,
            )
        } else {
            let point = session.mount_points[at as int];
            match session.phase {
                UnmountPhase::Unmounting(_) => if positive {
                    (
                        UnmountSessionView { phase: UnmountPhase::ProbingMarker(at), ..session },
                        UnmountActionView::ProbeMarker(marker_of(point)),
                    )
                } else {
                    settle(session, at, PointOutcome::UnmountFailed)
                },
                UnmountPhase::ProbingMarker(_) => if positive {
                    (
                        UnmountSessionView { phase: UnmountPhase::RemovingMarker(at), ..session },
                        UnmountActionView::RemoveMarker(marker_of(point)),
                    )
                } else {
                    settle(session, at, PointOutcome::Left)
                },
                UnmountPhase::RemovingMarker(_) => if positive {
                    (
                        UnmountSessionView {
                            phase: UnmountPhase::RemovingDirectory(at),
                            ..session
                        },
                        UnmountActionView::RemoveDirectory(point),
                    )
                } else {
                    give_up(session, PointOutcome::CleanupFailed)
                },
                _ => if positive {
                    settle(session, at, PointOutcome::Removed)
                } else {
                    give_up(session, PointOutcome::CleanupFailed)
                },
            }
        },
        None => (session, UnmountActionView::Finished),
    }
}

impl UnmountSession {
    /// Begins the unmount of a partition and says what is to be done
    /// first. A partition that is mounted nowhere is refused.
    pub fn begin(device: &PartitionDevice) -> (r: Result<
        (UnmountSession, UnmountAction),
        MountError,
    >)
        ensures
            device.mounted_points.len() == 0 <==> r is Err,
            match r {
                Ok((session, action)) => sound(session@) && unmount_start(device@) == Ok::<
                    (UnmountSessionView, UnmountActionView),
                    MountErrorView,
                >((session@, action@)),
                Err(e) => unmount_start(device@) == Err::<
                    (UnmountSessionView, UnmountActionView),
                    MountErrorView,
                >(e@),
            },
    {
        if device.mounted_points.len() == 0 {
            return Err(MountError::NotMounted);
        }
        let session = UnmountSession {
            mount_points: copy_strings(&device.mounted_points),
            outcomes: Vec::new(),
            phase: UnmountPhase::Unmounting(0),
        };
        Ok((session, UnmountAction::Unmount(device.mounted_points[0].clone())))
    }

    /// Notes what became of the mount point at `at` and turns to the next.
    fn settle(&mut self, at: usize, outcome: PointOutcome) -> (action: UnmountAction)
        requires
            at < old(self).mount_points.len(),
        ensures
            (final(self)@, action@) == settle(old(self)@, at, outcome),
    {
        self.outcomes.push(outcome);
        if at + 1 < self.mount_points.len() {
            self.phase = UnmountPhase::Unmounting(at + 1);
            UnmountAction::Unmount(self.mount_points[at + 1].clone())
        } else {
            self.phase = UnmountPhase::Finished;
            UnmountAction::Finished
        }
    }

    /// Notes what became of the current mount point and ends the unmount.
    fn give_up(&mut self, outcome: PointOutcome) -> (action: UnmountAction)
        ensures
            (final(self)@, action@) == give_up(old(self)@, outcome),
    {
        self.outcomes.push(outcome);
        self.phase = UnmountPhase::Finished;
        UnmountAction::Finished
    }

    /// Takes the report on the last action and says what is to be done
    /// next: `positive` says that the action succeeded, or that the marker
    /// exists. A sound session stays sound.
    pub fn step(&mut self, positive: bool) -> (action: UnmountAction)
        ensures
            (final(self)@, action@) == unmount_step(old(self)@, positive),
            sound(old(self)@) ==> sound(final(self)@),
    {
        let at = match self.phase {
            UnmountPhase::Unmounting(at) => at,
            UnmountPhase::ProbingMarker(at) => at,
            UnmountPhase::RemovingMarker(at) => at,
            UnmountPhase::RemovingDirectory(at) => at,
            UnmountPhase::Finished => {
                return UnmountAction::Finished;
            },
        };
        if at >= self.mount_points.len() {
            self.phase = UnmountPhase::Finished;
            return UnmountAction::Finished;
        }
        match self.phase {
            UnmountPhase::Unmounting(_) => {
                if positive {
                    self.phase = UnmountPhase::ProbingMarker(at);
                    UnmountAction::ProbeMarker(marker_path(self.mount_points[at].as_str()))
                } else {
                    self.settle(at, PointOutcome::UnmountFailed)
                }
            },
            UnmountPhase::ProbingMarker(_) => {
                if positive {
                    self.phase = UnmountPhase::RemovingMarker(at);
                    UnmountAction::RemoveMarker(marker_path(self.mount_points[at].as_str()))
                } else {
                    self.settle(at, PointOutcome::Left)
                }
            },
            UnmountPhase::RemovingMarker(_) => {
                if positive {
                    self.phase = UnmountPhase::RemovingDirectory(at);
                    UnmountAction::RemoveDirectory(self.mount_points[at].clone())
                } else {
                    self.give_up(PointOutcome::CleanupFailed)
                }
            },
            _ => {
                if positive {
                    self.settle(at, PointOutcome::Removed)
                } else {
                    self.give_up(PointOutcome::CleanupFailed)
                }
            },
        }
    }
}

/// The steps of an unmount, one report after the other.
pub open spec fn unmount_run(session: UnmountSessionView, reports: Seq<bool>) -> UnmountSessionView
    decreases reports.len(),
{
    if reports.len() == 0 {
        session
    } else {
        unmount_step(unmount_run(session, reports.drop_last()), reports.last()).0
    }
}

/// The action that the last of some reports leads to.
pub open spec fn unmount_reply(session: UnmountSessionView, reports: Seq<bool>) -> UnmountActionView
    recommends
        reports.len() > 0,
{
    unmount_step(unmount_run(session, reports.drop_last()), reports.last()).1
}

/// One step of a sound session leaves it sound.
pub proof fn lemma_step_stays_sound(session: UnmountSessionView, positive: bool)
    requires
        sound(session),
    ensures
        sound(unmount_step(session, positive).0),
{
}

/// A sound session stays sound whatever is reported: no mount point is
/// passed over, and the unmount ends only after the last mount point or
/// upon a removal that failed.
pub proof fn lemma_unmount_stays_sound(session: UnmountSessionView, reports: Seq<bool>)
    requires
        sound(session),
    ensures
        sound(unmount_run(session, reports)),
    decreases reports.len(),
{
    if reports.len() > 0 {
        lemma_unmount_stays_sound(session, reports.drop_last());
        lemma_step_stays_sound(unmount_run(session, reports.drop_last()), reports.last());
    }
}

/// A mount point that cannot be unmounted does not stop the unmount of the
/// next one. With two mount points of which the first fails and the
/// second succeeds, the second is unmounted right after the first has
/// failed; its directory is removed exactly when it bears the marker; the
/// directory of the first is not touched; and the outcomes are one failure
/// and one success, in this order.
pub proof fn lemma_failure_does_not_stop_unmount(
    partition: PartitionView,
    first: Seq<char>,
    second: Seq<char>,
    marked: bool,
)
    requires
        partition.mounted_points == seq![first, second],
    ensures
        unmount_start(partition) matches Ok((session, action)) && {
            &&& action == UnmountActionView::Unmount(first)
            &&& unmount_reply(session, seq![false]) == UnmountActionView::Unmount(second)
            &&& unmount_reply(session, seq![false, true]) == UnmountActionView::ProbeMarker(
                marker_of(second),
            )
            &&& marked ==> {
                &&& unmount_reply(session, seq![false, true, true])
                    == UnmountActionView::RemoveMarker(marker_of(second))
                &&& unmount_reply(session, seq![false, true, true, true])
                    == UnmountActionView::RemoveDirectory(second)
                &&& unmount_reply(session, seq![false, true, true, true, true])
                    == UnmountActionView::Finished
                &&& unmount_run(session, seq![false, true, true, true, true]).outcomes
                    == seq![PointOutcome::UnmountFailed, PointOutcome::Removed]
            }
            &&& !marked ==> {
                &&& unmount_reply(session, seq![false, true, false]) == UnmountActionView::Finished
                &&& unmount_run(session, seq![false, true, false]).outcomes
                    == seq![PointOutcome::UnmountFailed, PointOutcome::Left]
            }
        },
{
    let begun = seq![false, true];
    assert(begun.drop_last() =~= seq![false]);
    if marked {
        let probed = seq![false, true, true];
        let unmarked = seq![false, true, true, true];
        let removed = seq![false, true, true, true, true];
        assert(probed.drop_last() =~= begun);
        assert(unmarked.drop_last() =~= probed);
        assert(removed.drop_last() =~= unmarked);
    } else {
        let probed = seq![false, true, false];
        assert(probed.drop_last() =~= begun);
    }
}

} // verus!
