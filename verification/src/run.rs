//! The orchestrator: an event-driven machine that decides the whole
//! maintenance run.
//!
//! The machine owns every decision — which directory to list, which box to
//! skip, which bring-up, remote and restore commands to issue, and how each
//! failure is treated. The driver around it only performs the announced
//! `Action` as a subprocess and reports the outcome as an `Event`; it makes
//! no decision of its own.

use vstd::prelude::*;

use crate::command::box_prefix;
use crate::command::build_remote_command;
use crate::command::spec_box_prefix;
use crate::command::spec_dir_component;
use crate::command::spec_remote_command;
use crate::guard::BringUp;
use crate::guard::Restore;
use crate::guard::TemporaryPowerOn;
use crate::guard::spec_bring_up;
use crate::guard::spec_restore;
use crate::parser::ParseError;
use crate::parser::VagrantBox;
use crate::parser::lines_view;
use crate::parser::parse_status_output;
use crate::parser::records_view;
use crate::parser::spec_parse_status;
use crate::status::BoxStatus;

verus! {

/// What the driver is asked to do next. Every subprocess of the run is
/// announced as one action; the driver performs it and reports the outcome
/// as an `Event`.
pub enum Action {
    /// Run the tool's `status` subcommand in the directory at this index of
    /// the configured list, and hand back the captured output.
    RunStatus { directory_index: usize },
    /// Run the bring-up subcommand for this box, in its directory.
    RunBringUp { directory_index: usize, box_name: Vec<u8>, subcommand: BringUp },
    /// Run the remote maintenance command inside this box: the tool's `ssh`
    /// subcommand with `-c` and this command string.
    RunRemote { directory_index: usize, box_name: Vec<u8>, command: Vec<u8> },
    /// Run the restore subcommand for this box, in its directory. Its
    /// failure is swallowed: the next event decides nothing about it.
    RunRestore { directory_index: usize, box_name: Vec<u8>, subcommand: Restore },
    /// The run is over.
    Done { result: Result<(), RunError> },
}

/// The outcome of the last action, reported by the driver.
pub enum Event {
    /// The status command succeeded; this is its captured output.
    Output { text: Vec<u8> },
    /// The command ran and exited successfully.
    Succeeded,
    /// The command could not be spawned, or exited with failure.
    Failed,
}

/// Why a run ended early.
#[derive(Debug, Clone)]
pub enum RunError {
    /// No directory list was configured.
    NoDirectories,
    /// The status command failed in the directory at this index.
    StatusFailed { directory_index: usize },
    /// The status output of this directory could not be parsed.
    Parse { directory_index: usize, error: ParseError },
    /// A bring-up command failed; nothing was started for its box.
    BringUpFailed { directory_index: usize, box_name: Vec<u8> },
    /// The remote maintenance command failed inside this box.
    RemoteFailed { directory_index: usize, box_name: Vec<u8> },
}

/// Where the machine stands between two actions.
pub enum Phase {
    /// A status listing was requested for the current directory.
    AwaitStatus,
    /// A bring-up was issued for the current box; its guard is live.
    AwaitBringUp { guard: TemporaryPowerOn },
    /// The remote command was issued for the current box; a guard is live
    /// unless the box was already running.
    AwaitRemote { guard: Option<TemporaryPowerOn> },
    /// The restore was issued; a remote failure may still be pending and
    /// surfaces after the restore, whatever the restore's own outcome.
    AwaitRestore { pending: Option<RunError> },
    /// The run is over.
    Finished,
}

/// The index of the first box at or after `i` that the run acts on: a box
/// is skipped exactly when it is not powered on and powering on is
/// disabled.
pub open spec fn next_eligible(boxes: Seq<(Seq<u8>, BoxStatus)>, i: int, power_on: bool) -> int
    decreases boxes.len() - i
        when 0 <= i <= boxes.len()
{
    if i >= boxes.len() {
        i
    } else if boxes[i].1.spec_powered_on() || power_on {
        i
    } else {
        next_eligible(boxes, i + 1, power_on)
    }
}

/// Bounds and meaning of `next_eligible`: everything before it (from `i`)
/// is skipped, and it lands on an eligible box unless the listing is
/// exhausted.
pub proof fn lemma_next_eligible(boxes: Seq<(Seq<u8>, BoxStatus)>, i: int, power_on: bool)
    requires
        0 <= i <= boxes.len(),
    ensures
        i <= next_eligible(boxes, i, power_on) <= boxes.len(),
        forall|j: int|
            i <= j < next_eligible(boxes, i, power_on) ==> !(#[trigger] boxes[j]).1.spec_powered_on()
                && !power_on,
        next_eligible(boxes, i, power_on) < boxes.len() ==> (boxes[next_eligible(
            boxes,
            i,
            power_on,
        )].1.spec_powered_on() || power_on),
    decreases boxes.len() - i,
{
    if i < boxes.len() && !(boxes[i].1.spec_powered_on() || power_on) {
        lemma_next_eligible(boxes, i + 1, power_on);
    }
}

/// The orchestrator for one maintenance run over a configured list of
/// working directories.
pub struct VagrantRun {
    /// The configured directories, processed in order.
    pub directories: Vec<Vec<u8>>,
    /// Whether powered-off boxes are brought up (else they are skipped).
    pub power_on: bool,
    /// Whether the remote command runs non-interactively.
    pub yes: bool,
    /// Index of the directory being processed.
    pub dir_index: usize,
    /// The parsed listing of the current directory.
    pub boxes: Vec<(VagrantBox, BoxStatus)>,
    /// Index of the box being processed within `boxes`.
    pub box_index: usize,
    /// Where the machine stands.
    pub phase: Phase,
}

impl VagrantRun {
    /// The configured directories as byte sequences.
    pub open spec fn dirs(self) -> Seq<Seq<u8>> {
        lines_view(self.directories@)
    }

    /// The current listing as (name, status) pairs.
    pub open spec fn boxes_v(self) -> Seq<(Seq<u8>, BoxStatus)> {
        records_view(self.boxes@)
    }

    /// Internal consistency: indices in bounds and any live guard bound to
    /// the current box's original resting state.
    pub open spec fn wf(self) -> bool {
        &&& (forall|i: int|
            0 <= i < self.dirs().len() ==> spec_dir_component(#[trigger] self.dirs()[i]).len() > 0)
        &&& self.dir_index <= self.dirs().len()
        &&& match self.phase {
            Phase::AwaitStatus => self.dir_index < self.dirs().len(),
            Phase::AwaitBringUp { guard } => {
                &&& self.dir_index < self.dirs().len()
                &&& self.box_index < self.boxes_v().len()
                &&& !guard.is_released()
                &&& guard.original_status() == self.boxes_v()[self.box_index as int].1
                &&& !guard.original_status().spec_powered_on()
            },
            Phase::AwaitRemote { guard } => {
                &&& self.dir_index < self.dirs().len()
                &&& self.box_index < self.boxes_v().len()
                &&& (guard matches Some(g) ==> !g.is_released() && g.original_status()
                    == self.boxes_v()[self.box_index as int].1
                    && !g.original_status().spec_powered_on())
                &&& (guard is None ==> self.boxes_v()[
                    self.box_index as int
                ].1.spec_powered_on())
            },
            Phase::AwaitRestore { pending } => {
                &&& self.dir_index < self.dirs().len()
                &&& self.box_index < self.boxes_v().len()
            },
            Phase::Finished => true,
        }
    }

    /// Which outcome the machine can take next: captured output (or a
    /// failure) for a status request, success or failure for any other
    /// command; nothing once the run is over.
    pub open spec fn expects(self, event: Event) -> bool {
        match self.phase {
            Phase::AwaitStatus => !(event is Succeeded),
            Phase::AwaitBringUp { .. } => !(event matches Event::Output { .. }),
            Phase::AwaitRemote { .. } => !(event matches Event::Output { .. }),
            Phase::AwaitRestore { .. } => !(event matches Event::Output { .. }),
            Phase::Finished => false,
        }
    }
}

/// The decision taken after a listing is parsed or a box is finished:
/// starting from box `b0` of `boxes` in directory `k`, skip the ineligible
/// boxes; then either act on the first eligible box (the remote command at
/// once for a running box, a bring-up under a fresh guard otherwise), or
/// request the next directory's listing, or finish the run successfully.
pub open spec fn spec_advance_from(
    dirs: Seq<Seq<u8>>,
    power_on: bool,
    yes: bool,
    boxes: Seq<(Seq<u8>, BoxStatus)>,
    k: int,
    b0: int,
    post: VagrantRun,
    action: Action,
) -> bool {
    let j = next_eligible(boxes, b0, power_on);
    &&& post.dirs() == dirs
    &&& post.power_on == power_on
    &&& post.yes == yes
    &&& if j < boxes.len() {
        let name = boxes[j].0;
        let st = boxes[j].1;
        &&& post.boxes_v() == boxes
        &&& post.dir_index == k
        &&& post.box_index == j
        &&& if st.spec_powered_on() {
            &&& (post.phase matches Phase::AwaitRemote { guard: None })
            &&& (action matches Action::RunRemote { directory_index, box_name, command }
                && directory_index == k && box_name@ == name && command@ == spec_remote_command(
                spec_box_prefix(name, dirs[k]),
                yes,
            ))
        } else {
            &&& (post.phase matches Phase::AwaitBringUp { guard } && guard.original_status() == st
                && !guard.is_released())
            &&& (action matches Action::RunBringUp { directory_index, box_name, subcommand }
                && directory_index == k && box_name@ == name && subcommand == spec_bring_up(st))
        }
    } else if k + 1 < dirs.len() {
        &&& post.dir_index == k + 1
        &&& post.phase is AwaitStatus
        &&& (action matches Action::RunStatus { directory_index } && directory_index == k + 1)
    } else {
        &&& post.dir_index == k + 1
        &&& post.phase is Finished
        &&& (action matches Action::Done { result } && result is Ok)
    }
}

/// A box that is already running is never bracketed: whenever the run acts
/// on a running box, no guard is acquired and the action is the remote
/// command itself — never a bring-up, so no restore can follow for it.
pub proof fn lemma_running_box_never_guarded(
    dirs: Seq<Seq<u8>>,
    power_on: bool,
    yes: bool,
    boxes: Seq<(Seq<u8>, BoxStatus)>,
    k: int,
    b0: int,
    post: VagrantRun,
    action: Action,
)
    requires
        0 <= b0 <= boxes.len(),
        spec_advance_from(dirs, power_on, yes, boxes, k, b0, post, action),
        next_eligible(boxes, b0, power_on) < boxes.len(),
        boxes[next_eligible(boxes, b0, power_on)].1 is Running,
    ensures
        post.phase matches Phase::AwaitRemote { guard: None },
        action matches Action::RunRemote { .. },
{
}

impl VagrantRun {
    /// A copy of the current box's name.
    fn current_box_name(&self) -> (r: Vec<u8>)
        requires
            self.box_index < self.boxes@.len(),
        ensures
            r@ == self.boxes_v()[self.box_index as int].0,
    {
        vstd::slice::slice_to_vec(self.boxes[self.box_index].0.name.as_slice())
    }

    /// Skips ineligible boxes and emits the next action, per
    /// `spec_advance_from`.
    fn advance(&mut self) -> (action: Action)
        requires
            old(self).dir_index < old(self).dirs().len(),
            old(self).box_index <= old(self).boxes_v().len(),
        ensures
            spec_advance_from(
                old(self).dirs(),
                old(self).power_on,
                old(self).yes,
                old(self).boxes_v(),
                old(self).dir_index as int,
                old(self).box_index as int,
                *final(self),
                action,
            ),
    {
        let ghost bv = self.boxes_v();
        let n: usize = self.boxes.len();
        while self.box_index < n && !self.boxes[self.box_index].1.powered_on() && !self.power_on
            invariant
                n == self.boxes@.len(),
                self.directories == old(self).directories,
                self.power_on == old(self).power_on,
                self.yes == old(self).yes,
                self.dir_index == old(self).dir_index,
                self.boxes == old(self).boxes,
                self.phase == old(self).phase,
                bv == self.boxes_v(),
                old(self).box_index <= self.box_index <= n,
                next_eligible(bv, old(self).box_index as int, self.power_on) == next_eligible(
                    bv,
                    self.box_index as int,
                    self.power_on,
                ),
            decreases n - self.box_index,
        {
            proof {
                assert(bv[self.box_index as int].1 == self.boxes@[self.box_index as int].1);
                assert(next_eligible(bv, self.box_index as int, self.power_on) == next_eligible(
                    bv,
                    self.box_index + 1,
                    self.power_on,
                ));
            }
            self.box_index = self.box_index + 1;
        }
        proof {
            assert(next_eligible(bv, self.box_index as int, self.power_on)
                == self.box_index as int);
            assert(lines_view(self.directories@)[self.dir_index as int]
                == self.directories@[self.dir_index as int]@);
        }
        if self.box_index < n {
            let name = self.current_box_name();
            let st: BoxStatus = self.boxes[self.box_index].1;
            proof {
                assert(bv[self.box_index as int] == (
                    self.boxes@[self.box_index as int].0.name@,
                    self.boxes@[self.box_index as int].1,
                ));
            }
            if st.powered_on() {
                let prefix = box_prefix(
                    name.as_slice(),
                    self.directories[self.dir_index].as_slice(),
                );
                let command = build_remote_command(prefix.as_slice(), self.yes);
                self.phase = Phase::AwaitRemote { guard: None };
                Action::RunRemote { directory_index: self.dir_index, box_name: name, command }
            } else {
                let (guard, subcommand) = TemporaryPowerOn::create(st);
                self.phase = Phase::AwaitBringUp { guard };
                Action::RunBringUp { directory_index: self.dir_index, box_name: name, subcommand }
            }
        } else {
            self.box_index = 0;
            let dlen: usize = self.directories.len();
            proof {
                assert(self.dirs().len() == self.directories@.len());
                assert(self.dir_index < dlen);
            }
            self.dir_index = self.dir_index + 1;
            if self.dir_index < dlen {
                self.phase = Phase::AwaitStatus;
                Action::RunStatus { directory_index: self.dir_index }
            } else {
                self.phase = Phase::Finished;
                Action::Done { result: Ok(()) }
            }
        }
    }

    /// Begins a run over the configured directories. An absent list is a
    /// configuration error; an empty list finishes at once; otherwise the
    /// first action requests the first directory's listing.
    pub fn start(directories: Option<Vec<Vec<u8>>>, power_on: bool, yes: bool) -> (r: Result<
        (VagrantRun, Action),
        RunError,
    >)
        requires
            (directories matches Some(d) ==> forall|i: int|
                0 <= i < d@.len() ==> spec_dir_component((#[trigger] d@[i])@).len() > 0),
        ensures
            (directories is None ==> (r matches Err(e) && e is NoDirectories)),
            (directories matches Some(d) ==> (r matches Ok(p) && p.0.wf() && p.0.dirs()
                == lines_view(d@) && p.0.power_on == power_on && p.0.yes == yes && (if d@.len()
                == 0 {
                p.0.phase is Finished && (p.1 matches Action::Done { result } && result is Ok)
            } else {
                &&& p.0.dir_index == 0
                &&& p.0.phase is AwaitStatus
                &&& (p.1 matches Action::RunStatus { directory_index } && directory_index == 0)
            }))),
    {
        match directories {
            None => Err(RunError::NoDirectories),
            Some(d) => {
                proof {
                    assert forall|i: int|
                        0 <= i < lines_view(d@).len() implies spec_dir_component(
                        #[trigger] lines_view(d@)[i],
                    ).len() > 0 by {
                        assert(lines_view(d@)[i] == d@[i]@);
                    }
                }
                if d.len() == 0 {
                    let machine = VagrantRun {
                        directories: d,
                        power_on,
                        yes,
                        dir_index: 0,
                        boxes: Vec::new(),
                        box_index: 0,
                        phase: Phase::Finished,
                    };
                    Ok((machine, Action::Done { result: Ok(()) }))
                } else {
                    let machine = VagrantRun {
                        directories: d,
                        power_on,
                        yes,
                        dir_index: 0,
                        boxes: Vec::new(),
                        box_index: 0,
                        phase: Phase::AwaitStatus,
                    };
                    Ok((machine, Action::RunStatus { directory_index: 0 }))
                }
            },
        }
    }

    /// Feeds the outcome of the last action and returns the next one.
    ///
    /// The clauses below are the run's whole policy: a failed listing or
    /// bring-up or an unparsable listing finishes the run with that error; a
    /// box that is not powered on is skipped when powering on is disabled
    /// and otherwise bracketed by a bring-up and exactly one restore, the
    /// restore firing whether or not the remote command succeeded; a
    /// restore's own failure is swallowed, and a pending remote failure
    /// still surfaces after it.
    pub fn step(&mut self, event: Event) -> (action: Action)
        requires
            old(self).wf(),
            old(self).expects(event),
        ensures
            final(self).wf(),
            final(self).dirs() == old(self).dirs(),
            final(self).power_on == old(self).power_on,
            final(self).yes == old(self).yes,
            (old(self).phase is AwaitStatus && event is Failed ==> final(self).phase is Finished
                && (action matches Action::Done { result } && (result matches Err(e) && (
            e matches RunError::StatusFailed { directory_index } && directory_index == old(
                self,
            ).dir_index)))),
            (old(self).phase is AwaitStatus ==> (event matches Event::Output { text } ==> ({
                let parsed = spec_parse_status(text@);
                &&& (parsed is Err ==> final(self).phase is Finished && (
                action matches Action::Done { result } && (result matches Err(e) && (
                e matches RunError::Parse { directory_index, error } && directory_index == old(
                    self,
                ).dir_index && error@ == parsed->Err_0))))
                &&& (parsed is Ok ==> spec_advance_from(
                    old(self).dirs(),
                    old(self).power_on,
                    old(self).yes,
                    parsed->Ok_0,
                    old(self).dir_index as int,
                    0,
                    *final(self),
                    action,
                ))
            }))),
            (old(self).phase matches Phase::AwaitBringUp { guard } ==> ({
                let name = old(self).boxes_v()[old(self).box_index as int].0;
                &&& (event is Failed ==> final(self).phase is Finished && (
                action matches Action::Done { result } && (result matches Err(e) && (
                e matches RunError::BringUpFailed { directory_index, box_name } && directory_index
                    == old(self).dir_index && box_name@ == name))))
                &&& (event is Succeeded ==> ({
                    &&& final(self).boxes_v() == old(self).boxes_v()
                    &&& final(self).dir_index == old(self).dir_index
                    &&& final(self).box_index == old(self).box_index
                    &&& (final(self).phase matches Phase::AwaitRemote { guard: Some(g) } && g
                        == guard)
                    &&& (action matches Action::RunRemote { directory_index, box_name, command }
                        && directory_index == old(self).dir_index && box_name@ == name && command@
                        == spec_remote_command(
                        spec_box_prefix(name, old(self).dirs()[old(self).dir_index as int]),
                        old(self).yes,
                    ))
                }))
            })),
            (old(self).phase matches Phase::AwaitRemote { guard: Some(g) } ==> ({
                let name = old(self).boxes_v()[old(self).box_index as int].0;
                &&& final(self).boxes_v() == old(self).boxes_v()
                &&& final(self).dir_index == old(self).dir_index
                &&& final(self).box_index == old(self).box_index
                &&& (final(self).phase matches Phase::AwaitRestore { pending } && ({
                    &&& (event is Succeeded ==> pending is None)
                    &&& (event is Failed ==> (pending matches Some(e) && (
                    e matches RunError::RemoteFailed { directory_index, box_name }
                        && directory_index == old(self).dir_index && box_name@ == name)))
                }))
                &&& (action matches Action::RunRestore { directory_index, box_name, subcommand }
                    && directory_index == old(self).dir_index && box_name@ == name && subcommand
                    == spec_restore(g.original_status()))
            })),
            (old(self).phase matches Phase::AwaitRemote { guard: None } ==> ({
                let name = old(self).boxes_v()[old(self).box_index as int].0;
                &&& (event is Succeeded ==> spec_advance_from(
                    old(self).dirs(),
                    old(self).power_on,
                    old(self).yes,
                    old(self).boxes_v(),
                    old(self).dir_index as int,
                    old(self).box_index + 1,
                    *final(self),
                    action,
                ))
                &&& (event is Failed ==> final(self).phase is Finished && (
                action matches Action::Done { result } && (result matches Err(e) && (
                e matches RunError::RemoteFailed { directory_index, box_name } && directory_index
                    == old(self).dir_index && box_name@ == name))))
            })),
            (old(self).phase matches Phase::AwaitRestore { pending: Some(e) } ==> final(self).phase
                is Finished && (action matches Action::Done { result } && (
            result matches Err(e2) && e2 == e))),
            (old(self).phase matches Phase::AwaitRestore { pending: None } ==> spec_advance_from(
                old(self).dirs(),
                old(self).power_on,
                old(self).yes,
                old(self).boxes_v(),
                old(self).dir_index as int,
                old(self).box_index + 1,
                *final(self),
                action,
            )),
    {
        let mut ph = Phase::Finished;
        core::mem::swap(&mut ph, &mut self.phase);
        match ph {
            Phase::AwaitStatus => {
                match event {
                    Event::Failed => {
                        self.phase = Phase::Finished;
                        Action::Done {
                            result: Err(
                                RunError::StatusFailed { directory_index: self.dir_index },
                            ),
                        }
                    },
                    Event::Output { text } => {
                        let outcome = parse_status_output(
                            text.as_slice(),
                            self.directories[self.dir_index].as_slice(),
                        );
                        proof {
                            assert(lines_view(self.directories@)[self.dir_index as int]
                                == self.directories@[self.dir_index as int]@);
                        }
                        match outcome {
                            Err(e) => {
                                self.phase = Phase::Finished;
                                Action::Done {
                                    result: Err(
                                        RunError::Parse {
                                            directory_index: self.dir_index,
                                            error: e,
                                        },
                                    ),
                                }
                            },
                            Ok(v) => {
                                self.boxes = v;
                                self.box_index = 0;
                                self.advance()
                            },
                        }
                    },
                    Event::Succeeded => vstd::pervasive::unreached(),
                }
            },
            Phase::AwaitBringUp { guard } => {
                match event {
                    Event::Failed => {
                        let box_name = self.current_box_name();
                        self.phase = Phase::Finished;
                        Action::Done {
                            result: Err(
                                RunError::BringUpFailed {
                                    directory_index: self.dir_index,
                                    box_name,
                                },
                            ),
                        }
                    },
                    Event::Succeeded => {
                        let box_name = self.current_box_name();
                        let prefix = box_prefix(
                            box_name.as_slice(),
                            self.directories[self.dir_index].as_slice(),
                        );
                        let command = build_remote_command(prefix.as_slice(), self.yes);
                        proof {
                            assert(lines_view(self.directories@)[self.dir_index as int]
                                == self.directories@[self.dir_index as int]@);
                        }
                        self.phase = Phase::AwaitRemote { guard: Some(guard) };
                        Action::RunRemote {
                            directory_index: self.dir_index,
                            box_name,
                            command,
                        }
                    },
                    Event::Output { .. } => vstd::pervasive::unreached(),
                }
            },
            Phase::AwaitRemote { guard } => {
                match event {
                    Event::Succeeded => {
                        match guard {
                            Some(mut g) => {
                                let subcommand = g.release();
                                let box_name = self.current_box_name();
                                self.phase = Phase::AwaitRestore { pending: None };
                                Action::RunRestore {
                                    directory_index: self.dir_index,
                                    box_name,
                                    subcommand,
                                }
                            },
                            None => {
                                let blen: usize = self.boxes.len();
                                proof {
                                    assert(self.boxes_v().len() == self.boxes@.len());
                                    assert(self.box_index < blen);
                                }
                                self.box_index = self.box_index + 1;
                                self.advance()
                            },
                        }
                    },
                    Event::Failed => {
                        match guard {
                            Some(mut g) => {
                                let subcommand = g.release();
                                let box_name = self.current_box_name();
                                let pending_name = self.current_box_name();
                                self.phase = Phase::AwaitRestore {
                                    pending: Some(
                                        RunError::RemoteFailed {
                                            directory_index: self.dir_index,
                                            box_name: pending_name,
                                        },
                                    ),
                                };
                                Action::RunRestore {
                                    directory_index: self.dir_index,
                                    box_name,
                                    subcommand,
                                }
                            },
                            None => {
                                let box_name = self.current_box_name();
                                self.phase = Phase::Finished;
                                Action::Done {
                                    result: Err(
                                        RunError::RemoteFailed {
                                            directory_index: self.dir_index,
                                            box_name,
                                        },
                                    ),
                                }
                            },
                        }
                    },
                    Event::Output { .. } => vstd::pervasive::unreached(),
                }
            },
            Phase::AwaitRestore { pending } => {
                match event {
                    Event::Output { .. } => vstd::pervasive::unreached(),
                    _ => {
                        match pending {
                            Some(e) => {
                                self.phase = Phase::Finished;
                                Action::Done { result: Err(e) }
                            },
                            None => {
                                let blen: usize = self.boxes.len();
                                proof {
                                    assert(self.boxes_v().len() == self.boxes@.len());
                                    assert(self.box_index < blen);
                                }
                                self.box_index = self.box_index + 1;
                                self.advance()
                            },
                        }
                    },
                }
            },
            Phase::Finished => vstd::pervasive::unreached(),
        }
    }
}

} // verus!
