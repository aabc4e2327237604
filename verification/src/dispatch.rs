//! The writer/dispatcher: the single consumer of the mailbox and the only
//! owner of the stream's write half. It takes one command at a time, encodes
//! it, and hands the frames out for writing before the next command is
//! taken — so outbound frames are a total order, never split or interleaved.
//!
//! Buffered preview edits do not write; they accumulate in the pending maps
//! and stamp the safety timer. `Terminate` and a lost connection end the
//! session: they stop the writer and every background activity, and nothing
//! is written afterwards.

use vstd::prelude::*;

use crate::config::{GainsView, LoopGains, ParamsFrameData, ParamsFrameView};
use crate::entries::{entries_view, propeller_entries_view, spec_upsert};
use crate::frames::{
    encode_control_loops_frame, encode_debug_mode_frame, encode_load_frame,
    encode_parameters_frame, encode_propeller_values_frame, encode_save_frame,
    spec_control_loops_frame, spec_debug_mode_frame, spec_load_frame, spec_parameters_frame,
    spec_propeller_values_frame, spec_save_frame,
};
use crate::mailbox::Mailbox;
use crate::preview::PendingPreview;
use crate::safety::SafetyTimer;
use crate::text::{clone_bytes, is_key_text};

verus! {

/// A writer-directed command, as the producers enqueue it.
pub enum Command {
    /// Write the full parameter snapshot, then ask the device to save it.
    UploadParameters(ParamsFrameData),
    /// Ask the device for its parameter snapshot.
    RequestParameters,
    /// Toggle the device's debug (live preview) mode.
    SetDebugModeEnabled(bool),
    /// Buffer one propeller preview edit; written later by the coalescer.
    PreviewPropeller(Vec<u8>, i8),
    /// Write one batched propeller preview frame.
    PreviewPropellers(Vec<(Vec<u8>, i8)>),
    /// Buffer one control-loop preview edit; written later by the coalescer.
    PreviewControlLoop(Vec<u8>, LoopGains),
    /// Write one batched control-loop preview frame.
    PreviewControlLoops(Vec<(Vec<u8>, LoopGains)>),
    /// The receive path failed or the remote closed; ends the session.
    ConnectionLost(Vec<u8>),
    /// Clean shutdown: stop every activity and exit the writer loop.
    Terminate,
}

/// Mathematical value of a command.
#[verifier::ext_equal]
pub enum CommandView {
    UploadParameters(ParamsFrameView),
    RequestParameters,
    SetDebugModeEnabled(bool),
    PreviewPropeller(Seq<u8>, i8),
    PreviewPropellers(Seq<(Seq<u8>, i8)>),
    PreviewControlLoop(Seq<u8>, GainsView),
    PreviewControlLoops(Seq<(Seq<u8>, GainsView)>),
    ConnectionLost(Seq<u8>),
    Terminate,
}

impl View for Command {
    type V = CommandView;

    open spec fn view(&self) -> CommandView {
        match self {
            Command::UploadParameters(d) => CommandView::UploadParameters(d@),
            Command::RequestParameters => CommandView::RequestParameters,
            Command::SetDebugModeEnabled(b) => CommandView::SetDebugModeEnabled(*b),
            Command::PreviewPropeller(k, v) => CommandView::PreviewPropeller(k@, *v),
            Command::PreviewPropellers(m) => CommandView::PreviewPropellers(
                propeller_entries_view(m@),
            ),
            Command::PreviewControlLoop(k, g) => CommandView::PreviewControlLoop(k@, g@),
            Command::PreviewControlLoops(m) => CommandView::PreviewControlLoops(entries_view(m@)),
            Command::ConnectionLost(e) => CommandView::ConnectionLost(e@),
            Command::Terminate => CommandView::Terminate,
        }
    }
}

impl Command {
    /// What the session requires of a command before it is enqueued: the
    /// buffered preview edits carry proper keys and scalar texts.
    pub open spec fn wf(&self) -> bool {
        match self {
            Command::PreviewPropeller(k, _) => is_key_text(k@),
            Command::PreviewControlLoop(k, g) => is_key_text(k@) && g.wf(),
            _ => true,
        }
    }
}

/// A command that ends the session when the writer dequeues it.
pub open spec fn spec_is_stop(c: CommandView) -> bool {
    c is Terminate || c is ConnectionLost
}

/// The frames the writer puts on the wire for one command, in order.
pub open spec fn spec_frames_of(c: CommandView) -> Seq<Seq<u8>> {
    match c {
        CommandView::UploadParameters(d) => seq![spec_parameters_frame(d), spec_save_frame()],
        CommandView::RequestParameters => seq![spec_load_frame()],
        CommandView::SetDebugModeEnabled(b) => seq![spec_debug_mode_frame(b)],
        CommandView::PreviewPropellers(m) => seq![spec_propeller_values_frame(m)],
        CommandView::PreviewControlLoops(m) => seq![spec_control_loops_frame(m)],
        CommandView::PreviewPropeller(_, _) => Seq::empty(),
        CommandView::PreviewControlLoop(_, _) => Seq::empty(),
        CommandView::ConnectionLost(_) => Seq::empty(),
        CommandView::Terminate => Seq::empty(),
    }
}

/// The bytes that reach the stream when the writer consumes the given
/// command sequence in order: each command's frames concatenated, stopping
/// at the first session-ending command.
pub open spec fn spec_wire(cmds: Seq<CommandView>) -> Seq<u8>
    decreases cmds.len(),
{
    if cmds.len() == 0 {
        Seq::empty()
    } else if spec_is_stop(cmds[0]) {
        Seq::empty()
    } else {
        spec_frames_of(cmds[0]).flatten() + spec_wire(cmds.drop_first())
    }
}

/// With no session-ending command in the sequence, the wire holds exactly
/// the concatenation of each command's frames, in enqueue order: frames are
/// never reordered or interleaved.
pub proof fn lemma_wire_is_ordered_concat(cmds: Seq<CommandView>)
    requires
        forall|i: int| 0 <= i < cmds.len() ==> !spec_is_stop(#[trigger] cmds[i]),
    ensures
        spec_wire(cmds) == cmds.map_values(
            |c: CommandView| spec_frames_of(c).flatten(),
        ).flatten(),
    decreases cmds.len(),
{
    let f = |c: CommandView| spec_frames_of(c).flatten();
    if cmds.len() == 0 {
        assert(cmds.map_values(f) =~= Seq::<Seq<u8>>::empty());
    } else {
        lemma_wire_is_ordered_concat(cmds.drop_first());
        assert(cmds.drop_first().map_values(f) =~= cmds.map_values(f).drop_first());
        assert(cmds.map_values(f)[0] == f(cmds[0]));
    }
}

/// Once a session-ending command is dequeued, no later command contributes
/// a byte to the wire.
pub proof fn lemma_no_frames_after_stop(cmds: Seq<CommandView>, i: int)
    requires
        0 <= i < cmds.len(),
        spec_is_stop(cmds[i]),
        forall|j: int| 0 <= j < i ==> !spec_is_stop(#[trigger] cmds[j]),
    ensures
        spec_wire(cmds) == spec_wire(cmds.take(i)),
    decreases i,
{
    if i == 0 {
        assert(cmds.take(0) =~= Seq::<CommandView>::empty());
    } else {
        lemma_no_frames_after_stop(cmds.drop_first(), i - 1);
        assert(cmds.drop_first().take(i - 1) =~= cmds.take(i).drop_first());
        assert(cmds.take(i)[0] == cmds[0]);
    }
}

/// How one dispatched command ended.
pub enum StepOutcome {
    /// The writer goes on to the next command.
    Continued,
    /// Clean shutdown was requested.
    Terminated,
    /// The session is over because the connection failed.
    Lost(Vec<u8>),
}

/// What the writer does for one command: the frames to put on the wire, in
/// order, and whether the loop goes on.
pub struct DispatchStep {
    pub frames: Vec<Vec<u8>>,
    pub outcome: StepOutcome,
}

/// Mathematical value of an emitted frame list.
pub open spec fn frames_views(frames: Seq<Vec<u8>>) -> Seq<Seq<u8>> {
    frames.map_values(|f: Vec<u8>| f@)
}

/// The writer/dispatcher state: the pending preview maps and safety-timer
/// stamp it shares with the tick activities, and the lifecycle flags of the
/// session's background activities.
pub struct Dispatcher {
    pub pending: PendingPreview,
    pub timer: SafetyTimer,
    pub running: bool,
    pub receiver_active: bool,
    pub coalescer_active: bool,
    pub safety_active: bool,
}

impl Dispatcher {
    pub open spec fn wf(&self) -> bool {
        self.pending.wf()
    }

    /// Whether every background activity has stopped.
    pub open spec fn all_stopped(&self) -> bool {
        &&& !self.running
        &&& !self.receiver_active
        &&& !self.coalescer_active
        &&& !self.safety_active
    }

    pub fn new() -> (r: Self)
        ensures
            r.wf(),
            r.running,
            r.receiver_active,
            r.coalescer_active,
            r.safety_active,
            r.pending.propellers@.len() == 0,
            r.pending.control_loops@.len() == 0,
            r.timer.last_preview_millis is None,
    {
        Dispatcher {
            pending: PendingPreview::new(),
            timer: SafetyTimer::new(),
            running: true,
            receiver_active: true,
            coalescer_active: true,
            safety_active: true,
        }
    }

    /// Dispatches one command: encodes exactly the frames the command calls
    /// for, buffers preview edits, and ends the session on `Terminate` or a
    /// lost connection.
    pub fn handle_command(&mut self, cmd: Command, now_millis: u64) -> (step: DispatchStep)
        requires
            old(self).wf(),
            old(self).running,
            cmd.wf(),
        ensures
            final(self).wf(),
            frames_views(step.frames@) == spec_frames_of(cmd@),
            final(self).running == !spec_is_stop(cmd@),
            spec_is_stop(cmd@) ==> final(self).all_stopped(),
            !spec_is_stop(cmd@) ==> final(self).receiver_active == old(self).receiver_active
                && final(self).coalescer_active == old(self).coalescer_active && final(self).safety_active == old(self).safety_active,
            match cmd@ {
                CommandView::Terminate => step.outcome is Terminated,
                CommandView::ConnectionLost(e) => step.outcome matches StepOutcome::Lost(m) && m@
                    == e,
                _ => step.outcome is Continued,
            },
            match cmd@ {
                CommandView::PreviewPropeller(k, v) => propeller_entries_view(
                    final(self).pending.propellers@,
                ) == spec_upsert(propeller_entries_view(old(self).pending.propellers@), k, v)
                    && final(self).pending.control_loops@ == old(self).pending.control_loops@
                    && final(self).timer.last_preview_millis == Some(now_millis),
                CommandView::PreviewControlLoop(k, g) => entries_view(
                    final(self).pending.control_loops@,
                ) == spec_upsert(entries_view(old(self).pending.control_loops@), k, g) && final(self).pending.propellers@ == old(self).pending.propellers@ && final(self).timer == old(self).timer,
                _ => final(self).pending.propellers@ == old(self).pending.propellers@ && final(self).pending.control_loops@ == old(self).pending.control_loops@ && final(self).timer
                    == old(self).timer,
            },
    {
        match cmd {
            Command::UploadParameters(d) => {
                let mut frames: Vec<Vec<u8>> = Vec::new();
                frames.push(encode_parameters_frame(&d));
                frames.push(encode_save_frame());
                proof {
                    assert(frames_views(frames@) =~= spec_frames_of(cmd@));
                }
                DispatchStep { frames, outcome: StepOutcome::Continued }
            },
            Command::RequestParameters => {
                let mut frames: Vec<Vec<u8>> = Vec::new();
                frames.push(encode_load_frame());
                proof {
                    assert(frames_views(frames@) =~= spec_frames_of(cmd@));
                }
                DispatchStep { frames, outcome: StepOutcome::Continued }
            },
            Command::SetDebugModeEnabled(b) => {
                let mut frames: Vec<Vec<u8>> = Vec::new();
                frames.push(encode_debug_mode_frame(b));
                proof {
                    assert(frames_views(frames@) =~= spec_frames_of(cmd@));
                }
                DispatchStep { frames, outcome: StepOutcome::Continued }
            },
            Command::PreviewPropellers(m) => {
                let mut frames: Vec<Vec<u8>> = Vec::new();
                frames.push(encode_propeller_values_frame(&m));
                proof {
                    assert(frames_views(frames@) =~= spec_frames_of(cmd@));
                }
                DispatchStep { frames, outcome: StepOutcome::Continued }
            },
            Command::PreviewControlLoops(m) => {
                let mut frames: Vec<Vec<u8>> = Vec::new();
                frames.push(encode_control_loops_frame(&m));
                proof {
                    assert(frames_views(frames@) =~= spec_frames_of(cmd@));
                }
                DispatchStep { frames, outcome: StepOutcome::Continued }
            },
            Command::PreviewPropeller(k, v) => {
                self.pending.insert_propeller(k, v);
                self.timer.note_edit(now_millis);
                proof {
                    assert(frames_views(Seq::<Vec<u8>>::empty()) =~= spec_frames_of(cmd@));
                }
                DispatchStep { frames: Vec::new(), outcome: StepOutcome::Continued }
            },
            Command::PreviewControlLoop(k, g) => {
                self.pending.insert_control_loop(k, g);
                proof {
                    assert(frames_views(Seq::<Vec<u8>>::empty()) =~= spec_frames_of(cmd@));
                }
                DispatchStep { frames: Vec::new(), outcome: StepOutcome::Continued }
            },
            Command::Terminate => {
                self.running = false;
                self.receiver_active = false;
                self.coalescer_active = false;
                self.safety_active = false;
                proof {
                    assert(frames_views(Seq::<Vec<u8>>::empty()) =~= spec_frames_of(cmd@));
                }
                DispatchStep { frames: Vec::new(), outcome: StepOutcome::Terminated }
            },
            Command::ConnectionLost(e) => {
                self.running = false;
                self.receiver_active = false;
                self.coalescer_active = false;
                self.safety_active = false;
                proof {
                    assert(frames_views(Seq::<Vec<u8>>::empty()) =~= spec_frames_of(cmd@));
                }
                DispatchStep { frames: Vec::new(), outcome: StepOutcome::Lost(e) }
            },
        }
    }

    /// One coalescer tick: each non-empty pending map is swapped for an
    /// empty one and flushed as exactly one batched preview command.
    pub fn coalescer_tick(&mut self) -> (cmds: Vec<Command>)
        requires
            old(self).wf(),
        ensures
            final(self).wf(),
            cmds@.map_values(|c: Command| c@) == (if old(self).pending.propellers@.len() > 0 {
                seq![
                    CommandView::PreviewPropellers(
                        propeller_entries_view(old(self).pending.propellers@),
                    ),
                ]
            } else {
                Seq::<CommandView>::empty()
            }) + (if old(self).pending.control_loops@.len() > 0 {
                seq![
                    CommandView::PreviewControlLoops(
                        entries_view(old(self).pending.control_loops@),
                    ),
                ]
            } else {
                Seq::<CommandView>::empty()
            }),
            final(self).pending.propellers@.len() == 0,
            final(self).pending.control_loops@.len() == 0,
            final(self).timer == old(self).timer,
            final(self).running == old(self).running,
            final(self).receiver_active == old(self).receiver_active,
            final(self).coalescer_active == old(self).coalescer_active,
            final(self).safety_active == old(self).safety_active,
    {
        let mut cmds: Vec<Command> = Vec::new();
        match self.pending.take_propellers() {
            Some(m) => {
                cmds.push(Command::PreviewPropellers(m));
            },
            None => {},
        }
        match self.pending.take_control_loops() {
            Some(m) => {
                cmds.push(Command::PreviewControlLoops(m));
            },
            None => {},
        }
        proof {
            assert(cmds@.map_values(|c: Command| c@) =~= (if old(self).pending.propellers@.len() > 0 {
                seq![
                    CommandView::PreviewPropellers(
                        propeller_entries_view(old(self).pending.propellers@),
                    ),
                ]
            } else {
                Seq::<CommandView>::empty()
            }) + (if old(self).pending.control_loops@.len() > 0 {
                seq![
                    CommandView::PreviewControlLoops(
                        entries_view(old(self).pending.control_loops@),
                    ),
                ]
            } else {
                Seq::<CommandView>::empty()
            }));
        }
        cmds
    }

    /// One safety-timer tick: when a preview stamp is set and stale, emit
    /// exactly one command that reverts every known propeller to neutral,
    /// and clear the stamp.
    pub fn safety_tick(&mut self, now_millis: u64, propeller_keys: &Vec<Vec<u8>>) -> (cmds: Vec<
        Command,
    >)
        requires
            old(self).wf(),
            forall|i: int|
                0 <= i < propeller_keys@.len() ==> is_key_text((#[trigger] propeller_keys@[i])@),
        ensures
            final(self).wf(),
            cmds@.map_values(|c: Command| c@) == if old(self).timer.spec_expired(now_millis) {
                seq![
                    CommandView::PreviewPropellers(
                        propeller_keys@.map_values(|k: Vec<u8>| (k@, 0i8)),
                    ),
                ]
            } else {
                Seq::<CommandView>::empty()
            },
            final(self).timer.last_preview_millis == if old(self).timer.spec_expired(
                now_millis,
            ) {
                None
            } else {
                old(self).timer.last_preview_millis
            },
            final(self).pending == old(self).pending,
            final(self).running == old(self).running,
            final(self).receiver_active == old(self).receiver_active,
            final(self).coalescer_active == old(self).coalescer_active,
            final(self).safety_active == old(self).safety_active,
    {
        let mut cmds: Vec<Command> = Vec::new();
        if self.timer.tick(now_millis) {
            let mut neutral: Vec<(Vec<u8>, i8)> = Vec::new();
            let mut i: usize = 0;
            while i < propeller_keys.len()
                invariant
                    0 <= i <= propeller_keys@.len(),
                    neutral@.len() == i,
                    forall|j: int|
                        0 <= j < i ==> (#[trigger] neutral@[j]).0@ == propeller_keys@[j]@
                            && neutral@[j].1 == 0i8,
                decreases propeller_keys@.len() - i,
            {
                neutral.push((clone_bytes(&propeller_keys[i]), 0i8));
                i = i + 1;
            }
            cmds.push(Command::PreviewPropellers(neutral));
            proof {
                assert(propeller_entries_view(cmds@[0]->PreviewPropellers_0@) =~= propeller_keys@
                    .map_values(|k: Vec<u8>| (k@, 0i8)));
                assert(cmds@.map_values(|c: Command| c@) =~= seq![
                    CommandView::PreviewPropellers(
                        propeller_keys@.map_values(|k: Vec<u8>| (k@, 0i8)),
                    ),
                ]);
            }
        } else {
            proof {
                assert(cmds@.map_values(|c: Command| c@) =~= Seq::<CommandView>::empty());
            }
        }
        cmds
    }

    /// The writer loop: takes commands from the mailbox strictly in arrival
    /// order and returns the bytes written to the stream — exactly
    /// `spec_wire` of the queued commands. The loop exits when the mailbox
    /// is drained or a session-ending command is reached; after the latter,
    /// every activity is stopped and nothing further is written.
    pub fn drain(&mut self, mailbox: &mut Mailbox<Command>, now_millis: u64) -> (wire: Vec<u8>)
        requires
            old(self).wf(),
            old(self).running,
            old(mailbox).wf(),
            forall|i: int| 0 <= i < old(mailbox)@.len() ==> (#[trigger] old(mailbox)@[i]).wf(),
        ensures
            final(self).wf(),
            wire@ == spec_wire(old(mailbox)@.map_values(|c: Command| c@)),
            final(self).running ==> final(mailbox)@.len() == 0,
            !final(self).running ==> final(self).all_stopped(),
    {
        let mut wire: Vec<u8> = Vec::new();
        proof {
            assert(old(mailbox)@.map_values(|c: Command| c@) =~= mailbox@.map_values(
                |c: Command| c@,
            ));
        }
        loop
            invariant_except_break
                self.running,
                wire@ + spec_wire(mailbox@.map_values(|c: Command| c@)) == spec_wire(
                    old(mailbox)@.map_values(|c: Command| c@),
                ),
            invariant
                self.wf(),
                mailbox.wf(),
                forall|i: int| 0 <= i < mailbox@.len() ==> (#[trigger] mailbox@[i]).wf(),
            ensures
                self.wf(),
                wire@ == spec_wire(old(mailbox)@.map_values(|c: Command| c@)),
                self.running ==> mailbox@.len() == 0,
                !self.running ==> self.all_stopped(),
            decreases mailbox@.len(),
        {
            let ghost views_before = mailbox@.map_values(|c: Command| c@);
            let next = mailbox.recv();
            match next {
                None => {
                    proof {
                        assert(views_before =~= Seq::<CommandView>::empty());
                        assert(wire@ =~= wire@ + spec_wire(views_before));
                    }
                    break ;
                },
                Some(cmd) => {
                    proof {
                        assert(mailbox@.map_values(|c: Command| c@) =~= views_before.drop_first());
                        assert(views_before[0] == cmd@);
                    }
                    let ghost wire_before = wire@;
                    let step = self.handle_command(cmd, now_millis);
                    let mut fi: usize = 0;
                    let frames = step.frames;
                    while fi < frames.len()
                        invariant
                            0 <= fi <= frames@.len(),
                            wire@ == wire_before + frames_views(frames@).take(fi as int).flatten(),
                        decreases frames@.len() - fi,
                    {
                        proof {
                            crate::seqtools::lemma_flatten_take_push(frames_views(frames@), fi as int);
                        }
                        crate::text::append_bytes(&mut wire, frames[fi].as_slice());
                        fi = fi + 1;
                    }
                    proof {
                        assert(frames_views(frames@).take(frames@.len() as int) =~= frames_views(
                            frames@,
                        ));
                        assert(frames_views(frames@) == spec_frames_of(cmd@));
                    }
                    match step.outcome {
                        StepOutcome::Continued => {
                            proof {
                                assert(!spec_is_stop(cmd@));
                                assert(spec_wire(views_before) == spec_frames_of(
                                    cmd@,
                                ).flatten() + spec_wire(views_before.drop_first()));
                            }
                        },
                        _ => {
                            proof {
                                assert(spec_is_stop(cmd@));
                                assert(spec_wire(views_before) =~= Seq::<u8>::empty());
                                assert(wire@ =~= wire_before + spec_wire(views_before));
                            }
                            break ;
                        },
                    }
                },
            }
        }
        wire
    }
}

} // verus!
