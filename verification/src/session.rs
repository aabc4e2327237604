//! The tuning session coordinator: holds the in-memory configuration set,
//! folds edit commands and inbound frames into it, and decides which
//! writer-directed commands each step produces. Preview-bearing commands are
//! produced only while a debug session is active (a writer mailbox exists).

use vstd::prelude::*;

use crate::config::{
    GainsView, LoopView, ParamsFrameData, PropellerView, SessionConfig, spec_apply_feedbacks,
    spec_apply_session, spec_snapshot,
};
use crate::dispatch::{Command, CommandView};
use crate::entries::{elem_at, entries_view};
use crate::text::{clone_bytes, is_number_text};

verus! {

/// A command from the owning layer (or a classified inbound frame) to the
/// tuning session.
pub enum TunerMsg {
    SetPropellerLowerDeadzone(usize, i8),
    SetPropellerUpperDeadzone(usize, i8),
    SetPropellerPowerPositive(usize, Vec<u8>),
    SetPropellerPowerNegative(usize, Vec<u8>),
    SetPropellerReversed(usize, bool),
    SetPropellerEnabled(usize, bool),
    SetP(usize, Vec<u8>),
    SetI(usize, Vec<u8>),
    SetD(usize, Vec<u8>),
    SetPropellerPwmFreqCalibration(Vec<u8>),
    /// Discard local edits: ask the device for its snapshot again.
    ResetParameters,
    /// Send the local snapshot and ask the device to save it.
    ApplyParameters,
    /// A debug session begins: the writer exists from now on.
    StartDebug,
    /// The debug session ends: leave debug mode and stop every activity.
    StopDebug,
    /// An inbound feedback frame, as key/sample-text pairs.
    FeedbacksReceived(Vec<(Vec<u8>, Vec<u8>)>),
    /// An inbound parameters frame.
    ParametersReceived(ParamsFrameData),
}

impl TunerMsg {
    /// Scalar texts carried by a command must be number-shaped, and a
    /// received parameter payload well-formed.
    pub open spec fn wf(&self) -> bool {
        match self {
            TunerMsg::SetPropellerPowerPositive(_, v) => is_number_text(v@),
            TunerMsg::SetPropellerPowerNegative(_, v) => is_number_text(v@),
            TunerMsg::SetP(_, v) => is_number_text(v@),
            TunerMsg::SetI(_, v) => is_number_text(v@),
            TunerMsg::SetD(_, v) => is_number_text(v@),
            TunerMsg::SetPropellerPwmFreqCalibration(v) => is_number_text(v@),
            TunerMsg::ParametersReceived(d) => d.wf(),
            _ => true,
        }
    }
}

/// The long-lived tuning session.
pub struct TuningSession {
    pub config: SessionConfig,
    /// Whether a debug session (and so a writer mailbox) is active.
    pub debug_active: bool,
    /// Set once the session has been told to stop.
    pub stopped: bool,
}

/// The configuration after one command is folded in.
pub open spec fn spec_updated_config(s: TuningSession, msg: TunerMsg) -> crate::config::SessionView {
    let v = s.config@;
    match msg {
        TunerMsg::SetPropellerLowerDeadzone(i, value) => if (i as int) < v.propellers.len() {
            crate::config::SessionView {
                propellers: v.propellers.update(
                    i as int,
                    PropellerView {
                        deadzone_lower: value as int,
                        deadzone_upper: if v.propellers[i as int].deadzone_upper >= value as int {
                            v.propellers[i as int].deadzone_upper
                        } else {
                            value as int
                        },
                        ..v.propellers[i as int]
                    },
                ),
                ..v
            }
        } else {
            v
        },
        TunerMsg::SetPropellerUpperDeadzone(i, value) => if (i as int) < v.propellers.len() {
            crate::config::SessionView {
                propellers: v.propellers.update(
                    i as int,
                    PropellerView {
                        deadzone_upper: value as int,
                        deadzone_lower: if v.propellers[i as int].deadzone_lower <= value as int {
                            v.propellers[i as int].deadzone_lower
                        } else {
                            value as int
                        },
                        ..v.propellers[i as int]
                    },
                ),
                ..v
            }
        } else {
            v
        },
        TunerMsg::SetPropellerPowerPositive(i, value) => if (i as int) < v.propellers.len() {
            crate::config::SessionView {
                propellers: v.propellers.update(
                    i as int,
                    PropellerView { power_positive: value@, ..v.propellers[i as int] },
                ),
                ..v
            }
        } else {
            v
        },
        TunerMsg::SetPropellerPowerNegative(i, value) => if (i as int) < v.propellers.len() {
            crate::config::SessionView {
                propellers: v.propellers.update(
                    i as int,
                    PropellerView { power_negative: value@, ..v.propellers[i as int] },
                ),
                ..v
            }
        } else {
            v
        },
        TunerMsg::SetPropellerReversed(i, value) => if (i as int) < v.propellers.len() {
            crate::config::SessionView {
                propellers: v.propellers.update(
                    i as int,
                    PropellerView { reversed: value, ..v.propellers[i as int] },
                ),
                ..v
            }
        } else {
            v
        },
        TunerMsg::SetPropellerEnabled(i, value) => if (i as int) < v.propellers.len() {
            crate::config::SessionView {
                propellers: v.propellers.update(
                    i as int,
                    PropellerView { enabled: value, ..v.propellers[i as int] },
                ),
                ..v
            }
        } else {
            v
        },
        TunerMsg::SetP(i, value) => if (i as int) < v.control_loops.len() {
            crate::config::SessionView {
                control_loops: v.control_loops.update(
                    i as int,
                    LoopView {
                        gains: GainsView { p: value@, ..v.control_loops[i as int].gains },
                        ..v.control_loops[i as int]
                    },
                ),
                ..v
            }
        } else {
            v
        },
        TunerMsg::SetI(i, value) => if (i as int) < v.control_loops.len() {
            crate::config::SessionView {
                control_loops: v.control_loops.update(
                    i as int,
                    LoopView {
                        gains: GainsView { i: value@, ..v.control_loops[i as int].gains },
                        ..v.control_loops[i as int]
                    },
                ),
                ..v
            }
        } else {
            v
        },
        TunerMsg::SetD(i, value) => if (i as int) < v.control_loops.len() {
            crate::config::SessionView {
                control_loops: v.control_loops.update(
                    i as int,
                    LoopView {
                        gains: GainsView { d: value@, ..v.control_loops[i as int].gains },
                        ..v.control_loops[i as int]
                    },
                ),
                ..v
            }
        } else {
            v
        },
        TunerMsg::SetPropellerPwmFreqCalibration(value) => crate::config::SessionView {
            pwm_freq_calibration: value@,
            ..v
        },
        TunerMsg::FeedbacksReceived(entries) => spec_apply_feedbacks(
            v,
            entries_view(entries@),
            Seq::new(
                s.config.control_loops@.len(),
                |i: int| s.config.control_loops@[i].spec_capacity() as nat,
            ),
        ),
        TunerMsg::ParametersReceived(d) => spec_apply_session(v, d@),
        _ => v,
    }
}

/// The writer-directed commands one session command produces, in order.
pub open spec fn spec_update_commands(s: TuningSession, msg: TunerMsg) -> Seq<CommandView> {
    let v = s.config@;
    match msg {
        TunerMsg::SetPropellerLowerDeadzone(i, value) => if (i as int) < v.propellers.len()
            && s.debug_active {
            seq![CommandView::PreviewPropeller(v.propellers[i as int].key, value)]
        } else {
            Seq::empty()
        },
        TunerMsg::SetPropellerUpperDeadzone(i, value) => if (i as int) < v.propellers.len()
            && s.debug_active {
            seq![CommandView::PreviewPropeller(v.propellers[i as int].key, value)]
        } else {
            Seq::empty()
        },
        TunerMsg::SetP(i, value) => if (i as int) < v.control_loops.len() && s.debug_active {
            seq![
                CommandView::PreviewControlLoop(
                    v.control_loops[i as int].key,
                    GainsView { p: value@, ..v.control_loops[i as int].gains },
                ),
            ]
        } else {
            Seq::empty()
        },
        TunerMsg::SetI(i, value) => if (i as int) < v.control_loops.len() && s.debug_active {
            seq![
                CommandView::PreviewControlLoop(
                    v.control_loops[i as int].key,
                    GainsView { i: value@, ..v.control_loops[i as int].gains },
                ),
            ]
        } else {
            Seq::empty()
        },
        TunerMsg::SetD(i, value) => if (i as int) < v.control_loops.len() && s.debug_active {
            seq![
                CommandView::PreviewControlLoop(
                    v.control_loops[i as int].key,
                    GainsView { d: value@, ..v.control_loops[i as int].gains },
                ),
            ]
        } else {
            Seq::empty()
        },
        TunerMsg::ResetParameters => if s.debug_active {
            seq![CommandView::RequestParameters]
        } else {
            Seq::empty()
        },
        TunerMsg::ApplyParameters => if s.debug_active {
            seq![CommandView::UploadParameters(spec_snapshot(v))]
        } else {
            Seq::empty()
        },
        TunerMsg::StartDebug => seq![CommandView::SetDebugModeEnabled(true)],
        TunerMsg::StopDebug => if s.debug_active {
            seq![CommandView::SetDebugModeEnabled(false), CommandView::Terminate]
        } else {
            Seq::empty()
        },
        _ => Seq::empty(),
    }
}

impl TuningSession {
    pub open spec fn wf(&self) -> bool {
        self.config.wf()
    }

    /// A fresh session around a default configuration; each control loop
    /// keeps at most `history_capacity` feedback samples.
    pub fn new(history_capacity: usize) -> (r: Self)
        requires
            history_capacity >= 1,
        ensures
            r.wf(),
            r.config@ == crate::config::spec_default_session(),
            !r.debug_active,
            !r.stopped,
    {
        TuningSession {
            config: SessionConfig::new(history_capacity),
            debug_active: false,
            stopped: false,
        }
    }

    /// Folds one command into the session and returns the writer-directed
    /// commands it produces, in order.
    pub fn update(&mut self, msg: TunerMsg) -> (cmds: Vec<Command>)
        requires
            old(self).wf(),
            msg.wf(),
        ensures
            final(self).wf(),
            final(self).config@ == spec_updated_config(*old(self), msg),
            cmds@.map_values(|c: Command| c@) == spec_update_commands(*old(self), msg),
            forall|c: Command| cmds@.contains(c) ==> #[trigger] c.wf(),
            final(self).debug_active == (match msg {
                TunerMsg::StartDebug => true,
                TunerMsg::StopDebug => false,
                _ => old(self).debug_active,
            }),
            final(self).stopped == (match msg {
                TunerMsg::StopDebug => old(self).debug_active || old(self).stopped,
                _ => old(self).stopped,
            }),
            final(self).config.control_loops@.len() == old(self).config.control_loops@.len(),
            forall|i: int|
                0 <= i < final(self).config.control_loops@.len()
                    ==> (#[trigger] final(self).config.control_loops@[i]).spec_capacity()
                    == old(self).config.control_loops@[i].spec_capacity(),
    {
        let ghost target = spec_updated_config(*old(self), msg);
        let ghost target_cmds = spec_update_commands(*old(self), msg);
        let mut cmds: Vec<Command> = Vec::new();
        match msg {
            TunerMsg::SetPropellerLowerDeadzone(i, value) => {
                if i < self.config.propellers.len() {
                    proof {
                        assert(old(self).config.propellers@[i as int].wf());
                    }
                    let key = clone_bytes(&self.config.propellers[i].key);
                    let p = elem_at(&mut self.config.propellers, i);
                    p.set_deadzone_lower(value);
                    if self.debug_active {
                        cmds.push(Command::PreviewPropeller(key, value));
                    }
                }
            },
            TunerMsg::SetPropellerUpperDeadzone(i, value) => {
                if i < self.config.propellers.len() {
                    proof {
                        assert(old(self).config.propellers@[i as int].wf());
                    }
                    let key = clone_bytes(&self.config.propellers[i].key);
                    let p = elem_at(&mut self.config.propellers, i);
                    p.set_deadzone_upper(value);
                    if self.debug_active {
                        cmds.push(Command::PreviewPropeller(key, value));
                    }
                }
            },
            TunerMsg::SetPropellerPowerPositive(i, value) => {
                if i < self.config.propellers.len() {
                    proof {
                        assert(old(self).config.propellers@[i as int].wf());
                    }
                    let p = elem_at(&mut self.config.propellers, i);
                    p.set_power_positive(value);
                }
            },
            TunerMsg::SetPropellerPowerNegative(i, value) => {
                if i < self.config.propellers.len() {
                    proof {
                        assert(old(self).config.propellers@[i as int].wf());
                    }
                    let p = elem_at(&mut self.config.propellers, i);
                    p.set_power_negative(value);
                }
            },
            TunerMsg::SetPropellerReversed(i, value) => {
                if i < self.config.propellers.len() {
                    proof {
                        assert(old(self).config.propellers@[i as int].wf());
                    }
                    let p = elem_at(&mut self.config.propellers, i);
                    p.set_reversed(value);
                }
            },
            TunerMsg::SetPropellerEnabled(i, value) => {
                if i < self.config.propellers.len() {
                    proof {
                        assert(old(self).config.propellers@[i as int].wf());
                    }
                    let p = elem_at(&mut self.config.propellers, i);
                    p.set_enabled(value);
                }
            },
            TunerMsg::SetP(i, value) => {
                if i < self.config.control_loops.len() {
                    proof {
                        assert(old(self).config.control_loops@[i as int].wf());
                    }
                    let key = clone_bytes(&self.config.control_loops[i].key);
                    let c = elem_at(&mut self.config.control_loops, i);
                    c.set_p(value);
                    if self.debug_active {
                        let gains = c.gains.duplicate();
                        cmds.push(Command::PreviewControlLoop(key, gains));
                    }
                    proof {
                        assert forall|t: int|
                            0 <= t < self.config.control_loops@.len() implies (
                        #[trigger] self.config.control_loops@[t]).spec_capacity() == old(
                            self,
                        ).config.control_loops@[t].spec_capacity() by {
                            if t != i as int {
                                assert(self.config.control_loops@[t] == old(
                                    self,
                                ).config.control_loops@[t]);
                            }
                        }
                    }
                }
            },
            TunerMsg::SetI(i, value) => {
                if i < self.config.control_loops.len() {
                    proof {
                        assert(old(self).config.control_loops@[i as int].wf());
                    }
                    let key = clone_bytes(&self.config.control_loops[i].key);
                    let c = elem_at(&mut self.config.control_loops, i);
                    c.set_i(value);
                    if self.debug_active {
                        let gains = c.gains.duplicate();
                        cmds.push(Command::PreviewControlLoop(key, gains));
                    }
                    proof {
                        assert forall|t: int|
                            0 <= t < self.config.control_loops@.len() implies (
                        #[trigger] self.config.control_loops@[t]).spec_capacity() == old(
                            self,
                        ).config.control_loops@[t].spec_capacity() by {
                            if t != i as int {
                                assert(self.config.control_loops@[t] == old(
                                    self,
                                ).config.control_loops@[t]);
                            }
                        }
                    }
                }
            },
            TunerMsg::SetD(i, value) => {
                if i < self.config.control_loops.len() {
                    proof {
                        assert(old(self).config.control_loops@[i as int].wf());
                    }
                    let key = clone_bytes(&self.config.control_loops[i].key);
                    let c = elem_at(&mut self.config.control_loops, i);
                    c.set_d(value);
                    if self.debug_active {
                        let gains = c.gains.duplicate();
                        cmds.push(Command::PreviewControlLoop(key, gains));
                    }
                    proof {
                        assert forall|t: int|
                            0 <= t < self.config.control_loops@.len() implies (
                        #[trigger] self.config.control_loops@[t]).spec_capacity() == old(
                            self,
                        ).config.control_loops@[t].spec_capacity() by {
                            if t != i as int {
                                assert(self.config.control_loops@[t] == old(
                                    self,
                                ).config.control_loops@[t]);
                            }
                        }
                    }
                }
            },
            TunerMsg::SetPropellerPwmFreqCalibration(value) => {
                self.config.pwm_freq_calibration = value;
            },
            TunerMsg::ResetParameters => {
                if self.debug_active {
                    cmds.push(Command::RequestParameters);
                }
            },
            TunerMsg::ApplyParameters => {
                if self.debug_active {
                    let snapshot = self.config.snapshot();
                    cmds.push(Command::UploadParameters(snapshot));
                }
            },
            TunerMsg::StartDebug => {
                self.debug_active = true;
                cmds.push(Command::SetDebugModeEnabled(true));
            },
            TunerMsg::StopDebug => {
                if self.debug_active {
                    cmds.push(Command::SetDebugModeEnabled(false));
                    cmds.push(Command::Terminate);
                    self.debug_active = false;
                    self.stopped = true;
                }
            },
            TunerMsg::FeedbacksReceived(entries) => {
                self.config.apply_feedbacks(&entries);
            },
            TunerMsg::ParametersReceived(d) => {
                self.config.apply_parameters(&d);
            },
        }
        proof {
            assert(self.config@ =~= target);
            assert(cmds@.map_values(|c: Command| c@) =~= target_cmds);
        }
        cmds
    }
}

} // verus!
