//! In-memory device configuration: one record per propeller, one record per
//! control loop, and the session-wide snapshot that is exchanged with the
//! device on load and save.
//!
//! Scalar parameter values that the device reports and accepts as floating
//! point (powers, gains, the PWM calibration, feedback samples) are carried
//! as their wire text — a non-empty string of number bytes — so the session
//! logic never computes with them; it only stores and forwards them.

use vstd::prelude::*;

use crate::entries::{elem_at, entries_view, find_key, spec_lookup};
use crate::history::{FeedbackHistory, spec_ring_push};
use crate::text::{clone_bytes, is_key_text, is_number_text, lit_bytes};

verus! {

use vstd::string::StringSliceAdditionalSpecFns;

/// Default power scalar text for a new propeller ("0.75").
pub open spec fn default_power_text() -> Seq<u8> {
    seq![0x30u8, 0x2Eu8, 0x37u8, 0x35u8]
}

/// Default gain scalar text for a new control loop ("1.0").
pub open spec fn default_gain_text() -> Seq<u8> {
    seq![0x31u8, 0x2Eu8, 0x30u8]
}

/// Default PWM frequency calibration text ("0.0").
pub open spec fn default_calibration_text() -> Seq<u8> {
    seq![0x30u8, 0x2Eu8, 0x30u8]
}

/// The default scalar texts are well-formed number texts.
pub proof fn lemma_default_texts_wf()
    ensures
        is_number_text(default_power_text()),
        is_number_text(default_gain_text()),
        is_number_text(default_calibration_text()),
{
}

fn default_power() -> (r: Vec<u8>)
    ensures
        r@ == default_power_text(),
{
    let mut r: Vec<u8> = Vec::new();
    r.push(0x30);
    r.push(0x2E);
    r.push(0x37);
    r.push(0x35);
    proof {
        assert(r@ =~= default_power_text());
    }
    r
}

fn default_gain() -> (r: Vec<u8>)
    ensures
        r@ == default_gain_text(),
{
    let mut r: Vec<u8> = Vec::new();
    r.push(0x31);
    r.push(0x2E);
    r.push(0x30);
    proof {
        assert(r@ =~= default_gain_text());
    }
    r
}

fn default_calibration() -> (r: Vec<u8>)
    ensures
        r@ == default_calibration_text(),
{
    let mut r: Vec<u8> = Vec::new();
    r.push(0x30);
    r.push(0x2E);
    r.push(0x30);
    proof {
        assert(r@ =~= default_calibration_text());
    }
    r
}

/// Configuration of one propeller.
pub struct PropellerConfig {
    /// Identity key as it appears on the wire.
    pub key: Vec<u8>,
    pub deadzone_lower: i8,
    pub deadzone_upper: i8,
    pub power_positive: Vec<u8>,
    pub power_negative: Vec<u8>,
    pub enabled: bool,
    pub reversed: bool,
}

/// Mathematical value of a propeller configuration.
#[verifier::ext_equal]
pub struct PropellerView {
    pub key: Seq<u8>,
    pub deadzone_lower: int,
    pub deadzone_upper: int,
    pub power_positive: Seq<u8>,
    pub power_negative: Seq<u8>,
    pub enabled: bool,
    pub reversed: bool,
}

impl View for PropellerConfig {
    type V = PropellerView;

    open spec fn view(&self) -> PropellerView {
        PropellerView {
            key: self.key@,
            deadzone_lower: self.deadzone_lower as int,
            deadzone_upper: self.deadzone_upper as int,
            power_positive: self.power_positive@,
            power_negative: self.power_negative@,
            enabled: self.enabled,
            reversed: self.reversed,
        }
    }
}

/// A freshly created propeller record: neutral deadzones, default powers,
/// enabled and not reversed.
pub open spec fn spec_default_propeller(key: Seq<u8>) -> PropellerView {
    PropellerView {
        key,
        deadzone_lower: 0,
        deadzone_upper: 0,
        power_positive: default_power_text(),
        power_negative: default_power_text(),
        enabled: true,
        reversed: false,
    }
}

impl PropellerConfig {
    /// Well-formed: a proper key, ordered deadzone bounds, number-shaped
    /// power texts.
    pub open spec fn wf(&self) -> bool {
        &&& is_key_text(self@.key)
        &&& self@.deadzone_lower <= self@.deadzone_upper
        &&& is_number_text(self@.power_positive)
        &&& is_number_text(self@.power_negative)
    }

    pub fn new(key: Vec<u8>) -> (r: Self)
        requires
            is_key_text(key@),
        ensures
            r@ == spec_default_propeller(key@),
            r.wf(),
    {
        let r = PropellerConfig {
            key,
            deadzone_lower: 0,
            deadzone_upper: 0,
            power_positive: default_power(),
            power_negative: default_power(),
            enabled: true,
            reversed: false,
        };
        proof {
            lemma_default_texts_wf();
            assert(r@ =~= spec_default_propeller(r.key@));
        }
        r
    }

    /// Sets the lower deadzone bound; if the new value lies above the current
    /// upper bound, the upper bound is pulled up to match it.
    pub fn set_deadzone_lower(&mut self, value: i8)
        requires
            old(self).wf(),
        ensures
            final(self).wf(),
            final(self)@ == (PropellerView {
                deadzone_lower: value as int,
                deadzone_upper: if old(self)@.deadzone_upper >= value as int {
                    old(self)@.deadzone_upper
                } else {
                    value as int
                },
                ..old(self)@
            }),
            final(self)@.deadzone_lower <= final(self)@.deadzone_upper,
    {
        self.deadzone_lower = value;
        if self.deadzone_upper < value {
            self.deadzone_upper = value;
        }
    }

    /// Sets the upper deadzone bound; if the new value lies below the current
    /// lower bound, the lower bound is pulled down to match it.
    pub fn set_deadzone_upper(&mut self, value: i8)
        requires
            old(self).wf(),
        ensures
            final(self).wf(),
            final(self)@ == (PropellerView {
                deadzone_upper: value as int,
                deadzone_lower: if old(self)@.deadzone_lower <= value as int {
                    old(self)@.deadzone_lower
                } else {
                    value as int
                },
                ..old(self)@
            }),
            final(self)@.deadzone_lower <= final(self)@.deadzone_upper,
    {
        self.deadzone_upper = value;
        if self.deadzone_lower > value {
            self.deadzone_lower = value;
        }
    }

    pub fn set_power_positive(&mut self, value: Vec<u8>)
        requires
            old(self).wf(),
            is_number_text(value@),
        ensures
            final(self).wf(),
            final(self)@ == (PropellerView { power_positive: value@, ..old(self)@ }),
    {
        self.power_positive = value;
    }

    pub fn set_power_negative(&mut self, value: Vec<u8>)
        requires
            old(self).wf(),
            is_number_text(value@),
        ensures
            final(self).wf(),
            final(self)@ == (PropellerView { power_negative: value@, ..old(self)@ }),
    {
        self.power_negative = value;
    }

    pub fn set_enabled(&mut self, enabled: bool)
        requires
            old(self).wf(),
        ensures
            final(self).wf(),
            final(self)@ == (PropellerView { enabled, ..old(self)@ }),
    {
        self.enabled = enabled;
    }

    pub fn set_reversed(&mut self, reversed: bool)
        requires
            old(self).wf(),
        ensures
            final(self).wf(),
            final(self)@ == (PropellerView { reversed, ..old(self)@ }),
    {
        self.reversed = reversed;
    }
}

/// Propeller fields of an inbound parameters frame, before they are folded
/// into the configuration. The two deadzone bounds arrive unordered.
pub struct PropellerParams {
    pub deadzone_lower: i8,
    pub deadzone_upper: i8,
    pub power_positive: Vec<u8>,
    pub power_negative: Vec<u8>,
    pub reversed: bool,
    pub enabled: bool,
}

/// Mathematical value of inbound propeller fields.
#[verifier::ext_equal]
pub struct PropellerParamsView {
    pub deadzone_lower: int,
    pub deadzone_upper: int,
    pub power_positive: Seq<u8>,
    pub power_negative: Seq<u8>,
    pub reversed: bool,
    pub enabled: bool,
}

impl View for PropellerParams {
    type V = PropellerParamsView;

    open spec fn view(&self) -> PropellerParamsView {
        PropellerParamsView {
            deadzone_lower: self.deadzone_lower as int,
            deadzone_upper: self.deadzone_upper as int,
            power_positive: self.power_positive@,
            power_negative: self.power_negative@,
            reversed: self.reversed,
            enabled: self.enabled,
        }
    }
}

impl PropellerParams {
    pub open spec fn wf(&self) -> bool {
        is_number_text(self@.power_positive) && is_number_text(self@.power_negative)
    }
}

/// A received propeller record folded into the local one: the deadzone pair
/// is reordered so the invariant holds, everything else is taken as sent,
/// and the identity key stays.
pub open spec fn spec_apply_propeller(c: PropellerView, p: PropellerParamsView) -> PropellerView {
    PropellerView {
        key: c.key,
        deadzone_lower: if p.deadzone_lower <= p.deadzone_upper {
            p.deadzone_lower
        } else {
            p.deadzone_upper
        },
        deadzone_upper: if p.deadzone_upper >= p.deadzone_lower {
            p.deadzone_upper
        } else {
            p.deadzone_lower
        },
        power_positive: p.power_positive,
        power_negative: p.power_negative,
        enabled: p.enabled,
        reversed: p.reversed,
    }
}

impl PropellerConfig {
    /// Folds an inbound propeller record into this configuration.
    pub fn apply_params(&mut self, p: &PropellerParams)
        requires
            old(self).wf(),
            p.wf(),
        ensures
            final(self).wf(),
            final(self)@ == spec_apply_propeller(old(self)@, p@),
    {
        let lower = if p.deadzone_lower <= p.deadzone_upper {
            p.deadzone_lower
        } else {
            p.deadzone_upper
        };
        let upper = if p.deadzone_upper >= p.deadzone_lower {
            p.deadzone_upper
        } else {
            p.deadzone_lower
        };
        self.deadzone_lower = lower;
        self.deadzone_upper = upper;
        self.power_positive = clone_bytes(&p.power_positive);
        self.power_negative = clone_bytes(&p.power_negative);
        self.reversed = p.reversed;
        self.enabled = p.enabled;
        proof {
            assert(self@ =~= spec_apply_propeller(old(self)@, p@));
        }
    }
}

/// The three gains of a control loop, as wire text.
pub struct LoopGains {
    pub p: Vec<u8>,
    pub i: Vec<u8>,
    pub d: Vec<u8>,
}

/// Mathematical value of a gain triple.
#[verifier::ext_equal]
pub struct GainsView {
    pub p: Seq<u8>,
    pub i: Seq<u8>,
    pub d: Seq<u8>,
}

impl View for LoopGains {
    type V = GainsView;

    open spec fn view(&self) -> GainsView {
        GainsView { p: self.p@, i: self.i@, d: self.d@ }
    }
}

impl LoopGains {
    pub open spec fn wf(&self) -> bool {
        is_number_text(self@.p) && is_number_text(self@.i) && is_number_text(self@.d)
    }

    /// An independent copy of the triple.
    pub fn duplicate(&self) -> (r: LoopGains)
        ensures
            r@ == self@,
    {
        let r = LoopGains {
            p: clone_bytes(&self.p),
            i: clone_bytes(&self.i),
            d: clone_bytes(&self.d),
        };
        proof {
            assert(r@ =~= self@);
        }
        r
    }
}

/// Configuration of one control loop: its gains plus the bounded history of
/// recent feedback samples.
pub struct ControlLoopConfig {
    pub key: Vec<u8>,
    pub gains: LoopGains,
    pub feedbacks: FeedbackHistory<Vec<u8>>,
}

/// Mathematical value of a control loop configuration.
#[verifier::ext_equal]
pub struct LoopView {
    pub key: Seq<u8>,
    pub gains: GainsView,
    pub feedbacks: Seq<Seq<u8>>,
}

impl View for ControlLoopConfig {
    type V = LoopView;

    open spec fn view(&self) -> LoopView {
        LoopView {
            key: self.key@,
            gains: self.gains@,
            feedbacks: self.feedbacks@.map_values(|v: Vec<u8>| v@),
        }
    }
}

impl ControlLoopConfig {
    pub open spec fn wf(&self) -> bool {
        is_key_text(self@.key) && self.gains.wf() && self.feedbacks.wf()
    }

    /// The history capacity this loop was created with.
    pub open spec fn spec_capacity(&self) -> usize {
        self.feedbacks.spec_capacity()
    }

    pub fn new(key: Vec<u8>, history_capacity: usize) -> (r: Self)
        requires
            is_key_text(key@),
            history_capacity >= 1,
        ensures
            r.wf(),
            r@.key == key@,
            r@.gains == (GainsView {
                p: default_gain_text(),
                i: default_gain_text(),
                d: default_gain_text(),
            }),
            r@.feedbacks == Seq::<Seq<u8>>::empty(),
            r.spec_capacity() == history_capacity,
    {
        let r = ControlLoopConfig {
            key,
            gains: LoopGains { p: default_gain(), i: default_gain(), d: default_gain() },
            feedbacks: FeedbackHistory::new(history_capacity),
        };
        proof {
            lemma_default_texts_wf();
            assert(r@.feedbacks =~= Seq::<Seq<u8>>::empty());
        }
        r
    }

    pub fn set_p(&mut self, value: Vec<u8>)
        requires
            old(self).wf(),
            is_number_text(value@),
        ensures
            final(self).wf(),
            final(self)@ == (LoopView {
                gains: GainsView { p: value@, ..old(self)@.gains },
                ..old(self)@
            }),
            final(self).spec_capacity() == old(self).spec_capacity(),
    {
        self.gains.p = value;
        proof {
            assert(self@ =~= (LoopView {
                gains: GainsView { p: value@, ..old(self)@.gains },
                ..old(self)@
            }));
        }
    }

    pub fn set_i(&mut self, value: Vec<u8>)
        requires
            old(self).wf(),
            is_number_text(value@),
        ensures
            final(self).wf(),
            final(self)@ == (LoopView {
                gains: GainsView { i: value@, ..old(self)@.gains },
                ..old(self)@
            }),
            final(self).spec_capacity() == old(self).spec_capacity(),
    {
        self.gains.i = value;
        proof {
            assert(self@ =~= (LoopView {
                gains: GainsView { i: value@, ..old(self)@.gains },
                ..old(self)@
            }));
        }
    }

    pub fn set_d(&mut self, value: Vec<u8>)
        requires
            old(self).wf(),
            is_number_text(value@),
        ensures
            final(self).wf(),
            final(self)@ == (LoopView {
                gains: GainsView { d: value@, ..old(self)@.gains },
                ..old(self)@
            }),
            final(self).spec_capacity() == old(self).spec_capacity(),
    {
        self.gains.d = value;
        proof {
            assert(self@ =~= (LoopView {
                gains: GainsView { d: value@, ..old(self)@.gains },
                ..old(self)@
            }));
        }
    }

    /// Replaces the gains from an inbound parameters frame; the feedback
    /// history is not touched by a parameters frame.
    pub fn apply_gains(&mut self, g: &LoopGains)
        requires
            old(self).wf(),
            g.wf(),
        ensures
            final(self).wf(),
            final(self)@ == (LoopView { gains: g@, ..old(self)@ }),
            final(self).spec_capacity() == old(self).spec_capacity(),
    {
        self.gains = g.duplicate();
        proof {
            assert(self@ =~= (LoopView { gains: g@, ..old(self)@ }));
        }
    }

    /// Records one feedback sample in the bounded history.
    pub fn push_feedback(&mut self, sample: Vec<u8>)
        requires
            old(self).wf(),
        ensures
            final(self).wf(),
            final(self)@ == (LoopView {
                feedbacks: spec_ring_push(
                    old(self)@.feedbacks,
                    old(self).spec_capacity() as nat,
                    sample@,
                ),
                ..old(self)@
            }),
            final(self).spec_capacity() == old(self).spec_capacity(),
    {
        let ghost old_feedbacks = self.feedbacks@;
        let ghost cap = self.feedbacks.spec_capacity() as nat;
        proof {
            self.feedbacks.lemma_wf();
        }
        self.feedbacks.push(sample);
        proof {
            let f = |v: Vec<u8>| v@;
            if old_feedbacks.len() < cap {
                assert(self.feedbacks@.map_values(f) =~= old_feedbacks.map_values(f).push(
                    sample@,
                ));
            } else {
                assert(self.feedbacks@.map_values(f) =~= old_feedbacks.map_values(f).subrange(
                    1,
                    old_feedbacks.len() as int,
                ).push(sample@));
            }
            assert(self@ =~= (LoopView {
                feedbacks: spec_ring_push(old(self)@.feedbacks, cap, sample@),
                ..old(self)@
            }));
        }
    }
}

/// The propeller identities every session starts with.
pub open spec fn default_propeller_keys() -> Seq<Seq<u8>> {
    seq![
        "front_left".spec_bytes(),
        "front_right".spec_bytes(),
        "back_left".spec_bytes(),
        "back_right".spec_bytes(),
        "center_left".spec_bytes(),
        "center_right".spec_bytes(),
    ]
}

/// The control-loop identities every session starts with.
pub open spec fn default_control_loop_keys() -> Seq<Seq<u8>> {
    seq!["depth_lock".spec_bytes(), "direction_lock".spec_bytes()]
}

/// The default identity keys are well-formed key texts.
pub proof fn lemma_default_keys_wf()
    ensures
        is_key_text("front_left".spec_bytes()),
        is_key_text("front_right".spec_bytes()),
        is_key_text("back_left".spec_bytes()),
        is_key_text("back_right".spec_bytes()),
        is_key_text("center_left".spec_bytes()),
        is_key_text("center_right".spec_bytes()),
        is_key_text("depth_lock".spec_bytes()),
        is_key_text("direction_lock".spec_bytes()),
        forall|i: int|
            0 <= i < default_propeller_keys().len() ==> is_key_text(
                #[trigger] default_propeller_keys()[i],
            ),
        forall|i: int|
            0 <= i < default_control_loop_keys().len() ==> is_key_text(
                #[trigger] default_control_loop_keys()[i],
            ),
{
    broadcast use vstd::string::is_ascii_spec_bytes;

    reveal_strlit("front_left");
    reveal_strlit("front_right");
    reveal_strlit("back_left");
    reveal_strlit("back_right");
    reveal_strlit("center_left");
    reveal_strlit("center_right");
    reveal_strlit("depth_lock");
    reveal_strlit("direction_lock");
    assert(vstd::string::is_ascii("front_left"));
    assert(vstd::string::is_ascii("front_right"));
    assert(vstd::string::is_ascii("back_left"));
    assert(vstd::string::is_ascii("back_right"));
    assert(vstd::string::is_ascii("center_left"));
    assert(vstd::string::is_ascii("center_right"));
    assert(vstd::string::is_ascii("depth_lock"));
    assert(vstd::string::is_ascii("direction_lock"));
    assert(is_key_text("front_left".spec_bytes()));
    assert(is_key_text("front_right".spec_bytes()));
    assert(is_key_text("back_left".spec_bytes()));
    assert(is_key_text("back_right".spec_bytes()));
    assert(is_key_text("center_left".spec_bytes()));
    assert(is_key_text("center_right".spec_bytes()));
    assert(is_key_text("depth_lock".spec_bytes()));
    assert(is_key_text("direction_lock".spec_bytes()));
}

/// The full parameter payload as it crosses the wire, in either direction:
/// the global calibration scalar, the propeller records and the control-loop
/// gain records, each keyed by identity.
pub struct ParamsFrameData {
    pub pwm_freq_calibration: Vec<u8>,
    pub propellers: Vec<(Vec<u8>, PropellerParams)>,
    pub control_loops: Vec<(Vec<u8>, LoopGains)>,
}

/// Mathematical value of a parameter payload.
#[verifier::ext_equal]
pub struct ParamsFrameView {
    pub pwm_freq_calibration: Seq<u8>,
    pub propellers: Seq<(Seq<u8>, PropellerParamsView)>,
    pub control_loops: Seq<(Seq<u8>, GainsView)>,
}

impl View for ParamsFrameData {
    type V = ParamsFrameView;

    open spec fn view(&self) -> ParamsFrameView {
        ParamsFrameView {
            pwm_freq_calibration: self.pwm_freq_calibration@,
            propellers: entries_view(self.propellers@),
            control_loops: entries_view(self.control_loops@),
        }
    }
}

impl ParamsFrameData {
    pub open spec fn wf(&self) -> bool {
        &&& is_number_text(self@.pwm_freq_calibration)
        &&& forall|i: int|
            0 <= i < self.propellers@.len() ==> is_key_text(#[trigger] self.propellers@[i].0@)
                && self.propellers@[i].1.wf()
        &&& forall|i: int|
            0 <= i < self.control_loops@.len() ==> is_key_text(
                #[trigger] self.control_loops@[i].0@,
            ) && self.control_loops@[i].1.wf()
    }
}

/// The authoritative session snapshot: the calibration scalar and the two
/// configuration sets, keyed by identity.
pub struct SessionConfig {
    pub pwm_freq_calibration: Vec<u8>,
    pub propellers: Vec<PropellerConfig>,
    pub control_loops: Vec<ControlLoopConfig>,
}

/// Mathematical value of the session snapshot.
#[verifier::ext_equal]
pub struct SessionView {
    pub pwm_freq_calibration: Seq<u8>,
    pub propellers: Seq<PropellerView>,
    pub control_loops: Seq<LoopView>,
}

impl View for SessionConfig {
    type V = SessionView;

    open spec fn view(&self) -> SessionView {
        SessionView {
            pwm_freq_calibration: self.pwm_freq_calibration@,
            propellers: self.propellers@.map_values(|p: PropellerConfig| p@),
            control_loops: self.control_loops@.map_values(|c: ControlLoopConfig| c@),
        }
    }
}

/// The configuration every session starts from: calibration zero, the six
/// default propellers and the two default control loops.
pub open spec fn spec_default_session() -> SessionView {
    SessionView {
        pwm_freq_calibration: default_calibration_text(),
        propellers: Seq::new(
            default_propeller_keys().len(),
            |i: int| spec_default_propeller(default_propeller_keys()[i]),
        ),
        control_loops: Seq::new(
            default_control_loop_keys().len(),
            |i: int|
                LoopView {
                    key: default_control_loop_keys()[i],
                    gains: GainsView {
                        p: default_gain_text(),
                        i: default_gain_text(),
                        d: default_gain_text(),
                    },
                    feedbacks: Seq::empty(),
                },
        ),
    }
}

impl SessionConfig {
    pub open spec fn wf(&self) -> bool {
        &&& is_number_text(self@.pwm_freq_calibration)
        &&& forall|i: int| 0 <= i < self.propellers@.len() ==> (#[trigger] self.propellers@[i]).wf()
        &&& forall|i: int|
            0 <= i < self.control_loops@.len() ==> (#[trigger] self.control_loops@[i]).wf()
    }

    /// A fresh session configuration; every control loop keeps at most
    /// `history_capacity` feedback samples.
    pub fn new(history_capacity: usize) -> (r: Self)
        requires
            history_capacity >= 1,
        ensures
            r.wf(),
            r@ == spec_default_session(),
            forall|i: int|
                0 <= i < r.control_loops@.len() ==> (#[trigger] r.control_loops@[i]).spec_capacity()
                    == history_capacity,
    {
        proof {
            lemma_default_keys_wf();
            lemma_default_texts_wf();
        }
        let mut propellers: Vec<PropellerConfig> = Vec::new();
        propellers.push(PropellerConfig::new(lit_bytes("front_left")));
        propellers.push(PropellerConfig::new(lit_bytes("front_right")));
        propellers.push(PropellerConfig::new(lit_bytes("back_left")));
        propellers.push(PropellerConfig::new(lit_bytes("back_right")));
        propellers.push(PropellerConfig::new(lit_bytes("center_left")));
        propellers.push(PropellerConfig::new(lit_bytes("center_right")));
        let mut control_loops: Vec<ControlLoopConfig> = Vec::new();
        control_loops.push(ControlLoopConfig::new(lit_bytes("depth_lock"), history_capacity));
        control_loops.push(ControlLoopConfig::new(lit_bytes("direction_lock"), history_capacity));
        let r = SessionConfig {
            pwm_freq_calibration: default_calibration(),
            propellers,
            control_loops,
        };
        proof {
            assert(r@.propellers =~= spec_default_session().propellers);
            assert(r@.control_loops =~= spec_default_session().control_loops);
            assert(r@ =~= spec_default_session());
        }
        r
    }

    /// The identity keys of all propellers, in order.
    pub fn propeller_keys(&self) -> (r: Vec<Vec<u8>>)
        ensures
            r@.map_values(|k: Vec<u8>| k@) == self@.propellers.map_values(
                |p: PropellerView| p.key,
            ),
    {
        let mut r: Vec<Vec<u8>> = Vec::new();
        let mut i: usize = 0;
        while i < self.propellers.len()
            invariant
                0 <= i <= self.propellers@.len(),
                r@.len() == i,
                forall|j: int| 0 <= j < i ==> (#[trigger] r@[j])@ == self.propellers@[j].key@,
            decreases self.propellers@.len() - i,
        {
            r.push(clone_bytes(&self.propellers[i].key));
            i = i + 1;
        }
        proof {
            assert(r@.map_values(|k: Vec<u8>| k@) =~= self@.propellers.map_values(
                |p: PropellerView| p.key,
            ));
        }
        r
    }

    /// The full outbound parameter payload for an apply/save.
    pub fn snapshot(&self) -> (r: ParamsFrameData)
        requires
            self.wf(),
        ensures
            r.wf(),
            r@ == spec_snapshot(self@),
            r@.pwm_freq_calibration == self@.pwm_freq_calibration,
            r@.propellers.len() == self@.propellers.len(),
            forall|i: int|
                0 <= i < self@.propellers.len() ==> #[trigger] r@.propellers[i] == (
                self@.propellers[i].key,
                PropellerParamsView {
                    deadzone_lower: self@.propellers[i].deadzone_lower,
                    deadzone_upper: self@.propellers[i].deadzone_upper,
                    power_positive: self@.propellers[i].power_positive,
                    power_negative: self@.propellers[i].power_negative,
                    reversed: self@.propellers[i].reversed,
                    enabled: self@.propellers[i].enabled,
                },
            ),
            r@.control_loops.len() == self@.control_loops.len(),
            forall|i: int|
                0 <= i < self@.control_loops.len() ==> #[trigger] r@.control_loops[i] == (
                self@.control_loops[i].key,
                self@.control_loops[i].gains,
            ),
    {
        let mut propellers: Vec<(Vec<u8>, PropellerParams)> = Vec::new();
        let mut i: usize = 0;
        while i < self.propellers.len()
            invariant
                self.wf(),
                0 <= i <= self.propellers@.len(),
                propellers@.len() == i,
                forall|j: int|
                    0 <= j < i ==> (#[trigger] propellers@[j].0@, propellers@[j].1@) == (
                    self@.propellers[j].key,
                    PropellerParamsView {
                        deadzone_lower: self@.propellers[j].deadzone_lower,
                        deadzone_upper: self@.propellers[j].deadzone_upper,
                        power_positive: self@.propellers[j].power_positive,
                        power_negative: self@.propellers[j].power_negative,
                        reversed: self@.propellers[j].reversed,
                        enabled: self@.propellers[j].enabled,
                    },
                ) && propellers@[j].1.wf() && is_key_text(propellers@[j].0@),
            decreases self.propellers@.len() - i,
        {
            let p = &self.propellers[i];
            propellers.push(
                (
                    clone_bytes(&p.key),
                    PropellerParams {
                        deadzone_lower: p.deadzone_lower,
                        deadzone_upper: p.deadzone_upper,
                        power_positive: clone_bytes(&p.power_positive),
                        power_negative: clone_bytes(&p.power_negative),
                        reversed: p.reversed,
                        enabled: p.enabled,
                    },
                ),
            );
            i = i + 1;
        }
        let mut control_loops: Vec<(Vec<u8>, LoopGains)> = Vec::new();
        let mut i: usize = 0;
        while i < self.control_loops.len()
            invariant
                self.wf(),
                0 <= i <= self.control_loops@.len(),
                control_loops@.len() == i,
                forall|j: int|
                    0 <= j < i ==> (#[trigger] control_loops@[j].0@, control_loops@[j].1@) == (
                    self@.control_loops[j].key,
                    self@.control_loops[j].gains,
                ) && control_loops@[j].1.wf() && is_key_text(control_loops@[j].0@),
            decreases self.control_loops@.len() - i,
        {
            let c = &self.control_loops[i];
            control_loops.push((clone_bytes(&c.key), c.gains.duplicate()));
            i = i + 1;
        }
        let r = ParamsFrameData {
            pwm_freq_calibration: clone_bytes(&self.pwm_freq_calibration),
            propellers,
            control_loops,
        };
        proof {
            assert(r@.propellers =~= spec_snapshot(self@).propellers);
            assert(r@.control_loops =~= spec_snapshot(self@).control_loops);
            assert(r@ =~= spec_snapshot(self@));
        }
        r
    }
}

/// The parameter payload a session snapshot stands for on the wire.
pub open spec fn spec_snapshot(s: SessionView) -> ParamsFrameView {
    ParamsFrameView {
        pwm_freq_calibration: s.pwm_freq_calibration,
        propellers: Seq::new(
            s.propellers.len(),
            |i: int|
                (
                    s.propellers[i].key,
                    PropellerParamsView {
                        deadzone_lower: s.propellers[i].deadzone_lower,
                        deadzone_upper: s.propellers[i].deadzone_upper,
                        power_positive: s.propellers[i].power_positive,
                        power_negative: s.propellers[i].power_negative,
                        reversed: s.propellers[i].reversed,
                        enabled: s.propellers[i].enabled,
                    },
                ),
        ),
        control_loops: Seq::new(
            s.control_loops.len(),
            |i: int| (s.control_loops[i].key, s.control_loops[i].gains),
        ),
    }
}

/// A received parameter payload folded into the local configuration: the
/// calibration is replaced; each local record whose key the payload carries
/// takes the received fields; records the payload does not mention, and
/// every feedback history, stay as they were.
pub open spec fn spec_apply_session(s: SessionView, d: ParamsFrameView) -> SessionView {
    SessionView {
        pwm_freq_calibration: d.pwm_freq_calibration,
        propellers: Seq::new(
            s.propellers.len(),
            |i: int|
                match spec_lookup(d.propellers, s.propellers[i].key) {
                    Some(p) => spec_apply_propeller(s.propellers[i], p),
                    None => s.propellers[i],
                },
        ),
        control_loops: Seq::new(
            s.control_loops.len(),
            |i: int|
                match spec_lookup(d.control_loops, s.control_loops[i].key) {
                    Some(g) => LoopView { gains: g, ..s.control_loops[i] },
                    None => s.control_loops[i],
                },
        ),
    }
}

/// Feedback samples folded into the local configuration: each control loop
/// whose key the payload carries records one sample in its bounded history;
/// nothing else changes.
pub open spec fn spec_apply_feedbacks(
    s: SessionView,
    entries: Seq<(Seq<u8>, Seq<u8>)>,
    capacities: Seq<nat>,
) -> SessionView {
    SessionView {
        control_loops: Seq::new(
            s.control_loops.len(),
            |i: int|
                match spec_lookup(entries, s.control_loops[i].key) {
                    Some(v) => LoopView {
                        feedbacks: spec_ring_push(
                            s.control_loops[i].feedbacks,
                            capacities[i],
                            v,
                        ),
                        ..s.control_loops[i]
                    },
                    None => s.control_loops[i],
                },
        ),
        ..s
    }
}

impl SessionConfig {
    /// Folds an inbound parameters frame into the configuration.
    pub fn apply_parameters(&mut self, d: &ParamsFrameData)
        requires
            old(self).wf(),
            d.wf(),
        ensures
            final(self).wf(),
            final(self)@ == spec_apply_session(old(self)@, d@),
            final(self).propellers@.len() == old(self).propellers@.len(),
            final(self).control_loops@.len() == old(self).control_loops@.len(),
            forall|i: int|
                0 <= i < final(self).control_loops@.len() ==> (
                #[trigger] final(self).control_loops@[i]).spec_capacity() == old(self).control_loops@[i].spec_capacity(),
    {
        let ghost target = spec_apply_session(old(self)@, d@);
        self.pwm_freq_calibration = clone_bytes(&d.pwm_freq_calibration);
        let mut j: usize = 0;
        while j < self.propellers.len()
            invariant
                old(self).wf(),
                d.wf(),
                self.pwm_freq_calibration@ == d.pwm_freq_calibration@,
                self.propellers@.len() == old(self).propellers@.len(),
                0 <= j <= self.propellers@.len(),
                forall|k: int|
                    j <= k < self.propellers@.len() ==> #[trigger] self.propellers@[k] == old(self).propellers@[k],
                forall|k: int|
                    0 <= k < j ==> (#[trigger] self.propellers@[k])@ == target.propellers[k]
                        && self.propellers@[k].wf(),
                self.control_loops@ == old(self).control_loops@,
                target == spec_apply_session(old(self)@, d@),
            decreases self.propellers@.len() - j,
        {
            proof {
                assert(old(self)@.propellers[j as int] == old(self).propellers@[j as int]@);
                assert(old(self).propellers@[j as int].wf());
            }
            let found = find_key(&d.propellers, &self.propellers[j].key);
            match found {
                Some(i) => {
                    let p = elem_at(&mut self.propellers, j);
                    p.apply_params(&d.propellers[i].1);
                },
                None => {},
            }
            proof {
                assert(self.propellers@[j as int]@ == target.propellers[j as int]);
            }
            j = j + 1;
        }
        let mut j: usize = 0;
        while j < self.control_loops.len()
            invariant
                old(self).wf(),
                d.wf(),
                self.pwm_freq_calibration@ == d.pwm_freq_calibration@,
                self.propellers@.len() == old(self).propellers@.len(),
                forall|k: int|
                    0 <= k < self.propellers@.len() ==> (#[trigger] self.propellers@[k])@
                        == target.propellers[k] && self.propellers@[k].wf(),
                self.control_loops@.len() == old(self).control_loops@.len(),
                0 <= j <= self.control_loops@.len(),
                forall|k: int|
                    j <= k < self.control_loops@.len() ==> #[trigger] self.control_loops@[k] == old(self).control_loops@[k],
                forall|k: int|
                    0 <= k < j ==> (#[trigger] self.control_loops@[k])@ == target.control_loops[k]
                        && self.control_loops@[k].wf() && self.control_loops@[k].spec_capacity()
                        == old(self).control_loops@[k].spec_capacity(),
                target == spec_apply_session(old(self)@, d@),
            decreases self.control_loops@.len() - j,
        {
            proof {
                assert(old(self)@.control_loops[j as int] == old(self).control_loops@[j as int]@);
                assert(old(self).control_loops@[j as int].wf());
            }
            let found = find_key(&d.control_loops, &self.control_loops[j].key);
            match found {
                Some(i) => {
                    let c = elem_at(&mut self.control_loops, j);
                    c.apply_gains(&d.control_loops[i].1);
                },
                None => {},
            }
            proof {
                assert(self.control_loops@[j as int]@ == target.control_loops[j as int]);
            }
            j = j + 1;
        }
        proof {
            assert(self@.propellers =~= target.propellers);
            assert(self@.control_loops =~= target.control_loops);
            assert(self@ =~= target);
        }
    }

    /// Folds an inbound feedback frame into the configuration.
    pub fn apply_feedbacks(&mut self, entries: &Vec<(Vec<u8>, Vec<u8>)>)
        requires
            old(self).wf(),
        ensures
            final(self).wf(),
            final(self)@ == spec_apply_feedbacks(
                old(self)@,
                entries_view(entries@),
                Seq::new(
                    old(self).control_loops@.len(),
                    |i: int| old(self).control_loops@[i].spec_capacity() as nat,
                ),
            ),
            final(self).propellers@ == old(self).propellers@,
            final(self).control_loops@.len() == old(self).control_loops@.len(),
            forall|i: int|
                0 <= i < final(self).control_loops@.len() ==> (
                #[trigger] final(self).control_loops@[i]).spec_capacity() == old(self).control_loops@[i].spec_capacity(),
    {
        let ghost caps = Seq::new(
            old(self).control_loops@.len(),
            |i: int| old(self).control_loops@[i].spec_capacity() as nat,
        );
        let ghost target = spec_apply_feedbacks(old(self)@, entries_view(entries@), caps);
        let mut j: usize = 0;
        while j < self.control_loops.len()
            invariant
                old(self).wf(),
                self.pwm_freq_calibration@ == old(self).pwm_freq_calibration@,
                self.propellers@ == old(self).propellers@,
                self.control_loops@.len() == old(self).control_loops@.len(),
                0 <= j <= self.control_loops@.len(),
                forall|k: int|
                    j <= k < self.control_loops@.len() ==> #[trigger] self.control_loops@[k] == old(self).control_loops@[k],
                forall|k: int|
                    0 <= k < j ==> (#[trigger] self.control_loops@[k])@ == target.control_loops[k]
                        && self.control_loops@[k].wf() && self.control_loops@[k].spec_capacity()
                        == old(self).control_loops@[k].spec_capacity(),
                caps == Seq::new(
                    old(self).control_loops@.len(),
                    |i: int| old(self).control_loops@[i].spec_capacity() as nat,
                ),
                target == spec_apply_feedbacks(old(self)@, entries_view(entries@), caps),
            decreases self.control_loops@.len() - j,
        {
            proof {
                assert(old(self)@.control_loops[j as int] == old(self).control_loops@[j as int]@);
                assert(old(self).control_loops@[j as int].wf());
            }
            let found = find_key(entries, &self.control_loops[j].key);
            match found {
                Some(i) => {
                    let sample = clone_bytes(&entries[i].1);
                    let c = elem_at(&mut self.control_loops, j);
                    c.push_feedback(sample);
                },
                None => {},
            }
            proof {
                assert(self.control_loops@[j as int]@ == target.control_loops[j as int]);
            }
            j = j + 1;
        }
        proof {
            assert(self@.control_loops =~= target.control_loops);
            assert(self@ =~= target);
        }
    }
}

} // verus!
