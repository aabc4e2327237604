//! Frame codec, outbound side: every frame the session writes is one JSON
//! object serialized to raw bytes with no trailing delimiter. The spec
//! functions here give the exact byte sequence of each frame shape; the
//! encoders produce exactly those bytes.

use vstd::prelude::*;

use crate::config::{GainsView, LoopGains, ParamsFrameData, ParamsFrameView, PropellerParamsView};
use crate::entries::{entries_view, propeller_entries_view};
use crate::text::{
    append_lit, append_bytes, fmt_i8, fmt_u64, hex_digit, is_key_text, is_number_text,
    lemma_udec_digits, spec_hex, spec_idec, spec_udec,
};

verus! {

use vstd::string::StringSliceAdditionalSpecFns;

pub open spec fn b_quote() -> Seq<u8> {
    seq![0x22u8]
}

pub open spec fn b_colon() -> Seq<u8> {
    seq![0x3Au8]
}

pub open spec fn b_comma() -> Seq<u8> {
    seq![0x2Cu8]
}

pub open spec fn b_rbrace() -> Seq<u8> {
    seq![0x7Du8]
}

/// A key between quotes.
pub open spec fn quoted(s: Seq<u8>) -> Seq<u8> {
    b_quote() + s + b_quote()
}

/// JSON boolean text.
pub open spec fn spec_bool_text(b: bool) -> Seq<u8> {
    if b {
        "true".spec_bytes()
    } else {
        "false".spec_bytes()
    }
}

/// Object entries joined by commas.
pub open spec fn spec_join(parts: Seq<Seq<u8>>) -> Seq<u8>
    decreases parts.len(),
{
    if parts.len() == 0 {
        Seq::empty()
    } else if parts.len() == 1 {
        parts[0]
    } else {
        parts[0] + b_comma() + spec_join(parts.drop_first())
    }
}

/// Joining one more entry appends a comma (unless it is the first) and
/// then the entry.
pub proof fn lemma_join_push(parts: Seq<Seq<u8>>, x: Seq<u8>)
    ensures
        spec_join(parts.push(x)) == if parts.len() == 0 {
            x
        } else {
            spec_join(parts) + b_comma() + x
        },
    decreases parts.len(),
{
    if parts.len() == 0 {
        assert(parts.push(x).len() == 1);
        assert(parts.push(x)[0] == x);
    } else if parts.len() == 1 {
        assert(parts.push(x)[0] == parts[0]);
        assert(parts.push(x).drop_first() =~= seq![x]);
        assert(seq![x].len() == 1);
        assert(spec_join(seq![x]) == seq![x][0]);
        assert(seq![x][0] == x);
        assert(spec_join(parts.push(x)) == parts[0] + b_comma() + x);
    } else {
        assert(parts.push(x).drop_first() =~= parts.drop_first().push(x));
        lemma_join_push(parts.drop_first(), x);
        assert(parts.push(x)[0] == parts[0]);
        assert(spec_join(parts.push(x)) == parts[0] + b_comma() + (spec_join(parts.drop_first())
            + b_comma() + x));
        assert(parts[0] + b_comma() + (spec_join(parts.drop_first()) + b_comma() + x) =~= (parts[0]
            + b_comma() + spec_join(parts.drop_first())) + b_comma() + x);
    }
}

/// Load request frame.
pub open spec fn spec_load_frame() -> Seq<u8> {
    "{\"load_parameters\":{}}".spec_bytes()
}

/// Save request frame.
pub open spec fn spec_save_frame() -> Seq<u8> {
    "{\"save_parameters\":{}}".spec_bytes()
}

/// Debug-mode toggle frame.
pub open spec fn spec_debug_mode_frame(enabled: bool) -> Seq<u8> {
    "{\"set_debug_mode_enabled\":".spec_bytes() + spec_bool_text(enabled) + b_rbrace()
}

/// One `key: value` entry of a propeller preview object.
pub open spec fn spec_propeller_value_entry(e: (Seq<u8>, i8)) -> Seq<u8> {
    quoted(e.0) + b_colon() + spec_idec(e.1 as int)
}

/// Propeller preview frame: every entry maps an identity to a raw test value.
pub open spec fn spec_propeller_values_frame(m: Seq<(Seq<u8>, i8)>) -> Seq<u8> {
    "{\"set_propeller_values\":{".spec_bytes() + spec_join(
        m.map_values(|e: (Seq<u8>, i8)| spec_propeller_value_entry(e)),
    ) + "}}".spec_bytes()
}

/// A gain triple as a JSON object.
pub open spec fn spec_gains_obj(g: GainsView) -> Seq<u8> {
    "{\"p\":".spec_bytes() + g.p + ",\"i\":".spec_bytes() + g.i + ",\"d\":".spec_bytes() + g.d
        + b_rbrace()
}

/// One `key: gains` entry of a control-loop object.
pub open spec fn spec_control_loop_entry(e: (Seq<u8>, GainsView)) -> Seq<u8> {
    quoted(e.0) + b_colon() + spec_gains_obj(e.1)
}

/// Control-loop preview frame.
pub open spec fn spec_control_loops_frame(m: Seq<(Seq<u8>, GainsView)>) -> Seq<u8> {
    "{\"set_control_loop_parameters\":{".spec_bytes() + spec_join(
        m.map_values(|e: (Seq<u8>, GainsView)| spec_control_loop_entry(e)),
    ) + "}}".spec_bytes()
}

/// A full propeller record as a JSON object.
pub open spec fn spec_propeller_obj(p: PropellerParamsView) -> Seq<u8> {
    "{\"deadzone_lower\":".spec_bytes() + spec_idec(p.deadzone_lower)
        + ",\"deadzone_upper\":".spec_bytes() + spec_idec(p.deadzone_upper)
        + ",\"power_positive\":".spec_bytes() + p.power_positive
        + ",\"power_negative\":".spec_bytes() + p.power_negative + ",\"reversed\":".spec_bytes()
        + spec_bool_text(p.reversed) + ",\"enabled\":".spec_bytes() + spec_bool_text(p.enabled)
        + b_rbrace()
}

/// One `key: record` entry of the propeller parameter object.
pub open spec fn spec_propeller_param_entry(e: (Seq<u8>, PropellerParamsView)) -> Seq<u8> {
    quoted(e.0) + b_colon() + spec_propeller_obj(e.1)
}

/// Parameters frame: the authoritative snapshot sent to the device.
pub open spec fn spec_parameters_frame(d: ParamsFrameView) -> Seq<u8> {
    "{\"set_propeller_pwm_freq_calibration\":".spec_bytes() + d.pwm_freq_calibration
        + ",\"set_propeller_parameters\":{".spec_bytes() + spec_join(
        d.propellers.map_values(|e: (Seq<u8>, PropellerParamsView)| spec_propeller_param_entry(e)),
    ) + "},\"set_control_loop_parameters\":{".spec_bytes() + spec_join(
        d.control_loops.map_values(|e: (Seq<u8>, GainsView)| spec_control_loop_entry(e)),
    ) + "}}".spec_bytes()
}

/// Firmware upload header frame, sent once before the raw payload bytes.
pub open spec fn spec_firmware_header_frame(size: nat, md5_hex: Seq<u8>) -> Seq<u8> {
    "{\"firmware_update\":{\"size\":".spec_bytes() + spec_udec(size)
        + ",\"compression\":\"none\",\"md5\":\"".spec_bytes() + md5_hex + "\"}}".spec_bytes()
}

pub fn encode_load_frame() -> (r: Vec<u8>)
    ensures
        r@ == spec_load_frame(),
{
    let mut r: Vec<u8> = Vec::new();
    append_lit(&mut r, "{\"load_parameters\":{}}");
    proof {
        assert(r@ =~= spec_load_frame());
    }
    r
}

pub fn encode_save_frame() -> (r: Vec<u8>)
    ensures
        r@ == spec_save_frame(),
{
    let mut r: Vec<u8> = Vec::new();
    append_lit(&mut r, "{\"save_parameters\":{}}");
    proof {
        assert(r@ =~= spec_save_frame());
    }
    r
}

/// Appends JSON boolean text.
fn append_bool(out: &mut Vec<u8>, b: bool)
    ensures
        final(out)@ == old(out)@ + spec_bool_text(b),
{
    if b {
        append_lit(out, "true");
    } else {
        append_lit(out, "false");
    }
}

pub fn encode_debug_mode_frame(enabled: bool) -> (r: Vec<u8>)
    ensures
        r@ == spec_debug_mode_frame(enabled),
{
    let mut r: Vec<u8> = Vec::new();
    append_lit(&mut r, "{\"set_debug_mode_enabled\":");
    append_bool(&mut r, enabled);
    r.push(0x7D);
    proof {
        assert(r@ =~= spec_debug_mode_frame(enabled));
    }
    r
}

/// Appends `"key":` with the quotes and the colon.
fn append_quoted_key(out: &mut Vec<u8>, key: &Vec<u8>)
    ensures
        final(out)@ == old(out)@ + quoted(key@) + b_colon(),
{
    out.push(0x22);
    append_bytes(out, key.as_slice());
    out.push(0x22);
    out.push(0x3A);
    proof {
        assert(out@ =~= old(out)@ + quoted(key@) + b_colon());
    }
}

/// Appends the comma-joined entries of a propeller preview object.
fn append_propeller_value_entries(out: &mut Vec<u8>, m: &Vec<(Vec<u8>, i8)>)
    ensures
        final(out)@ == old(out)@ + spec_join(
            propeller_entries_view(m@).map_values(
                |e: (Seq<u8>, i8)| spec_propeller_value_entry(e),
            ),
        ),
{
    let ghost parts = propeller_entries_view(m@).map_values(
        |e: (Seq<u8>, i8)| spec_propeller_value_entry(e),
    );
    let mut i: usize = 0;
    while i < m.len()
        invariant
            0 <= i <= m@.len(),
            parts.len() == m@.len(),
            forall|j: int|
                0 <= j < m@.len() ==> #[trigger] parts[j] == spec_propeller_value_entry(
                    (m@[j].0@, m@[j].1),
                ),
            out@ == old(out)@ + spec_join(parts.subrange(0, i as int)),
        decreases m@.len() - i,
    {
        if i > 0 {
            out.push(0x2C);
        }
        append_quoted_key(out, &m[i].0);
        let mut num = fmt_i8(m[i].1);
        append_bytes(out, num.as_slice());
        proof {
            assert(parts.subrange(0, i + 1) =~= parts.subrange(0, i as int).push(
                parts[i as int],
            ));
            lemma_join_push(parts.subrange(0, i as int), parts[i as int]);
            assert(out@ =~= old(out)@ + spec_join(parts.subrange(0, i + 1)));
        }
        i = i + 1;
    }
    proof {
        assert(parts.subrange(0, m@.len() as int) =~= parts);
    }
}

pub fn encode_propeller_values_frame(m: &Vec<(Vec<u8>, i8)>) -> (r: Vec<u8>)
    ensures
        r@ == spec_propeller_values_frame(propeller_entries_view(m@)),
{
    let mut r: Vec<u8> = Vec::new();
    append_lit(&mut r, "{\"set_propeller_values\":{");
    append_propeller_value_entries(&mut r, m);
    append_lit(&mut r, "}}");
    proof {
        assert(r@ =~= spec_propeller_values_frame(propeller_entries_view(m@)));
    }
    r
}

/// Appends a gain triple as a JSON object.
fn append_gains_obj(out: &mut Vec<u8>, g: &LoopGains)
    ensures
        final(out)@ == old(out)@ + spec_gains_obj(g@),
{
    append_lit(out, "{\"p\":");
    append_bytes(out, g.p.as_slice());
    append_lit(out, ",\"i\":");
    append_bytes(out, g.i.as_slice());
    append_lit(out, ",\"d\":");
    append_bytes(out, g.d.as_slice());
    out.push(0x7D);
    proof {
        assert(out@ =~= old(out)@ + spec_gains_obj(g@));
    }
}

/// Appends the comma-joined entries of a control-loop object.
fn append_control_loop_entries(out: &mut Vec<u8>, m: &Vec<(Vec<u8>, LoopGains)>)
    ensures
        final(out)@ == old(out)@ + spec_join(
            entries_view(m@).map_values(|e: (Seq<u8>, GainsView)| spec_control_loop_entry(e)),
        ),
{
    let ghost parts = entries_view(m@).map_values(
        |e: (Seq<u8>, GainsView)| spec_control_loop_entry(e),
    );
    let mut i: usize = 0;
    while i < m.len()
        invariant
            0 <= i <= m@.len(),
            parts.len() == m@.len(),
            forall|j: int|
                0 <= j < m@.len() ==> #[trigger] parts[j] == spec_control_loop_entry(
                    (m@[j].0@, m@[j].1@),
                ),
            out@ == old(out)@ + spec_join(parts.subrange(0, i as int)),
        decreases m@.len() - i,
    {
        if i > 0 {
            out.push(0x2C);
        }
        append_quoted_key(out, &m[i].0);
        append_gains_obj(out, &m[i].1);
        proof {
            assert(parts.subrange(0, i + 1) =~= parts.subrange(0, i as int).push(
                parts[i as int],
            ));
            lemma_join_push(parts.subrange(0, i as int), parts[i as int]);
            assert(out@ =~= old(out)@ + spec_join(parts.subrange(0, i + 1)));
        }
        i = i + 1;
    }
    proof {
        assert(parts.subrange(0, m@.len() as int) =~= parts);
    }
}

pub fn encode_control_loops_frame(m: &Vec<(Vec<u8>, LoopGains)>) -> (r: Vec<u8>)
    ensures
        r@ == spec_control_loops_frame(entries_view(m@)),
{
    let mut r: Vec<u8> = Vec::new();
    append_lit(&mut r, "{\"set_control_loop_parameters\":{");
    append_control_loop_entries(&mut r, m);
    append_lit(&mut r, "}}");
    proof {
        assert(r@ =~= spec_control_loops_frame(entries_view(m@)));
    }
    r
}

/// Appends a full propeller record as a JSON object.
#[verifier::rlimit(100)]
fn append_propeller_obj(out: &mut Vec<u8>, p: &crate::config::PropellerParams)
    ensures
        final(out)@ == old(out)@ + spec_propeller_obj(p@),
{
    append_lit(out, "{\"deadzone_lower\":");
    let mut num = fmt_i8(p.deadzone_lower);
    append_bytes(out, num.as_slice());
    append_lit(out, ",\"deadzone_upper\":");
    let mut num = fmt_i8(p.deadzone_upper);
    append_bytes(out, num.as_slice());
    append_lit(out, ",\"power_positive\":");
    append_bytes(out, p.power_positive.as_slice());
    append_lit(out, ",\"power_negative\":");
    append_bytes(out, p.power_negative.as_slice());
    append_lit(out, ",\"reversed\":");
    append_bool(out, p.reversed);
    append_lit(out, ",\"enabled\":");
    append_bool(out, p.enabled);
    out.push(0x7D);
    proof {
        assert(out@ =~= old(out)@ + spec_propeller_obj(p@));
    }
}

/// Appends the comma-joined entries of the propeller parameter object.
fn append_propeller_param_entries(out: &mut Vec<u8>, m: &Vec<(Vec<u8>, crate::config::PropellerParams)>)
    ensures
        final(out)@ == old(out)@ + spec_join(
            entries_view(m@).map_values(
                |e: (Seq<u8>, PropellerParamsView)| spec_propeller_param_entry(e),
            ),
        ),
{
    let ghost parts = entries_view(m@).map_values(
        |e: (Seq<u8>, PropellerParamsView)| spec_propeller_param_entry(e),
    );
    let mut i: usize = 0;
    while i < m.len()
        invariant
            0 <= i <= m@.len(),
            parts.len() == m@.len(),
            forall|j: int|
                0 <= j < m@.len() ==> #[trigger] parts[j] == spec_propeller_param_entry(
                    (m@[j].0@, m@[j].1@),
                ),
            out@ == old(out)@ + spec_join(parts.subrange(0, i as int)),
        decreases m@.len() - i,
    {
        if i > 0 {
            out.push(0x2C);
        }
        append_quoted_key(out, &m[i].0);
        append_propeller_obj(out, &m[i].1);
        proof {
            assert(parts.subrange(0, i + 1) =~= parts.subrange(0, i as int).push(
                parts[i as int],
            ));
            lemma_join_push(parts.subrange(0, i as int), parts[i as int]);
            assert(out@ =~= old(out)@ + spec_join(parts.subrange(0, i + 1)));
        }
        i = i + 1;
    }
    proof {
        assert(parts.subrange(0, m@.len() as int) =~= parts);
    }
}

pub fn encode_parameters_frame(d: &ParamsFrameData) -> (r: Vec<u8>)
    ensures
        r@ == spec_parameters_frame(d@),
{
    let mut r: Vec<u8> = Vec::new();
    append_lit(&mut r, "{\"set_propeller_pwm_freq_calibration\":");
    append_bytes(&mut r, d.pwm_freq_calibration.as_slice());
    append_lit(&mut r, ",\"set_propeller_parameters\":{");
    append_propeller_param_entries(&mut r, &d.propellers);
    append_lit(&mut r, "},\"set_control_loop_parameters\":{");
    append_control_loop_entries(&mut r, &d.control_loops);
    append_lit(&mut r, "}}");
    proof {
        assert(r@ =~= spec_parameters_frame(d@));
    }
    r
}

pub fn encode_firmware_header_frame(size: usize, md5_hex: &Vec<u8>) -> (r: Vec<u8>)
    ensures
        r@ == spec_firmware_header_frame(size as nat, md5_hex@),
{
    let mut r: Vec<u8> = Vec::new();
    append_lit(&mut r, "{\"firmware_update\":{\"size\":");
    let mut num = crate::text::fmt_usize(size);
    append_bytes(&mut r, num.as_slice());
    append_lit(&mut r, ",\"compression\":\"none\",\"md5\":\"");
    append_bytes(&mut r, md5_hex.as_slice());
    append_lit(&mut r, "\"}}");
    proof {
        assert(r@ =~= spec_firmware_header_frame(size as nat, md5_hex@));
    }
    r
}

/// Free of the NUL byte that ends a frame on the wire. The protocol's
/// framing depends on it: a frame holding a NUL would be split early by the
/// receiver.
pub open spec fn nul_free(s: Seq<u8>) -> bool {
    forall|i: int| 0 <= i < s.len() ==> s[i] != 0
}

pub proof fn lemma_concat_nul_free(a: Seq<u8>, b: Seq<u8>)
    requires
        nul_free(a),
        nul_free(b),
    ensures
        nul_free(a + b),
{
    assert forall|i: int| 0 <= i < (a + b).len() implies (a + b)[i] != 0 by {
        if i < a.len() {
            assert((a + b)[i] == a[i]);
        } else {
            assert((a + b)[i] == b[i - a.len()]);
        }
    }
}

/// A key or a numeric scalar never holds a NUL: both character classes
/// exclude it.
pub proof fn lemma_text_nul_free(s: Seq<u8>)
    requires
        is_key_text(s) || is_number_text(s),
    ensures
        nul_free(s),
{
}

pub proof fn lemma_udec_nul_free(n: nat)
    ensures
        nul_free(spec_udec(n)),
{
    lemma_udec_digits(n);
}

pub proof fn lemma_idec_nul_free(v: int)
    ensures
        nul_free(spec_idec(v)),
{
    if v < 0 {
        lemma_udec_nul_free((0 - v) as nat);
        lemma_concat_nul_free(seq![0x2Du8], spec_udec((0 - v) as nat));
    } else {
        lemma_udec_nul_free(v as nat);
    }
}

pub proof fn lemma_hex_nul_free(s: Seq<u8>)
    ensures
        nul_free(spec_hex(s)),
{
    assert forall|i: int| 0 <= i < spec_hex(s).len() implies spec_hex(s)[i] != 0 by {
        let x = s[i / 2];
        assert(x >> 4 < 16 && x & 0xF < 16) by (bit_vector);
        let d = if i % 2 == 0 {
            x >> 4
        } else {
            x & 0xF
        };
        assert(hex_digit(d) != 0);
    }
}

pub proof fn lemma_join_nul_free(parts: Seq<Seq<u8>>)
    requires
        forall|i: int| 0 <= i < parts.len() ==> nul_free(#[trigger] parts[i]),
    ensures
        nul_free(spec_join(parts)),
    decreases parts.len(),
{
    if parts.len() > 1 {
        lemma_join_nul_free(parts.drop_first());
        lemma_concat_nul_free(parts[0], b_comma());
        lemma_concat_nul_free(parts[0] + b_comma(), spec_join(parts.drop_first()));
    }
}

pub proof fn lemma_quoted_nul_free(key: Seq<u8>)
    requires
        nul_free(key),
    ensures
        nul_free(quoted(key)),
{
    lemma_concat_nul_free(b_quote(), key);
    lemma_concat_nul_free(b_quote() + key, b_quote());
}

/// The fixed JSON tokens of every frame shape are NUL-free.
proof fn lemma_frame_literals_nul_free()
    ensures
        nul_free("{\"load_parameters\":{}}".spec_bytes()),
        nul_free("{\"save_parameters\":{}}".spec_bytes()),
        nul_free("{\"set_debug_mode_enabled\":".spec_bytes()),
        nul_free("true".spec_bytes()),
        nul_free("false".spec_bytes()),
        nul_free("{\"set_propeller_values\":{".spec_bytes()),
        nul_free("{\"set_control_loop_parameters\":{".spec_bytes()),
        nul_free("}}".spec_bytes()),
        nul_free("{\"p\":".spec_bytes()),
        nul_free(",\"i\":".spec_bytes()),
        nul_free(",\"d\":".spec_bytes()),
        nul_free("{\"deadzone_lower\":".spec_bytes()),
        nul_free(",\"deadzone_upper\":".spec_bytes()),
        nul_free(",\"power_positive\":".spec_bytes()),
        nul_free(",\"power_negative\":".spec_bytes()),
        nul_free(",\"reversed\":".spec_bytes()),
        nul_free(",\"enabled\":".spec_bytes()),
        nul_free("{\"set_propeller_pwm_freq_calibration\":".spec_bytes()),
        nul_free(",\"set_propeller_parameters\":{".spec_bytes()),
        nul_free("},\"set_control_loop_parameters\":{".spec_bytes()),
        nul_free("{\"firmware_update\":{\"size\":".spec_bytes()),
        nul_free(",\"compression\":\"none\",\"md5\":\"".spec_bytes()),
        nul_free("\"}}".spec_bytes()),
{
    broadcast use vstd::string::is_ascii_spec_bytes;

    reveal_strlit("{\"load_parameters\":{}}");
    reveal_strlit("{\"save_parameters\":{}}");
    reveal_strlit("{\"set_debug_mode_enabled\":");
    reveal_strlit("true");
    reveal_strlit("false");
    reveal_strlit("{\"set_propeller_values\":{");
    reveal_strlit("{\"set_control_loop_parameters\":{");
    reveal_strlit("}}");
    reveal_strlit("{\"p\":");
    reveal_strlit(",\"i\":");
    reveal_strlit(",\"d\":");
    reveal_strlit("{\"deadzone_lower\":");
    reveal_strlit(",\"deadzone_upper\":");
    reveal_strlit(",\"power_positive\":");
    reveal_strlit(",\"power_negative\":");
    reveal_strlit(",\"reversed\":");
    reveal_strlit(",\"enabled\":");
    reveal_strlit("{\"set_propeller_pwm_freq_calibration\":");
    reveal_strlit(",\"set_propeller_parameters\":{");
    reveal_strlit("},\"set_control_loop_parameters\":{");
    reveal_strlit("{\"firmware_update\":{\"size\":");
    reveal_strlit(",\"compression\":\"none\",\"md5\":\"");
    reveal_strlit("\"}}");
    assert(vstd::string::is_ascii("{\"load_parameters\":{}}"));
    assert(vstd::string::is_ascii("{\"save_parameters\":{}}"));
    assert(vstd::string::is_ascii("{\"set_debug_mode_enabled\":"));
    assert(vstd::string::is_ascii("true"));
    assert(vstd::string::is_ascii("false"));
    assert(vstd::string::is_ascii("{\"set_propeller_values\":{"));
    assert(vstd::string::is_ascii("{\"set_control_loop_parameters\":{"));
    assert(vstd::string::is_ascii("}}"));
    assert(vstd::string::is_ascii("{\"p\":"));
    assert(vstd::string::is_ascii(",\"i\":"));
    assert(vstd::string::is_ascii(",\"d\":"));
    assert(vstd::string::is_ascii("{\"deadzone_lower\":"));
    assert(vstd::string::is_ascii(",\"deadzone_upper\":"));
    assert(vstd::string::is_ascii(",\"power_positive\":"));
    assert(vstd::string::is_ascii(",\"power_negative\":"));
    assert(vstd::string::is_ascii(",\"reversed\":"));
    assert(vstd::string::is_ascii(",\"enabled\":"));
    assert(vstd::string::is_ascii("{\"set_propeller_pwm_freq_calibration\":"));
    assert(vstd::string::is_ascii(",\"set_propeller_parameters\":{"));
    assert(vstd::string::is_ascii("},\"set_control_loop_parameters\":{"));
    assert(vstd::string::is_ascii("{\"firmware_update\":{\"size\":"));
    assert(vstd::string::is_ascii(",\"compression\":\"none\",\"md5\":\""));
    assert(vstd::string::is_ascii("\"}}"));
}

pub proof fn lemma_bool_text_nul_free(b: bool)
    ensures
        nul_free(spec_bool_text(b)),
{
    lemma_frame_literals_nul_free();
}

/// The load and save frames are NUL-free.
pub proof fn lemma_request_frames_nul_free()
    ensures
        nul_free(spec_load_frame()),
        nul_free(spec_save_frame()),
{
    lemma_frame_literals_nul_free();
}

/// The debug-mode toggle frame is NUL-free.
pub proof fn lemma_debug_mode_frame_nul_free(enabled: bool)
    ensures
        nul_free(spec_debug_mode_frame(enabled)),
{
    lemma_frame_literals_nul_free();
    lemma_bool_text_nul_free(enabled);
    lemma_concat_nul_free("{\"set_debug_mode_enabled\":".spec_bytes(), spec_bool_text(enabled));
    lemma_concat_nul_free(
        "{\"set_debug_mode_enabled\":".spec_bytes() + spec_bool_text(enabled),
        b_rbrace(),
    );
}

/// A propeller preview frame over proper keys is NUL-free.
pub proof fn lemma_propeller_values_frame_nul_free(m: Seq<(Seq<u8>, i8)>)
    requires
        forall|i: int| 0 <= i < m.len() ==> is_key_text((#[trigger] m[i]).0),
    ensures
        nul_free(spec_propeller_values_frame(m)),
{
    lemma_frame_literals_nul_free();
    let parts = m.map_values(|e: (Seq<u8>, i8)| spec_propeller_value_entry(e));
    assert forall|i: int| 0 <= i < parts.len() implies nul_free(#[trigger] parts[i]) by {
        lemma_text_nul_free(m[i].0);
        lemma_quoted_nul_free(m[i].0);
        lemma_idec_nul_free(m[i].1 as int);
        lemma_concat_nul_free(quoted(m[i].0), b_colon());
        lemma_concat_nul_free(quoted(m[i].0) + b_colon(), spec_idec(m[i].1 as int));
    }
    lemma_join_nul_free(parts);
    lemma_concat_nul_free("{\"set_propeller_values\":{".spec_bytes(), spec_join(parts));
    lemma_concat_nul_free(
        "{\"set_propeller_values\":{".spec_bytes() + spec_join(parts),
        "}}".spec_bytes(),
    );
}

/// A gain triple object over numeric texts is NUL-free.
pub proof fn lemma_gains_obj_nul_free(g: GainsView)
    requires
        is_number_text(g.p),
        is_number_text(g.i),
        is_number_text(g.d),
    ensures
        nul_free(spec_gains_obj(g)),
{
    lemma_frame_literals_nul_free();
    lemma_text_nul_free(g.p);
    lemma_text_nul_free(g.i);
    lemma_text_nul_free(g.d);
    lemma_concat_nul_free("{\"p\":".spec_bytes(), g.p);
    lemma_concat_nul_free("{\"p\":".spec_bytes() + g.p, ",\"i\":".spec_bytes());
    lemma_concat_nul_free("{\"p\":".spec_bytes() + g.p + ",\"i\":".spec_bytes(), g.i);
    lemma_concat_nul_free(
        "{\"p\":".spec_bytes() + g.p + ",\"i\":".spec_bytes() + g.i,
        ",\"d\":".spec_bytes(),
    );
    lemma_concat_nul_free(
        "{\"p\":".spec_bytes() + g.p + ",\"i\":".spec_bytes() + g.i + ",\"d\":".spec_bytes(),
        g.d,
    );
    lemma_concat_nul_free(
        "{\"p\":".spec_bytes() + g.p + ",\"i\":".spec_bytes() + g.i + ",\"d\":".spec_bytes()
            + g.d,
        b_rbrace(),
    );
}

/// A control-loop preview frame over proper keys and gains is NUL-free.
pub proof fn lemma_control_loops_frame_nul_free(m: Seq<(Seq<u8>, GainsView)>)
    requires
        forall|i: int|
            0 <= i < m.len() ==> is_key_text((#[trigger] m[i]).0) && is_number_text(m[i].1.p)
                && is_number_text(m[i].1.i) && is_number_text(m[i].1.d),
    ensures
        nul_free(spec_control_loops_frame(m)),
{
    lemma_frame_literals_nul_free();
    let parts = m.map_values(|e: (Seq<u8>, GainsView)| spec_control_loop_entry(e));
    assert forall|i: int| 0 <= i < parts.len() implies nul_free(#[trigger] parts[i]) by {
        lemma_text_nul_free(m[i].0);
        lemma_quoted_nul_free(m[i].0);
        lemma_gains_obj_nul_free(m[i].1);
        lemma_concat_nul_free(quoted(m[i].0), b_colon());
        lemma_concat_nul_free(quoted(m[i].0) + b_colon(), spec_gains_obj(m[i].1));
    }
    lemma_join_nul_free(parts);
    lemma_concat_nul_free("{\"set_control_loop_parameters\":{".spec_bytes(), spec_join(parts));
    lemma_concat_nul_free(
        "{\"set_control_loop_parameters\":{".spec_bytes() + spec_join(parts),
        "}}".spec_bytes(),
    );
}

/// A full propeller record object over numeric texts is NUL-free.
pub proof fn lemma_propeller_obj_nul_free(p: PropellerParamsView)
    requires
        is_number_text(p.power_positive),
        is_number_text(p.power_negative),
    ensures
        nul_free(spec_propeller_obj(p)),
{
    lemma_frame_literals_nul_free();
    lemma_idec_nul_free(p.deadzone_lower);
    lemma_idec_nul_free(p.deadzone_upper);
    lemma_text_nul_free(p.power_positive);
    lemma_text_nul_free(p.power_negative);
    lemma_bool_text_nul_free(p.reversed);
    lemma_bool_text_nul_free(p.enabled);
    let t1 = "{\"deadzone_lower\":".spec_bytes();
    let t2 = spec_idec(p.deadzone_lower);
    let t3 = ",\"deadzone_upper\":".spec_bytes();
    let t4 = spec_idec(p.deadzone_upper);
    let t5 = ",\"power_positive\":".spec_bytes();
    let t6 = p.power_positive;
    let t7 = ",\"power_negative\":".spec_bytes();
    let t8 = p.power_negative;
    let t9 = ",\"reversed\":".spec_bytes();
    let t10 = spec_bool_text(p.reversed);
    let t11 = ",\"enabled\":".spec_bytes();
    let t12 = spec_bool_text(p.enabled);
    let t13 = b_rbrace();
    lemma_concat_nul_free(t1, t2);
    lemma_concat_nul_free(t1 + t2, t3);
    lemma_concat_nul_free(t1 + t2 + t3, t4);
    lemma_concat_nul_free(t1 + t2 + t3 + t4, t5);
    lemma_concat_nul_free(t1 + t2 + t3 + t4 + t5, t6);
    lemma_concat_nul_free(t1 + t2 + t3 + t4 + t5 + t6, t7);
    lemma_concat_nul_free(t1 + t2 + t3 + t4 + t5 + t6 + t7, t8);
    lemma_concat_nul_free(t1 + t2 + t3 + t4 + t5 + t6 + t7 + t8, t9);
    lemma_concat_nul_free(t1 + t2 + t3 + t4 + t5 + t6 + t7 + t8 + t9, t10);
    lemma_concat_nul_free(t1 + t2 + t3 + t4 + t5 + t6 + t7 + t8 + t9 + t10, t11);
    lemma_concat_nul_free(t1 + t2 + t3 + t4 + t5 + t6 + t7 + t8 + t9 + t10 + t11, t12);
    lemma_concat_nul_free(t1 + t2 + t3 + t4 + t5 + t6 + t7 + t8 + t9 + t10 + t11 + t12, t13);
}

/// The parameters frame over a well-formed payload is NUL-free.
pub proof fn lemma_parameters_frame_nul_free(d: ParamsFrameView)
    requires
        is_number_text(d.pwm_freq_calibration),
        forall|i: int|
            0 <= i < d.propellers.len() ==> is_key_text((#[trigger] d.propellers[i]).0)
                && is_number_text(d.propellers[i].1.power_positive) && is_number_text(
                d.propellers[i].1.power_negative,
            ),
        forall|i: int|
            0 <= i < d.control_loops.len() ==> is_key_text((#[trigger] d.control_loops[i]).0)
                && is_number_text(d.control_loops[i].1.p) && is_number_text(d.control_loops[i].1.i)
                && is_number_text(d.control_loops[i].1.d),
    ensures
        nul_free(spec_parameters_frame(d)),
{
    lemma_frame_literals_nul_free();
    lemma_text_nul_free(d.pwm_freq_calibration);
    let prop_parts = d.propellers.map_values(
        |e: (Seq<u8>, PropellerParamsView)| spec_propeller_param_entry(e),
    );
    assert forall|i: int| 0 <= i < prop_parts.len() implies nul_free(#[trigger] prop_parts[i]) by {
        lemma_text_nul_free(d.propellers[i].0);
        lemma_quoted_nul_free(d.propellers[i].0);
        lemma_propeller_obj_nul_free(d.propellers[i].1);
        lemma_concat_nul_free(quoted(d.propellers[i].0), b_colon());
        lemma_concat_nul_free(
            quoted(d.propellers[i].0) + b_colon(),
            spec_propeller_obj(d.propellers[i].1),
        );
    }
    lemma_join_nul_free(prop_parts);
    let loop_parts = d.control_loops.map_values(
        |e: (Seq<u8>, GainsView)| spec_control_loop_entry(e),
    );
    assert forall|i: int| 0 <= i < loop_parts.len() implies nul_free(#[trigger] loop_parts[i]) by {
        lemma_text_nul_free(d.control_loops[i].0);
        lemma_quoted_nul_free(d.control_loops[i].0);
        lemma_gains_obj_nul_free(d.control_loops[i].1);
        lemma_concat_nul_free(quoted(d.control_loops[i].0), b_colon());
        lemma_concat_nul_free(
            quoted(d.control_loops[i].0) + b_colon(),
            spec_gains_obj(d.control_loops[i].1),
        );
    }
    lemma_join_nul_free(loop_parts);
    let t1 = "{\"set_propeller_pwm_freq_calibration\":".spec_bytes();
    let t2 = d.pwm_freq_calibration;
    let t3 = ",\"set_propeller_parameters\":{".spec_bytes();
    let t4 = spec_join(prop_parts);
    let t5 = "},\"set_control_loop_parameters\":{".spec_bytes();
    let t6 = spec_join(loop_parts);
    let t7 = "}}".spec_bytes();
    lemma_concat_nul_free(t1, t2);
    lemma_concat_nul_free(t1 + t2, t3);
    lemma_concat_nul_free(t1 + t2 + t3, t4);
    lemma_concat_nul_free(t1 + t2 + t3 + t4, t5);
    lemma_concat_nul_free(t1 + t2 + t3 + t4 + t5, t6);
    lemma_concat_nul_free(t1 + t2 + t3 + t4 + t5 + t6, t7);
}

/// The firmware header frame is NUL-free: the size is decimal digits and
/// the checksum is hexadecimal digits.
pub proof fn lemma_firmware_header_frame_nul_free(size: nat, digest: Seq<u8>)
    ensures
        nul_free(spec_firmware_header_frame(size, spec_hex(digest))),
{
    lemma_frame_literals_nul_free();
    lemma_udec_nul_free(size);
    lemma_hex_nul_free(digest);
    let t1 = "{\"firmware_update\":{\"size\":".spec_bytes();
    let t2 = spec_udec(size);
    let t3 = ",\"compression\":\"none\",\"md5\":\"".spec_bytes();
    let t4 = spec_hex(digest);
    let t5 = "\"}}".spec_bytes();
    lemma_concat_nul_free(t1, t2);
    lemma_concat_nul_free(t1 + t2, t3);
    lemma_concat_nul_free(t1 + t2 + t3, t4);
    lemma_concat_nul_free(t1 + t2 + t3 + t4, t5);
}

} // verus!
