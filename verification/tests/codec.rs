//! Frame codec tests: each encoder must produce the exact JSON bytes the
//! device protocol expects, and the output must parse as real JSON.

use rovlink::config::{LoopGains, ParamsFrameData, PropellerParams};
use rovlink::frames::{
    encode_control_loops_frame, encode_debug_mode_frame, encode_load_frame,
    encode_parameters_frame, encode_propeller_values_frame, encode_save_frame,
};
use rovlink::text::{fmt_hex, fmt_i8, fmt_u64};
use rovlink::upload::build_upload_plan;

fn b(s: &str) -> Vec<u8> {
    s.as_bytes().to_vec()
}

#[test]
fn load_frame_bytes() {
    assert_eq!(encode_load_frame(), b"{\"load_parameters\":{}}".to_vec());
}

#[test]
fn save_frame_bytes() {
    assert_eq!(encode_save_frame(), b"{\"save_parameters\":{}}".to_vec());
}

#[test]
fn debug_mode_frame_bytes() {
    assert_eq!(
        encode_debug_mode_frame(true),
        b"{\"set_debug_mode_enabled\":true}".to_vec()
    );
    assert_eq!(
        encode_debug_mode_frame(false),
        b"{\"set_debug_mode_enabled\":false}".to_vec()
    );
}

#[test]
fn propeller_values_frame_bytes() {
    let m = vec![(b("front_left"), -3i8), (b("back_right"), 7i8)];
    assert_eq!(
        encode_propeller_values_frame(&m),
        b"{\"set_propeller_values\":{\"front_left\":-3,\"back_right\":7}}".to_vec()
    );
}

#[test]
fn propeller_values_frame_empty() {
    let m: Vec<(Vec<u8>, i8)> = Vec::new();
    assert_eq!(
        encode_propeller_values_frame(&m),
        b"{\"set_propeller_values\":{}}".to_vec()
    );
}

#[test]
fn control_loops_frame_bytes() {
    let m = vec![(
        b("depth_lock"),
        LoopGains { p: b("1.5"), i: b("0.2"), d: b("0.1") },
    )];
    assert_eq!(
        encode_control_loops_frame(&m),
        b"{\"set_control_loop_parameters\":{\"depth_lock\":{\"p\":1.5,\"i\":0.2,\"d\":0.1}}}"
            .to_vec()
    );
}

#[test]
fn parameters_frame_bytes() {
    let d = ParamsFrameData {
        pwm_freq_calibration: b("0.01"),
        propellers: vec![(
            b("front_left"),
            PropellerParams {
                deadzone_lower: -5,
                deadzone_upper: 10,
                power_positive: b("0.75"),
                power_negative: b("0.5"),
                reversed: true,
                enabled: false,
            },
        )],
        control_loops: vec![(
            b("depth_lock"),
            LoopGains { p: b("1.0"), i: b("2.0"), d: b("3.0") },
        )],
    };
    let frame = encode_parameters_frame(&d);
    let expected = "{\"set_propeller_pwm_freq_calibration\":0.01,\"set_propeller_parameters\":{\"front_left\":{\"deadzone_lower\":-5,\"deadzone_upper\":10,\"power_positive\":0.75,\"power_negative\":0.5,\"reversed\":true,\"enabled\":false}},\"set_control_loop_parameters\":{\"depth_lock\":{\"p\":1.0,\"i\":2.0,\"d\":3.0}}}";
    assert_eq!(frame, expected.as_bytes().to_vec());
}

#[test]
fn parameters_frame_is_real_json() {
    let d = ParamsFrameData {
        pwm_freq_calibration: b("0.25"),
        propellers: vec![(
            b("center_left"),
            PropellerParams {
                deadzone_lower: -128,
                deadzone_upper: 127,
                power_positive: b("0.75"),
                power_negative: b("0.75"),
                reversed: false,
                enabled: true,
            },
        )],
        control_loops: vec![(
            b("direction_lock"),
            LoopGains { p: b("1.0"), i: b("1.0"), d: b("1.0") },
        )],
    };
    let frame = encode_parameters_frame(&d);
    let v: serde_json::Value = serde_json::from_slice(&frame).unwrap();
    assert_eq!(
        v.get("set_propeller_pwm_freq_calibration").unwrap().as_f64().unwrap(),
        0.25
    );
    let p = v
        .get("set_propeller_parameters")
        .unwrap()
        .get("center_left")
        .unwrap();
    assert_eq!(p.get("deadzone_lower").unwrap().as_i64().unwrap(), -128);
    assert_eq!(p.get("deadzone_upper").unwrap().as_i64().unwrap(), 127);
    assert_eq!(p.get("power_positive").unwrap().as_f64().unwrap(), 0.75);
    assert_eq!(p.get("reversed").unwrap().as_bool().unwrap(), false);
    assert_eq!(p.get("enabled").unwrap().as_bool().unwrap(), true);
    let c = v
        .get("set_control_loop_parameters")
        .unwrap()
        .get("direction_lock")
        .unwrap();
    assert_eq!(c.get("p").unwrap().as_f64().unwrap(), 1.0);
}

#[test]
fn decimal_rendering() {
    assert_eq!(fmt_u64(0), b"0".to_vec());
    assert_eq!(fmt_u64(1024), b"1024".to_vec());
    assert_eq!(fmt_u64(u64::MAX), b"18446744073709551615".to_vec());
    assert_eq!(fmt_i8(0), b"0".to_vec());
    assert_eq!(fmt_i8(127), b"127".to_vec());
    assert_eq!(fmt_i8(-128), b"-128".to_vec());
    assert_eq!(fmt_i8(-1), b"-1".to_vec());
}

#[test]
fn hex_rendering() {
    assert_eq!(fmt_hex(&vec![]), b"".to_vec());
    assert_eq!(fmt_hex(&vec![0x00, 0x0f, 0xa5, 0xff]), b"000fa5ff".to_vec());
}

#[test]
fn firmware_header_carries_real_md5() {
    // The digest of "abc" is a fixed, well-known value; this fails if the
    // checksum wrapper hands anything but the real MD5 back.
    let plan = build_upload_plan(&b"abc".to_vec());
    let expected = "{\"firmware_update\":{\"size\":3,\"compression\":\"none\",\"md5\":\"900150983cd24fb0d6963f7d28e17f72\"}}";
    assert_eq!(plan.header, expected.as_bytes().to_vec());
}

#[test]
fn firmware_header_empty_payload_md5() {
    let plan = build_upload_plan(&Vec::new());
    let expected = "{\"firmware_update\":{\"size\":0,\"compression\":\"none\",\"md5\":\"d41d8cd98f00b204e9800998ecf8427e\"}}";
    assert_eq!(plan.header, expected.as_bytes().to_vec());
    assert_eq!(plan.spans.len(), 0);
}
