use media_index::decimal::Decimal;
use media_index::error::ErrorKind;
use media_index::frame_rate::FrameRateReading;
use media_index::stats::{parse_dimensions, parse_dimensions_loose, parse_duration,
    parse_frame_rate};
use media_index::frame_rate::parse_rate_output;

fn dec_to_f64(d: &Decimal) -> f64 {
    d.mantissa as f64 / 10f64.powi(d.scale as i32)
}

#[test]
fn duration_basic() {
    let out = parse_duration("  Duration: 01:02:03.50, start: 0.0\n").unwrap();
    let d = out.unwrap();
    assert_eq!(d.mantissa, 372350);
    assert_eq!(d.scale, 2);
    assert_eq!(dec_to_f64(&d), 3723.5);
}

#[test]
fn duration_absent_is_none() {
    let out = parse_duration("no duration token here 01:02:03.50").unwrap();
    assert!(out.is_none());
}

#[test]
fn duration_needs_fraction() {
    // The seconds field must carry a fraction, as the decoder prints it.
    let out = parse_duration("Duration: 01:02:03, rest").unwrap();
    assert!(out.is_none());
}

#[test]
fn duration_first_match_wins() {
    let out = parse_duration("Duration: 00:00:01.0 Duration: 00:00:02.0").unwrap();
    let d = out.unwrap();
    assert_eq!(d.mantissa, 10);
    assert_eq!(d.scale, 1);
}

#[test]
fn duration_overflow_is_parse_failed() {
    let e = parse_duration("Duration: 99999999999999999999:00:00.0").unwrap_err();
    assert_eq!(e.kind, ErrorKind::ParseFailed);
}

#[test]
fn frame_rate_basic() {
    let out = parse_frame_rate("stream: 1920x1080, 29.97 fps, 30 tbr").unwrap();
    let d = out.unwrap();
    assert_eq!(d.mantissa, 2997);
    assert_eq!(d.scale, 2);
    assert_eq!(dec_to_f64(&d), 29.97);
}

#[test]
fn frame_rate_integer() {
    let out = parse_frame_rate("25 fps").unwrap();
    let d = out.unwrap();
    assert_eq!(d.mantissa, 25);
    assert_eq!(d.scale, 0);
}

#[test]
fn frame_rate_absent_is_none() {
    let out = parse_frame_rate("29.97 tbr, nothing per second").unwrap();
    assert!(out.is_none());
}

#[test]
fn dimensions_with_marker() {
    let out = parse_dimensions("Video: h264, yuv420p, 1920x1080 [SAR 1:1 DAR 16:9]").unwrap();
    assert_eq!(out, Some((1920, 1080)));
}

#[test]
fn dimensions_without_marker_is_none() {
    let out = parse_dimensions("Video: h264, yuv420p, 1920x1080, 25 fps").unwrap();
    assert_eq!(out, None);
}

#[test]
fn dimensions_loose_bare_token() {
    assert_eq!(parse_dimensions_loose("640x480"), Some((640, 480)));
    assert_eq!(parse_dimensions_loose("no token"), None);
}

#[test]
fn rate_output_ratio() {
    let r = parse_rate_output("30000/1001\n").unwrap();
    match r {
        FrameRateReading::Ratio(num, den) => {
            assert_eq!(num.mantissa, 30000);
            assert_eq!(num.scale, 0);
            assert_eq!(den.mantissa, 1001);
            assert_eq!(den.scale, 0);
            let v = dec_to_f64(&num) / dec_to_f64(&den);
            assert!((v - 29.97).abs() < 0.01);
        }
        FrameRateReading::Unknown => panic!("expected a ratio"),
    }
}

#[test]
fn rate_output_empty_is_unknown() {
    assert_eq!(parse_rate_output("   \n").unwrap(), FrameRateReading::Unknown);
    assert_eq!(parse_rate_output("").unwrap(), FrameRateReading::Unknown);
}

#[test]
fn rate_output_no_slash_is_unknown() {
    assert_eq!(parse_rate_output("2997\n").unwrap(), FrameRateReading::Unknown);
    assert_eq!(parse_rate_output("1/2/3").unwrap(), FrameRateReading::Unknown);
}

#[test]
fn rate_output_bad_numeral_is_parse_failed() {
    let e = parse_rate_output("abc/def").unwrap_err();
    assert_eq!(e.kind, ErrorKind::ParseFailed);
}
