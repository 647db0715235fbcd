use media_index::decimal::Decimal;
use media_index::error::ErrorKind;
use media_index::scan::{categorize_mime_type, classify_entries, classify_path, guess_mime_type,
    FileType};
use media_index::stats::{media_kind_for_stats, stats_for_audio, stats_for_image, stats_for_video};

#[test]
fn categorize_by_top_level_type() {
    assert_eq!(categorize_mime_type("image/png"), Some(FileType::Image));
    assert_eq!(categorize_mime_type("video/mp4"), Some(FileType::Video));
    assert_eq!(categorize_mime_type("audio/mpeg"), Some(FileType::Audio));
    assert_eq!(categorize_mime_type("application/pdf"), None);
    assert_eq!(categorize_mime_type(""), None);
}

#[test]
fn mime_guess_is_used_for_real() {
    // If the content-type inference handed its argument back unchanged,
    // none of these paths would classify as media.
    assert_eq!(guess_mime_type("photo.jpg"), "image/jpeg");
    let fi = classify_path(String::from("a/b/photo.png"), String::from("photo.png")).unwrap();
    assert_eq!(fi.file_type, FileType::Image);
    assert_eq!(fi.path, "a/b/photo.png");
    assert_eq!(fi.name, "photo.png");
    let fv = classify_path(String::from("clip.mp4"), String::from("clip.mp4")).unwrap();
    assert_eq!(fv.file_type, FileType::Video);
    assert!(classify_path(String::from("notes.txt"), String::from("notes.txt")).is_none());
}

#[test]
fn classify_list_keeps_media_in_order() {
    let entries = vec![
        (String::from("a.png"), String::from("a.png")),
        (String::from("b.txt"), String::from("b.txt")),
        (String::from("c.mp3"), String::from("c.mp3")),
    ];
    let r = classify_entries(&entries);
    assert_eq!(r.len(), 2);
    assert_eq!(r[0].name, "a.png");
    assert_eq!(r[0].file_type, FileType::Image);
    assert_eq!(r[1].name, "c.mp3");
    assert_eq!(r[1].file_type, FileType::Audio);
}

#[test]
fn stats_kind_refuses_unsupported() {
    let e = media_kind_for_stats("application/zip").unwrap_err();
    assert_eq!(e.kind, ErrorKind::UnsupportedMediaKind);
    assert_eq!(media_kind_for_stats("video/mp4").unwrap(), FileType::Video);
}

#[test]
fn video_stats_extract_all_three_fields() {
    let probe = "Input #0\n  Duration: 00:01:30.04, start\n  Stream: 1280x720 [SAR 1:1], 24 fps";
    let st = stats_for_video(10, String::from("video/mp4"), 99, probe).unwrap();
    assert_eq!(st.size, 10);
    assert_eq!(st.mime_type, "video/mp4");
    assert_eq!(st.created, 99);
    assert_eq!(st.duration, Some(Decimal { mantissa: 9004, scale: 2 }));
    assert_eq!(st.frame_rate, Some(Decimal { mantissa: 24, scale: 0 }));
    assert_eq!(st.dimensions, Some((1280, 720)));
}

#[test]
fn audio_stats_have_duration_only() {
    let probe = "Duration: 00:03:20.50, bitrate";
    let st = stats_for_audio(7, String::from("audio/mpeg"), 1, probe).unwrap();
    assert_eq!(st.duration, Some(Decimal { mantissa: 20050, scale: 2 }));
    assert_eq!(st.dimensions, None);
    assert_eq!(st.frame_rate, None);
}

#[test]
fn image_stats_take_identify_output() {
    let st = stats_for_image(3, String::from("image/png"), 2, Some("640x480"));
    assert_eq!(st.dimensions, Some((640, 480)));
    assert_eq!(st.duration, None);
    assert_eq!(st.frame_rate, None);
    let missing = stats_for_image(3, String::from("image/png"), 2, None);
    assert_eq!(missing.dimensions, None);
}
