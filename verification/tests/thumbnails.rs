use media_index::decimal::Decimal;
use media_index::error::{AppError, ErrorKind};
use media_index::thumbnail::{
    handle_image, handle_video, handle_video_by_time, parse_identify_dimensions, resize_tier,
    ThumbAction, ThumbEvent, ThumbnailTask,
};

#[test]
fn resize_tier_boundaries() {
    assert_eq!(resize_tier(1023, 4000), None);
    assert_eq!(resize_tier(1024, 4000), Some(65));
    assert_eq!(resize_tier(2047, 4000), Some(65));
    assert_eq!(resize_tier(2048, 4000), Some(50));
    // The smaller side drives the decision, whichever it is.
    assert_eq!(resize_tier(4000, 1023), None);
    assert_eq!(resize_tier(4000, 2048), Some(50));
}

#[test]
fn identify_output_parses() {
    assert_eq!(parse_identify_dimensions(b" 1920x1080\n").unwrap(), (1920, 1080));
    assert_eq!(parse_identify_dimensions(b"1x1").unwrap(), (1, 1));
}

#[test]
fn identify_output_rejects_malformed() {
    assert_eq!(parse_identify_dimensions(b"").unwrap_err().kind, ErrorKind::ParseFailed);
    assert_eq!(parse_identify_dimensions(b"foo").unwrap_err().kind, ErrorKind::ParseFailed);
    assert_eq!(parse_identify_dimensions(b"10x20x30").unwrap_err().kind, ErrorKind::ParseFailed);
    assert_eq!(parse_identify_dimensions(b"10x").unwrap_err().kind, ErrorKind::ParseFailed);
}

#[test]
fn extract_args_by_index() {
    let args = handle_video("in.mp4", "t.png", Some(7));
    let want = vec!["-i", "in.mp4", "-vf", "select=gte(n\\,7)", "-vsync", "vfr", "-frames:v", "1",
        "t.png"];
    assert_eq!(args, want);
    let args0 = handle_video("in.mp4", "t.png", None);
    assert_eq!(args0[3], "select=gte(n\\,0)");
}

#[test]
fn extract_args_by_time() {
    let args = handle_video_by_time("in.mp4", "t.png", &Decimal { mantissa: 25, scale: 1 });
    let want = vec!["-ss", "2.5", "-i", "in.mp4", "-vframes", "1", "t.png"];
    assert_eq!(args, want);
}

#[test]
fn compress_args_follow_tier() {
    let small = handle_image("a.png", "b.jpg", 800, 600);
    assert_eq!(small, vec!["a.png", "-quality", "85", "b.jpg"]);
    let mid = handle_image("a.png", "b.jpg", 1500, 1600);
    assert_eq!(mid, vec!["a.png", "-resize", "65%", "-quality", "85", "b.jpg"]);
    let big = handle_image("a.png", "b.jpg", 4096, 2160);
    assert_eq!(big, vec!["a.png", "-resize", "50%", "-quality", "85", "b.jpg"]);
}

#[test]
fn unrecognized_kind_yields_no_thumbnail_and_no_actions() {
    let mut t = ThumbnailTask::new("c1", String::from("notes.txt"), "covers", None, None);
    let act = t.advance(ThumbEvent::Start);
    assert!(act.is_none());
    assert!(t.is_done());
    assert_eq!(t.take_result().unwrap(), None);
}

#[test]
fn stale_thumbnail_is_evicted_first() {
    let mut t = ThumbnailTask::new("c2", String::from("photo.jpg"), "covers", None, None);
    match t.advance(ThumbEvent::Start) {
        Some(ThumbAction::RemoveThumbnail(p)) => assert_eq!(p, "covers/c2.jpg"),
        _ => panic!("expected the stale-thumbnail eviction first"),
    }
}

#[test]
fn image_flow_compresses_source_into_thumbnail() {
    let mut t = ThumbnailTask::new("c3", String::from("photo.jpg"), "covers", None, None);
    match t.advance(ThumbEvent::Start) {
        Some(ThumbAction::RemoveThumbnail(_)) => {}
        _ => panic!("expected eviction"),
    }
    match t.advance(ThumbEvent::StepOk) {
        Some(ThumbAction::ProbeDims(args)) => {
            assert_eq!(args, vec!["photo.jpg", "-format", "%wx%h", "info:"]);
        }
        _ => panic!("expected a dimension probe"),
    }
    match t.advance(ThumbEvent::ToolOutput(b"800x600".to_vec())) {
        Some(ThumbAction::Compress(args)) => {
            assert_eq!(args, vec!["photo.jpg", "-quality", "85", "covers/c3.jpg"]);
        }
        _ => panic!("expected a compression"),
    }
    let act = t.advance(ThumbEvent::StepOk);
    assert!(act.is_none());
    assert_eq!(t.take_result().unwrap(), Some(String::from("covers/c3.jpg")));
}

fn drive_video_to_compress(t: &mut ThumbnailTask) {
    match t.advance(ThumbEvent::Start) {
        Some(ThumbAction::RemoveThumbnail(p)) => assert_eq!(p, "covers/v.jpg"),
        _ => panic!("expected eviction"),
    }
    match t.advance(ThumbEvent::StepOk) {
        Some(ThumbAction::ExtractFrame(args)) => {
            assert_eq!(args[args.len() - 1], "covers/v.png");
        }
        _ => panic!("expected a frame extraction"),
    }
    match t.advance(ThumbEvent::StepOk) {
        Some(ThumbAction::ProbeDims(args)) => {
            assert_eq!(args[0], "covers/v.png");
        }
        _ => panic!("expected a dimension probe on the temporary frame"),
    }
    match t.advance(ThumbEvent::ToolOutput(b"1920x1080".to_vec())) {
        Some(ThumbAction::Compress(args)) => {
            assert_eq!(args[0], "covers/v.png");
            assert_eq!(args[args.len() - 1], "covers/v.jpg");
        }
        _ => panic!("expected a compression"),
    }
}

#[test]
fn video_success_path_deletes_temp_frame() {
    let mut t = ThumbnailTask::new("v", String::from("clip.mp4"), "covers", Some(3), None);
    drive_video_to_compress(&mut t);
    match t.advance(ThumbEvent::StepOk) {
        Some(ThumbAction::RemoveTemp(p)) => assert_eq!(p, "covers/v.png"),
        _ => panic!("expected the temporary frame to be removed on success"),
    }
    assert!(t.advance(ThumbEvent::StepOk).is_none());
    assert_eq!(t.take_result().unwrap(), Some(String::from("covers/v.jpg")));
}

#[test]
fn video_compression_failure_still_deletes_temp_frame() {
    let mut t = ThumbnailTask::new("v", String::from("clip.mp4"), "covers", Some(3), None);
    drive_video_to_compress(&mut t);
    let failure = AppError::new("tool exited with failure");
    match t.advance(ThumbEvent::StepFailed(failure)) {
        Some(ThumbAction::RemoveTemp(p)) => assert_eq!(p, "covers/v.png"),
        _ => panic!("expected the temporary frame to be removed on failure"),
    }
    assert!(t.advance(ThumbEvent::StepOk).is_none());
    let err = t.take_result().unwrap_err();
    assert_eq!(err.message, "tool exited with failure");
}

#[test]
fn video_extraction_failure_cleans_up_and_aborts() {
    let mut t = ThumbnailTask::new("v", String::from("clip.mp4"), "covers", None, None);
    match t.advance(ThumbEvent::Start) {
        Some(ThumbAction::RemoveThumbnail(_)) => {}
        _ => panic!("expected eviction"),
    }
    match t.advance(ThumbEvent::StepOk) {
        Some(ThumbAction::ExtractFrame(_)) => {}
        _ => panic!("expected a frame extraction"),
    }
    match t.advance(ThumbEvent::StepFailed(AppError::new("cannot decode"))) {
        Some(ThumbAction::RemoveTemp(p)) => assert_eq!(p, "covers/v.png"),
        _ => panic!("expected cleanup of a possibly half-written frame"),
    }
    assert!(t.advance(ThumbEvent::StepOk).is_none());
    assert!(t.take_result().is_err());
}

#[test]
fn video_time_selector_uses_time_invocation() {
    let mut t = ThumbnailTask::new(
        "v",
        String::from("clip.mp4"),
        "covers",
        None,
        Some(Decimal { mantissa: 125, scale: 2 }),
    );
    match t.advance(ThumbEvent::Start) {
        Some(ThumbAction::RemoveThumbnail(_)) => {}
        _ => panic!("expected eviction"),
    }
    match t.advance(ThumbEvent::StepOk) {
        Some(ThumbAction::ExtractFrame(args)) => {
            assert_eq!(args[0], "-ss");
            assert_eq!(args[1], "1.25");
        }
        _ => panic!("expected a frame extraction by time"),
    }
}
