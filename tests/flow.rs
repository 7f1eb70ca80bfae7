use sayhi::auth::{
    after_profile_lookup, begin_authentication, conclude_authentication, AuthOutcome, AuthStep,
};
use sayhi::capture::{luma_moments, select_device};
use sayhi::enroll::{
    add_round, finish_enrollment, finish_enrollment_now, get_timestamp, timestamp_text, resolve_username, EnrollError, ENROLLMENT_CAPTURES,
    FRAMES_PER_CAPTURE,
};
use sayhi::limiter::{apply_update, limiter_state, parse_attempts, CounterUpdate, LimiterState};
use sayhi::preprocess::{collect_templates, process_face_image, FrameError, TEMPLATE_LEN};

fn checker_png(w: u32, h: u32, cell: u32) -> Vec<u8> {
    let img = image::GrayImage::from_fn(w, h, |x, y| {
        if ((x / cell) + (y / cell)) % 2 == 0 {
            image::Luma([20u8])
        } else {
            image::Luma([230u8])
        }
    });
    let mut buf = std::io::Cursor::new(Vec::new());
    img.write_to(&mut buf, image::ImageFormat::Png).unwrap();
    buf.into_inner()
}

/// Runs one authentication attempt against an in-memory counter record.
fn attempt(
    record: Option<i32>,
    profile: Option<&Vec<Vec<u8>>>,
    live: &Vec<Vec<u8>>,
    camera_used: &mut bool,
) -> (AuthOutcome, Option<i32>) {
    let attempts = record.unwrap_or(0);
    let step = match begin_authentication(attempts) {
        AuthStep::LoadProfile => match after_profile_lookup(profile.is_some()) {
            AuthStep::CaptureFrames => {
                *camera_used = true;
                conclude_authentication(attempts, live, profile.unwrap())
            }
            other => other,
        },
        other => other,
    };
    match step {
        AuthStep::Finish(outcome, update) => (outcome, apply_update(record, &update)),
        _ => panic!("attempt did not finish"),
    }
}

#[test]
fn frame_becomes_binarized_template() {
    let png = checker_png(160, 120, 20);
    let t = process_face_image(&png).unwrap();
    assert_eq!(t.len(), TEMPLATE_LEN);
    assert!(t.iter().all(|&b| b == 0 || b == 255));
    assert!(t.iter().any(|&b| b == 0));
    assert!(t.iter().any(|&b| b == 255));
    assert_ne!(t, png);
}

#[test]
fn garbage_frame_is_a_decode_error() {
    assert_eq!(process_face_image(&[1, 2, 3, 4]), Err(FrameError::Decode));
    assert_eq!(process_face_image(&[]), Err(FrameError::Decode));
}

#[test]
fn undecodable_frames_are_skipped() {
    let frames = vec![checker_png(64, 64, 8), vec![9, 9, 9], checker_png(100, 80, 10)];
    let t = collect_templates(&frames);
    assert_eq!(t.len(), 2);
    assert_eq!(t[0], process_face_image(&frames[0]).unwrap());
    assert_eq!(t[1], process_face_image(&frames[2]).unwrap());
}

#[test]
fn enroll_then_authenticate_alice() {
    let mut all = Vec::new();
    for round in 0..ENROLLMENT_CAPTURES {
        let frames: Vec<Vec<u8>> =
            (0..FRAMES_PER_CAPTURE).map(|_| checker_png(128, 96, 16 + round as u32)).collect();
        add_round(&mut all, collect_templates(&frames));
    }
    let profile = finish_enrollment("alice".to_string(), all, 1_700_000_000).unwrap();
    assert_eq!(profile.username, "alice");
    assert_eq!(profile.face_templates.len(), 45);
    assert_eq!(profile.created_at, 1_700_000_000);

    let live = profile.face_templates.clone();
    let mut camera_used = false;
    let (outcome, record) = attempt(None, Some(&profile.face_templates), &live, &mut camera_used);
    assert_eq!(outcome, AuthOutcome::Success { confidence: 10000 });
    assert!(camera_used);
    assert_eq!(record, None);
}

#[test]
fn unknown_user_has_no_profile() {
    let mut camera_used = false;
    let (outcome, record) = attempt(None, None, &vec![vec![0u8, 255]], &mut camera_used);
    assert_eq!(outcome, AuthOutcome::ProfileNotFound);
    assert_eq!(record, None);
    assert!(!camera_used);
}

#[test]
fn three_failures_then_lockout() {
    let stored = vec![vec![0u8, 0, 255, 255]];
    let live = vec![vec![0u8, 255, 0, 255]];
    let mut record = None;
    for n in 1..=3 {
        let mut camera_used = false;
        let (outcome, r) = attempt(record, Some(&stored), &live, &mut camera_used);
        assert_eq!(outcome, AuthOutcome::Failure { confidence: 5000 });
        assert!(camera_used);
        record = r;
        assert_eq!(record, Some(n));
    }
    assert_eq!(limiter_state(record.unwrap()), LimiterState::Blocked);
    let mut camera_used = false;
    let (outcome, r) = attempt(record, Some(&stored), &live, &mut camera_used);
    assert_eq!(outcome, AuthOutcome::Blocked);
    assert!(!camera_used);
    assert_eq!(r, None);
}

#[test]
fn success_before_lockout_clears_record() {
    let stored = vec![vec![0u8, 0, 255, 255]];
    let bad = vec![vec![0u8, 255, 0, 255]];
    let good = stored.clone();
    let mut used = false;
    let (_, r) = attempt(None, Some(&stored), &bad, &mut used);
    let (_, r) = attempt(r, Some(&stored), &bad, &mut used);
    assert_eq!(r, Some(2));
    assert_eq!(limiter_state(2), LimiterState::Warned);
    let (outcome, r) = attempt(r, Some(&stored), &good, &mut used);
    assert_eq!(outcome, AuthOutcome::Success { confidence: 10000 });
    assert_eq!(r, None);
    assert_eq!(limiter_state(0), LimiterState::Clear);
}

#[test]
fn empty_capture_fails_without_charge() {
    let stored = vec![vec![0u8, 0, 255, 255]];
    let step = conclude_authentication(1, &[], &stored);
    assert_eq!(step, AuthStep::Finish(AuthOutcome::CaptureFailed, CounterUpdate::Keep));
}

#[test]
fn too_few_templates_refused() {
    let r = finish_enrollment("carol".to_string(), vec![vec![1u8]; 9], 5);
    assert!(matches!(r, Err(EnrollError::InsufficientFrames)));
    assert!(finish_enrollment("carol".to_string(), vec![vec![1u8]; 10], 5).is_ok());
}

#[test]
fn counter_text_parses_or_counts_zero() {
    assert_eq!(parse_attempts("2"), 2);
    assert_eq!(parse_attempts(" 3\n"), 3);
    assert_eq!(parse_attempts("abc"), 0);
    assert_eq!(parse_attempts(""), 0);
    assert_eq!(parse_attempts("-1"), -1);
    assert_eq!(parse_attempts("+5"), 5);
    assert_eq!(parse_attempts("-"), 0);
    assert_eq!(parse_attempts("99999999999"), 0);
    assert_eq!(parse_attempts("1 2"), 0);
    assert_eq!(parse_attempts("\u{3000}2\u{a0}"), 2);
    assert_eq!(parse_attempts("\t\r\n7 \u{2028}"), 7);
}

#[test]
fn username_falls_back_in_order() {
    let s = |v: &str| Some(v.to_string());
    assert_eq!(resolve_username(s("a"), s("b"), s("c")), "a");
    assert_eq!(resolve_username(None, s("b"), s("c")), "b");
    assert_eq!(resolve_username(None, None, s("c")), "c");
    assert_eq!(resolve_username(None, None, None), "unknown");
}

#[test]
fn first_present_device_is_chosen() {
    assert_eq!(select_device(&[true, true]), Some(0));
    assert_eq!(select_device(&[false, true]), Some(1));
    assert_eq!(select_device(&[false, false]), None);
    assert_eq!(select_device(&[]), None);
}

#[test]
fn moments_of_a_frame() {
    assert_eq!(luma_moments(&[0, 10, 255]), (265, 100 + 65025));
    assert_eq!(luma_moments(&[]), (0, 0));
}

#[test]
fn timestamp_is_decimal_seconds() {
    let t = get_timestamp();
    let secs: u64 = t.parse().unwrap();
    assert!(secs > 1_600_000_000);
}

#[test]
fn timestamp_text_is_plain_decimal() {
    assert_eq!(timestamp_text(0), "0");
    assert_eq!(timestamp_text(7), "7");
    assert_eq!(timestamp_text(10), "10");
    assert_eq!(timestamp_text(1_700_000_000), "1700000000");
    assert_eq!(timestamp_text(u64::MAX), u64::MAX.to_string());
}

#[test]
fn enrollment_now_is_stamped() {
    let p = finish_enrollment_now("dave".to_string(), vec![vec![1u8]; 12]).unwrap();
    assert_eq!(p.face_templates.len(), 12);
    assert!(p.created_at > 1_600_000_000);
    assert!(finish_enrollment_now("dave".to_string(), vec![]).is_err());
}
