use hd2m_cv::{
    AutoScale, CaptureManager, CaptureManagerConfig, CvError, Direction, Hd2mCvManager,
    Hd2mCvManagerConfig, Hd2mCvSearchOptions, Point, RgbaImage, Score,
};

fn white_pixel() -> RgbaImage {
    RgbaImage::from_raw(1, 1, vec![255, 255, 255, 255]).unwrap()
}

fn frame(width: usize, height: usize, white_at: &[(usize, usize)]) -> RgbaImage {
    let mut data = vec![0u8; 4 * width * height];
    for i in 0..width * height {
        data[4 * i + 3] = 255;
    }
    for &(x, y) in white_at {
        let i = y * width + x;
        data[4 * i] = 255;
        data[4 * i + 1] = 255;
        data[4 * i + 2] = 255;
    }
    RgbaImage::from_raw(width, height, data).unwrap()
}

fn manager() -> Hd2mCvManager {
    Hd2mCvManager::new(Hd2mCvManagerConfig {
        template_up_image: white_pixel(),
        template_down_image: white_pixel(),
        template_right_image: white_pixel(),
        template_left_image: white_pixel(),
        base_screen_size: (9, 4),
        search_options: None,
    })
    .unwrap()
}

#[test]
fn run_before_screen_size_fails() {
    let mut m = manager();
    let target = frame(9, 4, &[]);
    assert_eq!(
        m.run_match_rgba(&target),
        Err(CvError::NoActiveScreenSize)
    );
}

#[test]
fn run_finds_one_row_of_ups() {
    let mut m = manager();
    m.use_screen_size(9, 13).unwrap();
    let target = frame(9, 13, &[(0, 1), (5, 1)]);
    let r = m.run_match_rgba(&target).unwrap();
    assert_eq!(r.len(), 1);
    assert_eq!(r[0].len(), 2);
    assert_eq!(r[0][0].direction, Direction::Up);
    assert_eq!(r[0][0].position, Point { x: 0, y: 1 });
    assert_eq!(r[0][1].direction, Direction::Up);
    assert_eq!(r[0][1].position, Point { x: 5, y: 1 });
    assert!(r[0][0].confidence.eqv(Score::ratio(1, 1)));
    assert!(r[0][1].confidence.eqv(Score::ratio(1, 1)));
}

#[test]
fn use_screen_size_twice_is_a_no_op() {
    let mut m = manager();
    m.use_screen_size(9, 4).unwrap();
    let registered = m.template_registry.len();
    let current = m.current_screen_size;
    let chunk = m.template_search_chunk_size;
    let distance = m.template_discarding_distance_threshold;
    m.use_screen_size(9, 4).unwrap();
    assert_eq!(m.template_registry.len(), registered);
    assert_eq!(m.current_screen_size, current);
    assert_eq!(m.template_search_chunk_size, chunk);
    assert_eq!(m.template_discarding_distance_threshold, distance);
}

#[test]
fn use_screen_size_derives_search_parameters() {
    let mut m = manager();
    m.use_screen_size(9, 4).unwrap();
    // The rescaled template stays 1 x 1, so the window is 11 rows and the
    // suppression distance 4 pixels.
    assert_eq!(m.current_screen_size, Some((9, 4)));
    assert_eq!(m.template_search_chunk_size, 11);
    assert_eq!(m.template_discarding_distance_threshold, 4);
}

#[test]
fn use_screen_size_zero_width_fails() {
    let mut m = manager();
    assert_eq!(m.use_screen_size(0, 4), Err(CvError::ResizeFailed));
}

#[test]
fn missing_registry_entry_is_reported() {
    let mut m = manager();
    m.current_screen_size = Some((123, 456));
    let target = frame(9, 4, &[]);
    assert_eq!(m.run_match_rgba(&target), Err(CvError::MissingScale));
}

#[test]
fn mismatched_templates_are_rejected() {
    let wide = RgbaImage::from_raw(2, 1, vec![255, 255, 255, 255, 255, 255, 255, 255]).unwrap();
    let r = Hd2mCvManager::new(Hd2mCvManagerConfig {
        template_up_image: white_pixel(),
        template_down_image: wide,
        template_right_image: white_pixel(),
        template_left_image: white_pixel(),
        base_screen_size: (9, 4),
        search_options: None,
    });
    assert_eq!(r.err(), Some(CvError::ShapeMismatch));
}

#[test]
fn search_options_override_and_keep() {
    let mut m = manager();
    assert_eq!(m.template_search_threshold, Score::ratio(9, 10));
    assert_eq!(m.template_search_chunk_size, 11);
    assert_eq!(m.template_discarding_distance_threshold, 4);
    m.set_search_options(Hd2mCvSearchOptions {
        threshold: Some(Score::ratio(987, 1000)),
        search_chunk_size: None,
        discarding_distance_threshold: Some(7),
    });
    assert_eq!(m.template_search_threshold, Score::ratio(987, 1000));
    assert_eq!(m.template_search_chunk_size, 11);
    assert_eq!(m.template_discarding_distance_threshold, 7);
}

#[test]
fn auto_scale_rounds_to_nearest() {
    let s = AutoScale::new((2560, 1440), (1280, 720));
    assert_eq!(s.scale(100, 50), (50, 25));
    assert_eq!(s.scale(0, 0), (0, 0));
    let identity = AutoScale::new((100, 100), (100, 100));
    assert_eq!(identity.scale(37, 99), (37, 99));
    assert_eq!(identity.clone_with_target_size().scale(37, 99), (37, 99));
}

#[test]
fn active_templates_follows_registration() {
    let mut m = manager();
    assert_eq!(m.active_templates().err(), Some(CvError::NoActiveScreenSize));
    m.use_screen_size(9, 4).unwrap();
    let set = m.active_templates().unwrap();
    assert_eq!(set.up.template.shape(), (1, 1));
    m.current_screen_size = Some((77, 77));
    assert_eq!(m.active_templates().err(), Some(CvError::MissingScale));
}

#[test]
fn capture_manager_keeps_window_title() {
    let m = CaptureManager::new(CaptureManagerConfig {
        window_title: String::from("HELLDIVERS"),
    })
    .unwrap();
    assert_eq!(m.window_title, "HELLDIVERS");
}
