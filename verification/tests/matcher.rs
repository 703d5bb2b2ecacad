use hd2m_cv::image::{resize_to, to_grayscale};
use hd2m_cv::{CvError, GrayImage, RgbaImage, Score, TemplateMatcher};

fn gray(width: usize, height: usize, data: Vec<u8>) -> GrayImage {
    GrayImage::from_raw(width, height, data).unwrap()
}

#[test]
fn match_shape_law() {
    let source = gray(7, 5, vec![0; 35]);
    let template = TemplateMatcher {
        template: gray(3, 2, vec![0; 6]),
    };
    let m = template.match_template(&source).unwrap();
    assert_eq!(m.shape(), (4, 5));
}

#[test]
fn match_scores_are_exact() {
    let source = gray(3, 3, vec![10, 0, 0, 0, 10, 0, 0, 0, 10]);
    let template = TemplateMatcher {
        template: gray(2, 2, vec![10, 0, 0, 10]),
    };
    let m = template.match_template(&source).unwrap();
    assert_eq!(m.shape(), (2, 2));
    // Perfect overlap on the diagonal placements.
    assert_eq!(m.cell(0, 0), Score { num: 200, den: 40000 });
    assert!(m.cell(0, 0).eqv(Score::ratio(1, 1)));
    assert!(m.cell(1, 1).eqv(Score::ratio(1, 1)));
    // Off-diagonal placements see nothing under the mask.
    assert_eq!(m.cell(1, 0), Score { num: 0, den: 1 });
    assert_eq!(m.cell(0, 1), Score { num: 0, den: 1 });
}

#[test]
fn match_rejects_oversized_template() {
    let source = gray(1, 1, vec![0]);
    let template = TemplateMatcher {
        template: gray(2, 2, vec![0; 4]),
    };
    assert_eq!(
        template.match_template(&source).err(),
        Some(CvError::TemplateLargerThanSource)
    );
}

#[test]
fn grayscale_uses_integer_luminance() {
    let img = RgbaImage::from_raw(2, 1, vec![255, 0, 0, 255, 0, 255, 0, 255]).unwrap();
    let g = to_grayscale(&img);
    assert_eq!(g.shape(), (1, 2));
    assert_eq!(g.cell(0, 0), 76);
    assert_eq!(g.cell(1, 0), 150);
}

#[test]
fn rgba_buffer_of_wrong_size_is_rejected() {
    assert_eq!(
        RgbaImage::from_raw(2, 2, vec![0; 15]).err(),
        Some(CvError::ImageDecode)
    );
    assert_eq!(
        GrayImage::from_raw(2, 2, vec![0; 5]).err(),
        Some(CvError::ImageDecode)
    );
}

#[test]
fn resize_keeps_pixel_pattern() {
    let g = gray(2, 2, vec![10, 20, 30, 40]);
    let r = resize_to(&g, 4, 4).unwrap();
    assert_eq!(r.shape(), (4, 4));
    let expected: Vec<u8> = vec![
        10, 10, 20, 20, //
        10, 10, 20, 20, //
        30, 30, 40, 40, //
        30, 30, 40, 40, //
    ];
    for y in 0..4 {
        for x in 0..4 {
            assert_eq!(r.cell(x, y), expected[y * 4 + x]);
        }
    }
}

#[test]
fn resize_to_empty_rectangle_fails() {
    let g = gray(2, 2, vec![0; 4]);
    assert_eq!(resize_to(&g, 0, 4).err(), Some(CvError::ResizeFailed));
    assert_eq!(resize_to(&g, 4, 0).err(), Some(CvError::ResizeFailed));
}

#[test]
fn template_from_rgba_is_grayscale() {
    let img = RgbaImage::from_raw(1, 1, vec![255, 255, 255, 255]).unwrap();
    let tm = TemplateMatcher::new(&img).unwrap();
    assert_eq!(tm.template.shape(), (1, 1));
    assert_eq!(tm.template.cell(0, 0), 255);
}
