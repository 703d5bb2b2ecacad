use hd2m_cv::finder::{
    collect_direction_commands, extract_direction_commands, find_direction_commands,
    raw_mats_to_direction_buffer,
};
use hd2m_cv::{Direction, Grid, Score, ScoreMap};

fn score_map(rows: usize, cols: usize, vals: Vec<f32>) -> ScoreMap {
    assert_eq!(vals.len(), rows * cols);
    let data: Vec<Score> = vals
        .iter()
        .map(|v| Score::ratio((v * 10.0).round() as u32, 10))
        .collect();
    Grid::from_shape_vec(rows, cols, data)
}

fn finder_test_maps() -> (ScoreMap, ScoreMap, ScoreMap, ScoreMap) {
    let arr = score_map(
        15,
        9,
        vec![
            0.0, 0.0, 0.0, 0.0, 0.0, 0.0, 0.0, 0.0, 0.0, //
            1.0, 0.0, 0.0, 0.0, 0.0, 0.0, 0.0, 0.0, 0.0, //
            0.0, 0.0, 0.0, 0.0, 0.0, 0.0, 0.0, 0.0, 0.0, //
            0.0, 0.0, 0.0, 0.0, 0.0, 0.0, 0.0, 0.0, 0.0, //
            0.0, 0.0, 0.0, 1.0, 0.0, 0.0, 0.0, 0.0, 0.0, //
            0.0, 0.0, 0.0, 0.0, 0.0, 0.0, 0.0, 0.0, 0.0, //
            0.0, 0.0, 0.0, 0.0, 0.0, 0.0, 1.0, 0.0, 0.0, //
            0.0, 0.0, 0.0, 0.0, 0.0, 1.0, 0.0, 0.0, 0.0, //
            0.0, 0.0, 1.0, 0.0, 0.0, 0.0, 0.0, 0.0, 0.0, //
            0.0, 0.0, 0.0, 0.0, 0.0, 0.0, 0.0, 0.0, 0.0, //
            0.0, 0.0, 0.0, 0.0, 0.0, 0.0, 1.0, 0.0, 0.0, //
            0.0, 0.0, 0.0, 0.0, 0.0, 0.0, 0.0, 0.0, 0.0, //
            0.0, 0.0, 0.0, 0.0, 0.0, 0.0, 0.0, 0.0, 0.0, //
            0.0, 0.0, 0.0, 0.0, 0.0, 0.0, 1.0, 0.0, 0.0, //
            0.0, 0.0, 0.0, 0.0, 0.0, 0.0, 0.0, 0.0, 0.0, //
        ],
    );
    let arr2 = score_map(
        15,
        9,
        vec![
            0.0, 0.0, 0.0, 0.0, 0.0, 0.0, 0.0, 0.0, 0.0, //
            1.0, 0.0, 0.0, 0.0, 0.0, 0.0, 0.0, 0.0, 0.0, //
            0.0, 0.0, 0.0, 0.0, 0.0, 0.0, 1.0, 0.0, 0.0, //
            0.0, 0.0, 0.0, 0.0, 0.0, 0.0, 0.0, 0.0, 0.0, //
            0.0, 0.0, 0.0, 0.0, 1.0, 1.0, 0.0, 0.0, 0.0, //
            0.0, 0.0, 0.0, 0.0, 0.0, 0.0, 0.0, 0.0, 0.0, //
            0.0, 0.0, 0.0, 0.0, 0.0, 0.0, 0.0, 1.0, 0.0, //
            0.0, 1.0, 0.0, 0.0, 0.0, 0.0, 0.0, 0.0, 0.0, //
            0.0, 0.0, 1.0, 0.0, 0.0, 0.0, 0.0, 0.0, 0.0, //
            0.0, 0.0, 0.0, 0.0, 0.0, 0.0, 0.0, 0.0, 0.0, //
            0.0, 0.0, 0.0, 0.0, 0.0, 0.0, 0.0, 0.0, 0.0, //
            0.0, 0.0, 0.0, 0.0, 0.0, 0.0, 0.0, 0.0, 0.0, //
            0.0, 0.0, 0.0, 0.0, 0.0, 0.0, 0.0, 0.0, 0.0, //
            0.0, 0.0, 0.0, 0.0, 0.0, 0.0, 1.0, 0.0, 0.0, //
            0.0, 0.0, 0.0, 0.0, 0.0, 0.0, 0.0, 0.0, 0.0, //
        ],
    );
    let arr3 = score_map(
        15,
        9,
        vec![
            0.0, 0.0, 0.0, 0.0, 0.0, 0.0, 0.0, 0.0, 0.0, //
            1.0, 0.0, 0.0, 0.0, 0.0, 0.0, 0.0, 0.0, 0.0, //
            0.0, 0.0, 0.0, 0.0, 0.0, 0.0, 1.0, 0.0, 0.0, //
            0.0, 0.0, 0.0, 0.0, 0.0, 0.0, 0.0, 0.0, 0.0, //
            0.0, 0.0, 0.0, 0.0, 1.0, 1.0, 0.0, 0.0, 0.0, //
            0.0, 0.0, 0.0, 0.0, 0.0, 0.0, 0.0, 0.0, 0.0, //
            0.0, 0.0, 0.0, 0.0, 0.0, 0.0, 0.0, 1.0, 1.0, //
            0.0, 1.0, 0.0, 0.0, 0.0, 0.0, 0.0, 0.0, 0.0, //
            0.0, 0.0, 1.0, 0.0, 0.0, 0.0, 0.0, 0.0, 0.0, //
            0.0, 0.0, 0.0, 0.0, 0.0, 0.0, 0.0, 0.0, 0.0, //
            0.0, 0.0, 0.0, 0.0, 0.0, 0.0, 0.0, 0.0, 0.0, //
            0.0, 0.0, 0.0, 0.0, 0.0, 0.0, 0.0, 0.0, 0.0, //
            0.0, 0.0, 0.0, 0.0, 0.0, 0.0, 0.0, 0.0, 0.0, //
            0.0, 0.0, 0.0, 0.0, 0.0, 0.0, 1.0, 0.0, 0.0, //
            0.0, 0.0, 0.0, 0.0, 0.0, 0.0, 0.0, 0.0, 0.0, //
        ],
    );
    let arr4 = score_map(
        15,
        9,
        vec![
            0.0, 0.0, 0.0, 0.0, 0.0, 0.0, 0.0, 0.0, 0.0, //
            1.0, 0.0, 0.0, 1.0, 0.0, 0.0, 0.0, 0.0, 0.0, //
            0.0, 0.0, 0.0, 0.0, 0.0, 0.0, 1.0, 0.0, 0.0, //
            0.0, 0.0, 0.0, 0.0, 0.0, 0.0, 0.0, 0.0, 0.0, //
            0.0, 0.0, 0.0, 0.0, 1.0, 1.0, 0.0, 0.0, 0.0, //
            0.0, 0.0, 0.0, 1.0, 0.0, 0.0, 0.0, 0.0, 0.0, //
            0.0, 0.0, 0.0, 0.0, 0.0, 0.0, 0.0, 1.0, 0.0, //
            0.0, 1.0, 0.0, 0.0, 0.0, 0.0, 0.0, 0.0, 0.0, //
            0.0, 0.0, 1.0, 0.0, 0.0, 0.0, 0.0, 0.0, 0.0, //
            0.0, 0.0, 0.0, 0.0, 0.0, 0.0, 0.0, 0.0, 0.0, //
            0.0, 0.0, 0.0, 0.0, 0.0, 0.0, 1.0, 0.0, 0.0, //
            0.0, 0.0, 0.0, 0.0, 0.0, 0.0, 0.0, 0.0, 0.0, //
            0.0, 0.0, 0.0, 0.0, 0.0, 0.0, 0.0, 0.0, 0.0, //
            0.0, 0.0, 0.0, 0.0, 0.0, 0.0, 0.0, 0.0, 0.0, //
            0.0, 0.0, 0.0, 1.0, 0.0, 0.0, 0.0, 0.0, 0.0, //
        ],
    );
    (arr, arr2, arr3, arr4)
}

#[test]
fn finder_test_find_direction_commands() {
    let (arr, arr2, arr3, arr4) = finder_test_maps();
    let buf = raw_mats_to_direction_buffer(&arr, &arr2, &arr3, &arr4, Score::ratio(1, 1)).unwrap();
    let commands = extract_direction_commands(&buf).unwrap();
    assert_eq!(
        commands,
        vec![
            vec![Direction::Up, Direction::Left],
            vec![Direction::Up, Direction::Right, Direction::Right],
            vec![Direction::Up, Direction::Right, Direction::Down],
            vec![Direction::Up],
            vec![Direction::Left],
        ]
    );
}

#[test]
fn finder_chunked_test_find_direction_commands() {
    let (arr, arr2, arr3, arr4) = finder_test_maps();
    let buf = find_direction_commands(&arr, &arr2, &arr3, &arr4, None, None).unwrap();
    assert_eq!(
        buf,
        vec![
            vec![
                Direction::Up,
                Direction::Right,
                Direction::Right,
                Direction::Right
            ],
            vec![
                Direction::Right,
                Direction::Up,
                Direction::Up,
                Direction::Up,
                Direction::Right,
                Direction::Down
            ],
            vec![Direction::Left, Direction::Up]
        ]
    );
}

#[test]
fn finder_shape_mismatch_is_rejected() {
    let a = score_map(2, 2, vec![0.0, 0.0, 0.0, 0.0]);
    let b = score_map(2, 3, vec![0.0, 0.0, 0.0, 0.0, 0.0, 0.0]);
    let r = find_direction_commands(&a, &a, &b, &a, None, None);
    assert_eq!(r, Err(hd2m_cv::CvError::ShapeMismatch));
}

#[test]
fn finder_window_taller_than_map_yields_nothing() {
    let a = score_map(2, 2, vec![1.0, 1.0, 1.0, 1.0]);
    let buf = raw_mats_to_direction_buffer(&a, &a, &a, &a, Score::ratio(1, 1)).unwrap();
    let commands = collect_direction_commands(&buf, 5).unwrap();
    assert_eq!(commands, Vec::<Vec<Direction>>::new());
}
