use hd2m_cv::search::find_direction_commands;
use hd2m_cv::{Direction, DirectionDescriptor, Grid, Point, Score, ScoreMap};

fn score(v: f32) -> Score {
    Score::ratio((v * 10.0).round() as u32, 10)
}

/// Builds a score map from values laid out with the sequence axis first,
/// as the original arrays are written: entry `(i, j)` of the table becomes
/// the cell at `x = i`, `y = j`.
fn transposed_score_map(rows: usize, cols: usize, vals: Vec<f32>) -> ScoreMap {
    assert_eq!(vals.len(), rows * cols);
    let mut data: Vec<Score> = Vec::new();
    for y in 0..cols {
        for x in 0..rows {
            data.push(score(vals[x * cols + y]));
        }
    }
    Grid::from_shape_vec(cols, rows, data)
}

fn desc(direction: Direction, x: usize, y: usize, confidence: f32) -> DirectionDescriptor {
    DirectionDescriptor {
        direction,
        position: Point { x, y },
        confidence: score(confidence),
    }
}

#[test]
fn search_test_find_direction_commands() {
    let up_arr = transposed_score_map(
        15,
        9, // x, y
        vec![
            // xV, y>
            0.0, 0.0, 0.0, 0.0, 0.0, 0.0, 0.0, 0.0, 0.0, //
            1.1, 0.0, 0.0, 0.0, 0.0, 0.0, 0.0, 0.0, 0.0, //
            0.0, 0.0, 0.0, 0.0, 0.0, 0.0, 0.0, 0.0, 0.0, //
            0.0, 0.0, 0.0, 0.0, 0.0, 0.0, 0.0, 0.0, 0.0, //
            0.0, 0.0, 0.0, 2.0, 0.0, 0.0, 0.0, 0.0, 0.0, //
            0.0, 0.0, 0.0, 0.0, 0.0, 0.0, 0.0, 0.0, 0.0, //
            0.0, 0.0, 0.0, 0.0, 0.0, 0.0, 3.0, 0.0, 0.0, //
            0.0, 0.0, 0.0, 0.0, 0.0, 4.0, 0.0, 0.0, 0.0, //
            0.0, 0.0, 5.0, 0.0, 0.0, 0.0, 0.0, 0.0, 0.0, //
            0.0, 0.0, 0.0, 0.0, 0.0, 0.0, 0.0, 0.0, 0.0, //
            0.0, 0.0, 0.0, 0.0, 0.0, 0.0, 6.0, 0.0, 0.0, //
            0.0, 0.0, 0.0, 0.0, 0.0, 0.0, 0.0, 0.0, 0.0, //
            0.0, 0.0, 0.0, 0.0, 0.0, 0.0, 0.0, 0.0, 0.0, //
            0.0, 0.0, 0.0, 0.0, 0.0, 0.0, 7.0, 0.0, 0.0, //
            0.0, 0.0, 0.0, 0.0, 0.0, 0.0, 0.0, 0.0, 0.0, //
        ],
    );
    let down_arr = transposed_score_map(
        15,
        9,
        vec![
            0.0, 0.0, 0.0, 0.0, 0.0, 0.0, 0.0, 0.0, 0.0, //
            1.0, 0.0, 0.0, 0.0, 0.0, 0.0, 0.0, 0.0, 0.0, //
            0.0, 0.0, 0.0, 0.0, 0.0, 0.0, 1.0, 0.0, 0.0, //
            0.0, 0.0, 0.0, 0.0, 0.0, 0.0, 0.0, 0.0, 0.0, //
            0.0, 0.0, 0.0, 0.0, 1.0, 1.0, 0.0, 0.0, 0.0, //
            0.0, 0.0, 0.0, 0.0, 0.0, 0.0, 0.0, 0.0, 0.0, //
            0.0, 0.0, 0.0, 0.0, 0.0, 0.0, 0.0, 1.0, 1.0, //
            0.0, 1.0, 0.0, 0.0, 0.0, 0.0, 0.0, 0.0, 0.0, //
            0.0, 0.0, 1.0, 0.0, 0.0, 0.0, 0.0, 0.0, 0.0, //
            0.0, 0.0, 0.0, 0.0, 0.0, 0.0, 0.0, 0.0, 0.0, //
            0.0, 0.0, 0.0, 0.0, 0.0, 0.0, 0.0, 0.0, 0.0, //
            0.0, 0.0, 0.0, 0.0, 0.0, 0.0, 0.0, 0.0, 0.0, //
            0.0, 0.0, 0.0, 0.0, 0.0, 0.0, 0.0, 0.0, 0.0, //
            0.0, 0.0, 0.0, 0.0, 0.0, 0.0, 1.0, 0.0, 0.0, //
            0.0, 0.0, 0.0, 0.0, 0.0, 0.0, 0.0, 0.0, 0.0, //
        ],
    );
    let right_arr = transposed_score_map(
        15,
        9,
        vec![
            0.0, 0.0, 0.0, 0.0, 0.0, 0.0, 0.0, 0.0, 0.0, //
            1.0, 0.0, 0.0, 0.0, 0.0, 0.0, 0.0, 0.0, 0.0, //
            0.0, 0.0, 0.0, 0.0, 0.0, 0.0, 1.0, 0.0, 0.0, //
            0.0, 0.0, 0.0, 0.0, 0.0, 0.0, 0.0, 0.0, 0.0, //
            0.0, 0.0, 0.0, 0.0, 1.0, 1.0, 0.0, 0.0, 0.0, //
            0.0, 0.0, 0.0, 0.0, 0.0, 0.0, 0.0, 0.0, 0.0, //
            0.0, 0.0, 0.0, 0.0, 0.0, 0.0, 0.0, 1.0, 0.0, //
            0.0, 1.0, 0.0, 0.0, 0.0, 0.0, 0.0, 0.0, 0.0, //
            0.0, 0.0, 1.0, 0.0, 0.0, 0.0, 0.0, 0.0, 0.0, //
            0.0, 0.0, 0.0, 0.0, 0.0, 0.0, 0.0, 0.0, 0.0, //
            0.0, 0.0, 0.0, 0.0, 0.0, 0.0, 0.0, 0.0, 0.0, //
            0.0, 0.0, 0.0, 0.0, 0.0, 0.0, 0.0, 0.0, 0.0, //
            0.0, 0.0, 0.0, 0.0, 0.0, 0.0, 0.0, 0.0, 0.0, //
            0.0, 0.0, 0.0, 0.0, 0.0, 0.0, 1.0, 0.0, 0.0, //
            0.0, 0.0, 0.0, 0.0, 0.0, 0.0, 0.0, 0.0, 0.0, //
        ],
    );
    let left_arr = transposed_score_map(
        15,
        9,
        vec![
            0.0, 0.0, 0.0, 0.0, 0.0, 0.0, 0.0, 0.0, 0.0, //
            1.0, 0.0, 0.0, 1.0, 0.0, 0.0, 0.0, 0.0, 0.0, //
            0.0, 0.0, 0.0, 0.0, 0.0, 0.0, 1.0, 0.0, 0.0, //
            0.0, 0.0, 0.0, 0.0, 0.0, 0.0, 0.0, 0.0, 0.0, //
            0.0, 0.0, 0.0, 0.0, 1.0, 1.0, 0.0, 0.0, 0.0, //
            0.0, 0.0, 0.0, 1.0, 0.0, 0.0, 0.0, 0.0, 0.0, //
            0.0, 0.0, 0.0, 0.0, 0.0, 0.0, 0.0, 1.0, 0.0, //
            0.0, 1.0, 0.0, 0.0, 0.0, 0.0, 0.0, 0.0, 0.0, //
            0.0, 0.0, 1.0, 0.0, 0.0, 0.0, 0.0, 0.0, 0.0, //
            0.0, 0.0, 0.0, 0.0, 0.0, 0.0, 0.0, 0.0, 0.0, //
            0.0, 0.0, 0.0, 0.0, 0.0, 0.0, 1.0, 0.0, 0.0, //
            0.0, 0.0, 0.0, 0.0, 0.0, 0.0, 0.0, 0.0, 0.0, //
            0.0, 0.0, 0.0, 0.0, 0.0, 0.0, 0.0, 0.0, 0.0, //
            0.0, 0.0, 0.0, 0.0, 0.0, 0.0, 0.0, 0.0, 0.0, //
            0.0, 0.0, 0.0, 1.0, 0.0, 0.0, 0.0, 0.0, 0.0, //
        ],
    );

    let buf = find_direction_commands(
        &up_arr,
        &down_arr,
        &right_arr,
        &left_arr,
        None,
        None,
        Some(2),
    )
    .unwrap();
    assert_eq!(
        buf,
        vec![
            vec![
                desc(Direction::Left, 1, 3, 1.0),
                desc(Direction::Up, 4, 3, 2.0),
                desc(Direction::Left, 5, 3, 1.0),
                desc(Direction::Right, 7, 1, 1.0),
                desc(Direction::Up, 8, 2, 5.0),
                desc(Direction::Left, 14, 3, 1.0),
            ],
            vec![
                desc(Direction::Right, 2, 6, 1.0),
                desc(Direction::Right, 4, 5, 1.0),
                desc(Direction::Up, 6, 6, 3.0),
                desc(Direction::Up, 10, 6, 6.0),
                desc(Direction::Up, 13, 6, 7.0),
            ]
        ]
    );
}

fn empty_map(height: usize, width: usize) -> ScoreMap {
    let data: Vec<Score> = (0..height * width).map(|_| Score::zero()).collect();
    Grid::from_shape_vec(height, width, data)
}

fn map_with(height: usize, width: usize, entries: &[(usize, usize, Score)]) -> ScoreMap {
    let mut data: Vec<Score> = (0..height * width).map(|_| Score::zero()).collect();
    for &(row, col, v) in entries {
        data[row * width + col] = v;
    }
    Grid::from_shape_vec(height, width, data)
}

fn run_scenario(
    up: &ScoreMap,
    down: &ScoreMap,
    right: &ScoreMap,
    left: &ScoreMap,
) -> Vec<Vec<DirectionDescriptor>> {
    find_direction_commands(
        up,
        down,
        right,
        left,
        Some(Score::ratio(9, 10)),
        Some(3),
        Some(2),
    )
    .unwrap()
}

#[test]
fn scenario_single_row_three_glyphs() {
    let one = Score::ratio(1, 1);
    let up = map_with(3, 9, &[(1, 0, one)]);
    let right = map_with(3, 9, &[(1, 3, one)]);
    let down = map_with(3, 9, &[(1, 6, one)]);
    let left = empty_map(3, 9);
    let r = run_scenario(&up, &down, &right, &left);
    assert_eq!(r.len(), 1);
    assert_eq!(r[0].len(), 3);
    assert_eq!(r[0][0].direction, Direction::Up);
    assert_eq!(r[0][0].position, Point { x: 0, y: 1 });
    assert_eq!(r[0][1].direction, Direction::Right);
    assert_eq!(r[0][1].position, Point { x: 3, y: 1 });
    assert_eq!(r[0][2].direction, Direction::Down);
    assert_eq!(r[0][2].position, Point { x: 6, y: 1 });
}

#[test]
fn scenario_three_rows_separated() {
    let one = Score::ratio(1, 1);
    let up = map_with(11, 3, &[(0, 0, one), (4, 0, one), (8, 0, one)]);
    let z = empty_map(11, 3);
    let r = run_scenario(&up, &z, &z, &z);
    assert_eq!(r.len(), 3);
    for (seq, y) in r.iter().zip([0usize, 4, 8]) {
        assert_eq!(seq.len(), 1);
        assert_eq!(seq[0].direction, Direction::Up);
        assert_eq!(seq[0].position, Point { x: 0, y });
    }
}

#[test]
fn scenario_duplicate_suppression() {
    let one = Score::ratio(1, 1);
    let up = map_with(3, 9, &[(1, 0, one), (1, 1, one), (1, 5, one)]);
    let z = empty_map(3, 9);
    let r = run_scenario(&up, &z, &z, &z);
    assert_eq!(r.len(), 1);
    assert_eq!(r[0].len(), 2);
    assert_eq!(r[0][0].direction, Direction::Up);
    assert_eq!(r[0][0].position, Point { x: 0, y: 1 });
    assert_eq!(r[0][1].direction, Direction::Up);
    assert_eq!(r[0][1].position, Point { x: 5, y: 1 });
}

#[test]
fn scenario_tie_break_picks_up() {
    let one = Score::ratio(1, 1);
    let up = map_with(3, 3, &[(1, 0, one)]);
    let right = map_with(3, 3, &[(1, 0, one)]);
    let z = empty_map(3, 3);
    let r = run_scenario(&up, &z, &right, &z);
    assert_eq!(r.len(), 1);
    assert_eq!(r[0].len(), 1);
    assert_eq!(r[0][0].direction, Direction::Up);
    assert_eq!(r[0][0].position, Point { x: 0, y: 1 });
}

#[test]
fn scenario_sub_threshold_yields_nothing() {
    let low = Score::ratio(85, 100);
    let up = map_with(3, 9, &[(1, 0, low)]);
    let z = empty_map(3, 9);
    let r = run_scenario(&up, &z, &z, &z);
    assert_eq!(r, Vec::<Vec<DirectionDescriptor>>::new());
}

#[test]
fn scenario_peak_plateau_keeps_last_band() {
    let one = Score::ratio(1, 1);
    let up = map_with(8, 6, &[(3, 0, one), (4, 5, one)]);
    let z = empty_map(8, 6);
    let r = run_scenario(&up, &z, &z, &z);
    assert_eq!(r.len(), 1);
    assert_eq!(r[0].len(), 2);
    assert_eq!(r[0][0].position, Point { x: 0, y: 3 });
    assert_eq!(r[0][1].position, Point { x: 5, y: 4 });
}

#[test]
fn all_none_fused_map_yields_empty_list() {
    let z = empty_map(6, 6);
    let r = run_scenario(&z, &z, &z, &z);
    assert_eq!(r, Vec::<Vec<DirectionDescriptor>>::new());
}

#[test]
fn search_shape_mismatch_is_rejected() {
    let a = empty_map(3, 3);
    let b = empty_map(3, 4);
    let r = find_direction_commands(&a, &b, &a, &a, None, None, None);
    assert_eq!(r, Err(hd2m_cv::CvError::ShapeMismatch));
}

#[test]
fn fused_confidence_is_the_maximum() {
    let up = map_with(1, 1, &[(0, 0, Score::ratio(95, 100))]);
    let right = map_with(1, 1, &[(0, 0, Score::ratio(99, 100))]);
    let down = map_with(1, 1, &[(0, 0, Score::ratio(91, 100))]);
    let left = empty_map(1, 1);
    let fused = hd2m_cv::search::raw_mats_to_direction_buffer(
        &up,
        &down,
        &right,
        &left,
        Score::ratio(9, 10),
    )
    .unwrap();
    let cell = fused.cell(0, 0).unwrap();
    assert_eq!(cell.direction, Direction::Right);
    assert_eq!(cell.score, Score::ratio(99, 100));
}
