use vstd::prelude::*;
use crate::error::CvError;
use crate::grid::Grid;
use crate::score::Score;
use crate::search::{fused_cell, map_valid, same_shape, Direction, ScoreMap};

verus! {

/// A map of dominant directions without confidences: the lighter sibling of
/// the fused map, used when callers only need the direction lists.
pub type DirectionMap = Grid<Option<Direction>>;

/// The direction the fusion rule picks for one cell, if its confidence
/// clears the threshold.
pub open spec fn fused_dir(up: Score, right: Score, down: Score, left: Score, threshold: Score) -> Option<Direction> {
    match fused_cell(up, right, down, left, threshold) {
        Some(h) => Some(h.direction),
        None => None,
    }
}

/// Reduces the four per-direction score maps into a map of dominant
/// directions, cell by cell, with `fused_dir`.
pub fn raw_mats_to_direction_buffer(
    up: &ScoreMap,
    right: &ScoreMap,
    down: &ScoreMap,
    left: &ScoreMap,
    threshold: Score,
) -> (r: Result<DirectionMap, CvError>)
    requires
        up.wf(),
        right.wf(),
        down.wf(),
        left.wf(),
        map_valid(*up),
        map_valid(*right),
        map_valid(*down),
        map_valid(*left),
        threshold.valid(),
    ensures
        r is Ok <==> same_shape(*up, *down, *right, *left),
        r is Err ==> r == Err::<DirectionMap, CvError>(CvError::ShapeMismatch),
        r matches Ok(b) ==> {
            &&& b.wf()
            &&& b.height == up.height
            &&& b.width == up.width
            &&& forall|x: int, y: int| 0 <= x < b.width && 0 <= y < b.height
                ==> #[trigger] b.spec_cell(x, y) == fused_dir(
                    up.spec_cell(x, y),
                    right.spec_cell(x, y),
                    down.spec_cell(x, y),
                    left.spec_cell(x, y),
                    threshold,
                )
        },
{
    let fused = crate::search::raw_mats_to_direction_buffer(up, down, right, left, threshold)?;
    let n: usize = fused.data.len();
    let mut data: Vec<Option<Direction>> = Vec::new();
    let mut i: usize = 0;
    while i < n
        invariant
            i <= n,
            n == fused.data.len(),
            data.len() == i,
            forall|j: int| 0 <= j < i
                ==> #[trigger] data[j] == (match fused.data[j] {
                    Some(h) => Some(h.direction),
                    None => None::<Direction>,
                }),
        decreases n - i,
    {
        let c = match fused.data[i] {
            Some(h) => Some(h.direction),
            None => None,
        };
        data.push(c);
        i = i + 1;
    }
    let b = Grid::from_shape_vec(fused.height, fused.width, data);
    proof {
        assert forall|x: int, y: int| 0 <= x < b.width && 0 <= y < b.height
            implies #[trigger] b.spec_cell(x, y) == fused_dir(
                up.spec_cell(x, y),
                right.spec_cell(x, y),
                down.spec_cell(x, y),
                left.spec_cell(x, y),
                threshold,
            ) by {
            crate::grid::lemma_grid_index(x, y, b.width as int, b.height as int);
        }
    }
    Ok(b)
}

/// The directions of one row, left to right, skipping empty cells,
/// starting at column `x`.
pub open spec fn row_dirs(buf: DirectionMap, y: int, x: int) -> Seq<Direction>
    decreases buf.width - x,
{
    if x < 0 || x >= buf.width {
        Seq::empty()
    } else {
        match buf.spec_cell(x, y) {
            Some(d) => seq![d] + row_dirs(buf, y, x + 1),
            None => row_dirs(buf, y, x + 1),
        }
    }
}

/// The first direction in column `x` of the band starting at row `y`,
/// searched downward from offset `k`.
pub open spec fn first_dir_in_window(buf: DirectionMap, x: int, y: int, k: int, window: int) -> Option<Direction>
    decreases window - k,
{
    if k < 0 || k >= window {
        None::<Direction>
    } else {
        match buf.spec_cell(x, y + k) {
            Some(d) => Some(d),
            None => first_dir_in_window(buf, x, y, k + 1, window),
        }
    }
}

/// The directions one band contributes, one per column holding any
/// direction, left to right, starting at column `x`.
pub open spec fn band_dirs(buf: DirectionMap, y: int, window: int, x: int) -> Seq<Direction>
    decreases buf.width - x,
{
    if x < 0 || x >= buf.width {
        Seq::empty()
    } else {
        match first_dir_in_window(buf, x, y, 0, window) {
            Some(d) => seq![d] + band_dirs(buf, y, window, x + 1),
            None => band_dirs(buf, y, window, x + 1),
        }
    }
}

/// Whether index `i` of the count sequence is a peak: at least its upper
/// neighbor and strictly above its lower one, the ends bordered by zero.
pub open spec fn is_peak_at(counts: Seq<usize>, i: int) -> bool {
    let cur = counts[i] as int;
    let prev: int = if i == 0 { 0 } else { counts[i - 1] as int };
    let next: int = if i + 1 >= counts.len() { 0 } else { counts[i + 1] as int };
    cur >= prev && cur > next
}

/// The peak indices below `n`, in increasing order.
pub open spec fn peak_indices(counts: Seq<usize>, n: int) -> Seq<int>
    decreases n,
{
    if n <= 0 {
        Seq::empty()
    } else if is_peak_at(counts, n - 1) {
        peak_indices(counts, n - 1) + seq![n - 1]
    } else {
        peak_indices(counts, n - 1)
    }
}

/// The peak indices are strictly increasing and denote existing entries.
pub proof fn lemma_peak_indices_increasing(counts: Seq<usize>, n: int)
    ensures
        forall|i: int, j: int|
            0 <= i < j < peak_indices(counts, n).len()
            ==> #[trigger] peak_indices(counts, n)[i] < #[trigger] peak_indices(counts, n)[j],
        forall|i: int|
            0 <= i < peak_indices(counts, n).len()
            ==> 0 <= #[trigger] peak_indices(counts, n)[i] < n,
    decreases n,
{
    if n > 0 {
        lemma_peak_indices_increasing(counts, n - 1);
        let pk1 = peak_indices(counts, n - 1);
        let pk = peak_indices(counts, n);
        assert forall|i: int|
            0 <= i < pk.len() implies 0 <= #[trigger] pk[i] < n by {
            if i < pk1.len() {
                assert(pk[i] == pk1[i]);
            }
        }
        assert forall|i: int, j: int|
            0 <= i < j < pk.len() implies #[trigger] pk[i] < #[trigger] pk[j] by {
            if j < pk1.len() {
                assert(pk[i] == pk1[i] && pk[j] == pk1[j]);
            } else {
                assert(pk[i] == pk1[i]);
                assert(pk1[i] < n - 1);
            }
        }
    }
}

fn find_peaks(hist: &Vec<usize>) -> (r: Vec<usize>)
    ensures
        r@.len() == peak_indices(hist@, hist@.len() as int).len(),
        forall|j: int| 0 <= j < r@.len()
            ==> #[trigger] r@[j] == peak_indices(hist@, hist@.len() as int)[j],
{
    let n = hist.len();
    let mut r: Vec<usize> = Vec::new();
    let mut i: usize = 0;
    while i < n
        invariant
            i <= n,
            n == hist@.len(),
            r@.len() == peak_indices(hist@, i as int).len(),
            forall|j: int| 0 <= j < r@.len()
                ==> #[trigger] r@[j] == peak_indices(hist@, i as int)[j],
        decreases n - i,
    {
        let cur = hist[i];
        let prev: usize = if i > 0 { hist[i - 1] } else { 0 };
        let next: usize = if i + 1 < n { hist[i + 1] } else { 0 };
        if cur >= prev && cur > next {
            assert(is_peak_at(hist@, i as int));
            r.push(i);
        } else {
            assert(!is_peak_at(hist@, i as int));
        }
        i = i + 1;
    }
    r
}

/// Extracts one direction list per detected row, treating every single row
/// of the map as its own candidate: rows whose direction counts peak are
/// returned, top to bottom. Never fails.
pub fn extract_direction_commands(buf: &DirectionMap) -> (r: Result<Vec<Vec<Direction>>, CvError>)
    requires
        buf.wf(),
    ensures
        r is Ok,
        r matches Ok(v) ==> {
            let counts = Seq::new(buf.height as nat, |y: int| row_dirs(*buf, y, 0).len() as usize);
            let pk = peak_indices(counts, counts.len() as int);
            &&& v@.len() == pk.len()
            &&& forall|j: int| 0 <= j < pk.len()
                ==> (#[trigger] v@[j])@ == row_dirs(*buf, pk[j], 0)
        },
{
    let height = buf.height;
    let width = buf.width;
    let ghost counts = Seq::new(buf.height as nat, |y: int| row_dirs(*buf, y, 0).len() as usize);

    let mut hist: Vec<usize> = Vec::new();
    let mut rows: Vec<Vec<Direction>> = Vec::new();
    let mut y: usize = 0;
    while y < height
        invariant
            buf.wf(),
            height == buf.height,
            width == buf.width,
            y <= height,
            rows@.len() == y,
            hist@.len() == y,
            counts == Seq::new(buf.height as nat, |yy: int| row_dirs(*buf, yy, 0).len() as usize),
            forall|b: int| 0 <= b < y ==> (#[trigger] rows@[b])@ == row_dirs(*buf, b, 0),
            forall|b: int| 0 <= b < y ==> #[trigger] hist@[b] == counts[b],
        decreases height - y,
    {
        let mut row: Vec<Direction> = Vec::new();
        let mut x: usize = 0;
        while x < width
            invariant
                buf.wf(),
                height == buf.height,
                width == buf.width,
                y < height,
                x <= width,
                row@ + row_dirs(*buf, y as int, x as int) == row_dirs(*buf, y as int, 0),
            decreases width - x,
        {
            match buf.cell(x, y) {
                Some(d) => {
                    row.push(d);
                },
                None => {},
            }
            x = x + 1;
        }
        hist.push(row.len());
        rows.push(row);
        y = y + 1;
    }

    proof {
        assert(hist@ =~= counts);
    }
    let peaks = find_peaks(&hist);
    proof {
        lemma_peak_indices_increasing(counts, height as int);
    }
    let mut out: Vec<Vec<Direction>> = Vec::new();
    let mut i: usize = 0;
    while i < peaks.len()
        invariant
            i <= peaks@.len(),
            rows@.len() == height,
            forall|b: int| 0 <= b < height ==> (#[trigger] rows@[b])@ == row_dirs(*buf, b, 0),
            peaks@.len() == peak_indices(counts, height as int).len(),
            forall|j: int| 0 <= j < peaks@.len()
                ==> #[trigger] peaks@[j] == peak_indices(counts, height as int)[j],
            forall|j: int| 0 <= j < peaks@.len() ==> 0 <= #[trigger] peaks@[j] < height,
            out@.len() == i,
            forall|j: int| 0 <= j < i
                ==> (#[trigger] out@[j])@ == row_dirs(*buf, peak_indices(counts, height as int)[j], 0),
        decreases peaks@.len() - i,
    {
        let b = peaks[i];
        out.push(copy_directions(&rows[b]));
        i = i + 1;
    }
    Ok(out)
}

fn copy_directions(v: &Vec<Direction>) -> (r: Vec<Direction>)
    ensures
        r@ == v@,
{
    let mut r: Vec<Direction> = Vec::new();
    let mut i: usize = 0;
    while i < v.len()
        invariant
            i <= v.len(),
            r@ == v@.subrange(0, i as int),
        decreases v.len() - i,
    {
        r.push(v[i]);
        i = i + 1;
    }
    proof {
        assert(r@ == v@.subrange(0, v@.len() as int));
        assert(v@.subrange(0, v@.len() as int) == v@);
    }
    r
}

fn first_dir(buf: &DirectionMap, x: usize, y: usize, window: usize) -> (r: Option<Direction>)
    requires
        buf.wf(),
        x < buf.width,
        y + window <= buf.height,
    ensures
        r == first_dir_in_window(*buf, x as int, y as int, 0, window as int),
{
    let mut k: usize = 0;
    while k < window
        invariant
            buf.wf(),
            x < buf.width,
            y + window <= buf.height,
            k <= window,
            first_dir_in_window(*buf, x as int, y as int, 0, window as int)
                == first_dir_in_window(*buf, x as int, y as int, k as int, window as int),
        decreases window - k,
    {
        match buf.cell(x, y + k) {
            Some(d) => {
                return Some(d);
            },
            None => {},
        }
        k = k + 1;
    }
    None
}

/// Extracts one direction list per detected row with a sliding vertical
/// window of height `search_chunk_size`: each band collects, per column,
/// the first direction found downward; bands whose direction counts peak
/// are returned, top to bottom. Never fails.
pub fn collect_direction_commands(
    buf: &DirectionMap,
    search_chunk_size: usize,
) -> (r: Result<Vec<Vec<Direction>>, CvError>)
    requires
        buf.wf(),
        1 <= search_chunk_size,
    ensures
        r is Ok,
        r matches Ok(v) ==> {
            let nbands = spec_num_bands(*buf, search_chunk_size as int);
            let counts = Seq::new(nbands as nat, |y: int| band_dirs(*buf, y, search_chunk_size as int, 0).len() as usize);
            let pk = peak_indices(counts, counts.len() as int);
            &&& v@.len() == pk.len()
            &&& forall|j: int| 0 <= j < pk.len()
                ==> (#[trigger] v@[j])@ == band_dirs(*buf, pk[j], search_chunk_size as int, 0)
        },
{
    let height = buf.height;
    let width = buf.width;
    let window = search_chunk_size;
    let nbands: usize = if window <= height { height - window + 1 } else { 0 };
    assert(nbands == spec_num_bands(*buf, window as int));
    let ghost counts = Seq::new(nbands as nat, |y: int| band_dirs(*buf, y, window as int, 0).len() as usize);

    let mut hist: Vec<usize> = Vec::new();
    let mut bands: Vec<Vec<Direction>> = Vec::new();
    let mut y: usize = 0;
    while y < nbands
        invariant
            buf.wf(),
            1 <= window,
            height == buf.height,
            width == buf.width,
            nbands == spec_num_bands(*buf, window as int),
            y <= nbands,
            bands@.len() == y,
            hist@.len() == y,
            counts == Seq::new(nbands as nat, |yy: int| band_dirs(*buf, yy, window as int, 0).len() as usize),
            forall|b: int| 0 <= b < y ==> (#[trigger] bands@[b])@ == band_dirs(*buf, b, window as int, 0),
            forall|b: int| 0 <= b < y ==> #[trigger] hist@[b] == counts[b],
        decreases nbands - y,
    {
        let mut band: Vec<Direction> = Vec::new();
        let mut x: usize = 0;
        while x < width
            invariant
                buf.wf(),
                1 <= window,
                height == buf.height,
                width == buf.width,
                nbands == spec_num_bands(*buf, window as int),
                y < nbands,
                x <= width,
                band@ + band_dirs(*buf, y as int, window as int, x as int)
                    == band_dirs(*buf, y as int, window as int, 0),
            decreases width - x,
        {
            match first_dir(buf, x, y, window) {
                Some(d) => {
                    band.push(d);
                },
                None => {},
            }
            x = x + 1;
        }
        hist.push(band.len());
        bands.push(band);
        y = y + 1;
    }

    proof {
        assert(hist@ =~= counts);
    }
    let peaks = find_peaks(&hist);
    proof {
        lemma_peak_indices_increasing(counts, nbands as int);
    }
    let mut out: Vec<Vec<Direction>> = Vec::new();
    let mut i: usize = 0;
    while i < peaks.len()
        invariant
            i <= peaks@.len(),
            bands@.len() == nbands,
            forall|b: int| 0 <= b < nbands ==> (#[trigger] bands@[b])@ == band_dirs(*buf, b, window as int, 0),
            peaks@.len() == peak_indices(counts, nbands as int).len(),
            forall|j: int| 0 <= j < peaks@.len()
                ==> #[trigger] peaks@[j] == peak_indices(counts, nbands as int)[j],
            forall|j: int| 0 <= j < peaks@.len() ==> 0 <= #[trigger] peaks@[j] < nbands,
            out@.len() == i,
            forall|j: int| 0 <= j < i
                ==> (#[trigger] out@[j])@ == band_dirs(*buf, peak_indices(counts, nbands as int)[j], window as int, 0),
        decreases peaks@.len() - i,
    {
        let b = peaks[i];
        out.push(copy_directions(&bands[b]));
        i = i + 1;
    }
    Ok(out)
}

/// How many bands a window of the given height yields.
pub open spec fn spec_num_bands(buf: DirectionMap, window: int) -> int {
    if 1 <= window <= buf.height {
        buf.height - window + 1
    } else {
        0
    }
}

/// The direction-only pipeline: fuse the four score maps into a direction
/// map, then collect the per-row direction lists with a sliding window.
/// The optional parameters default to a threshold of 1.0 and a window of 3.
pub fn find_direction_commands(
    up: &ScoreMap,
    right: &ScoreMap,
    down: &ScoreMap,
    left: &ScoreMap,
    threshold: Option<Score>,
    search_chunk_size: Option<usize>,
) -> (r: Result<Vec<Vec<Direction>>, CvError>)
    requires
        up.wf(),
        right.wf(),
        down.wf(),
        left.wf(),
        map_valid(*up),
        map_valid(*right),
        map_valid(*down),
        map_valid(*left),
        threshold matches Some(t) ==> t.valid(),
        search_chunk_size matches Some(c) ==> 1 <= c,
    ensures
        r is Ok <==> same_shape(*up, *down, *right, *left),
        r is Err ==> r == Err::<Vec<Vec<Direction>>, CvError>(CvError::ShapeMismatch),
        r matches Ok(v) ==> {
            let t = match threshold { Some(t0) => t0, None => Score { num: 1, den: 1 } };
            let window = (match search_chunk_size { Some(c0) => c0, None => 3usize }) as int;
            exists|b: DirectionMap| {
                &&& b.wf()
                &&& b.height == up.height
                &&& b.width == up.width
                &&& (forall|x: int, yy: int| 0 <= x < b.width && 0 <= yy < b.height
                    ==> #[trigger] b.spec_cell(x, yy) == fused_dir(
                        up.spec_cell(x, yy),
                        right.spec_cell(x, yy),
                        down.spec_cell(x, yy),
                        left.spec_cell(x, yy),
                        t,
                    ))
                &&& {
                    let nbands = spec_num_bands(b, window);
                    let counts = Seq::new(nbands as nat, |y: int| band_dirs(b, y, window, 0).len() as usize);
                    let pk = peak_indices(counts, counts.len() as int);
                    &&& v@.len() == pk.len()
                    &&& (forall|j: int| 0 <= j < pk.len()
                        ==> (#[trigger] v@[j])@ == band_dirs(b, pk[j], window, 0))
                }
            }
        },
{
    let t = match threshold {
        Some(t0) => t0,
        None => Score::ratio(1, 1),
    };
    let window = match search_chunk_size {
        Some(c0) => c0,
        None => 3,
    };
    let directions = raw_mats_to_direction_buffer(up, right, down, left, t)?;
    let commands = collect_direction_commands(&directions, window)?;
    Ok(commands)
}

} // verus!
