use vstd::prelude::*;
use crate::error::CvError;
use crate::grid::Grid;
use crate::score::Score;

verus! {

/// One of the four glyph directions of a stratagem sequence.
#[derive(Clone, Copy, Debug, PartialEq, Eq, Structural, Hash)]
pub enum Direction {
    Up,
    Right,
    Down,
    Left,
}

/// A pixel position; origin top-left, `x` grows right, `y` grows down.
#[derive(Clone, Copy, Debug, Default, PartialEq, Eq, Structural, Hash)]
pub struct Point {
    pub x: usize,
    pub y: usize,
}

/// Coordinates small enough that a squared distance fits in `u64`.
pub open spec fn pt_ok(p: Point) -> bool {
    p.x <= 0x7FFF_FFFF && p.y <= 0x7FFF_FFFF
}

/// Squared Euclidean distance between two points.
pub open spec fn spec_dist_sq(a: Point, b: Point) -> int {
    (a.x - b.x) * (a.x - b.x) + (a.y - b.y) * (a.y - b.y)
}

impl Point {
    pub fn new(x: usize, y: usize) -> (r: Point)
        ensures
            r == (Point { x, y }),
    {
        Point { x, y }
    }

    pub fn zeroed() -> (r: Point)
        ensures
            r == (Point { x: 0usize, y: 0usize }),
    {
        Point { x: 0, y: 0 }
    }

    pub fn is_zero(&self) -> (r: bool)
        ensures
            r == (self.x == 0 && self.y == 0),
    {
        self.x == 0 && self.y == 0
    }

    /// Squared Euclidean distance to `other`.
    pub fn distance_sq(&self, other: Point) -> (r: u64)
        requires
            pt_ok(*self),
            pt_ok(other),
        ensures
            r == spec_dist_sq(*self, other),
    {
        let dx: u64 = if self.x >= other.x {
            (self.x - other.x) as u64
        } else {
            (other.x - self.x) as u64
        };
        let dy: u64 = if self.y >= other.y {
            (self.y - other.y) as u64
        } else {
            (other.y - self.y) as u64
        };
        proof {
            lemma_dist_sq_bound(self.x as int, self.y as int, other.x as int, other.y as int);
        }
        dx * dx + dy * dy
    }
}

proof fn lemma_dist_sq_bound(ax: int, ay: int, bx: int, by: int) by (nonlinear_arith)
    requires
        0 <= ax <= 0x7FFF_FFFF,
        0 <= ay <= 0x7FFF_FFFF,
        0 <= bx <= 0x7FFF_FFFF,
        0 <= by <= 0x7FFF_FFFF,
    ensures
        0 <= (ax - bx) * (ax - bx) + (ay - by) * (ay - by) <= u64::MAX,
        (ax - bx) * (ax - bx) == (bx - ax) * (bx - ax),
        (ay - by) * (ay - by) == (by - ay) * (by - ay),
{
}

/// A dominant direction at one cell of the fused map, with its confidence.
#[derive(Clone, Copy, Debug, PartialEq, Eq, Structural)]
pub struct Hit {
    pub direction: Direction,
    pub score: Score,
}

/// A fused-map cell: the dominant direction there, if any cleared the
/// threshold.
pub type IntermediaryDirection = Option<Hit>;

/// A detected glyph: its direction, the top-left corner of the matched
/// template window in source coordinates, and the match confidence.
#[derive(Clone, Copy, Debug, PartialEq, Eq, Structural)]
pub struct DirectionDescriptor {
    pub direction: Direction,
    pub position: Point,
    pub confidence: Score,
}

/// A per-position map of match confidences.
pub type ScoreMap = Grid<Score>;

/// A per-position map of dominant directions.
pub type FusedMap = Grid<IntermediaryDirection>;

/// Every score of the map is within comparison bounds.
pub open spec fn map_valid(m: ScoreMap) -> bool {
    forall|i: int| 0 <= i < m.data.len() ==> (#[trigger] m.data[i]).valid()
}

/// The fusion rule for one cell: take the maximum of the four scores; below
/// the threshold the cell is empty, otherwise it carries the first direction
/// (in the order up, right, down, left) whose score equals that maximum.
pub open spec fn fused_cell(up: Score, right: Score, down: Score, left: Score, threshold: Score) -> IntermediaryDirection {
    let m = up.spec_max(right).spec_max(down).spec_max(left);
    if m.spec_lt(threshold) {
        None
    } else if m.spec_eqv(up) {
        Some(Hit { direction: Direction::Up, score: m })
    } else if m.spec_eqv(right) {
        Some(Hit { direction: Direction::Right, score: m })
    } else if m.spec_eqv(down) {
        Some(Hit { direction: Direction::Down, score: m })
    } else {
        Some(Hit { direction: Direction::Left, score: m })
    }
}

fn fuse_one(up: Score, right: Score, down: Score, left: Score, threshold: Score) -> (r: IntermediaryDirection)
    requires
        up.valid(),
        right.valid(),
        down.valid(),
        left.valid(),
        threshold.valid(),
    ensures
        r == fused_cell(up, right, down, left, threshold),
{
    let m = up.max_with(right).max_with(down).max_with(left);
    if m.lt(threshold) {
        None
    } else if m.eqv(up) {
        Some(Hit { direction: Direction::Up, score: m })
    } else if m.eqv(right) {
        Some(Hit { direction: Direction::Right, score: m })
    } else if m.eqv(down) {
        Some(Hit { direction: Direction::Down, score: m })
    } else {
        Some(Hit { direction: Direction::Left, score: m })
    }
}

/// Whether `f` is the cell-by-cell fusion of the four score maps under the
/// given threshold.
pub open spec fn is_fusion_of(f: FusedMap, up: ScoreMap, right: ScoreMap, down: ScoreMap, left: ScoreMap, threshold: Score) -> bool {
    &&& f.wf()
    &&& f.height == up.height
    &&& f.width == up.width
    &&& forall|x: int, y: int| 0 <= x < f.width && 0 <= y < f.height
        ==> #[trigger] f.spec_cell(x, y) == fused_cell(
            up.spec_cell(x, y),
            right.spec_cell(x, y),
            down.spec_cell(x, y),
            left.spec_cell(x, y),
            threshold,
        )
}

/// Whether `v` is the row extraction of the fused map `f`: one sequence
/// per peak band, in increasing band order.
pub open spec fn is_extraction_of(f: FusedMap, window: int, dd: int, v: Vec<Vec<DirectionDescriptor>>) -> bool {
    let pk = peak_list(f, window, dd, num_bands(f, window));
    &&& v@.len() == pk.len()
    &&& forall|j: int| 0 <= j < pk.len() ==> (#[trigger] v@[j])@ == band_seq(f, pk[j], window, dd)
}

/// Whether the four maps share one shape.
pub open spec fn same_shape(up: ScoreMap, down: ScoreMap, right: ScoreMap, left: ScoreMap) -> bool {
    up.spec_shape() == down.spec_shape()
    && up.spec_shape() == right.spec_shape()
    && up.spec_shape() == left.spec_shape()
}

/// Reduces the four per-direction score maps into one map of dominant
/// directions, cell by cell, with `fused_cell`.
pub fn raw_mats_to_direction_buffer(
    up: &ScoreMap,
    down: &ScoreMap,
    right: &ScoreMap,
    left: &ScoreMap,
    threshold: Score,
) -> (r: Result<FusedMap, CvError>)
    requires
        up.wf(),
        down.wf(),
        right.wf(),
        left.wf(),
        map_valid(*up),
        map_valid(*down),
        map_valid(*right),
        map_valid(*left),
        threshold.valid(),
    ensures
        r is Ok <==> same_shape(*up, *down, *right, *left),
        r is Err ==> r == Err::<FusedMap, CvError>(CvError::ShapeMismatch),
        r matches Ok(f) ==> is_fusion_of(f, *up, *right, *down, *left, threshold),
        r matches Ok(f) ==> {
            &&& f.wf()
            &&& f.height == up.height
            &&& f.width == up.width
            &&& forall|i: int| 0 <= i < f.data.len()
                ==> #[trigger] f.data[i] == fused_cell(up.data[i], right.data[i], down.data[i], left.data[i], threshold)
            &&& forall|x: int, y: int| 0 <= x < f.width && 0 <= y < f.height
                ==> #[trigger] f.spec_cell(x, y) == fused_cell(
                    up.spec_cell(x, y),
                    right.spec_cell(x, y),
                    down.spec_cell(x, y),
                    left.spec_cell(x, y),
                    threshold,
                )
        },
{
    if up.height != right.height || up.width != right.width
        || up.height != down.height || up.width != down.width
        || up.height != left.height || up.width != left.width {
        return Err(CvError::ShapeMismatch);
    }
    let n: usize = up.data.len();
    let mut data: Vec<IntermediaryDirection> = Vec::new();
    let mut i: usize = 0;
    while i < n
        invariant
            i <= n,
            n == up.data.len(),
            up.wf(),
            down.wf(),
            right.wf(),
            left.wf(),
            map_valid(*up),
            map_valid(*down),
            map_valid(*right),
            map_valid(*left),
            threshold.valid(),
            same_shape(*up, *down, *right, *left),
            data.len() == i,
            forall|j: int| 0 <= j < i
                ==> #[trigger] data[j] == fused_cell(up.data[j], right.data[j], down.data[j], left.data[j], threshold),
        decreases n - i,
    {
        let c = fuse_one(up.data[i], right.data[i], down.data[i], left.data[i], threshold);
        data.push(c);
        i = i + 1;
    }
    let f = Grid::from_shape_vec(up.height, up.width, data);
    proof {
        assert forall|x: int, y: int| 0 <= x < f.width && 0 <= y < f.height
            implies #[trigger] f.spec_cell(x, y) == fused_cell(
                up.spec_cell(x, y),
                right.spec_cell(x, y),
                down.spec_cell(x, y),
                left.spec_cell(x, y),
                threshold,
            ) by {
            crate::grid::lemma_grid_index(x, y, f.width as int, f.height as int);
        }
    }
    Ok(f)
}

/// The last accepted position per direction while scanning one band.
#[derive(Clone, Copy, Debug, PartialEq, Eq, Structural)]
pub struct LastSeen {
    pub up: Option<Point>,
    pub right: Option<Point>,
    pub down: Option<Point>,
    pub left: Option<Point>,
}

impl LastSeen {
    pub open spec fn spec_get(self, d: Direction) -> Option<Point> {
        match d {
            Direction::Up => self.up,
            Direction::Right => self.right,
            Direction::Down => self.down,
            Direction::Left => self.left,
        }
    }

    pub open spec fn spec_set(self, d: Direction, p: Point) -> LastSeen {
        match d {
            Direction::Up => LastSeen { up: Some(p), ..self },
            Direction::Right => LastSeen { right: Some(p), ..self },
            Direction::Down => LastSeen { down: Some(p), ..self },
            Direction::Left => LastSeen { left: Some(p), ..self },
        }
    }

    pub open spec fn spec_empty() -> LastSeen {
        LastSeen { up: None, right: None, down: None, left: None }
    }

    /// Every recorded position has small enough coordinates to square.
    pub open spec fn all_pt_ok(self) -> bool {
        forall|d: Direction| (#[trigger] self.spec_get(d)) matches Some(p) ==> pt_ok(p)
    }

    pub fn empty() -> (r: LastSeen)
        ensures
            r == LastSeen::spec_empty(),
    {
        LastSeen { up: None, right: None, down: None, left: None }
    }

    pub fn get(&self, d: Direction) -> (r: Option<Point>)
        ensures
            r == self.spec_get(d),
    {
        match d {
            Direction::Up => self.up,
            Direction::Right => self.right,
            Direction::Down => self.down,
            Direction::Left => self.left,
        }
    }

    pub fn with_entry(self, d: Direction, p: Point) -> (r: LastSeen)
        ensures
            r == self.spec_set(d, p),
    {
        match d {
            Direction::Up => LastSeen { up: Some(p), ..self },
            Direction::Right => LastSeen { right: Some(p), ..self },
            Direction::Down => LastSeen { down: Some(p), ..self },
            Direction::Left => LastSeen { left: Some(p), ..self },
        }
    }
}

/// The first filled cell in column `x` of the band starting at row `y`,
/// searched downward from offset `k`, as a descriptor.
pub open spec fn first_hit_in_window(f: FusedMap, x: int, y: int, k: int, window: int) -> Option<DirectionDescriptor>
    decreases window - k,
{
    if k < 0 || k >= window {
        None::<DirectionDescriptor>
    } else {
        match f.spec_cell(x, y + k) {
            Some(h) => Some(DirectionDescriptor {
                direction: h.direction,
                position: Point { x: x as usize, y: (y + k) as usize },
                confidence: h.score,
            }),
            None => first_hit_in_window(f, x, y, k + 1, window),
        }
    }
}

/// Near-duplicate suppression: a tentative descriptor is kept unless an
/// earlier descriptor of the same direction was accepted within
/// `duplicate_distance` (compared by squared Euclidean distance). The first
/// descriptor of each direction is always accepted.
pub open spec fn spec_accepts(ls: LastSeen, desc: DirectionDescriptor, dd: int) -> bool {
    match ls.spec_get(desc.direction) {
        None => true,
        Some(p) => spec_dist_sq(p, desc.position) >= dd * dd,
    }
}

/// The sequence one band contributes, scanning columns left to right from
/// `x` with the suppression state `ls`.
pub open spec fn band_scan(f: FusedMap, y: int, window: int, dd: int, x: int, ls: LastSeen) -> Seq<DirectionDescriptor>
    decreases f.width - x,
{
    if x < 0 || x >= f.width {
        Seq::empty()
    } else {
        match first_hit_in_window(f, x, y, 0, window) {
            Some(desc) => if spec_accepts(ls, desc, dd) {
                seq![desc] + band_scan(f, y, window, dd, x + 1, ls.spec_set(desc.direction, desc.position))
            } else {
                band_scan(f, y, window, dd, x + 1, ls)
            },
            None => band_scan(f, y, window, dd, x + 1, ls),
        }
    }
}

/// The sequence of the band whose top row is `y`.
pub open spec fn band_seq(f: FusedMap, y: int, window: int, dd: int) -> Seq<DirectionDescriptor> {
    band_scan(f, y, window, dd, 0, LastSeen::spec_empty())
}

/// How many bands a window of the given height yields.
pub open spec fn num_bands(f: FusedMap, window: int) -> int {
    if 1 <= window <= f.height {
        f.height - window + 1
    } else {
        0
    }
}

pub open spec fn band_count(f: FusedMap, y: int, window: int, dd: int) -> int {
    band_seq(f, y, window, dd).len() as int
}

/// A band is a peak when its descriptor count is at least its upper
/// neighbor's and strictly above its lower neighbor's, the neighbors beyond
/// the ends counting as zero. On a plateau of equal counts this keeps the
/// last band.
pub open spec fn spec_is_peak(f: FusedMap, window: int, dd: int, y: int) -> bool {
    let n = num_bands(f, window);
    let cur = band_count(f, y, window, dd);
    let prev = if y == 0 { 0 } else { band_count(f, y - 1, window, dd) };
    let next = if y + 1 >= n { 0 } else { band_count(f, y + 1, window, dd) };
    cur >= prev && cur > next
}

/// The peak band indices below `n`, in increasing order.
pub open spec fn peak_list(f: FusedMap, window: int, dd: int, n: int) -> Seq<int>
    decreases n,
{
    if n <= 0 {
        Seq::empty()
    } else if spec_is_peak(f, window, dd, n - 1) {
        peak_list(f, window, dd, n - 1) + seq![n - 1]
    } else {
        peak_list(f, window, dd, n - 1)
    }
}

fn first_hit(f: &FusedMap, x: usize, y: usize, window: usize) -> (r: Option<DirectionDescriptor>)
    requires
        f.wf(),
        x < f.width,
        y + window <= f.height,
    ensures
        r == first_hit_in_window(*f, x as int, y as int, 0, window as int),
{
    let mut k: usize = 0;
    while k < window
        invariant
            f.wf(),
            x < f.width,
            y + window <= f.height,
            k <= window,
            first_hit_in_window(*f, x as int, y as int, 0, window as int)
                == first_hit_in_window(*f, x as int, y as int, k as int, window as int),
        decreases window - k,
    {
        match f.cell(x, y + k) {
            Some(h) => {
                return Some(DirectionDescriptor {
                    direction: h.direction,
                    position: Point { x, y: y + k },
                    confidence: h.score,
                });
            },
            None => {},
        }
        k = k + 1;
    }
    None
}

fn copy_descriptors(v: &Vec<DirectionDescriptor>) -> (r: Vec<DirectionDescriptor>)
    ensures
        r@ == v@,
{
    let mut r: Vec<DirectionDescriptor> = Vec::new();
    let mut i: usize = 0;
    while i < v.len()
        invariant
            i <= v.len(),
            r@ == v@.subrange(0, i as int),
        decreases v.len() - i,
    {
        r.push(v[i]);
        i = i + 1;
    }
    proof {
        assert(r@ == v@.subrange(0, v@.len() as int));
        assert(v@.subrange(0, v@.len() as int) == v@);
    }
    r
}

/// Extracts one ordered direction sequence per detected row of the fused
/// map: a vertical window of height `search_chunk_size` slides down the
/// map; each band collects, per column, the first filled cell, suppressing
/// near-duplicates of the same direction within
/// `discarding_distance_threshold` pixels; the bands whose sequence lengths
/// peak are returned, in increasing band order. Never fails.
pub fn collect_direction_commands(
    buf: &FusedMap,
    search_chunk_size: usize,
    discarding_distance_threshold: u64,
) -> (r: Result<Vec<Vec<DirectionDescriptor>>, CvError>)
    requires
        buf.wf(),
        1 <= search_chunk_size,
        buf.width <= 0x7FFF_FFFF,
        buf.height <= 0x7FFF_FFFF,
        discarding_distance_threshold <= 0xFFFF_FFFF,
    ensures
        r is Ok,
        r matches Ok(v) ==> is_extraction_of(
            *buf,
            search_chunk_size as int,
            discarding_distance_threshold as int,
            v,
        ),
        r matches Ok(v) ==> {
            let pk = peak_list(
                *buf,
                search_chunk_size as int,
                discarding_distance_threshold as int,
                num_bands(*buf, search_chunk_size as int),
            );
            &&& v@.len() == pk.len()
            &&& forall|j: int| 0 <= j < pk.len()
                ==> (#[trigger] v@[j])@ == band_seq(
                    *buf,
                    pk[j],
                    search_chunk_size as int,
                    discarding_distance_threshold as int,
                )
        },
{
    let height = buf.height;
    let width = buf.width;
    let window = search_chunk_size;
    let dd = discarding_distance_threshold;
    assert(dd * dd <= u64::MAX) by (nonlinear_arith)
        requires dd <= 0xFFFF_FFFFu64;
    let dd2: u64 = dd * dd;
    let nbands: usize = if window <= height { height - window + 1 } else { 0 };
    assert(nbands == num_bands(*buf, window as int));

    let mut chunks: Vec<Vec<DirectionDescriptor>> = Vec::new();
    let mut y: usize = 0;
    while y < nbands
        invariant
            buf.wf(),
            1 <= window,
            width == buf.width,
            height == buf.height,
            buf.width <= 0x7FFF_FFFF,
            buf.height <= 0x7FFF_FFFF,
            dd <= 0xFFFF_FFFF,
            dd2 == dd * dd,
            nbands == num_bands(*buf, window as int),
            y <= nbands,
            chunks@.len() == y,
            forall|b: int| 0 <= b < y
                ==> (#[trigger] chunks@[b])@ == band_seq(*buf, b, window as int, dd as int),
        decreases nbands - y,
    {
        let mut seq_out: Vec<DirectionDescriptor> = Vec::new();
        let mut ls = LastSeen::empty();
        let mut x: usize = 0;
        while x < width
            invariant
                buf.wf(),
                1 <= window,
                width == buf.width,
                height == buf.height,
                buf.width <= 0x7FFF_FFFF,
                buf.height <= 0x7FFF_FFFF,
                dd <= 0xFFFF_FFFF,
                dd2 == dd * dd,
                nbands == num_bands(*buf, window as int),
                y < nbands,
                x <= width,
                ls.all_pt_ok(),
                seq_out@ + band_scan(*buf, y as int, window as int, dd as int, x as int, ls)
                    == band_seq(*buf, y as int, window as int, dd as int),
            decreases width - x,
        {
            let hit = first_hit(buf, x, y, window);
            match hit {
                Some(desc) => {
                    proof {
                        lemma_first_hit_props(*buf, x as int, y as int, 0, window as int);
                    }
                    let ok = match ls.get(desc.direction) {
                        None => true,
                        Some(p) => p.distance_sq(desc.position) >= dd2,
                    };
                    if ok {
                        seq_out.push(desc);
                        let prev_ls = ls;
                        ls = ls.with_entry(desc.direction, desc.position);
                        proof {
                            assert(pt_ok(desc.position));
                            assert forall|d: Direction|
                                ((#[trigger] ls.spec_get(d)) matches Some(p) ==> pt_ok(p)) by {
                                if d != desc.direction {
                                    assert(ls.spec_get(d) == prev_ls.spec_get(d));
                                }
                            }
                        }
                    }
                },
                None => {},
            }
            x = x + 1;
        }
        chunks.push(seq_out);
        y = y + 1;
    }

    let mut hist: Vec<usize> = Vec::new();
    let mut i: usize = 0;
    while i < nbands
        invariant
            nbands == chunks@.len(),
            i <= nbands,
            hist@.len() == i,
            forall|b: int| 0 <= b < nbands
                ==> (#[trigger] chunks@[b])@ == band_seq(*buf, b, window as int, dd as int),
            forall|b: int| 0 <= b < i ==> #[trigger] hist@[b] == chunks@[b]@.len(),
        decreases nbands - i,
    {
        hist.push(chunks[i].len());
        i = i + 1;
    }

    let mut out: Vec<Vec<DirectionDescriptor>> = Vec::new();
    let mut i: usize = 0;
    while i < nbands
        invariant
            nbands == chunks@.len(),
            nbands == hist@.len(),
            nbands == num_bands(*buf, window as int),
            i <= nbands,
            forall|b: int| 0 <= b < nbands
                ==> (#[trigger] chunks@[b])@ == band_seq(*buf, b, window as int, dd as int),
            forall|b: int| 0 <= b < nbands ==> #[trigger] hist@[b] == chunks@[b]@.len(),
            out@.len() == peak_list(*buf, window as int, dd as int, i as int).len(),
            forall|j: int| 0 <= j < out@.len()
                ==> (#[trigger] out@[j])@ == band_seq(
                    *buf,
                    peak_list(*buf, window as int, dd as int, i as int)[j],
                    window as int,
                    dd as int,
                ),
        decreases nbands - i,
    {
        let cur = hist[i];
        let prev: usize = if i > 0 { hist[i - 1] } else { 0 };
        let next: usize = if i + 1 < nbands { hist[i + 1] } else { 0 };
        if cur >= prev && cur > next {
            assert(spec_is_peak(*buf, window as int, dd as int, i as int));
            out.push(copy_descriptors(&chunks[i]));
        } else {
            assert(!spec_is_peak(*buf, window as int, dd as int, i as int));
        }
        i = i + 1;
    }
    Ok(out)
}

/// What the first hit of a column looks like: it sits in that column, within
/// the band, and mirrors a filled cell of the map.
pub proof fn lemma_first_hit_props(f: FusedMap, x: int, y: int, k: int, window: int)
    requires
        0 <= x < f.width,
        0 <= y,
        0 <= k,
        y + window <= f.height,
    ensures
        first_hit_in_window(f, x, y, k, window) matches Some(desc) ==> {
            &&& desc.position.x == x
            &&& y + k <= desc.position.y < y + window
            &&& f.spec_cell(desc.position.x as int, desc.position.y as int)
                == Some(Hit { direction: desc.direction, score: desc.confidence })
        },
    decreases window - k,
{
    if k < window {
        match f.spec_cell(x, y + k) {
            Some(h) => {},
            None => {
                lemma_first_hit_props(f, x, y, k + 1, window);
            },
        }
    }
}

proof fn lemma_first_hit_x(f: FusedMap, x: int, y: int, k: int, window: int)
    requires
        0 <= x <= usize::MAX,
        0 <= y + k,
    ensures
        first_hit_in_window(f, x, y, k, window) matches Some(desc) ==> desc.position.x == x,
    decreases window - k,
{
    if k < window {
        match f.spec_cell(x, y + k) {
            Some(h) => {},
            None => {
                lemma_first_hit_x(f, x, y, k + 1, window);
            },
        }
    }
}

/// Monotonicity: within one band's sequence, the descriptors' `x`
/// coordinates are strictly increasing, and all lie in the scanned range.
pub proof fn lemma_band_scan_x_increasing(f: FusedMap, y: int, window: int, dd: int, x: int, ls: LastSeen)
    requires
        0 <= y,
    ensures
        forall|i: int, j: int|
            0 <= i < j < band_scan(f, y, window, dd, x, ls).len()
            ==> #[trigger] band_scan(f, y, window, dd, x, ls)[i].position.x
                < #[trigger] band_scan(f, y, window, dd, x, ls)[j].position.x,
        forall|i: int|
            0 <= i < band_scan(f, y, window, dd, x, ls).len()
            ==> x <= #[trigger] band_scan(f, y, window, dd, x, ls)[i].position.x < f.width,
    decreases f.width - x,
{
    if 0 <= x < f.width {
        lemma_first_hit_x(f, x, y, 0, window);
        match first_hit_in_window(f, x, y, 0, window) {
            Some(desc) => {
                if spec_accepts(ls, desc, dd) {
                    lemma_band_scan_x_increasing(f, y, window, dd, x + 1, ls.spec_set(desc.direction, desc.position));
                } else {
                    lemma_band_scan_x_increasing(f, y, window, dd, x + 1, ls);
                }
            },
            None => {
                lemma_band_scan_x_increasing(f, y, window, dd, x + 1, ls);
            },
        }
    }
}

/// Peak selection: the peak indices are strictly increasing (so no two
/// returned sequences come from one band) and all denote existing bands.
pub proof fn lemma_peak_list_increasing(f: FusedMap, window: int, dd: int, n: int)
    ensures
        forall|i: int, j: int|
            0 <= i < j < peak_list(f, window, dd, n).len()
            ==> #[trigger] peak_list(f, window, dd, n)[i] < #[trigger] peak_list(f, window, dd, n)[j],
        forall|i: int|
            0 <= i < peak_list(f, window, dd, n).len()
            ==> 0 <= #[trigger] peak_list(f, window, dd, n)[i] < n,
    decreases n,
{
    if n > 0 {
        lemma_peak_list_increasing(f, window, dd, n - 1);
        let pk1 = peak_list(f, window, dd, n - 1);
        let pk = peak_list(f, window, dd, n);
        assert forall|i: int|
            0 <= i < pk.len() implies 0 <= #[trigger] pk[i] < n by {
            if i < pk1.len() {
                assert(pk[i] == pk1[i]);
            }
        }
        assert forall|i: int, j: int|
            0 <= i < j < pk.len() implies #[trigger] pk[i] < #[trigger] pk[j] by {
            if j < pk1.len() {
                assert(pk[i] == pk1[i] && pk[j] == pk1[j]);
            } else {
                assert(pk[i] == pk1[i]);
                assert(pk1[i] < n - 1);
            }
        }
    }
}

/// The positions of the descriptors of one direction, in sequence order.
pub open spec fn direction_positions(s: Seq<DirectionDescriptor>, d: Direction) -> Seq<Point>
    decreases s.len(),
{
    if s.len() <= 0 {
        Seq::empty()
    } else if s[0].direction == d {
        seq![s[0].position] + direction_positions(s.drop_first(), d)
    } else {
        direction_positions(s.drop_first(), d)
    }
}

/// Duplicate suppression: in one band's sequence, consecutive descriptors
/// of the same direction lie at squared Euclidean distance at least
/// `dd * dd`; and when the scan starts with a recorded position for a
/// direction, the first descriptor of that direction keeps that distance
/// from it.
pub proof fn lemma_band_scan_duplicate_suppression(f: FusedMap, y: int, window: int, dd: int, x: int, ls: LastSeen)
    ensures
        forall|d: Direction, i: int|
            0 <= i && i + 1 < direction_positions(band_scan(f, y, window, dd, x, ls), d).len()
            ==> spec_dist_sq(
                #[trigger] direction_positions(band_scan(f, y, window, dd, x, ls), d)[i],
                direction_positions(band_scan(f, y, window, dd, x, ls), d)[i + 1],
            ) >= dd * dd,
        forall|d: Direction|
            ((#[trigger] ls.spec_get(d)) matches Some(p)
                && direction_positions(band_scan(f, y, window, dd, x, ls), d).len() > 0)
            ==> spec_dist_sq(
                ls.spec_get(d)->Some_0,
                direction_positions(band_scan(f, y, window, dd, x, ls), d)[0],
            ) >= dd * dd,
    decreases f.width - x,
{
    let s = band_scan(f, y, window, dd, x, ls);
    if 0 <= x < f.width {
        match first_hit_in_window(f, x, y, 0, window) {
            Some(desc) => {
                if spec_accepts(ls, desc, dd) {
                    let d0 = desc.direction;
                    let q = desc.position;
                    let ls2 = ls.spec_set(d0, q);
                    let rest = band_scan(f, y, window, dd, x + 1, ls2);
                    lemma_band_scan_duplicate_suppression(f, y, window, dd, x + 1, ls2);
                    assert(s == seq![desc] + rest);
                    assert(s.drop_first() =~= rest);
                    assert(s[0] == desc);
                    assert forall|d: Direction, i: int|
                        0 <= i && i + 1 < direction_positions(s, d).len()
                        implies spec_dist_sq(
                            #[trigger] direction_positions(s, d)[i],
                            direction_positions(s, d)[i + 1],
                        ) >= dd * dd by {
                        let dp = direction_positions(s, d);
                        let dpr = direction_positions(rest, d);
                        if d == d0 {
                            assert(dp == seq![q] + dpr);
                            if i == 0 {
                                assert(ls2.spec_get(d0) == Some(q));
                                assert(dp[0] == q && dp[1] == dpr[0]);
                                assert(spec_dist_sq(q, dpr[0]) >= dd * dd);
                            } else {
                                assert(dp[i] == dpr[i - 1] && dp[i + 1] == dpr[i]);
                                assert(spec_dist_sq(dpr[i - 1], dpr[i]) >= dd * dd);
                            }
                        } else {
                            assert(dp == dpr);
                            assert(spec_dist_sq(dpr[i], dpr[i + 1]) >= dd * dd);
                        }
                    }
                    assert forall|d: Direction|
                        ((#[trigger] ls.spec_get(d)) matches Some(p)
                            && direction_positions(s, d).len() > 0)
                        implies spec_dist_sq(
                            ls.spec_get(d)->Some_0,
                            direction_positions(s, d)[0],
                        ) >= dd * dd by {
                        let p = ls.spec_get(d)->Some_0;
                        let dp = direction_positions(s, d);
                        let dpr = direction_positions(rest, d);
                        if d == d0 {
                            assert(dp == seq![q] + dpr);
                            assert(dp[0] == q);
                            assert(spec_dist_sq(p, q) >= dd * dd);
                        } else {
                            assert(dp == dpr);
                            assert(ls2.spec_get(d) == Some(p));
                            assert(spec_dist_sq(p, dpr[0]) >= dd * dd);
                        }
                    }
                } else {
                    lemma_band_scan_duplicate_suppression(f, y, window, dd, x + 1, ls);
                }
            },
            None => {
                lemma_band_scan_duplicate_suppression(f, y, window, dd, x + 1, ls);
            },
        }
    }
}

proof fn lemma_first_hit_all_none(f: FusedMap, x: int, y: int, k: int, window: int)
    requires
        0 <= x < f.width,
        0 <= y,
        y + window <= f.height,
        forall|a: int, b: int| 0 <= a < f.width && 0 <= b < f.height
            ==> #[trigger] f.spec_cell(a, b) is None,
        0 <= k,
    ensures
        first_hit_in_window(f, x, y, k, window) is None,
    decreases window - k,
{
    if k < window {
        assert(f.spec_cell(x, y + k) is None);
        lemma_first_hit_all_none(f, x, y, k + 1, window);
    }
}

proof fn lemma_band_scan_all_none(f: FusedMap, y: int, window: int, dd: int, x: int, ls: LastSeen)
    requires
        0 <= y,
        y + window <= f.height,
        forall|a: int, b: int| 0 <= a < f.width && 0 <= b < f.height
            ==> #[trigger] f.spec_cell(a, b) is None,
    ensures
        band_scan(f, y, window, dd, x, ls) == Seq::<DirectionDescriptor>::empty(),
    decreases f.width - x,
{
    if 0 <= x < f.width {
        lemma_first_hit_all_none(f, x, y, 0, window);
        lemma_band_scan_all_none(f, y, window, dd, x + 1, ls);
    }
}

proof fn lemma_peak_list_all_none(f: FusedMap, window: int, dd: int, n: int)
    requires
        1 <= window,
        n <= num_bands(f, window),
        forall|a: int, b: int| 0 <= a < f.width && 0 <= b < f.height
            ==> #[trigger] f.spec_cell(a, b) is None,
    ensures
        peak_list(f, window, dd, n) == Seq::<int>::empty(),
    decreases n,
{
    if n > 0 {
        lemma_band_scan_all_none(f, n - 1, window, dd, 0, LastSeen::spec_empty());
        if n - 1 + 1 < num_bands(f, window) {
            lemma_band_scan_all_none(f, n, window, dd, 0, LastSeen::spec_empty());
        }
        assert(!spec_is_peak(f, window, dd, n - 1));
        lemma_peak_list_all_none(f, window, dd, n - 1);
    }
}

/// Empty-source law: a fused map with no filled cell yields no peaks, so
/// the extractor returns the empty list.
pub proof fn lemma_all_none_yields_nothing(f: FusedMap, window: int, dd: int)
    requires
        1 <= window,
        forall|a: int, b: int| 0 <= a < f.width && 0 <= b < f.height
            ==> #[trigger] f.spec_cell(a, b) is None,
    ensures
        peak_list(f, window, dd, num_bands(f, window)) == Seq::<int>::empty(),
{
    lemma_peak_list_all_none(f, window, dd, num_bands(f, window));
}

/// Monotonicity, stated of the extractor's output: within every returned
/// sequence the `x` coordinates are strictly increasing.
pub proof fn lemma_output_x_increasing(f: FusedMap, window: int, dd: int, v: Vec<Vec<DirectionDescriptor>>)
    requires
        is_extraction_of(f, window, dd, v),
    ensures
        forall|j: int, a: int, b: int|
            0 <= j < v@.len() && 0 <= a < b < (#[trigger] v@[j])@.len()
            ==> (#[trigger] v@[j]@[a]).position.x < (#[trigger] v@[j]@[b]).position.x,
{
    let pk = peak_list(f, window, dd, num_bands(f, window));
    lemma_peak_list_increasing(f, window, dd, num_bands(f, window));
    assert forall|j: int, a: int, b: int|
        0 <= j < v@.len() && 0 <= a < b < (#[trigger] v@[j])@.len()
        implies (#[trigger] v@[j]@[a]).position.x < (#[trigger] v@[j]@[b]).position.x by {
        assert(v@[j]@ == band_seq(f, pk[j], window, dd));
        assert(0 <= pk[j]);
        lemma_band_scan_x_increasing(f, pk[j], window, dd, 0, LastSeen::spec_empty());
    }
}

/// Duplicate suppression, stated of the extractor's output: within every
/// returned sequence, consecutive descriptors of one direction lie at
/// squared Euclidean distance at least `dd * dd`.
pub proof fn lemma_output_duplicates_suppressed(f: FusedMap, window: int, dd: int, v: Vec<Vec<DirectionDescriptor>>)
    requires
        is_extraction_of(f, window, dd, v),
    ensures
        forall|j: int, d: Direction, i: int|
            0 <= j < v@.len() && 0 <= i
                && i + 1 < direction_positions((#[trigger] v@[j])@, d).len()
            ==> spec_dist_sq(
                #[trigger] direction_positions(v@[j]@, d)[i],
                direction_positions(v@[j]@, d)[i + 1],
            ) >= dd * dd,
{
    let pk = peak_list(f, window, dd, num_bands(f, window));
    assert forall|j: int, d: Direction, i: int|
        0 <= j < v@.len() && 0 <= i
            && i + 1 < direction_positions((#[trigger] v@[j])@, d).len()
        implies spec_dist_sq(
            #[trigger] direction_positions(v@[j]@, d)[i],
            direction_positions(v@[j]@, d)[i + 1],
        ) >= dd * dd by {
        assert(v@[j]@ == band_seq(f, pk[j], window, dd));
        lemma_band_scan_duplicate_suppression(f, pk[j], window, dd, 0, LastSeen::spec_empty());
    }
}

/// The threshold used when the caller gives none: 0.9.
pub open spec fn threshold_or_default(threshold: Option<Score>) -> Score {
    match threshold {
        Some(t0) => t0,
        None => Score { num: 9, den: 100 },
    }
}

/// The window height used when the caller gives none: 3.
pub open spec fn chunk_or_default(search_chunk_size: Option<usize>) -> usize {
    match search_chunk_size {
        Some(c0) => c0,
        None => 3usize,
    }
}

/// The suppression distance used when the caller gives none: 30 pixels.
pub open spec fn distance_or_default(discarding_distance_threshold: Option<u64>) -> u64 {
    match discarding_distance_threshold {
        Some(d0) => d0,
        None => 30u64,
    }
}

/// The full search pipeline: fuse the four score maps, then extract the
/// per-row direction sequences. The optional parameters default to a 0.9
/// threshold, a window of 3 rows, and a suppression distance of 30 pixels.
pub fn find_direction_commands(
    up: &ScoreMap,
    down: &ScoreMap,
    right: &ScoreMap,
    left: &ScoreMap,
    threshold: Option<Score>,
    search_chunk_size: Option<usize>,
    discarding_distance_threshold: Option<u64>,
) -> (r: Result<Vec<Vec<DirectionDescriptor>>, CvError>)
    requires
        up.wf(),
        down.wf(),
        right.wf(),
        left.wf(),
        map_valid(*up),
        map_valid(*down),
        map_valid(*right),
        map_valid(*left),
        up.width <= 0x7FFF_FFFF,
        up.height <= 0x7FFF_FFFF,
        threshold matches Some(t) ==> t.valid(),
        search_chunk_size matches Some(c) ==> 1 <= c,
        discarding_distance_threshold matches Some(d) ==> d <= 0xFFFF_FFFF,
    ensures
        r is Ok <==> same_shape(*up, *down, *right, *left),
        r is Err ==> r == Err::<Vec<Vec<DirectionDescriptor>>, CvError>(CvError::ShapeMismatch),
        r matches Ok(v) ==> exists|f: FusedMap|
            #[trigger] is_fusion_of(f, *up, *right, *down, *left, threshold_or_default(threshold))
            && is_extraction_of(
                f,
                chunk_or_default(search_chunk_size) as int,
                distance_or_default(discarding_distance_threshold) as int,
                v,
            ),
{
    let t = match threshold {
        Some(t0) => t0,
        None => Score::ratio(9, 10),
    };
    let window = match search_chunk_size {
        Some(c0) => c0,
        None => 3,
    };
    let dd = match discarding_distance_threshold {
        Some(d0) => d0,
        None => 30,
    };
    let fused = raw_mats_to_direction_buffer(up, down, right, left, t)?;
    let commands = collect_direction_commands(&fused, window, dd)?;
    proof {
        assert(t == threshold_or_default(threshold));
        assert(window == chunk_or_default(search_chunk_size));
        assert(dd == distance_or_default(discarding_distance_threshold));
        assert(is_fusion_of(fused, *up, *right, *down, *left, threshold_or_default(threshold)));
        assert(is_extraction_of(
            fused,
            chunk_or_default(search_chunk_size) as int,
            distance_or_default(discarding_distance_threshold) as int,
            commands,
        ));
    }
    Ok(commands)
}

/// The fuser invariant: a filled cell carries the maximum of the four
/// scores, every direction's score is at most that confidence, and the
/// confidence clears the threshold; an empty cell means every score is
/// below the threshold.
pub proof fn lemma_fused_cell_invariant(up: Score, right: Score, down: Score, left: Score, threshold: Score)
    requires
        up.valid(),
        right.valid(),
        down.valid(),
        left.valid(),
        threshold.valid(),
    ensures
        fused_cell(up, right, down, left, threshold) matches Some(h) ==> {
            &&& h.score == up.spec_max(right).spec_max(down).spec_max(left)
            &&& up.spec_le(h.score)
            &&& right.spec_le(h.score)
            &&& down.spec_le(h.score)
            &&& left.spec_le(h.score)
            &&& threshold.spec_le(h.score)
        },
        fused_cell(up, right, down, left, threshold) is None ==> {
            &&& up.spec_lt(threshold)
            &&& right.spec_lt(threshold)
            &&& down.spec_lt(threshold)
            &&& left.spec_lt(threshold)
        },
{
    let m1 = up.spec_max(right);
    let m2 = m1.spec_max(down);
    let m3 = m2.spec_max(left);
    assert(up.spec_le(m1) && right.spec_le(m1));
    assert(m1.spec_le(m2) && down.spec_le(m2));
    assert(m2.spec_le(m3) && left.spec_le(m3));
    crate::score::lemma_le_trans(up, m1, m2);
    crate::score::lemma_le_trans(up, m2, m3);
    crate::score::lemma_le_trans(right, m1, m2);
    crate::score::lemma_le_trans(right, m2, m3);
    crate::score::lemma_le_trans(down, m2, m3);
    if m3.spec_lt(threshold) {
        if threshold.spec_le(up) {
            crate::score::lemma_le_trans(threshold, up, m3);
        }
        if threshold.spec_le(right) {
            crate::score::lemma_le_trans(threshold, right, m3);
        }
        if threshold.spec_le(down) {
            crate::score::lemma_le_trans(threshold, down, m3);
        }
        if threshold.spec_le(left) {
            crate::score::lemma_le_trans(threshold, left, m3);
        }
    }
}

/// Tie-break determinism: when all four scores are equal in value and clear
/// the threshold, the fused cell picks `Up`.
pub proof fn lemma_fused_tie_break(up: Score, right: Score, down: Score, left: Score, threshold: Score)
    requires
        up.valid(),
        right.valid(),
        down.valid(),
        left.valid(),
        threshold.valid(),
        up.spec_eqv(right),
        up.spec_eqv(down),
        up.spec_eqv(left),
        threshold.spec_le(up),
    ensures
        fused_cell(up, right, down, left, threshold)
            == Some(Hit { direction: Direction::Up, score: up }),
{
    crate::score::lemma_eqv_le(up, right);
    crate::score::lemma_eqv_le(up, down);
    crate::score::lemma_eqv_le(up, left);
}

} // verus!
