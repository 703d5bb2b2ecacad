use vstd::prelude::*;
use crate::error::CvError;
use crate::grid::Grid;

verus! {

/// A single-channel 8-bit image; a grid of gray values.
pub type GrayImage = Grid<u8>;

/// A four-channel 8-bit image, channels interleaved R, G, B, A, rows top
/// to bottom.
#[derive(Clone, Debug)]
pub struct RgbaImage {
    pub width: usize,
    pub height: usize,
    pub data: Vec<u8>,
}

impl RgbaImage {
    pub open spec fn wf(self) -> bool {
        self.data.len() == 4 * (self.height * self.width)
    }

    /// Channel `c` of the pixel at `(x, y)`.
    pub open spec fn spec_px(self, x: int, y: int, c: int) -> u8 {
        self.data[4 * (y * self.width + x) + c]
    }

    /// Wraps a raw RGBA buffer; rejects one that does not fill the stated
    /// rectangle exactly.
    pub fn from_raw(width: usize, height: usize, data: Vec<u8>) -> (r: Result<RgbaImage, CvError>)
        ensures
            r is Ok <==> data.len() == 4 * (height * width),
            r is Err ==> r == Err::<RgbaImage, CvError>(CvError::ImageDecode),
            r matches Ok(img) ==> {
                &&& img.wf()
                &&& img.width == width
                &&& img.height == height
                &&& img.data == data
            },
    {
        if height != 0 && width > usize::MAX / 4 / height {
            proof {
                crate::grid::lemma_area_cap_exceeded(height as int, width as int, (usize::MAX / 4) as int);
            }
            return Err(CvError::ImageDecode);
        }
        proof {
            crate::grid::lemma_area_bound(height as int, width as int, (usize::MAX / 4) as int);
        }
        let area: usize = height * width;
        if data.len() != 4 * area {
            return Err(CvError::ImageDecode);
        }
        Ok(RgbaImage { width, height, data })
    }
}

impl Grid<u8> {
    /// Wraps a raw grayscale buffer; rejects one that does not fill the
    /// stated rectangle exactly.
    pub fn from_raw(width: usize, height: usize, data: Vec<u8>) -> (r: Result<GrayImage, CvError>)
        ensures
            r is Ok <==> data.len() == height * width,
            r is Err ==> r == Err::<GrayImage, CvError>(CvError::ImageDecode),
            r matches Ok(img) ==> {
                &&& img.wf()
                &&& img.width == width
                &&& img.height == height
                &&& img.data == data
            },
    {
        if height != 0 && width > usize::MAX / height {
            proof {
                crate::grid::lemma_area_cap_exceeded(height as int, width as int, usize::MAX as int);
            }
            return Err(CvError::ImageDecode);
        }
        proof {
            crate::grid::lemma_area_bound(height as int, width as int, usize::MAX as int);
        }
        let area: usize = height * width;
        if data.len() != area {
            return Err(CvError::ImageDecode);
        }
        Ok(Grid { height, width, data })
    }
}

/// Integer luminance of one RGBA pixel, the usual 0.299 / 0.587 / 0.114
/// weights in thousandths, rounded to nearest.
pub open spec fn spec_luma(r: u8, g: u8, b: u8) -> int {
    (299 * r + 587 * g + 114 * b + 500) / 1000
}

fn luma(r: u8, g: u8, b: u8) -> (l: u8)
    ensures
        l == spec_luma(r, g, b),
{
    let sum: u32 = 299 * (r as u32) + 587 * (g as u32) + 114 * (b as u32) + 500;
    (sum / 1000) as u8
}

/// Whether `g` is the integer-luminance grayscale of `img`.
pub open spec fn is_grayscale_of(g: GrayImage, img: RgbaImage) -> bool {
    &&& g.wf()
    &&& g.width == img.width
    &&& g.height == img.height
    &&& forall|x: int, y: int| 0 <= x < g.width && 0 <= y < g.height
        ==> #[trigger] g.spec_cell(x, y)
            == spec_luma(img.spec_px(x, y, 0), img.spec_px(x, y, 1), img.spec_px(x, y, 2))
}

/// Whether `out` samples `src` under the exact integer-centered
/// nearest-neighbor mapping, at whatever size `out` has.
pub open spec fn is_resize_of(out: GrayImage, src: GrayImage) -> bool {
    &&& out.wf()
    &&& forall|x: int, y: int| 0 <= x < out.width && 0 <= y < out.height
        ==> #[trigger] out.spec_cell(x, y) == src.spec_cell(
            spec_src_index(x, src.width as int, out.width as int),
            spec_src_index(y, src.height as int, out.height as int),
        )
}

/// Converts an RGBA frame to grayscale by integer luminance, pixel by
/// pixel. Total: a well-formed RGBA image always converts.
pub fn to_grayscale(img: &RgbaImage) -> (r: GrayImage)
    requires
        img.wf(),
    ensures
        is_grayscale_of(r, *img),
        r.wf(),
        r.width == img.width,
        r.height == img.height,
        forall|j: int| 0 <= j < r.data.len()
            ==> #[trigger] r.data[j] == spec_luma(img.data[4 * j], img.data[4 * j + 1], img.data[4 * j + 2]),
        forall|x: int, y: int| 0 <= x < r.width && 0 <= y < r.height
            ==> #[trigger] r.spec_cell(x, y)
                == spec_luma(img.spec_px(x, y, 0), img.spec_px(x, y, 1), img.spec_px(x, y, 2)),
{
    proof {
        crate::grid::lemma_area_nonneg(img.height as int, img.width as int);
    }
    let n: usize = img.height * img.width;
    let mut data: Vec<u8> = Vec::new();
    let mut j: usize = 0;
    while j < n
        invariant
            img.wf(),
            n == img.height * img.width,
            j <= n,
            data.len() == j,
            forall|i: int| 0 <= i < j
                ==> #[trigger] data[i] == spec_luma(img.data[4 * i], img.data[4 * i + 1], img.data[4 * i + 2]),
        decreases n - j,
    {
        let l = luma(img.data[4 * j], img.data[4 * j + 1], img.data[4 * j + 2]);
        data.push(l);
        j = j + 1;
    }
    let r = Grid { height: img.height, width: img.width, data };
    proof {
        assert forall|x: int, y: int| 0 <= x < r.width && 0 <= y < r.height
            implies #[trigger] r.spec_cell(x, y)
                == spec_luma(img.spec_px(x, y, 0), img.spec_px(x, y, 1), img.spec_px(x, y, 2)) by {
            crate::grid::lemma_grid_index(x, y, r.width as int, r.height as int);
        }
    }
    r
}

/// The dimension a scale of `num / den` yields: `dim * num / den` rounded
/// to nearest, half away from zero.
pub open spec fn spec_scaled_dim(dim: int, num: int, den: int) -> int {
    (2 * dim * num + den) / (2 * den)
}

/// The source index that destination index `d` samples under an exact
/// integer-centered nearest-neighbor mapping of `src` cells onto `dst`.
pub open spec fn spec_src_index(d: int, src: int, dst: int) -> int {
    ((2 * d + 1) * src) / (2 * dst)
}

/// The largest width or height a resized image may have.
pub open spec fn max_resized_dim() -> int {
    0x7FFF
}

/// The integer-centered mapping lands inside the source.
pub proof fn lemma_src_index_in_range(d: int, src: int, dst: int) by (nonlinear_arith)
    requires
        0 <= d < dst,
        1 <= src <= 0xFFFF,
        1 <= dst <= 0xFFFF,
    ensures
        0 <= spec_src_index(d, src, dst) < src,
        0 <= (2 * d + 1) * src < 0x1_0000_0000_0000,
{
}

/// Nearest-neighbor resize to the given size with an exact
/// integer-centered mapping, so the resized glyph keeps the pixel pattern
/// of the original. Fails only when the target rectangle is empty or
/// exceeds `max_resized_dim()` on an axis.
pub fn resize_to(img: &GrayImage, ow: usize, oh: usize) -> (r: Result<GrayImage, CvError>)
    requires
        img.wf(),
        1 <= img.width <= 0xFFFF,
        1 <= img.height <= 0xFFFF,
    ensures
        r is Ok <==> (1 <= ow <= max_resized_dim() && 1 <= oh <= max_resized_dim()),
        r is Err ==> r == Err::<GrayImage, CvError>(CvError::ResizeFailed),
        r matches Ok(out) ==> is_resize_of(out, *img),
        r matches Ok(out) ==> {
            &&& out.wf()
            &&& out.width == ow
            &&& out.height == oh
            &&& forall|x: int, y: int| 0 <= x < ow && 0 <= y < oh
                ==> #[trigger] out.spec_cell(x, y) == img.spec_cell(
                    spec_src_index(x, img.width as int, ow as int),
                    spec_src_index(y, img.height as int, oh as int),
                )
        },
{
    if ow == 0 || oh == 0 || ow > 0x7FFF || oh > 0x7FFF {
        return Err(CvError::ResizeFailed);
    }
    let mut data: Vec<u8> = Vec::new();
    let mut y: usize = 0;
    while y < oh
        invariant
            img.wf(),
            1 <= img.width <= 0xFFFF,
            1 <= img.height <= 0xFFFF,
            1 <= ow <= 0x7FFF,
            1 <= oh <= 0x7FFF,
            y <= oh,
            data.len() == y * ow,
            forall|xx: int, yy: int| 0 <= xx < ow && 0 <= yy < y
                ==> #[trigger] data[yy * ow + xx] == img.spec_cell(
                    spec_src_index(xx, img.width as int, ow as int),
                    spec_src_index(yy, img.height as int, oh as int),
                ),
        decreases oh - y,
    {
        let sy = src_index(y, img.height, oh);
        let mut x: usize = 0;
        while x < ow
            invariant
                img.wf(),
                1 <= img.width <= 0xFFFF,
                1 <= img.height <= 0xFFFF,
                1 <= ow <= 0x7FFF,
                1 <= oh <= 0x7FFF,
                y < oh,
                sy == spec_src_index(y as int, img.height as int, oh as int),
                sy < img.height,
                x <= ow,
                data.len() == y * ow + x,
                forall|xx: int, yy: int| 0 <= xx < ow && 0 <= yy < y
                    ==> #[trigger] data[yy * ow + xx] == img.spec_cell(
                        spec_src_index(xx, img.width as int, ow as int),
                        spec_src_index(yy, img.height as int, oh as int),
                    ),
                forall|xx: int| 0 <= xx < x
                    ==> #[trigger] data[y * ow + xx] == img.spec_cell(
                        spec_src_index(xx, img.width as int, ow as int),
                        spec_src_index(y as int, img.height as int, oh as int),
                    ),
            decreases ow - x,
        {
            let sx = src_index(x, img.width, ow);
            let v = img.cell(sx, sy);
            data.push(v);
            x = x + 1;
            proof {
                assert forall|xx: int, yy: int| 0 <= xx < ow && 0 <= yy < y
                    implies #[trigger] data[yy * ow + xx] == img.spec_cell(
                        spec_src_index(xx, img.width as int, ow as int),
                        spec_src_index(yy, img.height as int, oh as int),
                    ) by {
                    crate::grid::lemma_grid_index(xx, yy, ow as int, y as int);
                }
            }
        }
        proof {
            assert(y * ow + ow == (y + 1) * ow) by (nonlinear_arith);
        }
        y = y + 1;
    }
    let out = Grid { height: oh, width: ow, data };
    proof {
        assert forall|x: int, y2: int| 0 <= x < ow && 0 <= y2 < oh
            implies #[trigger] out.spec_cell(x, y2) == img.spec_cell(
                spec_src_index(x, img.width as int, ow as int),
                spec_src_index(y2, img.height as int, oh as int),
            ) by {
            crate::grid::lemma_grid_index(x, y2, ow as int, oh as int);
        }
    }
    Ok(out)
}

/// Nearest-neighbor resize by the rational factor `scale_num / scale_den`:
/// the output is `round(width * scale)` by `round(height * scale)`, sampled
/// with the exact integer-centered mapping of `resize_to`.
pub fn resize(img: &GrayImage, scale_num: usize, scale_den: usize) -> (r: Result<GrayImage, CvError>)
    requires
        img.wf(),
        1 <= img.width <= 0xFFFF,
        1 <= img.height <= 0xFFFF,
        scale_num <= 0xFFFF,
        1 <= scale_den <= 0xFFFF,
    ensures
        ({
            let ow = spec_scaled_dim(img.width as int, scale_num as int, scale_den as int);
            let oh = spec_scaled_dim(img.height as int, scale_num as int, scale_den as int);
            &&& (r is Ok <==> (1 <= ow <= max_resized_dim() && 1 <= oh <= max_resized_dim()))
            &&& (r is Err ==> r == Err::<GrayImage, CvError>(CvError::ResizeFailed))
            &&& (r matches Ok(out) ==> {
                &&& out.wf()
                &&& out.width == ow
                &&& out.height == oh
                &&& forall|x: int, y: int| 0 <= x < ow && 0 <= y < oh
                    ==> #[trigger] out.spec_cell(x, y) == img.spec_cell(
                        spec_src_index(x, img.width as int, ow),
                        spec_src_index(y, img.height as int, oh),
                    )
            })
        }),
{
    let ow64: u64 = scaled_dim(img.width, scale_num, scale_den);
    let oh64: u64 = scaled_dim(img.height, scale_num, scale_den);
    if ow64 > 0x7FFF || oh64 > 0x7FFF {
        return Err(CvError::ResizeFailed);
    }
    resize_to(img, ow64 as usize, oh64 as usize)
}

fn scaled_dim(dim: usize, num: usize, den: usize) -> (r: u64)
    requires
        dim <= 0xFFFF,
        num <= 0xFFFF,
        1 <= den <= 0xFFFF,
    ensures
        r == spec_scaled_dim(dim as int, num as int, den as int),
{
    proof {
        assert(0 <= 2 * (dim as int) * (num as int) + (den as int) <= 0x2_0000_0000) by (nonlinear_arith)
            requires dim <= 0xFFFF, num <= 0xFFFF, 1 <= den <= 0xFFFF;
    }
    let wide: u64 = 2 * (dim as u64) * (num as u64) + (den as u64);
    wide / (2 * (den as u64))
}

fn src_index(d: usize, src: usize, dst: usize) -> (r: usize)
    requires
        d < dst,
        1 <= src <= 0xFFFF,
        1 <= dst <= 0xFFFF,
    ensures
        r == spec_src_index(d as int, src as int, dst as int),
        r < src,
{
    proof {
        lemma_src_index_in_range(d as int, src as int, dst as int);
    }
    let wide: u64 = (2 * (d as u64) + 1) * (src as u64);
    (wide / (2 * (dst as u64))) as usize
}

} // verus!
