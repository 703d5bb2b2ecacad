use vstd::prelude::*;
use crate::error::CvError;
use crate::image::{resize, resize_to, spec_luma, spec_scaled_dim, spec_src_index, to_grayscale, GrayImage, RgbaImage};
use crate::score::Score;
use crate::search::{map_valid, ScoreMap};

verus! {

/// The largest number of template pixels the matcher supports; under this
/// bound every correlation sum fits the score bounds.
pub open spec fn max_template_area() -> int {
    0x1_0000
}

/// The largest value a full correlation sum can reach:
/// `max_template_area() * 255 * 255`.
pub open spec fn max_sum() -> int {
    0xFE01_0000
}

/// Dot product of template row `tj` against the source window placed at
/// `(x, y)`, over the template columns before `ti`.
pub open spec fn dot_row(s: GrayImage, t: GrayImage, x: int, y: int, tj: int, ti: int) -> int
    decreases ti,
{
    if ti <= 0 {
        0
    } else {
        dot_row(s, t, x, y, tj, ti - 1)
            + s.spec_cell(x + ti - 1, y + tj) * t.spec_cell(ti - 1, tj)
    }
}

/// Dot product of the template rows before `tj` against the source window
/// placed at `(x, y)`.
pub open spec fn dot_rows(s: GrayImage, t: GrayImage, x: int, y: int, tj: int) -> int
    decreases tj,
{
    if tj <= 0 {
        0
    } else {
        dot_rows(s, t, x, y, tj - 1) + dot_row(s, t, x, y, tj - 1, t.width as int)
    }
}

/// Sum of squared source values under row `tj` of the mask (the template
/// itself: the positions where it is nonzero), over the columns before
/// `ti`.
pub open spec fn ssq_row(s: GrayImage, t: GrayImage, x: int, y: int, tj: int, ti: int) -> int
    decreases ti,
{
    if ti <= 0 {
        0
    } else {
        ssq_row(s, t, x, y, tj, ti - 1)
            + if t.spec_cell(ti - 1, tj) == 0 {
                0
            } else {
                s.spec_cell(x + ti - 1, y + tj) * s.spec_cell(x + ti - 1, y + tj)
            }
    }
}

/// Sum of squared masked source values under the template rows before
/// `tj`.
pub open spec fn ssq_rows(s: GrayImage, t: GrayImage, x: int, y: int, tj: int) -> int
    decreases tj,
{
    if tj <= 0 {
        0
    } else {
        ssq_rows(s, t, x, y, tj - 1) + ssq_row(s, t, x, y, tj - 1, t.width as int)
    }
}

/// Sum of squared template values in row `tj`, over the columns before
/// `ti`.
pub open spec fn tsq_row(t: GrayImage, tj: int, ti: int) -> int
    decreases ti,
{
    if ti <= 0 {
        0
    } else {
        tsq_row(t, tj, ti - 1) + t.spec_cell(ti - 1, tj) * t.spec_cell(ti - 1, tj)
    }
}

/// Sum of squared template values in the rows before `tj`.
pub open spec fn tsq_rows(t: GrayImage, tj: int) -> int
    decreases tj,
{
    if tj <= 0 {
        0
    } else {
        tsq_rows(t, tj - 1) + tsq_row(t, tj - 1, t.width as int)
    }
}

/// The normalized cross-correlation score of the template placed at
/// `(x, y)` of the source, with the template itself as the mask:
/// `sum(s * t) / sqrt(sum_masked(s * s) * sum(t * t))`, and zero when the
/// denominator vanishes.
pub open spec fn spec_ncc(s: GrayImage, t: GrayImage, x: int, y: int) -> Score {
    let num = dot_rows(s, t, x, y, t.height as int);
    let den = ssq_rows(s, t, x, y, t.height as int) * tsq_rows(t, t.height as int);
    if den <= 0 {
        Score { num: 0, den: 1 }
    } else {
        Score { num: num as u64, den: den as u64 }
    }
}

proof fn lemma_px_product_bound(a: int, b: int) by (nonlinear_arith)
    requires
        0 <= a <= 255,
        0 <= b <= 255,
    ensures
        0 <= a * b <= 65025,
{
}

proof fn lemma_dot_row_bounds(s: GrayImage, t: GrayImage, x: int, y: int, tj: int, ti: int)
    requires
        0 <= ti,
    ensures
        0 <= dot_row(s, t, x, y, tj, ti) <= ti * 65025,
    decreases ti,
{
    if ti > 0 {
        lemma_dot_row_bounds(s, t, x, y, tj, ti - 1);
        lemma_px_product_bound(
            s.spec_cell(x + ti - 1, y + tj) as int,
            t.spec_cell(ti - 1, tj) as int,
        );
    }
}

proof fn lemma_dot_rows_bounds(s: GrayImage, t: GrayImage, x: int, y: int, tj: int)
    requires
        0 <= tj,
    ensures
        0 <= dot_rows(s, t, x, y, tj) <= tj * (t.width * 65025),
    decreases tj,
{
    if tj > 0 {
        lemma_dot_rows_bounds(s, t, x, y, tj - 1);
        lemma_dot_row_bounds(s, t, x, y, tj - 1, t.width as int);
        assert((tj - 1) * (t.width * 65025) + t.width * 65025 == tj * (t.width * 65025))
            by (nonlinear_arith);
    }
}

proof fn lemma_ssq_row_bounds(s: GrayImage, t: GrayImage, x: int, y: int, tj: int, ti: int)
    requires
        0 <= ti,
    ensures
        0 <= ssq_row(s, t, x, y, tj, ti) <= ti * 65025,
    decreases ti,
{
    if ti > 0 {
        lemma_ssq_row_bounds(s, t, x, y, tj, ti - 1);
        lemma_px_product_bound(
            s.spec_cell(x + ti - 1, y + tj) as int,
            s.spec_cell(x + ti - 1, y + tj) as int,
        );
    }
}

proof fn lemma_ssq_rows_bounds(s: GrayImage, t: GrayImage, x: int, y: int, tj: int)
    requires
        0 <= tj,
    ensures
        0 <= ssq_rows(s, t, x, y, tj) <= tj * (t.width * 65025),
    decreases tj,
{
    if tj > 0 {
        lemma_ssq_rows_bounds(s, t, x, y, tj - 1);
        lemma_ssq_row_bounds(s, t, x, y, tj - 1, t.width as int);
        assert((tj - 1) * (t.width * 65025) + t.width * 65025 == tj * (t.width * 65025))
            by (nonlinear_arith);
    }
}

proof fn lemma_tsq_row_bounds(t: GrayImage, tj: int, ti: int)
    requires
        0 <= ti,
    ensures
        0 <= tsq_row(t, tj, ti) <= ti * 65025,
    decreases ti,
{
    if ti > 0 {
        lemma_tsq_row_bounds(t, tj, ti - 1);
        lemma_px_product_bound(t.spec_cell(ti - 1, tj) as int, t.spec_cell(ti - 1, tj) as int);
    }
}

proof fn lemma_tsq_rows_bounds(t: GrayImage, tj: int)
    requires
        0 <= tj,
    ensures
        0 <= tsq_rows(t, tj) <= tj * (t.width * 65025),
    decreases tj,
{
    if tj > 0 {
        lemma_tsq_rows_bounds(t, tj - 1);
        lemma_tsq_row_bounds(t, tj - 1, t.width as int);
        assert((tj - 1) * (t.width * 65025) + t.width * 65025 == tj * (t.width * 65025))
            by (nonlinear_arith);
    }
}

/// A partial sum over `tj` of the template's rows stays under `max_sum()`
/// when the template area is within `max_template_area()`.
proof fn lemma_sum_cap(th: int, tw: int, tj: int, v: int) by (nonlinear_arith)
    requires
        0 <= tj <= th,
        0 <= tw,
        th * tw <= max_template_area(),
        0 <= v <= tj * (tw * 65025),
    ensures
        0 <= v <= max_sum(),
{
}

/// Computes the numerator and masked source energy of one placement.
fn ncc_sums_at(s: &GrayImage, t: &GrayImage, x: usize, y: usize) -> (r: (u64, u64))
    requires
        s.wf(),
        t.wf(),
        1 <= t.width,
        1 <= t.height,
        t.height * t.width <= max_template_area(),
        x + t.width <= s.width,
        y + t.height <= s.height,
    ensures
        r.0 == dot_rows(*s, *t, x as int, y as int, t.height as int),
        r.1 == ssq_rows(*s, *t, x as int, y as int, t.height as int),
        0 <= r.0 <= max_sum(),
        0 <= r.1 <= max_sum(),
{
    let tw = t.width;
    let th = t.height;
    proof {
        assert(tw <= max_template_area()) by (nonlinear_arith)
            requires 1 <= th, 0 <= tw, th * tw <= max_template_area();
    }
    let mut num: u64 = 0;
    let mut ssq: u64 = 0;
    let mut tj: usize = 0;
    while tj < th
        invariant
            s.wf(),
            t.wf(),
            tw == t.width,
            th == t.height,
            tw <= 0x1_0000,
            th * tw <= max_template_area(),
            x + tw <= s.width,
            y + th <= s.height,
            tj <= th,
            num == dot_rows(*s, *t, x as int, y as int, tj as int),
            ssq == ssq_rows(*s, *t, x as int, y as int, tj as int),
            num <= max_sum(),
            ssq <= max_sum(),
        decreases th - tj,
    {
        let ghost num_rows = num as int;
        let ghost ssq_rows_v = ssq as int;
        let mut ti: usize = 0;
        while ti < tw
            invariant
                s.wf(),
                t.wf(),
                tw == t.width,
                th == t.height,
                tw <= 0x1_0000,
                th * tw <= max_template_area(),
                x + tw <= s.width,
                y + th <= s.height,
                tj < th,
                ti <= tw,
                num_rows == dot_rows(*s, *t, x as int, y as int, tj as int),
                ssq_rows_v == ssq_rows(*s, *t, x as int, y as int, tj as int),
                0 <= num_rows <= max_sum(),
                0 <= ssq_rows_v <= max_sum(),
                num == num_rows + dot_row(*s, *t, x as int, y as int, tj as int, ti as int),
                ssq == ssq_rows_v + ssq_row(*s, *t, x as int, y as int, tj as int, ti as int),
            decreases tw - ti,
        {
            proof {
                lemma_dot_row_bounds(*s, *t, x as int, y as int, tj as int, ti as int);
                lemma_ssq_row_bounds(*s, *t, x as int, y as int, tj as int, ti as int);
            }
            let sv = s.cell(x + ti, y + tj);
            let tv = t.cell(ti, tj);
            proof {
                lemma_px_product_bound(sv as int, tv as int);
                lemma_px_product_bound(sv as int, sv as int);
            }
            num = num + (sv as u64) * (tv as u64);
            if tv != 0 {
                ssq = ssq + (sv as u64) * (sv as u64);
            }
            ti = ti + 1;
        }
        proof {
            lemma_dot_rows_bounds(*s, *t, x as int, y as int, tj + 1);
            lemma_ssq_rows_bounds(*s, *t, x as int, y as int, tj + 1);
            lemma_sum_cap(th as int, tw as int, tj + 1, num as int);
            lemma_sum_cap(th as int, tw as int, tj + 1, ssq as int);
        }
        tj = tj + 1;
    }
    (num, ssq)
}

/// Computes the template's total squared energy, the constant factor of
/// every denominator.
fn tsq_total(t: &GrayImage) -> (r: u64)
    requires
        t.wf(),
        1 <= t.width,
        1 <= t.height,
        t.height * t.width <= max_template_area(),
    ensures
        r == tsq_rows(*t, t.height as int),
        0 <= r <= max_sum(),
{
    let tw = t.width;
    let th = t.height;
    proof {
        assert(tw <= max_template_area()) by (nonlinear_arith)
            requires 1 <= th, 0 <= tw, th * tw <= max_template_area();
    }
    let mut acc: u64 = 0;
    let mut tj: usize = 0;
    while tj < th
        invariant
            t.wf(),
            tw == t.width,
            th == t.height,
            tw <= 0x1_0000,
            th * tw <= max_template_area(),
            tj <= th,
            acc == tsq_rows(*t, tj as int),
            acc <= max_sum(),
        decreases th - tj,
    {
        let ghost acc_rows = acc as int;
        let mut ti: usize = 0;
        while ti < tw
            invariant
                t.wf(),
                tw == t.width,
                th == t.height,
                tw <= 0x1_0000,
                th * tw <= max_template_area(),
                tj < th,
                ti <= tw,
                acc_rows == tsq_rows(*t, tj as int),
                0 <= acc_rows <= max_sum(),
                acc == acc_rows + tsq_row(*t, tj as int, ti as int),
            decreases tw - ti,
        {
            proof {
                lemma_tsq_row_bounds(*t, tj as int, ti as int);
            }
            let tv = t.cell(ti, tj);
            proof {
                lemma_px_product_bound(tv as int, tv as int);
            }
            acc = acc + (tv as u64) * (tv as u64);
            ti = ti + 1;
        }
        proof {
            lemma_tsq_rows_bounds(*t, tj + 1);
            lemma_sum_cap(th as int, tw as int, tj + 1, acc as int);
        }
        tj = tj + 1;
    }
    acc
}

/// A glyph template prepared for matching, held as a grayscale image.
#[derive(Clone, Debug)]
pub struct TemplateMatcher {
    pub template: GrayImage,
}

impl TemplateMatcher {
    /// The template fills its rectangle, has a positive bounded size, and
    /// its area fits the matcher's sum bounds.
    pub open spec fn wf(self) -> bool {
        &&& self.template.wf()
        &&& 1 <= self.template.width <= 0x7FFF
        &&& 1 <= self.template.height <= 0x7FFF
        &&& self.template.width * self.template.height <= max_template_area()
    }

    /// Whether an RGBA glyph master has a size the matcher supports.
    pub open spec fn supported_size(w: int, h: int) -> bool {
        &&& 1 <= w <= 0x7FFF
        &&& 1 <= h <= 0x7FFF
        &&& w * h <= max_template_area()
    }

    /// Builds a matcher from an RGBA glyph master by grayscale conversion.
    /// Fails exactly when the glyph is empty or larger than the matcher
    /// supports.
    pub fn new(template: &RgbaImage) -> (r: Result<TemplateMatcher, CvError>)
        requires
            template.wf(),
        ensures
            r is Ok <==> Self::supported_size(template.width as int, template.height as int),
            r is Err ==> r == Err::<TemplateMatcher, CvError>(CvError::ResizeFailed),
            r matches Ok(m) ==> crate::image::is_grayscale_of(m.template, *template),
            r matches Ok(m) ==> {
                &&& m.wf()
                &&& m.template.width == template.width
                &&& m.template.height == template.height
                &&& forall|x: int, y: int| 0 <= x < template.width && 0 <= y < template.height
                    ==> #[trigger] m.template.spec_cell(x, y) == spec_luma(
                        template.spec_px(x, y, 0),
                        template.spec_px(x, y, 1),
                        template.spec_px(x, y, 2),
                    )
            },
    {
        if template.width == 0 || template.width > 0x7FFF
            || template.height == 0 || template.height > 0x7FFF {
            return Err(CvError::ResizeFailed);
        }
        if template.width > 0x1_0000 / template.height {
            proof {
                crate::grid::lemma_area_cap_exceeded(
                    template.height as int,
                    template.width as int,
                    0x1_0000,
                );
                assert(template.width * template.height == template.height * template.width)
                    by (nonlinear_arith);
            }
            return Err(CvError::ResizeFailed);
        }
        proof {
            crate::grid::lemma_area_bound(template.height as int, template.width as int, 0x1_0000);
            assert(template.width * template.height == template.height * template.width)
                by (nonlinear_arith);
        }
        let gray = to_grayscale(template);
        Ok(TemplateMatcher { template: gray })
    }

    /// Builds a matcher and resizes its template to the given size.
    pub fn with_resized(template: &RgbaImage, width: usize, height: usize) -> (r: Result<TemplateMatcher, CvError>)
        requires
            template.wf(),
        ensures
            r is Ok <==> (Self::supported_size(template.width as int, template.height as int)
                && Self::supported_size(width as int, height as int)),
            r is Err ==> r == Err::<TemplateMatcher, CvError>(CvError::ResizeFailed),
            r matches Ok(m) ==> {
                &&& m.wf()
                &&& m.template.width == width
                &&& m.template.height == height
                &&& forall|x: int, y: int| 0 <= x < width && 0 <= y < height
                    ==> #[trigger] m.template.spec_cell(x, y) == spec_luma(
                        template.spec_px(
                            spec_src_index(x, template.width as int, width as int),
                            spec_src_index(y, template.height as int, height as int),
                            0,
                        ),
                        template.spec_px(
                            spec_src_index(x, template.width as int, width as int),
                            spec_src_index(y, template.height as int, height as int),
                            1,
                        ),
                        template.spec_px(
                            spec_src_index(x, template.width as int, width as int),
                            spec_src_index(y, template.height as int, height as int),
                            2,
                        ),
                    )
            },
    {
        let mut tm = Self::new(template)?;
        tm.resize_template(width, height)?;
        proof {
            assert forall|x: int, y: int| 0 <= x < width && 0 <= y < height
                implies #[trigger] tm.template.spec_cell(x, y) == spec_luma(
                    template.spec_px(
                        spec_src_index(x, template.width as int, width as int),
                        spec_src_index(y, template.height as int, height as int),
                        0,
                    ),
                    template.spec_px(
                        spec_src_index(x, template.width as int, width as int),
                        spec_src_index(y, template.height as int, height as int),
                        1,
                    ),
                    template.spec_px(
                        spec_src_index(x, template.width as int, width as int),
                        spec_src_index(y, template.height as int, height as int),
                        2,
                    ),
                ) by {
                crate::image::lemma_src_index_in_range(x, template.width as int, width as int);
                crate::image::lemma_src_index_in_range(y, template.height as int, height as int);
            }
        }
        Ok(tm)
    }

    /// Builds a matcher and rescales its template by
    /// `scale_num / scale_den`.
    pub fn with_resized_scale(template: &RgbaImage, scale_num: usize, scale_den: usize) -> (r: Result<TemplateMatcher, CvError>)
        requires
            template.wf(),
            scale_num <= 0xFFFF,
            1 <= scale_den <= 0xFFFF,
        ensures
            r is Ok <==> (Self::supported_size(template.width as int, template.height as int)
                && Self::supported_size(
                    spec_scaled_dim(template.width as int, scale_num as int, scale_den as int),
                    spec_scaled_dim(template.height as int, scale_num as int, scale_den as int),
                )),
            r is Err ==> r == Err::<TemplateMatcher, CvError>(CvError::ResizeFailed),
            r matches Ok(m) ==> {
                let ow = spec_scaled_dim(template.width as int, scale_num as int, scale_den as int);
                let oh = spec_scaled_dim(template.height as int, scale_num as int, scale_den as int);
                &&& m.wf()
                &&& m.template.width == ow
                &&& m.template.height == oh
            },
            r matches Ok(m) ==> exists|g: GrayImage|
                #[trigger] crate::image::is_grayscale_of(g, *template)
                && crate::image::is_resize_of(m.template, g),
    {
        let mut tm = Self::new(template)?;
        let ghost g0 = tm.template;
        tm.resize_template_scale(scale_num, scale_den)?;
        proof {
            assert(crate::image::is_grayscale_of(g0, *template));
            assert(crate::image::is_resize_of(tm.template, g0));
        }
        Ok(tm)
    }

    /// A fresh matcher with the same template.
    pub fn clone_matcher(&self) -> (r: TemplateMatcher)
        ensures
            r.template.height == self.template.height,
            r.template.width == self.template.width,
            r.template.data@ == self.template.data@,
            self.wf() ==> r.wf(),
    {
        TemplateMatcher { template: self.template.duplicate() }
    }

    /// The prepared grayscale template.
    pub fn original_mat(&self) -> (r: &GrayImage)
        ensures
            r == &self.template,
    {
        &self.template
    }

    /// Replaces the template with a nearest-neighbor resize to the given
    /// size; on failure the matcher is unchanged.
    pub fn resize_template(&mut self, width: usize, height: usize) -> (r: Result<(), CvError>)
        requires
            old(self).wf(),
        ensures
            final(self).wf(),
            r is Ok <==> Self::supported_size(width as int, height as int),
            r is Err ==> *final(self) == *old(self)
                && r == Err::<(), CvError>(CvError::ResizeFailed),
            r is Ok ==> {
                &&& final(self).template.width == width
                &&& final(self).template.height == height
                &&& forall|x: int, y: int| 0 <= x < width && 0 <= y < height
                    ==> #[trigger] final(self).template.spec_cell(x, y)
                        == old(self).template.spec_cell(
                            spec_src_index(x, old(self).template.width as int, width as int),
                            spec_src_index(y, old(self).template.height as int, height as int),
                        )
            },
    {
        if width == 0 || width > 0x7FFF || height == 0 || height > 0x7FFF {
            return Err(CvError::ResizeFailed);
        }
        if width > 0x1_0000 / height {
            proof {
                crate::grid::lemma_area_cap_exceeded(height as int, width as int, 0x1_0000);
                assert(width * height == height * width) by (nonlinear_arith);
            }
            return Err(CvError::ResizeFailed);
        }
        proof {
            crate::grid::lemma_area_bound(height as int, width as int, 0x1_0000);
            assert(width * height == height * width) by (nonlinear_arith);
        }
        let resized = resize_to(&self.template, width, height)?;
        self.template = resized;
        Ok(())
    }

    /// Replaces the template with a nearest-neighbor rescale by
    /// `scale_num / scale_den`; on failure the matcher is unchanged.
    pub fn resize_template_scale(&mut self, scale_num: usize, scale_den: usize) -> (r: Result<(), CvError>)
        requires
            old(self).wf(),
            scale_num <= 0xFFFF,
            1 <= scale_den <= 0xFFFF,
        ensures
            final(self).wf(),
            r is Ok <==> Self::supported_size(
                spec_scaled_dim(old(self).template.width as int, scale_num as int, scale_den as int),
                spec_scaled_dim(old(self).template.height as int, scale_num as int, scale_den as int),
            ),
            r is Err ==> *final(self) == *old(self)
                && r == Err::<(), CvError>(CvError::ResizeFailed),
            r is Ok ==> crate::image::is_resize_of(final(self).template, old(self).template),
            r is Ok ==> {
                let ow = spec_scaled_dim(old(self).template.width as int, scale_num as int, scale_den as int);
                let oh = spec_scaled_dim(old(self).template.height as int, scale_num as int, scale_den as int);
                &&& final(self).template.width == ow
                &&& final(self).template.height == oh
                &&& forall|x: int, y: int| 0 <= x < ow && 0 <= y < oh
                    ==> #[trigger] final(self).template.spec_cell(x, y)
                        == old(self).template.spec_cell(
                            spec_src_index(x, old(self).template.width as int, ow),
                            spec_src_index(y, old(self).template.height as int, oh),
                        )
            },
    {
        let resized = resize(&self.template, scale_num, scale_den)?;
        if resized.width > 0x1_0000 / resized.height {
            proof {
                crate::grid::lemma_area_cap_exceeded(resized.height as int, resized.width as int, 0x1_0000);
                assert(resized.width * resized.height == resized.height * resized.width)
                    by (nonlinear_arith);
            }
            return Err(CvError::ResizeFailed);
        }
        proof {
            crate::grid::lemma_area_bound(resized.height as int, resized.width as int, 0x1_0000);
            assert(resized.width * resized.height == resized.height * resized.width)
                by (nonlinear_arith);
        }
        self.template = resized;
        Ok(())
    }

    /// Runs the normalized cross-correlation of the template against a
    /// grayscale source, producing the per-placement score map. Its shape
    /// is `(source height - template height + 1, source width - template
    /// width + 1)`; fails exactly when the template exceeds the source on
    /// an axis.
    pub fn match_template(&self, source: &GrayImage) -> (r: Result<ScoreMap, CvError>)
        requires
            self.wf(),
            source.wf(),
        ensures
            r is Ok <==> (self.template.width <= source.width
                && self.template.height <= source.height),
            r is Err ==> r == Err::<ScoreMap, CvError>(CvError::TemplateLargerThanSource),
            r matches Ok(m) ==> {
                &&& m.wf()
                &&& map_valid(m)
                &&& m.height == source.height - self.template.height + 1
                &&& m.width == source.width - self.template.width + 1
                &&& forall|x: int, y: int| 0 <= x < m.width && 0 <= y < m.height
                    ==> #[trigger] m.spec_cell(x, y) == spec_ncc(*source, self.template, x, y)
            },
    {
        let t = &self.template;
        let s = source;
        if t.width > s.width || t.height > s.height {
            return Err(CvError::TemplateLargerThanSource);
        }
        let ow: usize = s.width - t.width + 1;
        let oh: usize = s.height - t.height + 1;
        proof {
            assert(t.height * t.width <= max_template_area()) by (nonlinear_arith)
                requires t.width * t.height <= max_template_area(), 0 <= t.width, 0 <= t.height;
        }
        let tsq: u64 = tsq_total(t);

        let mut data: Vec<Score> = Vec::new();
        let mut y: usize = 0;
        while y < oh
            invariant
                s.wf(),
                t.wf(),
                self.wf(),
                t == &self.template,
                1 <= t.width <= s.width,
                1 <= t.height <= s.height,
                t.height * t.width <= max_template_area(),
                ow == s.width - t.width + 1,
                oh == s.height - t.height + 1,
                tsq == tsq_rows(*t, t.height as int),
                tsq <= max_sum(),
                y <= oh,
                data.len() == y * ow,
                forall|i: int| 0 <= i < data.len() ==> (#[trigger] data[i]).valid(),
                forall|xx: int, yy: int| 0 <= xx < ow && 0 <= yy < y
                    ==> #[trigger] data[yy * ow + xx] == spec_ncc(*s, *t, xx, yy),
            decreases oh - y,
        {
            let mut x: usize = 0;
            while x < ow
                invariant
                    s.wf(),
                    t.wf(),
                    self.wf(),
                    t == &self.template,
                    1 <= t.width <= s.width,
                    1 <= t.height <= s.height,
                    t.height * t.width <= max_template_area(),
                    ow == s.width - t.width + 1,
                    oh == s.height - t.height + 1,
                    tsq == tsq_rows(*t, t.height as int),
                    tsq <= max_sum(),
                    y < oh,
                    x <= ow,
                    data.len() == y * ow + x,
                    forall|i: int| 0 <= i < data.len() ==> (#[trigger] data[i]).valid(),
                    forall|xx: int, yy: int| 0 <= xx < ow && 0 <= yy < y
                        ==> #[trigger] data[yy * ow + xx] == spec_ncc(*s, *t, xx, yy),
                    forall|xx: int| 0 <= xx < x
                        ==> #[trigger] data[y * ow + xx] == spec_ncc(*s, *t, xx, y as int),
                decreases ow - x,
            {
                let (num, ssq) = ncc_sums_at(s, t, x, y);
                proof {
                    assert(ssq * tsq <= 0xFE01_0000 * 0xFE01_0000) by (nonlinear_arith)
                        requires 0 <= ssq <= 0xFE01_0000, 0 <= tsq <= 0xFE01_0000;
                }
                let den: u64 = ssq * tsq;
                let cell: Score = if den == 0 {
                    Score { num: 0, den: 1 }
                } else {
                    Score { num, den }
                };
                data.push(cell);
                x = x + 1;
                proof {
                    assert forall|xx: int, yy: int| 0 <= xx < ow && 0 <= yy < y
                        implies #[trigger] data[yy * ow + xx] == spec_ncc(*s, *t, xx, yy) by {
                        crate::grid::lemma_grid_index(xx, yy, ow as int, y as int);
                    }
                }
            }
            proof {
                assert(y * ow + ow == (y + 1) * ow) by (nonlinear_arith);
            }
            y = y + 1;
        }
        let m = crate::grid::Grid { height: oh, width: ow, data };
        proof {
            assert forall|x: int, y2: int| 0 <= x < m.width && 0 <= y2 < m.height
                implies #[trigger] m.spec_cell(x, y2) == spec_ncc(*s, *t, x, y2) by {
                crate::grid::lemma_grid_index(x, y2, m.width as int, m.height as int);
            }
        }
        Ok(m)
    }
}

} // verus!
