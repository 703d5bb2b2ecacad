use vstd::prelude::*;
use crate::error::CvError;
use crate::image::{is_grayscale_of, is_resize_of, spec_scaled_dim, to_grayscale, GrayImage, RgbaImage};
use crate::matcher::{spec_ncc, TemplateMatcher};
use crate::score::Score;
use crate::search::{
    chunk_or_default, distance_or_default, find_direction_commands, fused_cell, is_extraction_of,
    is_fusion_of, same_shape, threshold_or_default, DirectionDescriptor, FusedMap,
};

verus! {

/// The four direction templates prepared for matching, all of one size.
#[derive(Clone, Debug)]
pub struct DirectionTemplateMatcherSet {
    pub up: TemplateMatcher,
    pub down: TemplateMatcher,
    pub right: TemplateMatcher,
    pub left: TemplateMatcher,
}

impl DirectionTemplateMatcherSet {
    /// All four templates are well formed and share one size.
    pub open spec fn wf(self) -> bool {
        &&& self.up.wf()
        &&& self.down.wf()
        &&& self.right.wf()
        &&& self.left.wf()
        &&& self.down.template.width == self.up.template.width
        &&& self.down.template.height == self.up.template.height
        &&& self.right.template.width == self.up.template.width
        &&& self.right.template.height == self.up.template.height
        &&& self.left.template.width == self.up.template.width
        &&& self.left.template.height == self.up.template.height
    }

    /// Groups four prepared templates; fails when their sizes differ.
    pub fn new(
        template_up: TemplateMatcher,
        template_down: TemplateMatcher,
        template_right: TemplateMatcher,
        template_left: TemplateMatcher,
    ) -> (r: Result<DirectionTemplateMatcherSet, CvError>)
        requires
            template_up.wf(),
            template_down.wf(),
            template_right.wf(),
            template_left.wf(),
        ensures
            r is Ok <==> (template_down.template.width == template_up.template.width
                && template_down.template.height == template_up.template.height
                && template_right.template.width == template_up.template.width
                && template_right.template.height == template_up.template.height
                && template_left.template.width == template_up.template.width
                && template_left.template.height == template_up.template.height),
            r is Err ==> r == Err::<DirectionTemplateMatcherSet, CvError>(CvError::ShapeMismatch),
            r matches Ok(s) ==> {
                &&& s.wf()
                &&& s.up == template_up
                &&& s.down == template_down
                &&& s.right == template_right
                &&& s.left == template_left
            },
    {
        if template_down.template.width != template_up.template.width
            || template_down.template.height != template_up.template.height
            || template_right.template.width != template_up.template.width
            || template_right.template.height != template_up.template.height
            || template_left.template.width != template_up.template.width
            || template_left.template.height != template_up.template.height {
            return Err(CvError::ShapeMismatch);
        }
        Ok(DirectionTemplateMatcherSet {
            up: template_up,
            down: template_down,
            right: template_right,
            left: template_left,
        })
    }
}

/// Tunables of the search: fusion threshold, row window height and
/// near-duplicate suppression distance. A `None` keeps the current value.
#[derive(Clone, Copy, Debug, Default)]
pub struct Hd2mCvSearchOptions {
    pub threshold: Option<Score>,
    pub search_chunk_size: Option<usize>,
    pub discarding_distance_threshold: Option<u64>,
}

/// Whether the options carry only values the pipeline accepts.
pub open spec fn options_ok(o: Hd2mCvSearchOptions) -> bool {
    &&& (o.threshold matches Some(t) ==> t.valid())
    &&& (o.search_chunk_size matches Some(c) ==> 1 <= c)
    &&& (o.discarding_distance_threshold matches Some(d) ==> d <= 0xFFFF_FFFF)
}

/// Everything the orchestrator is built from: the four glyph masters, the
/// screen size they were authored at, and optional search tunables.
#[derive(Debug)]
pub struct Hd2mCvManagerConfig {
    pub template_up_image: RgbaImage,
    pub template_down_image: RgbaImage,
    pub template_right_image: RgbaImage,
    pub template_left_image: RgbaImage,
    pub base_screen_size: (usize, usize),
    pub search_options: Option<Hd2mCvSearchOptions>,
}

/// The threshold the config asks for; 0.9 when it names none.
pub open spec fn config_threshold(config: Hd2mCvManagerConfig) -> Score {
    match config.search_options {
        Some(o) => match o.threshold {
            Some(t) => t,
            None => Score { num: 9, den: 100 },
        },
        None => Score { num: 9, den: 100 },
    }
}

/// The window height the config asks for; the template height plus 10
/// when it names none.
pub open spec fn config_chunk(config: Hd2mCvManagerConfig) -> int {
    match config.search_options {
        Some(o) => match o.search_chunk_size {
            Some(c) => c as int,
            None => config.template_up_image.height + 10,
        },
        None => config.template_up_image.height + 10,
    }
}

/// The suppression distance the config asks for; the template width plus
/// 3 when it names none.
pub open spec fn config_distance(config: Hd2mCvManagerConfig) -> int {
    match config.search_options {
        Some(o) => match o.discarding_distance_threshold {
            Some(d) => d as int,
            None => config.template_up_image.width + 3,
        },
        None => config.template_up_image.width + 3,
    }
}

/// The orchestrator: holds the original templates, a registry of
/// per-screen-size rescaled copies, and the search tunables derived from
/// the active template size.
#[derive(Debug)]
pub struct Hd2mCvManager {
    pub template_original: DirectionTemplateMatcherSet,
    pub base_screen_size: (usize, usize),
    pub current_screen_size: Option<(usize, usize)>,
    pub template_registry: Vec<((usize, usize), DirectionTemplateMatcherSet)>,
    pub template_search_threshold: Score,
    pub template_search_chunk_size: usize,
    pub template_discarding_distance_threshold: u64,
}

/// Whether `f` is the fused map the pipeline builds for `gray` under the
/// template set and threshold: each cell fuses the four normalized
/// cross-correlation scores at its position.
pub open spec fn is_run_fusion(f: FusedMap, gray: GrayImage, set: DirectionTemplateMatcherSet, t: Score) -> bool {
    &&& f.wf()
    &&& f.height == gray.height - set.up.template.height + 1
    &&& f.width == gray.width - set.up.template.width + 1
    &&& forall|x: int, y: int| 0 <= x < f.width && 0 <= y < f.height
        ==> #[trigger] f.spec_cell(x, y) == fused_cell(
            spec_ncc(gray, set.up.template, x, y),
            spec_ncc(gray, set.right.template, x, y),
            spec_ncc(gray, set.down.template, x, y),
            spec_ncc(gray, set.left.template, x, y),
            t,
        )
}

impl Hd2mCvManager {
    /// The manager's invariant: templates well formed, registry keyed
    /// uniquely by screen size with well-formed sets, tunables in range.
    pub open spec fn wf(self) -> bool {
        &&& self.template_original.wf()
        &&& 1 <= self.base_screen_size.0 <= 0xFFFF
        &&& self.base_screen_size.1 <= 0xFFFF
        &&& self.template_search_threshold.valid()
        &&& 1 <= self.template_search_chunk_size
        &&& self.template_discarding_distance_threshold <= 0xFFFF_FFFF
        &&& forall|i: int| 0 <= i < self.template_registry.len()
            ==> (#[trigger] self.template_registry[i]).1.wf()
        &&& forall|i: int, j: int| 0 <= i < j < self.template_registry.len()
            ==> (#[trigger] self.template_registry[i]).0
                != (#[trigger] self.template_registry[j]).0
    }

    /// Whether a template set is registered for the given screen size.
    pub open spec fn registry_has(self, sz: (usize, usize)) -> bool {
        exists|i: int| 0 <= i < self.template_registry.len()
            && (#[trigger] self.template_registry[i]).0 == sz
    }

    /// The template set registered for the given screen size.
    pub open spec fn registry_at(self, sz: (usize, usize)) -> DirectionTemplateMatcherSet {
        self.template_registry[choose|i: int|
            0 <= i < self.template_registry.len()
                && (#[trigger] self.template_registry[i]).0 == sz].1
    }

    fn registry_find(&self, width: usize, height: usize) -> (r: Option<usize>)
        requires
            self.wf(),
        ensures
            r matches Some(i) ==> {
                &&& i < self.template_registry.len()
                &&& self.template_registry[i as int].0 == (width, height)
                &&& self.registry_has((width, height))
                &&& self.registry_at((width, height)) == self.template_registry[i as int].1
            },
            r is None ==> !self.registry_has((width, height)),
    {
        let n = self.template_registry.len();
        let mut i: usize = 0;
        while i < n
            invariant
                self.wf(),
                n == self.template_registry.len(),
                i <= n,
                forall|j: int| 0 <= j < i
                    ==> (#[trigger] self.template_registry[j]).0 != (width, height),
            decreases n - i,
        {
            let entry = &self.template_registry[i];
            if entry.0.0 == width && entry.0.1 == height {
                proof {
                    assert(self.template_registry[i as int].0 == (width, height));
                    let k = choose|k: int|
                        0 <= k < self.template_registry.len()
                            && (#[trigger] self.template_registry[k]).0 == (width, height);
                    if k != i {
                        assert(self.template_registry[k].0 != self.template_registry[i as int].0);
                    }
                }
                return Some(i);
            }
            i = i + 1;
        }
        None
    }

    /// Builds the orchestrator: converts the four glyph masters to
    /// grayscale and stores the search tunables; when the config names
    /// none, the threshold defaults to 0.9 and the window height and
    /// suppression distance derive from the template size. Fails with
    /// `ResizeFailed` on a glyph of unsupported size and with
    /// `ShapeMismatch` when the four differ in size.
    pub fn new(config: Hd2mCvManagerConfig) -> (r: Result<Hd2mCvManager, CvError>)
        requires
            config.template_up_image.wf(),
            config.template_down_image.wf(),
            config.template_right_image.wf(),
            config.template_left_image.wf(),
            1 <= config.base_screen_size.0 <= 0xFFFF,
            config.base_screen_size.1 <= 0xFFFF,
            config.search_options matches Some(o) ==> options_ok(o),
        ensures
            r is Ok <==> (TemplateMatcher::supported_size(
                config.template_up_image.width as int,
                config.template_up_image.height as int,
            )
                && TemplateMatcher::supported_size(
                    config.template_down_image.width as int,
                    config.template_down_image.height as int,
                )
                && TemplateMatcher::supported_size(
                    config.template_right_image.width as int,
                    config.template_right_image.height as int,
                )
                && TemplateMatcher::supported_size(
                    config.template_left_image.width as int,
                    config.template_left_image.height as int,
                )
                && config.template_down_image.width == config.template_up_image.width
                && config.template_down_image.height == config.template_up_image.height
                && config.template_right_image.width == config.template_up_image.width
                && config.template_right_image.height == config.template_up_image.height
                && config.template_left_image.width == config.template_up_image.width
                && config.template_left_image.height == config.template_up_image.height),
            r is Err ==> (r == Err::<Hd2mCvManager, CvError>(CvError::ResizeFailed)
                || r == Err::<Hd2mCvManager, CvError>(CvError::ShapeMismatch)),
            r matches Ok(m) ==> {
                &&& m.wf()
                &&& is_grayscale_of(m.template_original.up.template, config.template_up_image)
                &&& is_grayscale_of(m.template_original.down.template, config.template_down_image)
                &&& is_grayscale_of(m.template_original.right.template, config.template_right_image)
                &&& is_grayscale_of(m.template_original.left.template, config.template_left_image)
                &&& m.base_screen_size == config.base_screen_size
                &&& m.current_screen_size is None
                &&& m.template_registry.len() == 0
                &&& m.template_search_threshold == config_threshold(config)
                &&& m.template_search_chunk_size == config_chunk(config)
                &&& m.template_discarding_distance_threshold == config_distance(config)
            },
    {
        let up_template = TemplateMatcher::new(&config.template_up_image)?;
        let down_template = TemplateMatcher::new(&config.template_down_image)?;
        let right_template = TemplateMatcher::new(&config.template_right_image)?;
        let left_template = TemplateMatcher::new(&config.template_left_image)?;
        let init_width = up_template.template.width;
        let init_height = up_template.template.height;
        let matcher_set = DirectionTemplateMatcherSet::new(
            up_template,
            down_template,
            right_template,
            left_template,
        )?;
        let (threshold, chunk, distance) = match config.search_options {
            Some(o) => {
                let t = match o.threshold {
                    Some(t0) => t0,
                    None => Score::ratio(9, 10),
                };
                let c = match o.search_chunk_size {
                    Some(c0) => c0,
                    None => init_height + 10,
                };
                let d = match o.discarding_distance_threshold {
                    Some(d0) => d0,
                    None => (init_width as u64) + 3,
                };
                (t, c, d)
            },
            None => (Score::ratio(9, 10), init_height + 10, (init_width as u64) + 3),
        };
        Ok(Hd2mCvManager {
            template_original: matcher_set,
            base_screen_size: config.base_screen_size,
            current_screen_size: None,
            template_registry: Vec::new(),
            template_search_threshold: threshold,
            template_search_chunk_size: chunk,
            template_discarding_distance_threshold: distance,
        })
    }

    /// Overrides the search tunables; a `None` field keeps the current
    /// value.
    pub fn set_search_options(&mut self, options: Hd2mCvSearchOptions)
        requires
            old(self).wf(),
            options_ok(options),
        ensures
            final(self).wf(),
            final(self).template_search_threshold == (match options.threshold {
                Some(t) => t,
                None => old(self).template_search_threshold,
            }),
            final(self).template_search_chunk_size == (match options.search_chunk_size {
                Some(c) => c,
                None => old(self).template_search_chunk_size,
            }),
            final(self).template_discarding_distance_threshold == (match options.discarding_distance_threshold {
                Some(d) => d,
                None => old(self).template_discarding_distance_threshold,
            }),
            final(self).template_original == old(self).template_original,
            final(self).base_screen_size == old(self).base_screen_size,
            final(self).current_screen_size == old(self).current_screen_size,
            final(self).template_registry == old(self).template_registry,
    {
        match options.threshold {
            Some(t) => {
                self.template_search_threshold = t;
            },
            None => {},
        }
        match options.search_chunk_size {
            Some(c) => {
                self.template_search_chunk_size = c;
            },
            None => {},
        }
        match options.discarding_distance_threshold {
            Some(d) => {
                self.template_discarding_distance_threshold = d;
            },
            None => {},
        }
    }

    /// Registers a screen size: when it is already known this is a no-op;
    /// otherwise the original templates are rescaled by
    /// `width / base width` (the target game scales its panel by width
    /// alone), the set is stored under `(width, height)`, that size
    /// becomes active, and the window height and suppression distance are
    /// rederived from the rescaled template's size: its height plus 10 and
    /// its width plus 3.
    pub fn use_screen_size(&mut self, width: usize, height: usize) -> (r: Result<(), CvError>)
        requires
            old(self).wf(),
            width <= 0xFFFF,
            height <= 0xFFFF,
        ensures
            final(self).wf(),
            old(self).registry_has((width, height)) ==> r is Ok && *final(self) == *old(self),
            !old(self).registry_has((width, height)) ==> {
                let nw = spec_scaled_dim(
                    old(self).template_original.up.template.width as int,
                    width as int,
                    old(self).base_screen_size.0 as int,
                );
                let nh = spec_scaled_dim(
                    old(self).template_original.up.template.height as int,
                    width as int,
                    old(self).base_screen_size.0 as int,
                );
                &&& (r is Ok <==> TemplateMatcher::supported_size(nw, nh))
                &&& (r is Err ==> *final(self) == *old(self)
                    && r == Err::<(), CvError>(CvError::ResizeFailed))
                &&& (r is Ok ==> {
                    let n = old(self).template_registry.len();
                    let entry = final(self).template_registry[n as int];
                    &&& final(self).template_registry.len() == n + 1
                    &&& final(self).template_registry@.subrange(0, n as int)
                        == old(self).template_registry@
                    &&& entry.0 == (width, height)
                    &&& entry.1.wf()
                    &&& entry.1.up.template.width == nw
                    &&& entry.1.up.template.height == nh
                    &&& is_resize_of(entry.1.up.template, old(self).template_original.up.template)
                    &&& is_resize_of(entry.1.down.template, old(self).template_original.down.template)
                    &&& is_resize_of(entry.1.right.template, old(self).template_original.right.template)
                    &&& is_resize_of(entry.1.left.template, old(self).template_original.left.template)
                    &&& final(self).current_screen_size == Some((width, height))
                    &&& final(self).template_search_chunk_size == nh + 10
                    &&& final(self).template_discarding_distance_threshold == nw + 3
                    &&& final(self).template_search_threshold
                        == old(self).template_search_threshold
                    &&& final(self).template_original == old(self).template_original
                    &&& final(self).base_screen_size == old(self).base_screen_size
                })
            },
    {
        if self.registry_find(width, height).is_some() {
            return Ok(());
        }

        let mut template_up = self.template_original.up.clone_matcher();
        template_up.resize_template_scale(width, self.base_screen_size.0)?;
        let mut template_down = self.template_original.down.clone_matcher();
        template_down.resize_template_scale(width, self.base_screen_size.0)?;
        let mut template_right = self.template_original.right.clone_matcher();
        template_right.resize_template_scale(width, self.base_screen_size.0)?;
        let mut template_left = self.template_original.left.clone_matcher();
        template_left.resize_template_scale(width, self.base_screen_size.0)?;

        let rep_width = template_up.template.width;
        let rep_height = template_up.template.height;
        let template_resized = DirectionTemplateMatcherSet::new(
            template_up,
            template_down,
            template_right,
            template_left,
        )?;

        let ghost old_registry = self.template_registry@;
        self.template_registry.push(((width, height), template_resized));
        proof {
            assert(self.template_registry@.subrange(0, old_registry.len() as int)
                =~= old_registry);
        }
        self.current_screen_size = Some((width, height));
        self.template_search_chunk_size = rep_height + 10;
        self.template_discarding_distance_threshold = (rep_width as u64) + 3;
        Ok(())
    }

    /// The template set registered for the active screen size. Fails with
    /// `NoActiveScreenSize` before any `use_screen_size` call, and with
    /// `MissingScale` when the active size has no registry entry.
    pub fn active_templates(&self) -> (r: Result<&DirectionTemplateMatcherSet, CvError>)
        requires
            self.wf(),
        ensures
            self.current_screen_size is None
                ==> r == Err::<&DirectionTemplateMatcherSet, CvError>(CvError::NoActiveScreenSize),
            (self.current_screen_size matches Some(sz) && !self.registry_has(sz))
                ==> r == Err::<&DirectionTemplateMatcherSet, CvError>(CvError::MissingScale),
            (self.current_screen_size matches Some(sz) && self.registry_has(sz)) ==> {
                &&& r is Ok
                &&& (r matches Ok(s)
                    ==> *s == self.registry_at(self.current_screen_size->Some_0) && s.wf())
            },
    {
        let (sw, sh) = match self.current_screen_size {
            None => {
                return Err(CvError::NoActiveScreenSize);
            },
            Some(sz) => sz,
        };
        match self.registry_find(sw, sh) {
            None => Err(CvError::MissingScale),
            Some(i) => Ok(&self.template_registry[i].1),
        }
    }

    /// Runs the full pipeline on an already normalized grayscale frame:
    /// match the four active templates, fuse the score maps under the
    /// stored threshold, and extract the per-row sequences with the
    /// stored window and suppression distance. The manager itself is
    /// unchanged.
    pub fn run_match_mat(&mut self, target: &GrayImage) -> (r: Result<Vec<Vec<DirectionDescriptor>>, CvError>)
        requires
            old(self).wf(),
            target.wf(),
            target.width <= 0x7FFF_FFFF,
            target.height <= 0x7FFF_FFFF,
        ensures
            *final(self) == *old(self),
            old(self).current_screen_size is None
                ==> r == Err::<Vec<Vec<DirectionDescriptor>>, CvError>(CvError::NoActiveScreenSize),
            (old(self).current_screen_size matches Some(sz) && !old(self).registry_has(sz))
                ==> r == Err::<Vec<Vec<DirectionDescriptor>>, CvError>(CvError::MissingScale),
            (old(self).current_screen_size matches Some(sz) && old(self).registry_has(sz))
                ==> {
                    let set = old(self).registry_at(old(self).current_screen_size->Some_0);
                    &&& (r is Ok <==> (set.up.template.width <= target.width
                        && set.up.template.height <= target.height))
                    &&& (r is Err ==> r
                        == Err::<Vec<Vec<DirectionDescriptor>>, CvError>(CvError::TemplateLargerThanSource))
                    &&& (r matches Ok(v) ==> exists|f: FusedMap|
                        #[trigger] is_run_fusion(f, *target, set, old(self).template_search_threshold)
                        && is_extraction_of(
                            f,
                            old(self).template_search_chunk_size as int,
                            old(self).template_discarding_distance_threshold as int,
                            v,
                        ))
                },
    {
        let (sw, sh) = match self.current_screen_size {
            None => {
                return Err(CvError::NoActiveScreenSize);
            },
            Some(sz) => sz,
        };
        let idx = match self.registry_find(sw, sh) {
            None => {
                return Err(CvError::MissingScale);
            },
            Some(i) => i,
        };
        let matching_template = &self.template_registry[idx].1;

        let res_up = matching_template.up.match_template(target)?;
        let res_down = matching_template.down.match_template(target)?;
        let res_right = matching_template.right.match_template(target)?;
        let res_left = matching_template.left.match_template(target)?;

        proof {
            assert(same_shape(res_up, res_down, res_right, res_left));
        }
        let commands = find_direction_commands(
            &res_up,
            &res_down,
            &res_right,
            &res_left,
            Some(self.template_search_threshold),
            Some(self.template_search_chunk_size),
            Some(self.template_discarding_distance_threshold),
        )?;
        proof {
            let t = self.template_search_threshold;
            let set = self.registry_at((sw, sh));
            let f = choose|f: FusedMap|
                #[trigger] is_fusion_of(f, res_up, res_right, res_down, res_left, threshold_or_default(Some(t)))
                && is_extraction_of(
                    f,
                    chunk_or_default(Some(self.template_search_chunk_size)) as int,
                    distance_or_default(Some(self.template_discarding_distance_threshold)) as int,
                    commands,
                );
            assert forall|x: int, y: int| 0 <= x < f.width && 0 <= y < f.height
                implies #[trigger] f.spec_cell(x, y) == fused_cell(
                    spec_ncc(*target, set.up.template, x, y),
                    spec_ncc(*target, set.right.template, x, y),
                    spec_ncc(*target, set.down.template, x, y),
                    spec_ncc(*target, set.left.template, x, y),
                    t,
                ) by {
                assert(res_up.spec_cell(x, y) == spec_ncc(*target, set.up.template, x, y));
                assert(res_right.spec_cell(x, y) == spec_ncc(*target, set.right.template, x, y));
                assert(res_down.spec_cell(x, y) == spec_ncc(*target, set.down.template, x, y));
                assert(res_left.spec_cell(x, y) == spec_ncc(*target, set.left.template, x, y));
            }
            assert(is_run_fusion(f, *target, set, t));
            assert(is_extraction_of(
                f,
                self.template_search_chunk_size as int,
                self.template_discarding_distance_threshold as int,
                commands,
            ));
        }
        Ok(commands)
    }

    /// Runs the full pipeline on a captured RGBA frame: grayscale
    /// normalization followed by `run_match_mat`.
    pub fn run_match_rgba(&mut self, target: &RgbaImage) -> (r: Result<Vec<Vec<DirectionDescriptor>>, CvError>)
        requires
            old(self).wf(),
            target.wf(),
            target.width <= 0x7FFF_FFFF,
            target.height <= 0x7FFF_FFFF,
        ensures
            *final(self) == *old(self),
            old(self).current_screen_size is None
                ==> r == Err::<Vec<Vec<DirectionDescriptor>>, CvError>(CvError::NoActiveScreenSize),
            (old(self).current_screen_size matches Some(sz) && !old(self).registry_has(sz))
                ==> r == Err::<Vec<Vec<DirectionDescriptor>>, CvError>(CvError::MissingScale),
            (old(self).current_screen_size matches Some(sz) && old(self).registry_has(sz))
                ==> {
                    let set = old(self).registry_at(old(self).current_screen_size->Some_0);
                    &&& (r is Ok <==> (set.up.template.width <= target.width
                        && set.up.template.height <= target.height))
                    &&& (r is Err ==> r
                        == Err::<Vec<Vec<DirectionDescriptor>>, CvError>(CvError::TemplateLargerThanSource))
                    &&& (r matches Ok(v) ==> exists|g: GrayImage, f: FusedMap|
                        #[trigger] is_grayscale_of(g, *target)
                        && #[trigger] is_run_fusion(f, g, set, old(self).template_search_threshold)
                        && is_extraction_of(
                            f,
                            old(self).template_search_chunk_size as int,
                            old(self).template_discarding_distance_threshold as int,
                            v,
                        ))
                },
    {
        let gray = to_grayscale(target);
        let r = self.run_match_mat(&gray);
        proof {
            assert(is_grayscale_of(gray, *target));
        }
        r
    }
}

} // verus!
