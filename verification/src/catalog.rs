use vstd::prelude::*;
use vstd::string::StringExecFns;
use crate::color::Rgb;

verus! {

/// The decimal digit character for `d` in `0..10`.
pub open spec fn digit_char(d: int) -> char {
    if d == 0 {
        '0'
    } else if d == 1 {
        '1'
    } else if d == 2 {
        '2'
    } else if d == 3 {
        '3'
    } else if d == 4 {
        '4'
    } else if d == 5 {
        '5'
    } else if d == 6 {
        '6'
    } else if d == 7 {
        '7'
    } else if d == 8 {
        '8'
    } else {
        '9'
    }
}

/// The asset locator for index `i` under a template: the prefix, then the
/// index as two zero-padded decimal digits, then the suffix.
pub open spec fn locator_chars(prefix: Seq<char>, suffix: Seq<char>, i: int) -> Seq<char> {
    prefix + seq![digit_char(i / 10), digit_char(i % 10)] + suffix
}

/// A one-character string for the decimal digit `d`.
fn digit_str(d: usize) -> (s: &'static str)
    requires
        d < 10,
    ensures
        s@ =~= seq![digit_char(d as int)],
{
    proof {
        reveal_strlit("0");
        reveal_strlit("1");
        reveal_strlit("2");
        reveal_strlit("3");
        reveal_strlit("4");
        reveal_strlit("5");
        reveal_strlit("6");
        reveal_strlit("7");
        reveal_strlit("8");
        reveal_strlit("9");
    }
    if d == 0 {
        "0"
    } else if d == 1 {
        "1"
    } else if d == 2 {
        "2"
    } else if d == 3 {
        "3"
    } else if d == 4 {
        "4"
    } else if d == 5 {
        "5"
    } else if d == 6 {
        "6"
    } else if d == 7 {
        "7"
    } else if d == 8 {
        "8"
    } else {
        "9"
    }
}

/// Resolve an index to its asset locator: the prefix, the index zero-padded
/// to two decimal digits, and the suffix.
pub fn locator(prefix: &str, suffix: &str, index: usize) -> (s: String)
    requires
        index < 100,
    ensures
        s@ == locator_chars(prefix@, suffix@, index as int),
{
    let mut s = prefix.to_owned();
    s.append(digit_str(index / 10));
    s.append(digit_str(index % 10));
    s.append(suffix);
    proof {
        assert(s@ =~= locator_chars(prefix@, suffix@, index as int));
    }
    s
}

/// One image-layer category: how many assets it has, how an index is
/// resolved to an asset locator, and the fixed destination rectangle the
/// asset is drawn at (the rectangle never depends on the sampled index).
pub struct LayerConfig {
    /// Locator template prefix, e.g. a directory and file-name stem.
    pub prefix: String,
    /// Locator template suffix, e.g. a file extension.
    pub suffix: String,
    /// Number of distinct assets; sampled indices lie below it.
    pub cardinality: usize,
    /// Destination rectangle in canvas pixel coordinates.
    pub dx: usize,
    pub dy: usize,
    pub w: usize,
    pub h: usize,
}

impl LayerConfig {
    /// The category can be sampled and drawn on a canvas of the given
    /// size: at least one asset, at most the hundred the two-digit naming
    /// rule can address, and a rectangle inside the canvas.
    pub open spec fn wf_for(self, width: usize, height: usize) -> bool {
        &&& 1 <= self.cardinality <= 100
        &&& self.dx + self.w <= width
        &&& self.dy + self.h <= height
    }

    /// Runtime check for `wf_for`.
    pub fn fits(&self, width: usize, height: usize) -> (b: bool)
        ensures
            b == self.wf_for(width, height),
    {
        1 <= self.cardinality && self.cardinality <= 100 && self.w <= width && self.dx <= width
            - self.w && self.h <= height && self.dy <= height - self.h
    }

    /// The asset locator of index `index` of this category.
    pub fn resolve(&self, index: usize) -> (s: String)
        requires
            index < self.cardinality,
            self.cardinality <= 100,
        ensures
            s@ == locator_chars(self.prefix@, self.suffix@, index as int),
    {
        locator(self.prefix.as_str(), self.suffix.as_str(), index)
    }
}

/// The declarative configuration of one variant: the background palette,
/// the image layer categories in their fixed draw order, the canvas size,
/// the watermark's sentinel color and reserved rectangle, and the
/// sequence counter's start and exclusive bound.
pub struct Config {
    /// Background palette; the background category samples an index into it.
    pub palette: Vec<Rgb>,
    /// Image layer categories, in the order they are drawn (z-order).
    pub layers: Vec<LayerConfig>,
    /// Canvas size in pixels.
    pub width: usize,
    pub height: usize,
    /// Foreground color the watermark glyph is rasterized in before the
    /// recolor pass substitutes it.
    pub sentinel: Rgb,
    /// Reserved watermark rectangle.
    pub wm_dx: usize,
    pub wm_dy: usize,
    pub wm_w: usize,
    pub wm_h: usize,
    /// First sequence index, and the bound the counter stops at (exclusive).
    pub start: u32,
    pub bound: u32,
}

impl Config {
    /// The configuration is usable: a non-empty canvas whose buffer fits
    /// in memory, a non-empty palette, every layer rectangle and the
    /// watermark rectangle inside the canvas, and an ordered counter range.
    pub open spec fn wf(self) -> bool {
        &&& 1 <= self.width
        &&& 1 <= self.height
        &&& 4 * self.width * self.height <= usize::MAX
        &&& 1 <= self.palette@.len()
        &&& forall|k: int|
            0 <= k < self.layers@.len() ==> (#[trigger] self.layers@[k]).wf_for(
                self.width,
                self.height,
            )
        &&& self.wm_dx + self.wm_w <= self.width
        &&& self.wm_dy + self.wm_h <= self.height
        &&& self.start <= self.bound
    }

    /// Runtime check for `wf`.
    #[verifier::loop_isolation(false)]
    pub fn is_well_formed(&self) -> (b: bool)
        ensures
            b == self.wf(),
    {
        if self.width < 1 || self.height < 1 {
            return false;
        }
        let fits_mem: bool = match self.width.checked_mul(self.height) {
            Some(p) => p.checked_mul(4).is_some(),
            None => false,
        };
        proof {
            assert((self.width * self.height) * 4 == 4 * self.width * self.height)
                by (nonlinear_arith);
            assert(self.width * self.height <= 4 * self.width * self.height) by (nonlinear_arith)
                requires
                    1 <= self.width && 1 <= self.height,
            ;
        }
        if !fits_mem {
            return false;
        }
        if self.palette.len() < 1 {
            return false;
        }
        let mut k: usize = 0;
        while k < self.layers.len()
            invariant
                k <= self.layers@.len(),
                forall|j: int|
                    0 <= j < k ==> (#[trigger] self.layers@[j]).wf_for(self.width, self.height),
            decreases self.layers@.len() - k,
        {
            if !self.layers[k].fits(self.width, self.height) {
                return false;
            }
            k = k + 1;
        }
        self.wm_w <= self.width && self.wm_dx <= self.width - self.wm_w && self.wm_h <= self.height
            && self.wm_dy <= self.height - self.wm_h && self.start <= self.bound
    }
}

/// The robot variant's configuration: a 256-by-256 canvas; a seven-color
/// background palette; three image layers — head, torso, antennae, drawn
/// in that order, each with eight assets; a pure white sentinel; the
/// watermark rectangle in the lower middle of the canvas; and a sequence
/// of 256 items counted from zero.
pub fn robot_config() -> (c: Config)
    ensures
        c.wf(),
        c.width == 256 && c.height == 256,
        c.sentinel == (Rgb { r: 255, g: 255, b: 255 }),
        c.wm_dx == 86 && c.wm_dy == 170 && c.wm_w == 80 && c.wm_h == 50,
        c.start == 0 && c.bound == 256,
        c.palette@ == seq![
            (Rgb { r: 0, g: 0, b: 0 }),
            (Rgb { r: 255, g: 0, b: 0 }),
            (Rgb { r: 0, g: 255, b: 255 }),
            (Rgb { r: 0, g: 255, b: 0 }),
            (Rgb { r: 255, g: 0, b: 255 }),
            (Rgb { r: 0, g: 0, b: 255 }),
            (Rgb { r: 255, g: 128, b: 0 }),
        ],
        c.layers@.len() == 3,
        c.layers@[0].prefix@ == "img/head/head_"@ && c.layers@[0].suffix@ == ".png"@,
        c.layers@[1].prefix@ == "img/torso/torso_"@ && c.layers@[1].suffix@ == ".png"@,
        c.layers@[2].prefix@ == "img/antennas/ants_"@ && c.layers@[2].suffix@ == ".png"@,
        forall|k: int| 0 <= k < 3 ==> (#[trigger] c.layers@[k]).cardinality == 8,
        c.layers@[0].dx == 86 && c.layers@[0].dy == 0,
        c.layers@[1].dx == 86 && c.layers@[1].dy == 86,
        c.layers@[2].dx == 0 && c.layers@[2].dy == 0,
        forall|k: int| 0 <= k < 3 ==> (#[trigger] c.layers@[k]).w == 86 && c.layers@[k].h == 86,
{
    let mut palette: Vec<Rgb> = Vec::new();
    palette.push(Rgb { r: 0, g: 0, b: 0 });
    palette.push(Rgb { r: 255, g: 0, b: 0 });
    palette.push(Rgb { r: 0, g: 255, b: 255 });
    palette.push(Rgb { r: 0, g: 255, b: 0 });
    palette.push(Rgb { r: 255, g: 0, b: 255 });
    palette.push(Rgb { r: 0, g: 0, b: 255 });
    palette.push(Rgb { r: 255, g: 128, b: 0 });
    let mut layers: Vec<LayerConfig> = Vec::new();
    layers.push(
        LayerConfig {
            prefix: "img/head/head_".to_owned(),
            suffix: ".png".to_owned(),
            cardinality: 8,
            dx: 86,
            dy: 0,
            w: 86,
            h: 86,
        },
    );
    layers.push(
        LayerConfig {
            prefix: "img/torso/torso_".to_owned(),
            suffix: ".png".to_owned(),
            cardinality: 8,
            dx: 86,
            dy: 86,
            w: 86,
            h: 86,
        },
    );
    layers.push(
        LayerConfig {
            prefix: "img/antennas/ants_".to_owned(),
            suffix: ".png".to_owned(),
            cardinality: 8,
            dx: 0,
            dy: 0,
            w: 86,
            h: 86,
        },
    );
    let c = Config {
        palette,
        layers,
        width: 256,
        height: 256,
        sentinel: Rgb { r: 255, g: 255, b: 255 },
        wm_dx: 86,
        wm_dy: 170,
        wm_w: 80,
        wm_h: 50,
        start: 0,
        bound: 256,
    };
    proof {
        assert(c.palette@ =~= seq![
            (Rgb { r: 0, g: 0, b: 0 }),
            (Rgb { r: 255, g: 0, b: 0 }),
            (Rgb { r: 0, g: 255, b: 255 }),
            (Rgb { r: 0, g: 255, b: 0 }),
            (Rgb { r: 255, g: 0, b: 255 }),
            (Rgb { r: 0, g: 0, b: 255 }),
            (Rgb { r: 255, g: 128, b: 0 }),
        ]);
        assert forall|k: int| 0 <= k < c.layers@.len() implies (#[trigger] c.layers@[k]).wf_for(
            c.width,
            c.height,
        ) by {
        }
    }
    c
}

} // verus!
