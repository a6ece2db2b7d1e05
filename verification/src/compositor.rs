use vstd::prelude::*;
use crate::canvas::{
    blit_spec, fill_spec, lemma_offset_decode, lemma_offset_in_bounds, Canvas, Image,
};
use crate::catalog::{Config, LayerConfig};
use crate::sampler::AttributeSample;

verus! {

/// Whether the fixed rectangle of layer `l` covers the pixel at
/// (`col`, `row`).
pub open spec fn covers(l: LayerConfig, col: int, row: int) -> bool {
    &&& l.dx <= col < l.dx + l.w
    &&& l.dy <= row < l.dy + l.h
}

/// The buffer after the first `n` layer images have been drawn over
/// `data`, each at its category's fixed rectangle, in declared order.
pub open spec fn layers_spec(
    data: Seq<u8>,
    pitch: int,
    layers: Seq<LayerConfig>,
    images: Seq<Seq<u8>>,
    n: int,
) -> Seq<u8>
    decreases n,
{
    if n <= 0 {
        data
    } else {
        blit_spec(
            layers_spec(data, pitch, layers, images, n - 1),
            pitch,
            images[n - 1],
            layers[n - 1].w as int,
            layers[n - 1].h as int,
            layers[n - 1].dx as int,
            layers[n - 1].dy as int,
        )
    }
}

/// The composed buffer of one item: a fresh canvas with a tight stride,
/// filled with the sampled background color, with every layer image drawn
/// over it in declared order.
pub open spec fn compose_spec(config: Config, s: AttributeSample, images: Seq<Seq<u8>>) -> Seq<
    u8,
> {
    let blank = Seq::new((4 * config.width * config.height) as nat, |i: int| 0u8);
    let filled = fill_spec(
        blank,
        4 * config.width as int,
        config.width as int,
        config.palette@[s.background as int],
    );
    layers_spec(filled, 4 * config.width as int, config.layers@, images, config.layers@.len() as int)
}

/// Compose one item: fill the whole canvas with the sampled background
/// color (full overwrite, not a blend), then draw each category's
/// resolved image at that category's fixed rectangle, in the declared
/// z-order — later layers draw over earlier ones unconditionally.
#[verifier::loop_isolation(false)]
pub fn compose(config: &Config, s: &AttributeSample, images: &Vec<Image>) -> (c: Canvas)
    requires
        config.wf(),
        s.valid_for(*config),
        images@.len() == config.layers@.len(),
        forall|k: int|
            0 <= k < images@.len() ==> (#[trigger] images@[k]).wf() && images@[k].width
                == config.layers@[k].w && images@[k].height == config.layers@[k].h,
    ensures
        c.wf(),
        c.width == config.width,
        c.height == config.height,
        c.pitch == 4 * config.width,
        c.data@ == compose_spec(*config, *s, images@.map_values(|img: Image| img.data@)),
{
    let ghost image_data = images@.map_values(|img: Image| img.data@);
    let mut c = Canvas::new(config.width, config.height);
    c.fill(config.palette[s.background]);
    let mut k: usize = 0;
    while k < images.len()
        invariant
            k <= images@.len(),
            c.wf(),
            c.width == config.width,
            c.height == config.height,
            c.pitch == 4 * config.width,
            c.data@ == layers_spec(
                fill_spec(
                    Seq::new((4 * config.width * config.height) as nat, |i: int| 0u8),
                    4 * config.width as int,
                    config.width as int,
                    config.palette@[s.background as int],
                ),
                4 * config.width as int,
                config.layers@,
                image_data,
                k as int,
            ),
        decreases images@.len() - k,
    {
        let layer = &config.layers[k];
        c.blit(&images[k], layer.dx, layer.dy);
        k = k + 1;
    }
    c
}

/// A byte of a pixel that none of the first `n` layer rectangles covers
/// comes through the layer drawings unchanged.
proof fn lemma_layers_spec_uncovered(
    data: Seq<u8>,
    pitch: int,
    width: int,
    height: int,
    layers: Seq<LayerConfig>,
    images: Seq<Seq<u8>>,
    n: int,
    col: int,
    row: int,
    chan: int,
)
    requires
        1 <= width,
        4 * width <= pitch,
        0 <= height,
        data.len() == pitch * height,
        0 <= col < width,
        0 <= row < height,
        0 <= chan < 4,
        0 <= n <= layers.len(),
        forall|k: int| 0 <= k < n ==> !covers(#[trigger] layers[k], col, row),
    ensures
        layers_spec(data, pitch, layers, images, n).len() == data.len(),
        layers_spec(data, pitch, layers, images, n)[row * pitch + 4 * col + chan] == data[row
            * pitch + 4 * col + chan],
    decreases n,
{
    if n > 0 {
        lemma_layers_spec_uncovered(
            data,
            pitch,
            width,
            height,
            layers,
            images,
            n - 1,
            col,
            row,
            chan,
        );
        lemma_offset_in_bounds(pitch, width, height, row, col, chan);
        lemma_offset_decode(pitch, row, col, chan);
        assert(!covers(layers[n - 1], col, row));
    }
}

/// Drawing the layers never changes a buffer's length.
proof fn lemma_layers_spec_len(
    data: Seq<u8>,
    pitch: int,
    layers: Seq<LayerConfig>,
    images: Seq<Seq<u8>>,
    n: int,
)
    ensures
        layers_spec(data, pitch, layers, images, n).len() == data.len(),
    decreases n,
{
    if n > 0 {
        lemma_layers_spec_len(data, pitch, layers, images, n - 1);
    }
}

/// A byte of a pixel that layer `k`'s rectangle covers, and that no later
/// layer's rectangle covers, comes from layer `k`'s image after the first
/// `n` layers are drawn.
proof fn lemma_layers_spec_visible(
    data: Seq<u8>,
    pitch: int,
    width: int,
    height: int,
    layers: Seq<LayerConfig>,
    images: Seq<Seq<u8>>,
    n: int,
    k: int,
    col: int,
    row: int,
    chan: int,
)
    requires
        1 <= width,
        4 * width <= pitch,
        0 <= height,
        data.len() == pitch * height,
        0 <= col < width,
        0 <= row < height,
        0 <= chan < 4,
        0 <= k < n <= layers.len(),
        covers(layers[k], col, row),
        forall|j: int| k < j < n ==> !covers(#[trigger] layers[j], col, row),
    ensures
        layers_spec(data, pitch, layers, images, n)[row * pitch + 4 * col + chan] == images[k][(row
            - layers[k].dy) * (4 * layers[k].w) + 4 * (col - layers[k].dx) + chan],
    decreases n,
{
    lemma_offset_in_bounds(pitch, width, height, row, col, chan);
    lemma_offset_decode(pitch, row, col, chan);
    lemma_layers_spec_len(data, pitch, layers, images, n - 1);
    if n - 1 > k {
        lemma_layers_spec_visible(
            data,
            pitch,
            width,
            height,
            layers,
            images,
            n - 1,
            k,
            col,
            row,
            chan,
        );
        assert(!covers(layers[n - 1], col, row));
    }
}

/// Layer visibility in a composed item: a pixel that layer `k`'s fixed
/// rectangle covers, and that no later layer's rectangle covers, shows
/// layer `k`'s image bytes — the painter's algorithm, stated for the
/// whole compositor.
pub proof fn lemma_compose_layer_visible(
    config: Config,
    s: AttributeSample,
    images: Seq<Seq<u8>>,
    k: int,
    col: int,
    row: int,
)
    requires
        config.wf(),
        s.valid_for(config),
        0 <= k < config.layers@.len(),
        0 <= col < config.width,
        0 <= row < config.height,
        covers(config.layers@[k], col, row),
        forall|j: int|
            k < j < config.layers@.len() ==> !covers(#[trigger] config.layers@[j], col, row),
    ensures
        forall|chan: int|
            0 <= chan < 4 ==> #[trigger] compose_spec(config, s, images)[row * (4 * config.width)
                + 4 * col + chan] == images[k][(row - config.layers@[k].dy) * (4
                * config.layers@[k].w) + 4 * (col - config.layers@[k].dx) + chan],
{
    let pitch = 4 * config.width as int;
    let width = config.width as int;
    let height = config.height as int;
    let blank = Seq::new((4 * config.width * config.height) as nat, |i: int| 0u8);
    let filled = fill_spec(blank, pitch, width, config.palette@[s.background as int]);
    let nlayers = config.layers@.len() as int;
    assert((4 * config.width) * config.height == 4 * config.width * config.height)
        by (nonlinear_arith);
    assert forall|chan: int|
        0 <= chan < 4 implies #[trigger] compose_spec(config, s, images)[row * (4 * config.width)
        + 4 * col + chan] == images[k][(row - config.layers@[k].dy) * (4 * config.layers@[k].w) + 4
        * (col - config.layers@[k].dx) + chan] by {
        lemma_layers_spec_visible(
            filled,
            pitch,
            width,
            height,
            config.layers@,
            images,
            nlayers,
            k,
            col,
            row,
            chan,
        );
    }
}

/// Background visibility: a pixel that no layer rectangle covers shows
/// exactly the sampled background color, with alpha 255, in the composed
/// item.
pub proof fn lemma_compose_background(
    config: Config,
    s: AttributeSample,
    images: Seq<Seq<u8>>,
    col: int,
    row: int,
)
    requires
        config.wf(),
        s.valid_for(config),
        0 <= col < config.width,
        0 <= row < config.height,
        forall|k: int|
            0 <= k < config.layers@.len() ==> !covers(#[trigger] config.layers@[k], col, row),
    ensures
        compose_spec(config, s, images)[row * (4 * config.width) + 4 * col]
            == config.palette@[s.background as int].r,
        compose_spec(config, s, images)[row * (4 * config.width) + 4 * col + 1]
            == config.palette@[s.background as int].g,
        compose_spec(config, s, images)[row * (4 * config.width) + 4 * col + 2]
            == config.palette@[s.background as int].b,
        compose_spec(config, s, images)[row * (4 * config.width) + 4 * col + 3] == 255,
{
    let pitch = 4 * config.width as int;
    let width = config.width as int;
    let height = config.height as int;
    let blank = Seq::new((4 * config.width * config.height) as nat, |i: int| 0u8);
    let filled = fill_spec(blank, pitch, width, config.palette@[s.background as int]);
    assert((4 * config.width) * config.height == 4 * config.width * config.height)
        by (nonlinear_arith);
    let nlayers = config.layers@.len() as int;
    lemma_offset_in_bounds(pitch, width, height, row, col, 0);
    lemma_offset_decode(pitch, row, col, 0);
    lemma_layers_spec_uncovered(
        filled, pitch, width, height, config.layers@, images, nlayers, col, row, 0,
    );
    lemma_offset_in_bounds(pitch, width, height, row, col, 1);
    lemma_offset_decode(pitch, row, col, 1);
    lemma_layers_spec_uncovered(
        filled, pitch, width, height, config.layers@, images, nlayers, col, row, 1,
    );
    lemma_offset_in_bounds(pitch, width, height, row, col, 2);
    lemma_offset_decode(pitch, row, col, 2);
    lemma_layers_spec_uncovered(
        filled, pitch, width, height, config.layers@, images, nlayers, col, row, 2,
    );
    lemma_offset_in_bounds(pitch, width, height, row, col, 3);
    lemma_offset_decode(pitch, row, col, 3);
    lemma_layers_spec_uncovered(
        filled, pitch, width, height, config.layers@, images, nlayers, col, row, 3,
    );
}

/// The byte that a flat fill with `color` writes at channel `chan`.
pub open spec fn fill_byte_value(color: crate::color::Rgb, chan: int) -> u8 {
    if chan == 0 {
        color.r
    } else if chan == 1 {
        color.g
    } else if chan == 2 {
        color.b
    } else {
        255u8
    }
}

/// Overlay the watermark glyph at the configured reserved rectangle,
/// overwriting whatever layer pixels are there.
pub fn stamp(c: &mut Canvas, config: &Config, glyph: &Image)
    requires
        old(c).wf(),
        config.wf(),
        glyph.wf(),
        old(c).width == config.width,
        old(c).height == config.height,
        glyph.width == config.wm_w,
        glyph.height == config.wm_h,
    ensures
        final(c).wf(),
        final(c).width == old(c).width,
        final(c).height == old(c).height,
        final(c).pitch == old(c).pitch,
        final(c).data@ == blit_spec(
            old(c).data@,
            old(c).pitch as int,
            glyph.data@,
            config.wm_w as int,
            config.wm_h as int,
            config.wm_dx as int,
            config.wm_dy as int,
        ),
{
    c.blit(glyph, config.wm_dx, config.wm_dy);
}

} // verus!
