use vstd::prelude::*;
use vstd::arithmetic::div_mod::{
    lemma_fundamental_div_mod, lemma_fundamental_div_mod_converse, lemma_mod_pos_bound,
};
use crate::color::Rgb;

verus! {

// A canvas is a row-major pixel buffer with four 8-bit channels per pixel
// (red, green, blue, alpha in that channel order) and a row stride `pitch`
// that may exceed `4 * width`; the bytes of a row past its pixels are
// padding and are never touched. A byte offset `i` therefore decodes into
// a row `i / pitch`, a pixel column `(i % pitch) / 4` and a channel
// `(i % pitch) % 4`.

/// The row that byte offset `i` lies in, for row stride `pitch`.
pub open spec fn row_of(pitch: int, i: int) -> int {
    i / pitch
}

/// The pixel column that byte offset `i` lies in.
pub open spec fn col_of(pitch: int, i: int) -> int {
    (i % pitch) / 4
}

/// The channel (0 red, 1 green, 2 blue, 3 alpha) of byte offset `i`.
pub open spec fn chan_of(pitch: int, i: int) -> int {
    (i % pitch) % 4
}

/// A byte offset built from a row, a column and a channel decodes back to
/// exactly that row, column and channel.
pub proof fn lemma_offset_decode(pitch: int, row: int, col: int, chan: int)
    requires
        0 < pitch,
        0 <= row,
        0 <= col,
        0 <= chan < 4,
        4 * col + chan < pitch,
    ensures
        row_of(pitch, row * pitch + 4 * col + chan) == row,
        col_of(pitch, row * pitch + 4 * col + chan) == col,
        chan_of(pitch, row * pitch + 4 * col + chan) == chan,
{
    let i = row * pitch + 4 * col + chan;
    let rem = 4 * col + chan;
    lemma_fundamental_div_mod_converse(i, pitch, row, rem);
    lemma_fundamental_div_mod_converse(rem, 4, col, chan);
}

/// Every offset within a buffer of `height` rows decodes to an in-bounds
/// row, a nonnegative column and a channel below four, and the decoded
/// parts recombine to the offset itself.
pub proof fn lemma_offset_encode(pitch: int, height: int, i: int)
    requires
        0 < pitch,
        0 <= height,
        0 <= i < pitch * height,
    ensures
        0 <= row_of(pitch, i) < height,
        0 <= col_of(pitch, i),
        0 <= chan_of(pitch, i) < 4,
        4 * col_of(pitch, i) + chan_of(pitch, i) == i % pitch < pitch,
        i == row_of(pitch, i) * pitch + 4 * col_of(pitch, i) + chan_of(pitch, i),
{
    lemma_fundamental_div_mod(i, pitch);
    lemma_mod_pos_bound(i, pitch);
    lemma_fundamental_div_mod(i % pitch, 4);
    lemma_mod_pos_bound(i % pitch, 4);
    assert(i == pitch * row_of(pitch, i) + i % pitch);
    assert(i % pitch == 4 * col_of(pitch, i) + chan_of(pitch, i));
    vstd::arithmetic::mul::lemma_mul_is_commutative(pitch, row_of(pitch, i));
    let row = row_of(pitch, i);
    assert(0 <= row) by (nonlinear_arith)
        requires
            0 < pitch,
            i == pitch * row + i % pitch,
            0 <= i % pitch < pitch,
            0 <= i,
    ;
    assert(row < height) by (nonlinear_arith)
        requires
            0 < pitch,
            i == pitch * row + i % pitch,
            0 <= i % pitch,
            i < pitch * height,
            0 <= row,
    ;
}

/// The byte of channel `chan` of the pixel at column `col` of row `row`
/// lies within a buffer of `height` rows of `pitch` bytes, provided a row
/// holds at least `width` pixels.
pub proof fn lemma_offset_in_bounds(
    pitch: int,
    width: int,
    height: int,
    row: int,
    col: int,
    chan: int,
)
    by (nonlinear_arith)
    requires
        4 * width <= pitch,
        0 <= row < height,
        0 <= col < width,
        0 <= chan < 4,
    ensures
        0 <= row * pitch + 4 * col + chan < pitch * height,
        4 * col + chan < pitch,
{
}

/// A row-major four-channel pixel buffer with an explicit row stride.
pub struct Canvas {
    pub width: usize,
    pub height: usize,
    pub pitch: usize,
    pub data: Vec<u8>,
}

impl Canvas {
    /// The buffer is consistent: each row's stride covers its pixels, and
    /// the data holds exactly `height` rows of `pitch` bytes.
    pub open spec fn wf(self) -> bool {
        &&& 1 <= self.width
        &&& 4 * self.width <= self.pitch
        &&& self.data@.len() == self.pitch * self.height
    }

    /// The start offset of the pixel at column `col` of row `row`.
    pub open spec fn pix(self, col: int, row: int) -> int {
        row * self.pitch + 4 * col
    }

    /// Whether (`col`, `row`) names a pixel of this canvas.
    pub open spec fn in_range(self, col: int, row: int) -> bool {
        0 <= col < self.width && 0 <= row < self.height
    }

    /// An all-zero canvas with a tight stride of `4 * width` bytes.
    pub fn new(width: usize, height: usize) -> (c: Canvas)
        requires
            1 <= width,
            1 <= height,
            4 * width * height <= usize::MAX,
        ensures
            c.wf(),
            c.width == width,
            c.height == height,
            c.pitch == 4 * width,
            c.data@ == Seq::new((4 * width * height) as nat, |i: int| 0u8),
    {
        proof {
            assert(4 * width <= 4 * width * height && (4 * width) * height == 4 * width * height)
                by (nonlinear_arith)
                requires
                    1 <= width,
                    1 <= height,
            ;
        }
        let pitch: usize = 4 * width;
        let n: usize = pitch * height;
        let mut data: Vec<u8> = Vec::new();
        let mut i: usize = 0;
        while i < n
            invariant
                i <= n,
                data@.len() == i,
                forall|j: int| 0 <= j < i ==> data@[j] == 0u8,
            decreases n - i,
        {
            data.push(0u8);
            i = i + 1;
        }
        let c = Canvas { width, height, pitch, data };
        proof {
            assert(c.data@ =~= Seq::new((4 * width * height) as nat, |i: int| 0u8));
        }
        c
    }
}

/// The byte at offset `i` after every pixel is overwritten with `color`
/// (alpha set to 255); row padding keeps its old byte.
pub open spec fn fill_byte(data: Seq<u8>, pitch: int, width: int, color: Rgb, i: int) -> u8 {
    if col_of(pitch, i) < width {
        let chan = chan_of(pitch, i);
        if chan == 0 {
            color.r
        } else if chan == 1 {
            color.g
        } else if chan == 2 {
            color.b
        } else {
            255u8
        }
    } else {
        data[i]
    }
}

/// The whole buffer after a flat fill with `color`.
pub open spec fn fill_spec(data: Seq<u8>, pitch: int, width: int, color: Rgb) -> Seq<u8> {
    Seq::new(data.len(), |i: int| fill_byte(data, pitch, width, color, i))
}

impl Canvas {
    /// Overwrite every pixel with the flat color `color` (full overwrite,
    /// not a blend); every alpha channel becomes 255.
    #[verifier::loop_isolation(false)]
    pub fn fill(&mut self, color: Rgb)
        requires
            old(self).wf(),
        ensures
            final(self).wf(),
            final(self).width == old(self).width,
            final(self).height == old(self).height,
            final(self).pitch == old(self).pitch,
            final(self).data@ == fill_spec(
                old(self).data@,
                old(self).pitch as int,
                old(self).width as int,
                color,
            ),
    {
        let len = self.data.len();
        let mut out: Vec<u8> = Vec::new();
        let mut i: usize = 0;
        while i < len
            invariant
                i <= len,
                out@.len() == i,
                forall|j: int| 0 <= j < i ==> out@[j] == fill_byte(
                    self.data@,
                    self.pitch as int,
                    self.width as int,
                    color,
                    j,
                ),
            decreases len - i,
        {
            let rem = i % self.pitch;
            let col = rem / 4;
            let chan = rem % 4;
            let byte: u8 = if col < self.width {
                if chan == 0 {
                    color.r
                } else if chan == 1 {
                    color.g
                } else if chan == 2 {
                    color.b
                } else {
                    255u8
                }
            } else {
                self.data[i]
            };
            out.push(byte);
            i = i + 1;
        }
        proof {
            assert(out@ =~= fill_spec(
                self.data@,
                self.pitch as int,
                self.width as int,
                color,
            ));
        }
        self.data = out;
    }
}

/// A tightly packed four-channel image: `4 * width * height` bytes,
/// row-major, with no row padding.
pub struct Image {
    pub width: usize,
    pub height: usize,
    pub data: Vec<u8>,
}

impl Image {
    /// The byte count matches the dimensions exactly.
    pub open spec fn wf(self) -> bool {
        self.data@.len() == 4 * self.width * self.height
    }

    /// The byte of channel `chan` of the pixel at column `col` of row `row`.
    pub open spec fn at(self, col: int, row: int, chan: int) -> u8 {
        self.data@[row * (4 * self.width) + 4 * col + chan]
    }

    /// Build an image from raw bytes; returns the image exactly when the
    /// byte count matches the dimensions, and nothing otherwise.
    pub fn from_bytes(width: usize, height: usize, data: Vec<u8>) -> (r: Option<Image>)
        ensures
            match r {
                Some(img) => {
                    &&& img.wf()
                    &&& img.width == width
                    &&& img.height == height
                    &&& img.data == data
                    &&& data@.len() == 4 * width * height
                },
                None => data@.len() != 4 * width * height,
            },
    {
        let n = data.len();
        if width == 0 || height == 0 {
            proof {
                assert(4 * width * height == 0) by (nonlinear_arith)
                    requires
                        width == 0 || height == 0,
                ;
            }
            if data.len() == 0 {
                return Some(Image { width, height, data });
            }
            return None;
        }
        let pixels = match width.checked_mul(height) {
            Some(p) => p,
            None => {
                proof {
                    assert(width * height <= 4 * width * height) by (nonlinear_arith)
                        requires
                            1 <= width && 1 <= height,
                    ;
                    assert(n <= usize::MAX);
                }
                return None;
            },
        };
        let total = match pixels.checked_mul(4) {
            Some(t) => t,
            None => {
                proof {
                    assert((width * height) * 4 == 4 * width * height) by (nonlinear_arith);
                    assert(n <= usize::MAX);
                }
                return None;
            },
        };
        proof {
            assert((width * height) * 4 == 4 * width * height) by (nonlinear_arith);
        }
        if data.len() == total {
            Some(Image { width, height, data })
        } else {
            None
        }
    }
}

/// The byte at offset `i` after the image `src` (tightly packed, `sw` by
/// `sh` pixels) is drawn with its top-left pixel at column `dx`, row `dy`:
/// inside the destination rectangle every channel comes from `src`, and
/// every other byte keeps its old value.
pub open spec fn blit_byte(
    data: Seq<u8>,
    pitch: int,
    src: Seq<u8>,
    sw: int,
    sh: int,
    dx: int,
    dy: int,
    i: int,
) -> u8 {
    let row = row_of(pitch, i);
    let col = col_of(pitch, i);
    let chan = chan_of(pitch, i);
    if dx <= col < dx + sw && dy <= row < dy + sh {
        src[(row - dy) * (4 * sw) + 4 * (col - dx) + chan]
    } else {
        data[i]
    }
}

/// The whole buffer after drawing `src` at (`dx`, `dy`).
pub open spec fn blit_spec(
    data: Seq<u8>,
    pitch: int,
    src: Seq<u8>,
    sw: int,
    sh: int,
    dx: int,
    dy: int,
) -> Seq<u8> {
    Seq::new(data.len(), |i: int| blit_byte(data, pitch, src, sw, sh, dx, dy, i))
}

impl Canvas {
    /// Draw `src` with its top-left pixel at column `dx`, row `dy`,
    /// overwriting every channel of every covered pixel (painter's
    /// algorithm: the later drawing always wins).
    #[verifier::loop_isolation(false)]
    pub fn blit(&mut self, src: &Image, dx: usize, dy: usize)
        requires
            old(self).wf(),
            src.wf(),
            dx + src.width <= old(self).width,
            dy + src.height <= old(self).height,
        ensures
            final(self).wf(),
            final(self).width == old(self).width,
            final(self).height == old(self).height,
            final(self).pitch == old(self).pitch,
            final(self).data@ == blit_spec(
                old(self).data@,
                old(self).pitch as int,
                src.data@,
                src.width as int,
                src.height as int,
                dx as int,
                dy as int,
            ),
    {
        let len = self.data.len();
        let slen = src.data.len();
        let mut out: Vec<u8> = Vec::new();
        let mut i: usize = 0;
        while i < len
            invariant
                i <= len,
                slen == src.data@.len(),
                out@.len() == i,
                forall|j: int| 0 <= j < i ==> out@[j] == blit_byte(
                    self.data@,
                    self.pitch as int,
                    src.data@,
                    src.width as int,
                    src.height as int,
                    dx as int,
                    dy as int,
                    j,
                ),
            decreases len - i,
        {
            proof {
                lemma_offset_encode(self.pitch as int, self.height as int, i as int);
            }
            let row = i / self.pitch;
            let rem = i % self.pitch;
            let col = rem / 4;
            let chan = rem % 4;
            let byte: u8 = if dx <= col && col < dx + src.width && dy <= row && row < dy
                + src.height {
                proof {
                    assert((row - dy) * (4 * src.width) + 4 * (col - dx) + chan < 4 * src.width
                        * src.height && 0 <= (row - dy) * (4 * src.width) && 4 * src.width <= 4
                        * src.width * src.height) by (nonlinear_arith)
                        requires
                            0 <= row - dy < src.height,
                            0 <= col - dx < src.width,
                            0 <= chan < 4,
                    ;
                }
                src.data[(row - dy) * (4 * src.width) + 4 * (col - dx) + chan]
            } else {
                self.data[i]
            };
            out.push(byte);
            i = i + 1;
        }
        proof {
            assert(out@ =~= blit_spec(
                self.data@,
                self.pitch as int,
                src.data@,
                src.width as int,
                src.height as int,
                dx as int,
                dy as int,
            ));
        }
        self.data = out;
    }
}

/// True when the three color channels starting at byte offset `off`
/// match `sent` exactly (the alpha channel is not compared).
pub open spec fn sentinel_at(data: Seq<u8>, off: int, sent: Rgb) -> bool {
    &&& data[off] == sent.r
    &&& data[off + 1] == sent.g
    &&& data[off + 2] == sent.b
}

/// The byte at offset `i` after the recolor pass: within a pixel whose
/// color channels match `sent` exactly, each color channel becomes the
/// matching channel of the complement of `bg`; every other byte — other
/// pixels, every alpha channel, row padding — keeps its old value.
pub open spec fn recolored_byte(
    data: Seq<u8>,
    pitch: int,
    width: int,
    sent: Rgb,
    bg: Rgb,
    i: int,
) -> u8 {
    let col = col_of(pitch, i);
    let chan = chan_of(pitch, i);
    let off = i - chan;
    if col < width && chan < 3 && sentinel_at(data, off, sent) {
        if chan == 0 {
            (255 - bg.r) as u8
        } else if chan == 1 {
            (255 - bg.g) as u8
        } else {
            (255 - bg.b) as u8
        }
    } else {
        data[i]
    }
}

/// The whole buffer after the recolor pass.
pub open spec fn recolor_spec(data: Seq<u8>, pitch: int, width: int, sent: Rgb, bg: Rgb) -> Seq<
    u8,
> {
    Seq::new(data.len(), |i: int| recolored_byte(data, pitch, width, sent, bg, i))
}

impl Canvas {
    /// Replace every pixel whose color channels equal `sent` exactly with
    /// the component-wise complement of `bg`; leave every other pixel,
    /// every alpha channel and all row padding untouched.
    #[verifier::loop_isolation(false)]
    pub fn recolor(&mut self, sent: Rgb, bg: Rgb)
        requires
            old(self).wf(),
        ensures
            final(self).wf(),
            final(self).width == old(self).width,
            final(self).height == old(self).height,
            final(self).pitch == old(self).pitch,
            final(self).data@ == recolor_spec(
                old(self).data@,
                old(self).pitch as int,
                old(self).width as int,
                sent,
                bg,
            ),
    {
        let len = self.data.len();
        let mut out: Vec<u8> = Vec::new();
        let mut i: usize = 0;
        while i < len
            invariant
                i <= len,
                out@.len() == i,
                forall|j: int| 0 <= j < i ==> out@[j] == recolored_byte(
                    self.data@,
                    self.pitch as int,
                    self.width as int,
                    sent,
                    bg,
                    j,
                ),
            decreases len - i,
        {
            proof {
                lemma_offset_encode(self.pitch as int, self.height as int, i as int);
                vstd::arithmetic::mul::lemma_mul_nonnegative(
                    row_of(self.pitch as int, i as int),
                    self.pitch as int,
                );
            }
            let rem = i % self.pitch;
            let col = rem / 4;
            let chan = rem % 4;
            let byte: u8 = if col < self.width && chan < 3 {
                proof {
                    lemma_offset_in_bounds(
                        self.pitch as int,
                        self.width as int,
                        self.height as int,
                        row_of(self.pitch as int, i as int),
                        col as int,
                        3,
                    );
                }
                let off = i - chan;
                if self.data[off] == sent.r && self.data[off + 1] == sent.g && self.data[off + 2]
                    == sent.b {
                    if chan == 0 {
                        255 - bg.r
                    } else if chan == 1 {
                        255 - bg.g
                    } else {
                        255 - bg.b
                    }
                } else {
                    self.data[i]
                }
            } else {
                self.data[i]
            };
            out.push(byte);
            i = i + 1;
        }
        proof {
            assert(out@ =~= recolor_spec(
                self.data@,
                self.pitch as int,
                self.width as int,
                sent,
                bg,
            ));
        }
        self.data = out;
    }
}

/// The byte of channel `chan` of the pixel at (`col`, `row`) lies in
/// bounds and decodes back to that row, column and channel.
proof fn lemma_pixel_byte(pitch: int, width: int, height: int, col: int, row: int, chan: int)
    requires
        4 * width <= pitch,
        0 <= col < width,
        0 <= row < height,
        0 <= chan < 4,
    ensures
        0 <= row * pitch + 4 * col + chan < pitch * height,
        row_of(pitch, row * pitch + 4 * col + chan) == row,
        col_of(pitch, row * pitch + 4 * col + chan) == col,
        chan_of(pitch, row * pitch + 4 * col + chan) == chan,
{
    lemma_offset_in_bounds(pitch, width, height, row, col, chan);
    lemma_offset_decode(pitch, row, col, chan);
}

/// Recolor locality: a pixel whose color channels do not all match the
/// sentinel keeps every one of its four bytes, exactly.
pub proof fn lemma_recolor_local(
    data: Seq<u8>,
    pitch: int,
    width: int,
    height: int,
    sent: Rgb,
    bg: Rgb,
    col: int,
    row: int,
)
    requires
        1 <= width,
        4 * width <= pitch,
        0 <= height,
        data.len() == pitch * height,
        0 <= col < width,
        0 <= row < height,
        !sentinel_at(data, row * pitch + 4 * col, sent),
    ensures
        recolor_spec(data, pitch, width, sent, bg)[row * pitch + 4 * col] == data[row * pitch + 4
            * col],
        recolor_spec(data, pitch, width, sent, bg)[row * pitch + 4 * col + 1] == data[row * pitch
            + 4 * col + 1],
        recolor_spec(data, pitch, width, sent, bg)[row * pitch + 4 * col + 2] == data[row * pitch
            + 4 * col + 2],
        recolor_spec(data, pitch, width, sent, bg)[row * pitch + 4 * col + 3] == data[row * pitch
            + 4 * col + 3],
{
    lemma_pixel_byte(pitch, width, height, col, row, 0);
    lemma_pixel_byte(pitch, width, height, col, row, 1);
    lemma_pixel_byte(pitch, width, height, col, row, 2);
    lemma_pixel_byte(pitch, width, height, col, row, 3);
}

/// Recolor on a matching pixel: the three color channels become the
/// component-wise complement of the background, and the alpha byte keeps
/// its old value.
pub proof fn lemma_recolor_sentinel(
    data: Seq<u8>,
    pitch: int,
    width: int,
    height: int,
    sent: Rgb,
    bg: Rgb,
    col: int,
    row: int,
)
    requires
        1 <= width,
        4 * width <= pitch,
        0 <= height,
        data.len() == pitch * height,
        0 <= col < width,
        0 <= row < height,
        sentinel_at(data, row * pitch + 4 * col, sent),
    ensures
        recolor_spec(data, pitch, width, sent, bg)[row * pitch + 4 * col]
            == bg.complement_spec().r,
        recolor_spec(data, pitch, width, sent, bg)[row * pitch + 4 * col + 1]
            == bg.complement_spec().g,
        recolor_spec(data, pitch, width, sent, bg)[row * pitch + 4 * col + 2]
            == bg.complement_spec().b,
        recolor_spec(data, pitch, width, sent, bg)[row * pitch + 4 * col + 3] == data[row * pitch
            + 4 * col + 3],
{
    lemma_pixel_byte(pitch, width, height, col, row, 0);
    lemma_pixel_byte(pitch, width, height, col, row, 1);
    lemma_pixel_byte(pitch, width, height, col, row, 2);
    lemma_pixel_byte(pitch, width, height, col, row, 3);
}

/// Recoloring is idempotent: a second pass returns the buffer of the
/// first pass unchanged. A recolored pixel either no longer matches the
/// sentinel, or — when the complement of the background is itself the
/// sentinel — is replaced by that same complement again.
pub proof fn lemma_recolor_idempotent(
    data: Seq<u8>,
    pitch: int,
    width: int,
    height: int,
    sent: Rgb,
    bg: Rgb,
)
    requires
        1 <= width,
        4 * width <= pitch,
        0 <= height,
        data.len() == pitch * height,
    ensures
        recolor_spec(recolor_spec(data, pitch, width, sent, bg), pitch, width, sent, bg)
            == recolor_spec(data, pitch, width, sent, bg),
{
    let d1 = recolor_spec(data, pitch, width, sent, bg);
    let d2 = recolor_spec(d1, pitch, width, sent, bg);
    assert forall|i: int| 0 <= i < d1.len() implies d2[i] == d1[i] by {
        lemma_offset_encode(pitch, height, i);
        let row = row_of(pitch, i);
        let col = col_of(pitch, i);
        let chan = chan_of(pitch, i);
        if col < width && chan < 3 {
            let off = row * pitch + 4 * col;
            assert(off == i - chan);
            lemma_pixel_byte(pitch, width, height, col, row, 0);
            lemma_pixel_byte(pitch, width, height, col, row, 1);
            lemma_pixel_byte(pitch, width, height, col, row, 2);
            assert(d1[off] == recolored_byte(data, pitch, width, sent, bg, off));
            assert(d1[off + 1] == recolored_byte(data, pitch, width, sent, bg, off + 1));
            assert(d1[off + 2] == recolored_byte(data, pitch, width, sent, bg, off + 2));
        }
    }
    assert(d2 =~= d1);
}

/// Painter's algorithm, last write wins: after drawing image `a` and then
/// image `b`, every pixel inside `b`'s rectangle shows `b`'s bytes alone,
/// also where the two rectangles overlap.
pub proof fn lemma_blit_last_write_wins(
    data: Seq<u8>,
    pitch: int,
    width: int,
    height: int,
    a: Seq<u8>,
    aw: int,
    ah: int,
    ax: int,
    ay: int,
    b: Seq<u8>,
    bw: int,
    bh: int,
    bx: int,
    by0: int,
    col: int,
    row: int,
)
    requires
        1 <= width,
        4 * width <= pitch,
        0 <= height,
        data.len() == pitch * height,
        0 <= bx && bx + bw <= width,
        0 <= by0 && by0 + bh <= height,
        bx <= col < bx + bw,
        by0 <= row < by0 + bh,
    ensures
        blit_spec(blit_spec(data, pitch, a, aw, ah, ax, ay), pitch, b, bw, bh, bx, by0)[row * pitch
            + 4 * col] == b[(row - by0) * (4 * bw) + 4 * (col - bx)],
        blit_spec(blit_spec(data, pitch, a, aw, ah, ax, ay), pitch, b, bw, bh, bx, by0)[row * pitch
            + 4 * col + 1] == b[(row - by0) * (4 * bw) + 4 * (col - bx) + 1],
        blit_spec(blit_spec(data, pitch, a, aw, ah, ax, ay), pitch, b, bw, bh, bx, by0)[row * pitch
            + 4 * col + 2] == b[(row - by0) * (4 * bw) + 4 * (col - bx) + 2],
        blit_spec(blit_spec(data, pitch, a, aw, ah, ax, ay), pitch, b, bw, bh, bx, by0)[row * pitch
            + 4 * col + 3] == b[(row - by0) * (4 * bw) + 4 * (col - bx) + 3],
{
    lemma_pixel_byte(pitch, width, height, col, row, 0);
    lemma_pixel_byte(pitch, width, height, col, row, 1);
    lemma_pixel_byte(pitch, width, height, col, row, 2);
    lemma_pixel_byte(pitch, width, height, col, row, 3);
}

} // verus!
