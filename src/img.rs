use vstd::prelude::*;

verus! {

/// A configuration that no render can run with.
#[derive(Clone, Copy, Debug, PartialEq, Eq, Structural)]
pub enum ConfigError {
    /// Width or height below two: the jittered image coordinates divide by
    /// `width - 1` and `height - 1`.
    BadResolution,
    /// No samples per pixel: the accumulated colour is divided by their count.
    BadSampleCount,
    /// The output buffer would not fit in memory's address range.
    BufferTooLarge,
}

/// What a render is asked for, besides the scene and the camera.
#[derive(Clone, Copy, Debug, PartialEq, Eq, Structural)]
pub struct RenderSettings {
    pub width: u32,
    pub height: u32,
    pub samples_per_pixel: u32,
    /// The bounce budget of each camera ray.
    pub max_depth: u32,
    /// Whether each pixel carries a fourth, alpha byte.
    pub alpha: bool,
}

impl RenderSettings {
    /// Bytes per pixel.
    pub open spec fn channels_spec(self) -> nat {
        if self.alpha {
            4
        } else {
            3
        }
    }

    /// Bytes of the whole output buffer.
    pub open spec fn buffer_len_spec(self) -> nat {
        self.width as nat * self.height as nat * self.channels_spec()
    }

    pub open spec fn resolution_ok(self) -> bool {
        self.width >= 2 && self.height >= 2
    }

    pub open spec fn valid(self) -> bool {
        &&& self.resolution_ok()
        &&& self.samples_per_pixel > 0
        &&& self.buffer_len_spec() <= usize::MAX
    }

    pub fn channels(&self) -> (r: usize)
        ensures
            r == self.channels_spec(),
    {
        if self.alpha {
            4
        } else {
            3
        }
    }

    /// Checks the settings before any rendering work and gives the length of
    /// the output buffer. Errors are tried in order: resolution, sample
    /// count, buffer size.
    pub fn validate(&self) -> (r: Result<usize, ConfigError>)
        ensures
            r is Ok <==> self.valid(),
            r matches Ok(n) ==> n == self.buffer_len_spec(),
            r == Err::<usize, ConfigError>(ConfigError::BadResolution) <==> !self.resolution_ok(),
            r == Err::<usize, ConfigError>(ConfigError::BadSampleCount) <==> self.resolution_ok()
                && self.samples_per_pixel == 0,
            r == Err::<usize, ConfigError>(ConfigError::BufferTooLarge) <==> self.resolution_ok()
                && self.samples_per_pixel > 0 && self.buffer_len_spec() > usize::MAX,
    {
        if self.width < 2 || self.height < 2 {
            return Err(ConfigError::BadResolution);
        }
        if self.samples_per_pixel == 0 {
            return Err(ConfigError::BadSampleCount);
        }
        let ch = self.channels();
        match (self.width as usize).checked_mul(self.height as usize) {
            Some(px) => match px.checked_mul(ch) {
                Some(n) => Ok(n),
                None => {
                    assert(self.buffer_len_spec() > usize::MAX) by (nonlinear_arith)
                        requires
                            px == self.width as nat * self.height as nat,
                            px * ch > usize::MAX,
                            ch == self.channels_spec(),
                    ;
                    Err(ConfigError::BufferTooLarge)
                },
            },
            None => {
                assert(self.buffer_len_spec() > usize::MAX) by (nonlinear_arith)
                    requires
                        self.width as nat * self.height as nat > usize::MAX,
                        ch == self.channels_spec(),
                        ch >= 3,
                ;
                Err(ConfigError::BufferTooLarge)
            },
        }
    }
}

/// The bytes of one pixel: red, green, blue, then alpha when there is one.
pub open spec fn pixel_bytes(rgb: [u8; 3], alpha: Option<u8>) -> Seq<u8> {
    match alpha {
        Some(a) => seq![rgb[0], rgb[1], rgb[2], a],
        None => seq![rgb[0], rgb[1], rgb[2]],
    }
}

/// Appends one quantized pixel to the output buffer.
pub fn push_pixel_color(buffer: &mut Vec<u8>, rgb: [u8; 3], alpha: Option<u8>)
    ensures
        final(buffer)@ == old(buffer)@ + pixel_bytes(rgb, alpha),
{
    buffer.push(rgb[0]);
    buffer.push(rgb[1]);
    buffer.push(rgb[2]);
    match alpha {
        Some(a) => buffer.push(a),
        None => {},
    }
    assert(buffer@ =~= old(buffer)@ + pixel_bytes(rgb, alpha));
}

/// Position of pixel `(x, y)` in the output, counted in pixels: rows are
/// emitted from the top (`y == height - 1`) down, each from left to right.
pub open spec fn pixel_index(s: RenderSettings, x: int, y: int) -> int {
    (s.height - 1 - y) * s.width + x
}

/// The bytes of the `k`-th pixel of `buf`, for pixels of `ch` bytes.
pub open spec fn slot(buf: Seq<u8>, k: int, ch: nat) -> Seq<u8> {
    buf.subrange(k * ch, k * ch + ch)
}

/// The bytes that pixel `(x, y)` occupies in `buf`.
pub open spec fn pixel_slot(buf: Seq<u8>, s: RenderSettings, x: int, y: int) -> Seq<u8> {
    slot(buf, pixel_index(s, x, y), s.channels_spec())
}

/// The bytes written for a shaded pixel: red, green, blue, and alpha when the
/// output has an alpha channel.
pub open spec fn rgba_bytes(px: [u8; 4], alpha: bool) -> Seq<u8> {
    if alpha {
        seq![px[0], px[1], px[2], px[3]]
    } else {
        seq![px[0], px[1], px[2]]
    }
}

/// `bytes` are what `shade` may give for pixel `(x, y)`.
pub open spec fn shaded<F: Fn(u32, u32) -> [u8; 4]>(
    shade: F,
    x: u32,
    y: u32,
    alpha: bool,
    bytes: Seq<u8>,
) -> bool {
    exists|px: [u8; 4]| shade.ensures((x, y), px) && bytes == rgba_bytes(px, alpha)
}

proof fn lemma_index_below(a: int, xx: int, n: int, w: int)
    requires
        0 <= a < n,
        0 <= xx < w,
    ensures
        a * w + xx < n * w,
{
    assert(a * w + xx < n * w) by (nonlinear_arith)
        requires
            0 <= a < n,
            0 <= xx < w,
    ;
}

proof fn lemma_index_unique(a: int, xx: int, b: int, x: int, w: int)
    requires
        0 <= a,
        0 <= b,
        0 <= xx < w,
        0 <= x < w,
        a * w + xx == b * w + x,
    ensures
        a == b,
        xx == x,
{
    if a < b {
        lemma_index_below(a, xx, b, w);
        assert(b * w <= b * w + x);
    } else if b < a {
        lemma_index_below(b, x, a, w);
        assert(a * w <= a * w + xx);
    }
}

proof fn lemma_slot_within(k: int, n: int, ch: nat)
    requires
        0 <= k < n,
    ensures
        k * ch + ch <= n * ch,
{
    assert(k * ch + ch <= n * ch) by (nonlinear_arith)
        requires
            0 <= k < n,
    ;
}

/// Renders the output buffer: `shade(x, y)` gives the quantized colour of
/// pixel `(x, y)`, with `y` counted from the bottom row; the pixels are laid
/// out row-major, top row first, each taking 3 bytes, or 4 with alpha.
/// The bytes of each pixel are one of the results `shade` may give for it.
pub fn render_buffer<F: Fn(u32, u32) -> [u8; 4]>(settings: &RenderSettings, shade: F) -> (r: Vec<u8>)
    requires
        settings.valid(),
        forall|x: u32, y: u32|
            x < settings.width && y < settings.height ==> shade.requires((x, y)),
    ensures
        r@.len() == settings.buffer_len_spec(),
        forall|x: u32, y: u32|
            x < settings.width && y < settings.height ==> shaded(
                shade,
                x,
                y,
                settings.alpha,
                #[trigger] pixel_slot(r@, *settings, x as int, y as int),
            ),
{
    let s = *settings;
    let w = s.width;
    let h = s.height;
    let ch = s.channels();
    let mut buf: Vec<u8> = Vec::new();
    let ghost mut got: Seq<[u8; 4]> = Seq::empty();
    let mut row: u32 = 0;
    while row < h
        invariant
            s == *settings,
            w == s.width,
            h == s.height,
            ch == s.channels_spec(),
            s.valid(),
            forall|x: u32, y: u32| x < w && y < h ==> shade.requires((x, y)),
            row <= h,
            got.len() == row * w,
            buf@.len() == row * w * ch,
            forall|k: int| 0 <= k < got.len() ==> slot(buf@, k, ch as nat) == rgba_bytes(got[k], s.alpha),
            forall|x: u32, y: u32|
                x < w && y < h && #[trigger] pixel_index(s, x as int, y as int) < got.len() ==> shade.ensures(
                    (x, y),
                    got[pixel_index(s, x as int, y as int)],
                ),
        decreases h - row,
    {
        let y = h - 1 - row;
        let mut x: u32 = 0;
        while x < w
            invariant
                s == *settings,
                w == s.width,
                h == s.height,
                ch == s.channels_spec(),
                s.valid(),
                forall|x: u32, y: u32| x < w && y < h ==> shade.requires((x, y)),
                row < h,
                y == h - 1 - row,
                x <= w,
                got.len() == row * w + x,
                buf@.len() == got.len() * ch,
                forall|k: int| 0 <= k < got.len() ==> slot(buf@, k, ch as nat) == rgba_bytes(got[k], s.alpha),
                forall|x: u32, y: u32|
                    x < w && y < h && #[trigger] pixel_index(s, x as int, y as int) < got.len() ==> shade.ensures(
                        (x, y),
                        got[pixel_index(s, x as int, y as int)],
                    ),
            decreases w - x,
        {
            let px = shade(x, y);
            let ghost before = buf@;
            let ghost done = got.len() as int;
            let alpha = if s.alpha {
                Some(px[3])
            } else {
                None
            };
            push_pixel_color(&mut buf, [px[0], px[1], px[2]], alpha);
            proof {
                assert((done + 1) * ch == done * ch + ch) by (nonlinear_arith);
                assert(slot(buf@, done, ch as nat) =~= rgba_bytes(px, s.alpha));
                assert forall|k: int| 0 <= k < done implies slot(buf@, k, ch as nat) == slot(before, k, ch as nat) by {
                    lemma_slot_within(k, done, ch as nat);
                    assert(slot(buf@, k, ch as nat) =~= slot(before, k, ch as nat));
                }
                let old_got = got;
                got = got.push(px);
                assert forall|k: int| 0 <= k < got.len() implies slot(buf@, k, ch as nat) == rgba_bytes(got[k], s.alpha) by {
                    if k < done {
                        assert(got[k] == old_got[k]);
                        assert(slot(before, k, ch as nat) == rgba_bytes(old_got[k], s.alpha));
                        assert(slot(buf@, k, ch as nat) == slot(before, k, ch as nat));
                    } else {
                        assert(got[k] == px);
                    }
                }
                assert forall|xx: u32, yy: u32|
                    xx < w && yy < h && #[trigger] pixel_index(s, xx as int, yy as int) < got.len() implies shade.ensures(
                        (xx, yy),
                        got[pixel_index(s, xx as int, yy as int)],
                    ) by {
                    let i = pixel_index(s, xx as int, yy as int);
                    if i == done {
                        lemma_index_unique((h - 1 - yy) as int, xx as int, row as int, x as int, w as int);
                    } else {
                        assert(got[i] == old_got[i]);
                    }
                }
            }
            x = x + 1;
        }
        row = row + 1;
        proof {
            assert(got.len() == row * w) by (nonlinear_arith)
                requires
                    got.len() == (row - 1) * w + w,
            ;
        }
    }
    proof {
        assert(buf@.len() == s.buffer_len_spec()) by (nonlinear_arith)
            requires
                buf@.len() == h * w * ch,
                s.buffer_len_spec() == w * h * ch,
        ;
        assert forall|xx: u32, yy: u32| xx < w && yy < h implies shaded(
            shade,
            xx,
            yy,
            s.alpha,
            #[trigger] pixel_slot(buf@, s, xx as int, yy as int),
        ) by {
            let i = pixel_index(s, xx as int, yy as int);
            lemma_index_below((h - 1 - yy) as int, xx as int, h as int, w as int);
            assert(shade.ensures((xx, yy), got[i]));
        }
    }
    buf
}

} // verus!
