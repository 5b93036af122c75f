//! The integrator: the colour that arrives along a ray, and the loop that
//! fills a pixel buffer.

use vstd::prelude::*;
use vstd::arithmetic::div_mod::lemma_div_is_ordered;
use vstd::arithmetic::div_mod::lemma_div_pos_is_pos;
use vstd::arithmetic::div_mod::lemma_fundamental_div_mod;
use vstd::arithmetic::div_mod::lemma_fundamental_div_mod_converse;
use vstd::arithmetic::div_mod::lemma_mod_bound;
use vstd::arithmetic::div_mod::lemma_multiply_divide_lt;
use crate::color::channel_byte;
use crate::color::channel_byte_fits;
use crate::color::pixel_offset;
use crate::color::with_pixel;
use crate::color::writecolor;
use crate::hittable::HitRecord;
use crate::interval::Interval;
use crate::ray::Ray;
use crate::scalar::Scalar;
use crate::scalar::INFINITY_BITS;
use crate::vec3::black;
use crate::vec3::Color;

verus! {

/// The bit pattern of the nearest hit that counts, about `0.001`: nearer
/// ones are taken for the surface that the ray has just left.
pub const SHADOW_BIAS_BITS: u32 = 0x3a83_126f;

/// The stretch of a ray on which hits count: from the shadow bias on,
/// without end.
pub open spec fn spec_visible_range() -> Interval {
    Interval { min: Scalar { bits: SHADOW_BIAS_BITS }, max: Scalar { bits: INFINITY_BITS } }
}

#[verifier::when_used_as_spec(spec_visible_range)]
pub fn visible_range() -> (r: Interval)
    ensures
        r == spec_visible_range(),
{
    Interval::new(Scalar { bits: SHADOW_BIAS_BITS }, Scalar { bits: INFINITY_BITS })
}

/// Whether `c` is a colour that can arrive along `r` when at most `depth`
/// bounces are followed.
///
/// With no bounce left it is black. Else the scene is tested within
/// [`visible_range`]: a ray that hits nothing brings the sky's colour; a ray
/// that is absorbed where it hits brings black; a ray that is scattered
/// brings what arrives along the scattered ray with one bounce less, tinted
/// by the attenuation.
pub open spec fn arrives<H, S, K, T>(
    hit: H,
    scatter: S,
    sky: K,
    tint: T,
    r: Ray,
    depth: nat,
    c: Color,
) -> bool where
    H: Fn(Ray, Interval) -> Option<HitRecord>,
    S: Fn(Ray, HitRecord) -> Option<(Color, Ray)>,
    K: Fn(Ray) -> Color,
    T: Fn(Color, Color) -> Color,

    decreases depth,
{
    if depth == 0 {
        c == black()
    } else {
        exists|met: Option<HitRecord>| #[trigger]
            call_ensures(hit, (r, spec_visible_range()), met) && match met {
                None => call_ensures(sky, (r,), c),
                Some(rec) => exists|out: Option<(Color, Ray)>| #[trigger]
                    call_ensures(scatter, (r, rec), out) && match out {
                        None => c == black(),
                        Some((attenuation, scattered)) => exists|incoming: Color|
                            arrives(hit, scatter, sky, tint, scattered, (depth - 1) as nat, incoming)
                                && #[trigger] call_ensures(tint, (attenuation, incoming), c),
                    },
            }
    }
}

/// The colour that arrives along `r`, following at most `depth` bounces.
///
/// `hit` tests the scene, `scatter` asks the material of what was hit,
/// `sky` gives the background along a ray that left the scene, and `tint`
/// multiplies an attenuation into a colour, channel by channel.
pub fn ray_color<H, S, K, T>(r: Ray, depth: u8, hit: &H, scatter: &S, sky: &K, tint: &T) -> (c:
    Color) where
    H: Fn(Ray, Interval) -> Option<HitRecord>,
    S: Fn(Ray, HitRecord) -> Option<(Color, Ray)>,
    K: Fn(Ray) -> Color,
    T: Fn(Color, Color) -> Color,

    requires
        forall|ray: Ray| call_requires(*hit, (ray, spec_visible_range())),
        forall|ray: Ray, rec: HitRecord| call_requires(*scatter, (ray, rec)),
        forall|ray: Ray| call_requires(*sky, (ray,)),
        forall|a: Color, b: Color| call_requires(*tint, (a, b)),
    ensures
        arrives(*hit, *scatter, *sky, *tint, r, depth as nat, c),
        depth == 0 ==> c == black(),
    decreases depth,
{
    if depth == 0 {
        return black();
    }
    if let Some(rec) = hit(r, visible_range()) {
        if let Some((attenuation, scattered)) = scatter(r, rec) {
            let incoming = ray_color(scattered, depth - 1, hit, scatter, sky, tint);
            return tint(attenuation, incoming);
        } else {
            return black();
        }
    }
    sky(r)
}

/// Whether `sum` can be what `n` samples of the pixel in column `i` of row
/// `j` add up to, starting from black.
pub open spec fn gathers<S, A>(sample: S, accumulate: A, i: u32, j: u32, n: nat, sum: Color) -> bool where
    S: Fn(u32, u32) -> Color,
    A: Fn(Color, Color) -> Color,

    decreases n,
{
    if n == 0 {
        sum == black()
    } else {
        exists|before: Color, estimate: Color|
            gathers(sample, accumulate, i, j, (n - 1) as nat, before) && call_ensures(
                sample,
                (i, j),
                estimate,
            ) && #[trigger] call_ensures(accumulate, (before, estimate), sum)
    }
}

/// Whether `c` can be the finished colour of the pixel in column `i` of row
/// `j`: the sum of `n` samples, developed.
pub open spec fn finishes<S, A, G>(
    sample: S,
    accumulate: A,
    develop: G,
    i: u32,
    j: u32,
    n: u32,
    c: Color,
) -> bool where
    S: Fn(u32, u32) -> Color,
    A: Fn(Color, Color) -> Color,
    G: Fn(Color, u32) -> Color,
{
    exists|sum: Color|
        gathers(sample, accumulate, i, j, n as nat, sum) && #[trigger] call_ensures(
            develop,
            (sum, n),
            c,
        )
}

/// Where the `k`-th pixel of an image `width` wide starts, counting along
/// the rows from the top left.
pub open spec fn slot(pitch: int, width: int, k: int) -> int {
    pixel_offset(pitch, k % width, k / width)
}

/// The buffer after the pixels of an image `width` wide are written in
/// row-major order, as many as there are `colors`.
pub open spec fn painted(buffer: Seq<u8>, pitch: int, width: int, colors: Seq<Color>) -> Seq<u8>
    decreases colors.len(),
{
    if colors.len() == 0 {
        buffer
    } else {
        with_pixel(
            painted(buffer, pitch, width, colors.drop_last()),
            slot(pitch, width, colors.len() - 1),
            colors.last(),
        )
    }
}

/// Whether a buffer of `len` bytes has room for every pixel of the image.
pub open spec fn has_room(len: int, pitch: int, width: int, height: int) -> bool {
    width > 0 && height > 0 ==> pixel_offset(pitch, width - 1, height - 1) + 3 <= len
}

/// In a buffer with room for the image, every pixel lies within the buffer.
pub proof fn slot_is_in_room(len: int, pitch: int, width: int, height: int, k: int)
    requires
        pitch >= 0,
        has_room(len, pitch, width, height),
        0 <= k < width * height,
        0 < width,
    ensures
        0 <= slot(pitch, width, k),
        slot(pitch, width, k) + 3 <= len,
        0 <= k % width < width,
        0 <= k / width < height,
{
    lemma_mod_bound(k, width);
    lemma_div_pos_is_pos(k, width);
    lemma_multiply_divide_lt(k, width, height);
    let row = k / width;
    let column = k % width;
    assert(0 < height) by (nonlinear_arith)
        requires
            0 <= k < width * height,
            0 < width,
    ;
    assert(0 <= row * pitch <= (height - 1) * pitch) by (nonlinear_arith)
        requires
            0 <= row <= height - 1,
            pitch >= 0,
    ;
}

/// Where rows are at least as far apart as they are long, a later pixel
/// starts after an earlier one has ended.
pub proof fn slots_lie_apart(pitch: int, width: int, k: int, m: int)
    requires
        0 < width,
        pitch >= 3 * width,
        0 <= k < m,
    ensures
        slot(pitch, width, k) + 3 <= slot(pitch, width, m),
{
    lemma_mod_bound(k, width);
    lemma_mod_bound(m, width);
    lemma_div_pos_is_pos(k, width);
    lemma_div_is_ordered(k, m, width);
    lemma_fundamental_div_mod(k, width);
    lemma_fundamental_div_mod(m, width);
    let row_k = k / width;
    let row_m = m / width;
    if row_k < row_m {
        assert((row_k + 1) * pitch <= row_m * pitch) by (nonlinear_arith)
            requires
                row_k + 1 <= row_m,
                pitch >= 0,
        ;
        assert((row_k + 1) * pitch == row_k * pitch + pitch) by (nonlinear_arith);
    } else {
        assert(row_k == row_m);
        assert(width * row_k == width * row_m);
    }
}

/// Writing pixels does not change the length of the buffer.
pub proof fn painted_keeps_length(
    buffer: Seq<u8>,
    pitch: int,
    width: int,
    height: int,
    colors: Seq<Color>,
)
    requires
        pitch >= 0,
        0 < width,
        has_room(buffer.len() as int, pitch, width, height),
        colors.len() <= width * height,
    ensures
        painted(buffer, pitch, width, colors).len() == buffer.len(),
    decreases colors.len(),
{
    if colors.len() > 0 {
        painted_keeps_length(buffer, pitch, width, height, colors.drop_last());
        slot_is_in_room(buffer.len() as int, pitch, width, height, colors.len() - 1);
    }
}

/// A byte under no pixel that was written is as it was.
pub proof fn painted_spares_the_rest(
    buffer: Seq<u8>,
    pitch: int,
    width: int,
    height: int,
    colors: Seq<Color>,
    at: int,
)
    requires
        pitch >= 0,
        0 < width,
        has_room(buffer.len() as int, pitch, width, height),
        colors.len() <= width * height,
        0 <= at < buffer.len(),
        forall|k: int|
            0 <= k < colors.len() ==> !(#[trigger] slot(pitch, width, k) <= at < slot(
                pitch,
                width,
                k,
            ) + 3),
    ensures
        painted(buffer, pitch, width, colors)[at] == buffer[at],
    decreases colors.len(),
{
    if colors.len() > 0 {
        let earlier = colors.drop_last();
        painted_spares_the_rest(buffer, pitch, width, height, earlier, at);
        painted_keeps_length(buffer, pitch, width, height, earlier);
        slot_is_in_room(buffer.len() as int, pitch, width, height, colors.len() - 1);
        let offset = slot(pitch, width, colors.len() - 1);
        assert(!(offset <= at < offset + 3));
    }
}

/// Where rows are at least as far apart as they are long, every pixel that
/// was written holds the bytes of its own colour: no later pixel has
/// touched them.
pub proof fn painted_holds_each_pixel(
    buffer: Seq<u8>,
    pitch: int,
    width: int,
    height: int,
    colors: Seq<Color>,
    k: int,
)
    requires
        0 < width,
        pitch >= 3 * width,
        has_room(buffer.len() as int, pitch, width, height),
        colors.len() <= width * height,
        0 <= k < colors.len(),
    ensures
        painted(buffer, pitch, width, colors)[slot(pitch, width, k)] == channel_byte(colors[k].x),
        painted(buffer, pitch, width, colors)[slot(pitch, width, k) + 1] == channel_byte(
            colors[k].y,
        ),
        painted(buffer, pitch, width, colors)[slot(pitch, width, k) + 2] == channel_byte(
            colors[k].z,
        ),
    decreases colors.len(),
{
    let earlier = colors.drop_last();
    let last = colors.len() - 1;
    painted_keeps_length(buffer, pitch, width, height, earlier);
    slot_is_in_room(buffer.len() as int, pitch, width, height, last);
    slot_is_in_room(buffer.len() as int, pitch, width, height, k);
    channel_byte_fits(colors.last().x);
    channel_byte_fits(colors.last().y);
    channel_byte_fits(colors.last().z);
    if k < last {
        painted_holds_each_pixel(buffer, pitch, width, height, earlier, k);
        slots_lie_apart(pitch, width, k, last);
        assert(earlier[k] == colors[k]);
    }
}

/// Renders the image into `buffer`, row by row from the top and from left
/// to right within a row: three bytes a pixel, rows `pitch` bytes apart.
///
/// A pixel is the sum of `samples_per_pixel` estimates, developed into its
/// finished colour and written by [`writecolor`]. `sample` gives one
/// estimate for a pixel, `accumulate` adds an estimate to a sum, and
/// `develop` averages a sum over the number of samples and gamma-corrects
/// it.
pub fn render<S, A, G>(
    buffer: &mut [u8],
    pitch: usize,
    img_width: u32,
    img_height: u32,
    samples_per_pixel: u32,
    sample: &S,
    accumulate: &A,
    develop: &G,
) where S: Fn(u32, u32) -> Color, A: Fn(Color, Color) -> Color, G: Fn(Color, u32) -> Color
    requires
        has_room(old(buffer)@.len() as int, pitch as int, img_width as int, img_height as int),
        forall|i: u32, j: u32| i < img_width && j < img_height ==> call_requires(*sample, (i, j)),
        forall|a: Color, b: Color| call_requires(*accumulate, (a, b)),
        forall|a: Color| call_requires(*develop, (a, samples_per_pixel)),
    ensures
        exists|colors: Seq<Color>|
            {
                &&& colors.len() == img_width * img_height
                &&& forall|k: int|
                    0 <= k < colors.len() ==> finishes(
                        *sample,
                        *accumulate,
                        *develop,
                        (k % (img_width as int)) as u32,
                        (k / (img_width as int)) as u32,
                        samples_per_pixel,
                        #[trigger] colors[k],
                    )
                &&& final(buffer)@ == #[trigger] painted(
                    old(buffer)@,
                    pitch as int,
                    img_width as int,
                    colors,
                )
            },
{
    let ghost start = buffer@;
    let ghost mut colors: Seq<Color> = Seq::empty();
    let mut j: u32 = 0;
    while j < img_height
        invariant
            j <= img_height,
            buffer@.len() == start.len(),
            has_room(start.len() as int, pitch as int, img_width as int, img_height as int),
            forall|i: u32, j: u32|
                i < img_width && j < img_height ==> call_requires(*sample, (i, j)),
            forall|a: Color, b: Color| call_requires(*accumulate, (a, b)),
            forall|a: Color| call_requires(*develop, (a, samples_per_pixel)),
            colors.len() == j * img_width,
            forall|k: int|
                0 <= k < colors.len() ==> finishes(
                    *sample,
                    *accumulate,
                    *develop,
                    (k % (img_width as int)) as u32,
                    (k / (img_width as int)) as u32,
                    samples_per_pixel,
                    #[trigger] colors[k],
                ),
            buffer@ == painted(start, pitch as int, img_width as int, colors),
        decreases img_height - j,
    {
        let mut i: u32 = 0;
        while i < img_width
            invariant
                j < img_height,
                i <= img_width,
                buffer@.len() == start.len(),
                has_room(start.len() as int, pitch as int, img_width as int, img_height as int),
                forall|i: u32, j: u32|
                    i < img_width && j < img_height ==> call_requires(*sample, (i, j)),
                forall|a: Color, b: Color| call_requires(*accumulate, (a, b)),
                forall|a: Color| call_requires(*develop, (a, samples_per_pixel)),
                colors.len() == j * img_width + i,
                forall|k: int|
                    0 <= k < colors.len() ==> finishes(
                        *sample,
                        *accumulate,
                        *develop,
                        (k % (img_width as int)) as u32,
                        (k / (img_width as int)) as u32,
                        samples_per_pixel,
                        #[trigger] colors[k],
                    ),
                buffer@ == painted(start, pitch as int, img_width as int, colors),
            decreases img_width - i,
        {
            let mut pixel_color = black();
            let mut n: u32 = 0;
            while n < samples_per_pixel
                invariant
                    n <= samples_per_pixel,
                    call_requires(*sample, (i, j)),
                    forall|a: Color, b: Color| call_requires(*accumulate, (a, b)),
                    gathers(*sample, *accumulate, i, j, n as nat, pixel_color),
                decreases samples_per_pixel - n,
            {
                let estimate = sample(i, j);
                pixel_color = accumulate(pixel_color, estimate);
                n += 1;
            }
            let finished = develop(pixel_color, samples_per_pixel);
            proof {
                let k = colors.len() as int;
                lemma_fundamental_div_mod_converse(k, img_width as int, j as int, i as int);
                assert(slot(pitch as int, img_width as int, k) == pixel_offset(
                    pitch as int,
                    i as int,
                    j as int,
                ));
                assert(j * pitch + i * 3 + 3 <= (img_height - 1) * pitch + (img_width - 1) * 3 + 3)
                    by (nonlinear_arith)
                    requires
                        j <= img_height - 1,
                        i <= img_width - 1,
                        pitch >= 0,
                ;
                let longer = colors.push(finished);
                assert(longer.drop_last() =~= colors);
                assert(longer.last() == finished);
                assert(finishes(
                    *sample,
                    *accumulate,
                    *develop,
                    i,
                    j,
                    samples_per_pixel,
                    finished,
                ));
                assert forall|m: int| 0 <= m < longer.len() implies finishes(
                    *sample,
                    *accumulate,
                    *develop,
                    (m % (img_width as int)) as u32,
                    (m / (img_width as int)) as u32,
                    samples_per_pixel,
                    #[trigger] longer[m],
                ) by {
                    if m < k {
                        assert(longer[m] == colors[m]);
                    }
                }
                colors = longer;
            }
            writecolor(buffer, pitch, i, j, finished);
            i += 1;
        }
        assert(j * img_width + img_width == (j + 1) * img_width) by (nonlinear_arith);
        j += 1;
    }
    assert(colors.len() == img_width * img_height) by (nonlinear_arith)
        requires
            colors.len() == j * img_width,
            j == img_height,
    ;
}

} // verus!
