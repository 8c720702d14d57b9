//! The flat-gradient test pattern: red grows from left to right, green from
//! bottom to top, blue stays at a quarter. Channel values are fractions,
//! quantized exactly to 8 bits.
use crate::ppm::{header_bytes, pixel_bytes, ppm_header, push_pixel};
use crate::raster::{emission_position, scanline_order};
use vstd::arithmetic::div_mod::lemma_fundamental_div_mod_converse;
use vstd::prelude::*;

verus! {

/// 8-bit value of the channel `num / den`: `floor(num / den * 255.999)`.
pub open spec fn quantized(num: nat, den: nat) -> nat {
    (num * 255999) / (den * 1000)
}

/// Channels of pixel `(x, y)` of the pattern on a `width` by `height` image:
/// `x / (width - 1)`, `y / (height - 1)` and `1 / 4`, quantized.
pub open spec fn gradient_rgb(x: nat, y: nat, width: nat, height: nat) -> (nat, nat, nat) {
    (
        quantized(x, (width - 1) as nat),
        quantized(y, (height - 1) as nat),
        quantized(1, 4),
    )
}

/// Quantizes the channel value `num / den`, which lies in `[0, 1]`, to
/// `floor(num / den * 255.999)`, computed without rounding error.
pub fn quantize_fraction(num: u32, den: u32) -> (q: u8)
    requires
        0 < den,
        num <= den,
    ensures
        q as nat == quantized(num as nat, den as nat),
        q as nat <= 255,
{
    assert((num as u64) * 255999 <= (den as u64) * 255999) by (nonlinear_arith)
        requires
            num <= den,
    ;
    let scaled: u64 = num as u64 * 255999;
    let unit: u64 = den as u64 * 1000;
    assert(scaled / unit < 256) by (nonlinear_arith)
        requires
            scaled <= unit * 255999 / 1000,
            0 < unit,
    ;
    (scaled / unit) as u8
}

/// The channel `n / n` (full intensity) quantizes to 255, and `0 / n` to 0.
pub proof fn lemma_quantized_bounds(n: nat)
    requires
        0 < n,
    ensures
        quantized(n, n) == 255,
        quantized(0, n) == 0,
{
    assert((n * 255999) / (n * 1000) == 255) by (nonlinear_arith)
        requires
            0 < n,
    ;
}

/// On an image 256 pixels wide (or high), the channel `n / 255` quantizes to
/// `n` itself: the pattern steps by exactly one level per pixel.
pub proof fn lemma_quantized_steps_of_255(n: nat)
    requires
        n <= 255,
    ensures
        quantized(n, 255) == n,
{
    assert((n * 255999) / (255 * 1000) == n) by (nonlinear_arith)
        requires
            n <= 255,
    ;
}

/// The first pixel emitted is the top-left one, `(0, height - 1)`, and its
/// color quantizes to `(0, 255, 63)`: no red, full green, a quarter of blue.
pub proof fn lemma_first_pixel(width: nat, height: nat)
    requires
        2 <= width,
        2 <= height,
    ensures
        emission_position(0, width, height) == (0nat, (height - 1) as nat),
        gradient_rgb(0, (height - 1) as nat, width, height) == (0nat, 255nat, 63nat),
        gradient_lines(width, height, 1) == pixel_bytes(0, 255, 63),
{
    lemma_quantized_bounds((width - 1) as nat);
    lemma_quantized_bounds((height - 1) as nat);
    lemma_fundamental_div_mod_converse(255999, 4000, 63, 3999);
    assert(quantized(1, 4) == 63);
    lemma_fundamental_div_mod_converse(0, width as int, 0, 0);
    assert(emission_position(0, width, height) == (0nat, (height - 1) as nat));
    assert(gradient_lines(width, height, 0) == Seq::<u8>::empty());
    assert(gradient_lines(width, height, 1) =~= pixel_bytes(0, 255, 63));
}

/// Pixel lines of the first `n` pixels of the pattern, in emission order.
pub open spec fn gradient_lines(width: nat, height: nat, n: nat) -> Seq<u8>
    decreases n,
{
    if n == 0 {
        Seq::empty()
    } else {
        let (x, y) = emission_position((n - 1) as nat, width, height);
        let (r, g, b) = gradient_rgb(x, y, width, height);
        gradient_lines(width, height, (n - 1) as nat) + pixel_bytes(r, g, b)
    }
}

/// The whole `P3` image of the pattern: header, then every pixel.
pub open spec fn gradient_image_bytes(width: nat, height: nat) -> Seq<u8> {
    header_bytes(width, height) + gradient_lines(width, height, width * height)
}

/// Quantized color of pixel `(x, y)` of the pattern.
pub fn gradient_color(x: u32, y: u32, width: u32, height: u32) -> (rgb: (u8, u8, u8))
    requires
        2 <= width,
        2 <= height,
        x < width,
        y < height,
    ensures
        (rgb.0 as nat, rgb.1 as nat, rgb.2 as nat) == gradient_rgb(
            x as nat,
            y as nat,
            width as nat,
            height as nat,
        ),
{
    let r = quantize_fraction(x, width - 1);
    let g = quantize_fraction(y, height - 1);
    let b = quantize_fraction(1, 4);
    (r, g, b)
}

/// Encodes the pattern as a `P3` image of the given size.
pub fn gradient_image(width: u32, height: u32) -> (image: Vec<u8>)
    requires
        2 <= width,
        2 <= height,
        width as nat * height as nat <= usize::MAX,
    ensures
        image@ == gradient_image_bytes(width as nat, height as nat),
{
    let mut image = ppm_header(width, height);
    let order = scanline_order(width, height);
    let mut i: usize = 0;
    while i < order.len()
        invariant
            2 <= width,
            2 <= height,
            i <= order@.len(),
            order@.len() == width as nat * height as nat,
            forall|k: int|
                0 <= k < order@.len() ==> {
                    let (x, y) = #[trigger] order@[k];
                    (x as nat, y as nat) == emission_position(
                        k as nat,
                        width as nat,
                        height as nat,
                    )
                },
            image@ == header_bytes(width as nat, height as nat) + gradient_lines(
                width as nat,
                height as nat,
                i as nat,
            ),
        decreases order@.len() - i,
    {
        let (x, y) = order[i];
        proof {
            let w = width as nat;
            let k = i as nat;
            assert(k / w < height as nat) by (nonlinear_arith)
                requires
                    k < w * height as nat,
                    0 < w,
            ;
        }
        let (r, g, b) = gradient_color(x, y, width, height);
        push_pixel(&mut image, r, g, b);
        proof {
            assert(image@ =~= header_bytes(width as nat, height as nat) + gradient_lines(
                width as nat,
                height as nat,
                (i + 1) as nat,
            ));
        }
        i = i + 1;
    }
    image
}

} // verus!
