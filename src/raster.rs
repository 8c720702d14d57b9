//! Image size and the order in which pixels are emitted.
use vstd::arithmetic::div_mod::lemma_fundamental_div_mod_converse;
use vstd::prelude::*;

verus! {

/// Height of an image `width` pixels wide whose aspect ratio (width over
/// height) is `aspect_w / aspect_h`, rounded down.
pub open spec fn height_for(width: nat, aspect_w: nat, aspect_h: nat) -> nat
    recommends
        aspect_w > 0,
{
    (width * aspect_h) / aspect_w
}

/// Pixel `(x, y)` emitted in position `k`: rows go from the top
/// (`y == height - 1`) down to `y == 0`, each from left to right.
pub open spec fn emission_position(k: nat, width: nat, height: nat) -> (nat, nat)
    recommends
        width > 0,
{
    ((k % width) as nat, (height - 1 - k / width) as nat)
}

/// Height of an image `width` pixels wide with aspect ratio
/// `aspect_w / aspect_h`, rounded down.
pub fn image_height(width: u32, aspect_w: u32, aspect_h: u32) -> (h: u64)
    requires
        aspect_w > 0,
    ensures
        h == height_for(width as nat, aspect_w as nat, aspect_h as nat),
{
    assert((width as u64) * (aspect_h as u64) <= u64::MAX) by (nonlinear_arith);
    let area: u64 = (width as u64) * (aspect_h as u64);
    area / (aspect_w as u64)
}

/// Every pixel of a `width` by `height` image, as `(x, y)`, in the order of
/// emission: top row first, each row from left to right.
pub fn scanline_order(width: u32, height: u32) -> (order: Vec<(u32, u32)>)
    requires
        width as nat * height as nat <= usize::MAX,
    ensures
        order@.len() == width as nat * height as nat,
        forall|k: int|
            0 <= k < order@.len() ==> {
                let (x, y) = #[trigger] order@[k];
                (x as nat, y as nat) == emission_position(k as nat, width as nat, height as nat)
            },
{
    let mut order: Vec<(u32, u32)> = Vec::new();
    let mut row: u32 = 0;
    while row < height
        invariant
            row <= height,
            width as nat * height as nat <= usize::MAX,
            order@.len() == row as nat * width as nat,
            forall|k: int|
                0 <= k < order@.len() ==> {
                    let (x, y) = #[trigger] order@[k];
                    (x as nat, y as nat) == emission_position(
                        k as nat,
                        width as nat,
                        height as nat,
                    )
                },
        decreases height - row,
    {
        let y: u32 = height - 1 - row;
        let mut x: u32 = 0;
        while x < width
            invariant
                row < height,
                y == height - 1 - row,
                x <= width,
                width as nat * height as nat <= usize::MAX,
                order@.len() == row as nat * width as nat + x as nat,
                forall|k: int|
                    0 <= k < order@.len() ==> {
                        let (x, y) = #[trigger] order@[k];
                        (x as nat, y as nat) == emission_position(
                            k as nat,
                            width as nat,
                            height as nat,
                        )
                    },
            decreases width - x,
        {
            proof {
                lemma_fundamental_div_mod_converse(order@.len() as int, width as int, row as int, x as int);
                assert((row as nat + 1) * (width as nat) <= height as nat * width as nat)
                    by (nonlinear_arith)
                    requires
                        row < height,
                ;
                assert((row as nat + 1) * (width as nat) == row as nat * width as nat
                    + width as nat) by (nonlinear_arith);
            }
            order.push((x, y));
            x = x + 1;
        }
        proof {
            assert((row as nat + 1) * (width as nat) == row as nat * width as nat
                + width as nat) by (nonlinear_arith);
        }
        row = row + 1;
    }
    assert(row as nat * width as nat == width as nat * height as nat) by (nonlinear_arith)
        requires
            row == height,
    ;
    order
}

} // verus!
