//! Reduces a block of pixels to one value: its mean colour or its mean
//! brightness.
//!
//! Means are rounded down, so a block never comes out lighter than its
//! pixels are.

use crate::bitmap::{Bitmap, Rgb};
use image::Pixel;
use vstd::prelude::*;

verus! {

/// What is measured of a pixel.
pub enum Channel {
    Red,
    Green,
    Blue,
    Luma,
}

/// The brightness of a pixel: its channels weighted 2126 : 7152 : 722 and
/// divided by 10000, rounded down.
pub open spec fn luma_of(p: Rgb) -> nat {
    ((2126 * p.r + 7152 * p.g + 722 * p.b) / 10000) as nat
}

/// The value of one channel of a pixel.
pub open spec fn channel_value(p: Rgb, channel: Channel) -> nat {
    match channel {
        Channel::Red => p.r as nat,
        Channel::Green => p.g as nat,
        Channel::Blue => p.b as nat,
        Channel::Luma => luma_of(p),
    }
}

/// The sum of a channel over the `n` pixels of row `y` that start at column `x`.
pub open spec fn span_sum(image: &Bitmap, channel: Channel, x: int, y: int, n: nat) -> nat
    decreases n,
{
    if n == 0 {
        0
    } else {
        span_sum(image, channel, x, y, (n - 1) as nat) + channel_value(
            image.pixel(x + n - 1, y),
            channel,
        )
    }
}

/// The sum of a channel over the block of `w` by `h` pixels whose top left
/// corner is `(x, y)`.
pub open spec fn block_sum(image: &Bitmap, channel: Channel, x: int, y: int, w: nat, h: nat) -> nat
    decreases h,
{
    if h == 0 {
        0
    } else {
        block_sum(image, channel, x, y, w, (h - 1) as nat) + span_sum(
            image,
            channel,
            x,
            y + h - 1,
            w,
        )
    }
}

/// The mean of a channel over a block, rounded down.
pub open spec fn block_mean(image: &Bitmap, channel: Channel, x: int, y: int, w: nat, h: nat) -> nat
    recommends
        w > 0,
        h > 0,
{
    block_sum(image, channel, x, y, w, h) / (w * h)
}

/// The mean colour of a block: the mean of each channel by itself.
pub open spec fn mean_colour(image: &Bitmap, x: int, y: int, w: nat, h: nat) -> Rgb
    recommends
        w > 0,
        h > 0,
{
    Rgb {
        r: block_mean(image, Channel::Red, x, y, w, h) as u8,
        g: block_mean(image, Channel::Green, x, y, w, h) as u8,
        b: block_mean(image, Channel::Blue, x, y, w, h) as u8,
    }
}

/// The mean brightness of a block.
pub open spec fn mean_brightness(image: &Bitmap, x: int, y: int, w: nat, h: nat) -> nat
    recommends
        w > 0,
        h > 0,
{
    block_mean(image, Channel::Luma, x, y, w, h)
}

/// No channel of a pixel exceeds 255.
pub proof fn lemma_channel_value_bound(p: Rgb, channel: Channel)
    ensures
        channel_value(p, channel) <= 255,
{
}

/// A row of `n` pixels sums to at most `255 * n`.
pub proof fn lemma_span_sum_bound(image: &Bitmap, channel: Channel, x: int, y: int, n: nat)
    ensures
        span_sum(image, channel, x, y, n) <= 255 * n,
    decreases n,
{
    if n > 0 {
        lemma_span_sum_bound(image, channel, x, y, (n - 1) as nat);
        lemma_channel_value_bound(image.pixel(x + n - 1, y), channel);
    }
}

/// A block of `w` by `h` pixels sums to at most `255 * w * h`.
pub proof fn lemma_block_sum_bound(
    image: &Bitmap,
    channel: Channel,
    x: int,
    y: int,
    w: nat,
    h: nat,
)
    ensures
        block_sum(image, channel, x, y, w, h) <= 255 * (w * h),
    decreases h,
{
    if h > 0 {
        lemma_block_sum_bound(image, channel, x, y, w, (h - 1) as nat);
        lemma_span_sum_bound(image, channel, x, y + h - 1, w);
        assert(w * h == w * (h - 1) + w) by (nonlinear_arith);
    } else {
        assert(w * 0 == 0) by (nonlinear_arith);
    }
}

/// The mean of any channel over any block lies between 0 and 255.
pub proof fn lemma_block_mean_bound(
    image: &Bitmap,
    channel: Channel,
    x: int,
    y: int,
    w: nat,
    h: nat,
)
    requires
        w > 0,
        h > 0,
    ensures
        0 <= block_mean(image, channel, x, y, w, h) <= 255,
{
    lemma_block_sum_bound(image, channel, x, y, w, h);
    let sum = block_sum(image, channel, x, y, w, h);
    let count = w * h;
    assert(count > 0) by (nonlinear_arith)
        requires
            count == w * h,
            w > 0,
            h > 0,
    ;
    assert(sum / count <= 255) by (nonlinear_arith)
        requires
            sum <= 255 * count,
            count > 0,
    ;
}

/// Where every pixel of a row segment has the same colour, the segment sums
/// to that colour's value once per pixel.
pub proof fn lemma_uniform_span(
    image: &Bitmap,
    channel: Channel,
    x: int,
    y: int,
    n: nat,
    colour: Rgb,
)
    requires
        forall|i: int| 0 <= i < n ==> #[trigger] image.pixel(x + i, y) == colour,
    ensures
        span_sum(image, channel, x, y, n) == n * channel_value(colour, channel),
    decreases n,
{
    let v = channel_value(colour, channel);
    if n > 0 {
        lemma_uniform_span(image, channel, x, y, (n - 1) as nat, colour);
        assert(image.pixel(x + (n - 1), y) == colour);
        assert(n * v == (n - 1) * v + v) by (nonlinear_arith);
    } else {
        assert(0 * v == 0) by (nonlinear_arith);
    }
}

/// A block of one colour has that colour as its mean colour, and that
/// colour's brightness as its mean brightness.
pub proof fn lemma_uniform_block(image: &Bitmap, x: int, y: int, w: nat, h: nat, colour: Rgb)
    requires
        w > 0,
        h > 0,
        forall|i: int, j: int|
            0 <= i < w && 0 <= j < h ==> #[trigger] image.pixel(x + i, y + j) == colour,
    ensures
        mean_colour(image, x, y, w, h) == colour,
        mean_brightness(image, x, y, w, h) == luma_of(colour),
{
    lemma_uniform_block_mean(image, Channel::Red, x, y, w, h, colour);
    lemma_uniform_block_mean(image, Channel::Green, x, y, w, h, colour);
    lemma_uniform_block_mean(image, Channel::Blue, x, y, w, h, colour);
    lemma_uniform_block_mean(image, Channel::Luma, x, y, w, h, colour);
}

/// A block of one colour has that colour's value as the mean of each channel.
pub proof fn lemma_uniform_block_mean(
    image: &Bitmap,
    channel: Channel,
    x: int,
    y: int,
    w: nat,
    h: nat,
    colour: Rgb,
)
    requires
        w > 0,
        h > 0,
        forall|i: int, j: int|
            0 <= i < w && 0 <= j < h ==> #[trigger] image.pixel(x + i, y + j) == colour,
    ensures
        block_mean(image, channel, x, y, w, h) == channel_value(colour, channel),
{
    lemma_uniform_block_sum(image, channel, x, y, w, h, h, colour);
    let v = channel_value(colour, channel);
    let count = w * h;
    assert(count > 0 && (count * v) / count == v) by (nonlinear_arith)
        requires
            count == w * h,
            w > 0,
            h > 0,
            v >= 0,
    ;
}

/// The first `rows` rows of a block of one colour sum to that colour's value
/// once per pixel.
proof fn lemma_uniform_block_sum(
    image: &Bitmap,
    channel: Channel,
    x: int,
    y: int,
    w: nat,
    h: nat,
    rows: nat,
    colour: Rgb,
)
    requires
        rows <= h,
        forall|i: int, j: int|
            0 <= i < w && 0 <= j < h ==> #[trigger] image.pixel(x + i, y + j) == colour,
    ensures
        block_sum(image, channel, x, y, w, rows) == (w * rows) * channel_value(colour, channel),
    decreases rows,
{
    let v = channel_value(colour, channel);
    if rows > 0 {
        lemma_uniform_block_sum(image, channel, x, y, w, h, (rows - 1) as nat, colour);
        assert forall|i: int| 0 <= i < w implies #[trigger] image.pixel(x + i, y + rows - 1)
            == colour by {
            assert(image.pixel(x + i, y + (rows - 1)) == colour);
        }
        lemma_uniform_span(image, channel, x, y + rows - 1, w, colour);
        assert((w * rows) * v == (w * (rows - 1)) * v + w * v) by (nonlinear_arith);
    } else {
        assert((w * 0) * v == 0) by (nonlinear_arith);
    }
}

/// Partial sums over a block whose sides fit in 32 bits leave room for one
/// more pixel in 128 bits.
proof fn lemma_partial_sum_fits(
    image: &Bitmap,
    channel: Channel,
    x: int,
    y: int,
    w: nat,
    rows: nat,
    n: nat,
)
    requires
        w <= u32::MAX,
        rows <= u32::MAX,
        n <= u32::MAX,
    ensures
        block_sum(image, channel, x, y, w, rows) + span_sum(image, channel, x, y + rows, n) + 255
            <= u128::MAX,
{
    lemma_block_sum_bound(image, channel, x, y, w, rows);
    lemma_span_sum_bound(image, channel, x, y + rows, n);
    assert(255 * (w * rows) + 255 * n + 255 <= u128::MAX) by (nonlinear_arith)
        requires
            w <= u32::MAX,
            rows <= u32::MAX,
            n <= u32::MAX,
    ;
}

/// A block with sides of at least one pixel holds at least one pixel, and
/// their number fits in 64 bits.
proof fn lemma_block_area(w: u32, h: u32)
    by (nonlinear_arith)
    requires
        w >= 1,
        h >= 1,
    ensures
        1 <= w * h <= u64::MAX,
{
}

/// The brightness of one pixel, as `image::Pixel::to_luma` computes it for an
/// 8-bit RGB pixel: the weighted sum `2126 r + 7152 g + 722 b` in 32 bits,
/// divided by 10000 and rounded down. The weights add up to 10000, so the
/// quotient fits a byte.
#[verifier::external_body]
fn luma(p: Rgb) -> (l: u8)
    ensures
        l == luma_of(p),
{
    image::Rgb([p.r, p.g, p.b]).to_luma().0[0]
}

/// The mean colour of the block of `cluster_width` by `cluster_height`
/// pixels whose top left corner is `(x, y)`.
///
/// The block has to lie inside the image.
pub fn get_colour_of_cluster(
    image: &Bitmap,
    x: u32,
    y: u32,
    cluster_width: u32,
    cluster_height: u32,
) -> (colour: Rgb)
    requires
        cluster_width >= 1,
        cluster_height >= 1,
        x + cluster_width <= image.width(),
        y + cluster_height <= image.height(),
    ensures
        colour == mean_colour(
            image,
            x as int,
            y as int,
            cluster_width as nat,
            cluster_height as nat,
        ),
        colour.r == block_mean(
            image,
            Channel::Red,
            x as int,
            y as int,
            cluster_width as nat,
            cluster_height as nat,
        ),
        colour.g == block_mean(
            image,
            Channel::Green,
            x as int,
            y as int,
            cluster_width as nat,
            cluster_height as nat,
        ),
        colour.b == block_mean(
            image,
            Channel::Blue,
            x as int,
            y as int,
            cluster_width as nat,
            cluster_height as nat,
        ),
{
    let mut red: u128 = 0;
    let mut green: u128 = 0;
    let mut blue: u128 = 0;
    let mut dy: u32 = 0;
    while dy < cluster_height
        invariant
            dy <= cluster_height,
            x + cluster_width <= image.width(),
            y + cluster_height <= image.height(),
            red == block_sum(image, Channel::Red, x as int, y as int, cluster_width as nat, dy as nat),
            green == block_sum(
                image,
                Channel::Green,
                x as int,
                y as int,
                cluster_width as nat,
                dy as nat,
            ),
            blue == block_sum(
                image,
                Channel::Blue,
                x as int,
                y as int,
                cluster_width as nat,
                dy as nat,
            ),
        decreases cluster_height - dy,
    {
        let ghost red_above = red;
        let ghost green_above = green;
        let ghost blue_above = blue;
        let mut dx: u32 = 0;
        while dx < cluster_width
            invariant
                dx <= cluster_width,
                dy < cluster_height,
                x + cluster_width <= image.width(),
                y + cluster_height <= image.height(),
                red_above == block_sum(
                    image,
                    Channel::Red,
                    x as int,
                    y as int,
                    cluster_width as nat,
                    dy as nat,
                ),
                green_above == block_sum(
                    image,
                    Channel::Green,
                    x as int,
                    y as int,
                    cluster_width as nat,
                    dy as nat,
                ),
                blue_above == block_sum(
                    image,
                    Channel::Blue,
                    x as int,
                    y as int,
                    cluster_width as nat,
                    dy as nat,
                ),
                red == red_above + span_sum(image, Channel::Red, x as int, y + dy, dx as nat),
                green == green_above + span_sum(image, Channel::Green, x as int, y + dy, dx as nat),
                blue == blue_above + span_sum(image, Channel::Blue, x as int, y + dy, dx as nat),
            decreases cluster_width - dx,
        {
            let p = image.get_pixel(x + dx, y + dy);
            proof {
                let w = cluster_width as nat;
                lemma_partial_sum_fits(image, Channel::Red, x as int, y as int, w, dy as nat, dx as nat);
                lemma_partial_sum_fits(image, Channel::Green, x as int, y as int, w, dy as nat, dx as nat);
                lemma_partial_sum_fits(image, Channel::Blue, x as int, y as int, w, dy as nat, dx as nat);
            }
            red = red + p.r as u128;
            green = green + p.g as u128;
            blue = blue + p.b as u128;
            dx = dx + 1;
        }
        dy = dy + 1;
    }
    proof {
        lemma_block_area(cluster_width, cluster_height);
    }
    let count: u128 = (cluster_width as u128) * (cluster_height as u128);
    proof {
        let w = cluster_width as nat;
        let h = cluster_height as nat;
        lemma_block_mean_bound(image, Channel::Red, x as int, y as int, w, h);
        lemma_block_mean_bound(image, Channel::Green, x as int, y as int, w, h);
        lemma_block_mean_bound(image, Channel::Blue, x as int, y as int, w, h);
    }
    Rgb { r: (red / count) as u8, g: (green / count) as u8, b: (blue / count) as u8 }
}

/// The mean brightness of the block of `cluster_width` by `cluster_height`
/// pixels whose top left corner is `(x, y)`; never above 255.
///
/// The block has to lie inside the image.
pub fn get_brightness_of_cluster(
    image: &Bitmap,
    x: u32,
    y: u32,
    cluster_width: u32,
    cluster_height: u32,
) -> (brightness: usize)
    requires
        cluster_width >= 1,
        cluster_height >= 1,
        x + cluster_width <= image.width(),
        y + cluster_height <= image.height(),
    ensures
        brightness == mean_brightness(
            image,
            x as int,
            y as int,
            cluster_width as nat,
            cluster_height as nat,
        ),
        brightness <= 255,
{
    let mut sum: u128 = 0;
    let mut dy: u32 = 0;
    while dy < cluster_height
        invariant
            dy <= cluster_height,
            x + cluster_width <= image.width(),
            y + cluster_height <= image.height(),
            sum == block_sum(image, Channel::Luma, x as int, y as int, cluster_width as nat, dy as nat),
        decreases cluster_height - dy,
    {
        let ghost above = sum;
        let mut dx: u32 = 0;
        while dx < cluster_width
            invariant
                dx <= cluster_width,
                dy < cluster_height,
                x + cluster_width <= image.width(),
                y + cluster_height <= image.height(),
                above == block_sum(
                    image,
                    Channel::Luma,
                    x as int,
                    y as int,
                    cluster_width as nat,
                    dy as nat,
                ),
                sum == above + span_sum(image, Channel::Luma, x as int, y + dy, dx as nat),
            decreases cluster_width - dx,
        {
            let l = luma(image.get_pixel(x + dx, y + dy));
            proof {
                lemma_partial_sum_fits(
                    image,
                    Channel::Luma,
                    x as int,
                    y as int,
                    cluster_width as nat,
                    dy as nat,
                    dx as nat,
                );
            }
            sum = sum + l as u128;
            dx = dx + 1;
        }
        dy = dy + 1;
    }
    proof {
        lemma_block_area(cluster_width, cluster_height);
    }
    let count: u128 = (cluster_width as u128) * (cluster_height as u128);
    proof {
        lemma_block_mean_bound(
            image,
            Channel::Luma,
            x as int,
            y as int,
            cluster_width as nat,
            cluster_height as nat,
        );
    }
    (sum / count) as usize
}

} // verus!
