//! The block of pixels that one character cell stands for.

use crate::error::ConvertError;
use vstd::prelude::*;

verus! {

/// The size, in pixels, of the block that becomes one character cell.
///
/// Both sides are at least one pixel.
#[derive(Clone, Copy, Debug, PartialEq, Eq)]
pub struct Cluster {
    width: u32,
    height: u32,
}

/// `length` divided by `parts`, rounded up.
pub open spec fn divide_rounding_up(length: nat, parts: nat) -> nat
    recommends
        parts > 0,
{
    if length % parts == 0 {
        length / parts
    } else {
        length / parts + 1
    }
}

/// A side of a block: the wanted length, but never less than one pixel.
pub open spec fn at_least_one(length: nat) -> nat {
    if length == 0 {
        1
    } else {
        length
    }
}

/// Rounding up gives the least number of parts of the given size that cover
/// the whole length.
pub proof fn lemma_divide_rounding_up(length: nat, parts: nat)
    requires
        parts > 0,
    ensures
        divide_rounding_up(length, parts) * parts >= length,
        divide_rounding_up(length, parts) > 0 ==> (divide_rounding_up(length, parts) - 1) * parts
            < length,
        divide_rounding_up(length, parts) <= length,
{
    let q = length / parts;
    let r = length % parts;
    assert(length == q * parts + r && 0 <= r < parts) by (nonlinear_arith)
        requires
            q == length / parts,
            r == length % parts,
            parts > 0,
    ;
    assert((q + 1) * parts == q * parts + parts) by (nonlinear_arith);
    assert((q - 1) * parts == q * parts - parts) by (nonlinear_arith);
    assert(q <= length) by (nonlinear_arith)
        requires
            length == q * parts + r,
            r >= 0,
            parts >= 1,
            q >= 0,
    ;
    if r != 0 && q == length {
        assert(q * parts >= q) by (nonlinear_arith)
            requires
                parts >= 1,
                q >= 0,
        ;
    }
}

impl Cluster {
    #[verifier::type_invariant]
    spec fn well_formed(&self) -> bool {
        self.width >= 1 && self.height >= 1
    }

    /// The number of pixel columns in a block.
    pub closed spec fn spec_width(&self) -> u32 {
        self.width
    }

    /// The number of pixel rows in a block.
    pub closed spec fn spec_height(&self) -> u32 {
        self.height
    }

    /// A block of the given size, with a side of zero raised to one pixel.
    pub fn new(width: u32, height: u32) -> (cluster: Cluster)
        ensures
            cluster.width() == at_least_one(width as nat),
            cluster.height() == at_least_one(height as nat),
    {
        Cluster {
            width: if width == 0 {
                1
            } else {
                width
            },
            height: if height == 0 {
                1
            } else {
                height
            },
        }
    }

    /// The number of pixel columns in a block; at least one.
    #[verifier::when_used_as_spec(spec_width)]
    pub fn width(&self) -> (w: u32)
        ensures
            w == self.width(),
            w >= 1,
    {
        proof {
            use_type_invariant(self);
        }
        self.width
    }

    /// The number of pixel rows in a block; at least one.
    #[verifier::when_used_as_spec(spec_height)]
    pub fn height(&self) -> (h: u32)
        ensures
            h == self.height(),
            h >= 1,
    {
        proof {
            use_type_invariant(self);
        }
        self.height
    }
}

/// Fits an image of `image_size` (width, height) pixels to a terminal of
/// `terminal_size` (columns, rows) cells.
///
/// A block is as high as the image's height divided by the terminal's rows,
/// rounded up, so that the picture is never taller than the terminal. Its
/// width is `scaled_width`: the caller scales the image's width per column by
/// the square root of the image's aspect ratio times the 6 : 8 shape of a
/// character cell, and rounds up. Either side is raised to one pixel where it
/// comes out as zero.
///
/// A terminal without columns or without rows is reported as
/// [`ConvertError::InvalidTerminalSize`].
pub fn calculate_clustersize(
    image_size: (u32, u32),
    terminal_size: (u16, u16),
    scaled_width: u32,
) -> (fitted: Result<Cluster, ConvertError>)
    ensures
        terminal_size.0 == 0 || terminal_size.1 == 0 ==> fitted == Err::<Cluster, ConvertError>(
            ConvertError::InvalidTerminalSize,
        ),
        terminal_size.0 > 0 && terminal_size.1 > 0 ==> {
            &&& fitted matches Ok(cluster)
            &&& cluster.width() == at_least_one(scaled_width as nat)
            &&& cluster.height() == at_least_one(
                divide_rounding_up(image_size.1 as nat, terminal_size.1 as nat),
            )
        },
{
    if terminal_size.0 == 0 || terminal_size.1 == 0 {
        return Err(ConvertError::InvalidTerminalSize);
    }
    let rows: u32 = terminal_size.1 as u32;
    let whole: u32 = image_size.1 / rows;
    proof {
        lemma_divide_rounding_up(image_size.1 as nat, rows as nat);
    }
    let height: u32 = if image_size.1 % rows == 0 {
        whole
    } else {
        whole + 1
    };
    Ok(Cluster::new(scaled_width, height))
}

} // verus!
