//! The tile walker: partitions the image into a grid of fixed-size tiles,
//! visits the tiles in row-major order over the tile grid, and emits every
//! pixel of a tile before the next tile begins.

use vstd::arithmetic::div_mod::lemma_fundamental_div_mod;
use vstd::arithmetic::div_mod::lemma_fundamental_div_mod_converse;
use vstd::arithmetic::mul::lemma_mul_inequality;
use vstd::prelude::*;

use crate::encode::push_token;
use crate::encode::token_bytes;
use crate::pixel::packed_pixel;
use crate::pixel::packed_pixel_spec;
use crate::source_image::SourceImage;

verus! {

/// Why a conversion was refused.
#[derive(Clone, Copy, PartialEq, Eq, Structural, Debug)]
pub enum ConversionError {
    /// The tile width or height is zero, or does not evenly divide the
    /// image's corresponding dimension.
    InvalidTileDimensions,
}

/// A conversion is possible exactly when both tile dimensions are strictly
/// positive and evenly divide the image's dimensions.
pub open spec fn valid_tiling(img: SourceImage, tw: int, th: int) -> bool {
    &&& tw > 0
    &&& th > 0
    &&& img.width as int % tw == 0
    &&& img.height as int % th == 0
}

/// How many tiles lie side by side in one tile-row.
pub open spec fn tiles_wide(img: SourceImage, tw: int) -> int
    recommends
        tw > 0,
{
    img.width as int / tw
}

/// How many tile-rows the image is divided into.
pub open spec fn tiles_high(img: SourceImage, th: int) -> int
    recommends
        th > 0,
{
    img.height as int / th
}

/// The bytes of the first `n` tokens of one emitted line: the pixels of row
/// `y` at columns `x0`, `x0 + 1`, ..., each packed and rendered as a token.
pub open spec fn row_bytes(img: SourceImage, y: int, x0: int, n: int) -> Seq<u8>
    decreases n,
{
    if n <= 0 {
        Seq::empty()
    } else {
        row_bytes(img, y, x0, n - 1) + token_bytes(
            packed_pixel_spec(img.spec_pixel(x0 + n - 1, y)),
        )
    }
}

/// One full emitted line: `tw` tokens for row `y`, then a newline.
pub open spec fn row_line(img: SourceImage, y: int, x0: int, tw: int) -> Seq<u8> {
    row_bytes(img, y, x0, tw) + seq![10u8]
}

/// The first `n` lines of one tile whose top-left pixel is `(x0, y0)`.
pub open spec fn tile_rows(img: SourceImage, x0: int, y0: int, tw: int, n: int) -> Seq<u8>
    decreases n,
{
    if n <= 0 {
        Seq::empty()
    } else {
        tile_rows(img, x0, y0, tw, n - 1) + row_line(img, y0 + n - 1, x0, tw)
    }
}

/// Everything emitted for the tile at tile-grid position
/// `(tile_row, tile_col)`: its `th` lines followed by one blank line.
pub open spec fn tile_block(
    img: SourceImage,
    tile_row: int,
    tile_col: int,
    tw: int,
    th: int,
) -> Seq<u8> {
    tile_rows(img, tile_col * tw, tile_row * th, tw, th) + seq![10u8]
}

/// The blocks of the first `n` tiles, in row-major order over the tile grid:
/// tile `k` sits at tile-row `k / tiles_wide`, tile-column `k % tiles_wide`.
pub open spec fn tiles_prefix(img: SourceImage, tw: int, th: int, n: int) -> Seq<u8>
    decreases n,
{
    if n <= 0 {
        Seq::empty()
    } else {
        tiles_prefix(img, tw, th, n - 1) + tile_block(
            img,
            (n - 1) / tiles_wide(img, tw),
            (n - 1) % tiles_wide(img, tw),
            tw,
            th,
        )
    }
}

/// The complete output text for one conversion: every tile's block, in
/// row-major order over the tile grid.
pub open spec fn output_bytes(img: SourceImage, tw: int, th: int) -> Seq<u8>
    recommends
        valid_tiling(img, tw, th),
{
    tiles_prefix(img, tw, th, tiles_wide(img, tw) * tiles_high(img, th))
}

/// Appends the tokens of pixel row `y`, columns `x0 .. x0 + tile_width`,
/// followed by the line's terminating newline.
#[verifier::loop_isolation(false)]
fn emit_row(img: &SourceImage, out: &mut Vec<u8>, y: u32, x0: u32, tile_width: u32)
    requires
        img.wf(),
        y < img.height,
        x0 + tile_width <= img.width,
    ensures
        final(out)@ == old(out)@ + row_line(*img, y as int, x0 as int, tile_width as int),
{
    let mut i: u32 = 0;
    while i < tile_width
        invariant
            i <= tile_width,
            out@ == old(out)@ + row_bytes(*img, y as int, x0 as int, i as int),
        decreases tile_width - i,
    {
        let p = img.pixel_at(x0 + i, y);
        let w: u32 = packed_pixel(p);
        push_token(out, w);
        assert(out@ == old(out)@ + row_bytes(*img, y as int, x0 as int, i + 1));
        i = i + 1;
    }
    out.push(10);
    assert(out@ =~= old(out)@ + row_line(*img, y as int, x0 as int, tile_width as int));
}

/// Appends the block of the tile at tile-grid position
/// `(tile_row, tile_col)`: its rows top to bottom, each left to right, then
/// one blank line.
#[verifier::loop_isolation(false)]
pub fn emit_tile(
    img: &SourceImage,
    out: &mut Vec<u8>,
    tile_row: u32,
    tile_col: u32,
    tile_width: u32,
    tile_height: u32,
)
    requires
        img.wf(),
        (tile_row + 1) * tile_height <= img.height,
        (tile_col + 1) * tile_width <= img.width,
    ensures
        final(out)@ == old(out)@ + tile_block(
            *img,
            tile_row as int,
            tile_col as int,
            tile_width as int,
            tile_height as int,
        ),
{
    proof {
        assert((tile_row as int + 1) * tile_height as int == tile_row as int * tile_height as int
            + tile_height as int) by (nonlinear_arith);
        assert((tile_col as int + 1) * tile_width as int == tile_col as int * tile_width as int
            + tile_width as int) by (nonlinear_arith);
    }
    let y0: u32 = tile_row * tile_height;
    let x0: u32 = tile_col * tile_width;
    let mut j: u32 = 0;
    while j < tile_height
        invariant
            j <= tile_height,
            out@ == old(out)@ + tile_rows(
                *img,
                x0 as int,
                y0 as int,
                tile_width as int,
                j as int,
            ),
        decreases tile_height - j,
    {
        emit_row(img, out, y0 + j, x0, tile_width);
        assert(out@ == old(out)@ + tile_rows(
            *img,
            x0 as int,
            y0 as int,
            tile_width as int,
            j + 1,
        ));
        j = j + 1;
    }
    out.push(10);
    assert(out@ =~= old(out)@ + tile_block(
        *img,
        tile_row as int,
        tile_col as int,
        tile_width as int,
        tile_height as int,
    ));
}

/// Converts the whole image: validates the tile dimensions, then emits every
/// tile's block in row-major order over the tile grid.
///
/// Returns `Ok` with the full output text exactly when both tile dimensions
/// are positive and divide the image's dimensions; otherwise returns
/// `InvalidTileDimensions` and produces no output.
#[verifier::loop_isolation(false)]
pub fn convert(img: &SourceImage, tile_width: u32, tile_height: u32) -> (r: Result<
    Vec<u8>,
    ConversionError,
>)
    requires
        img.wf(),
    ensures
        match r {
            Ok(out) => valid_tiling(*img, tile_width as int, tile_height as int) && out@
                == output_bytes(*img, tile_width as int, tile_height as int),
            Err(e) => !valid_tiling(*img, tile_width as int, tile_height as int) && e
                == ConversionError::InvalidTileDimensions,
        },
{
    if tile_width == 0 || tile_height == 0 || img.width % tile_width != 0 || img.height
        % tile_height != 0 {
        return Err(ConversionError::InvalidTileDimensions);
    }
    let number_of_tiles_wide: u32 = img.width / tile_width;
    let number_of_tiles_high: u32 = img.height / tile_height;
    proof {
        lemma_fundamental_div_mod(img.width as int, tile_width as int);
        lemma_fundamental_div_mod(img.height as int, tile_height as int);
    }
    let ghost ntw: int = number_of_tiles_wide as int;
    let ghost nth: int = number_of_tiles_high as int;
    let mut out: Vec<u8> = Vec::new();
    let mut tr: u32 = 0;
    while tr < number_of_tiles_high
        invariant
            tr <= number_of_tiles_high,
            out@ == tiles_prefix(*img, tile_width as int, tile_height as int, tr as int * ntw),
        decreases number_of_tiles_high - tr,
    {
        let mut tc: u32 = 0;
        while tc < number_of_tiles_wide
            invariant
                tr < number_of_tiles_high,
                tc <= number_of_tiles_wide,
                out@ == tiles_prefix(
                    *img,
                    tile_width as int,
                    tile_height as int,
                    tr as int * ntw + tc as int,
                ),
            decreases number_of_tiles_wide - tc,
        {
            proof {
                lemma_mul_inequality(tr as int + 1, nth, tile_height as int);
                lemma_mul_inequality(tc as int + 1, ntw, tile_width as int);
            }
            emit_tile(img, &mut out, tr, tc, tile_width, tile_height);
            proof {
                let n: int = tr as int * ntw + tc as int;
                lemma_fundamental_div_mod_converse(n, ntw, tr as int, tc as int);
                assert(out@ == tiles_prefix(
                    *img,
                    tile_width as int,
                    tile_height as int,
                    n + 1,
                ));
            }
            tc = tc + 1;
        }
        proof {
            assert((tr as int + 1) * ntw == tr as int * ntw + ntw) by (nonlinear_arith);
        }
        tr = tr + 1;
    }
    proof {
        assert(nth * ntw == ntw * nth) by (nonlinear_arith);
    }
    Ok(out)
}

} // verus!
