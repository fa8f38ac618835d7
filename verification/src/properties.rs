//! Structural facts about the produced text, stated and proved once for all
//! images and tile sizes: the output is exactly one block per tile, each
//! block is exactly `tile_height` token lines followed by one blank line, and
//! conversion is deterministic.

use vstd::arithmetic::div_mod::lemma_div_pos_is_pos;
use vstd::arithmetic::mul::lemma_mul_nonnegative;
use vstd::prelude::*;

use crate::convert::output_bytes;
use crate::convert::row_bytes;
use crate::convert::row_line;
use crate::convert::tile_block;
use crate::convert::tile_rows;
use crate::convert::tiles_high;
use crate::convert::tiles_prefix;
use crate::convert::tiles_wide;
use crate::convert::valid_tiling;
use crate::encode::lemma_token_bytes_shape;
use crate::encode::token_bytes;
use crate::pixel::packed_pixel_spec;
use crate::source_image::SourceImage;

verus! {

/// The `n` tokens of one emitted line, as separate byte strings: the pixels
/// of row `y` at columns `x0`, `x0 + 1`, ..., each packed and rendered.
pub open spec fn row_tokens(img: SourceImage, y: int, x0: int, n: int) -> Seq<Seq<u8>> {
    Seq::new(n as nat, |i: int| token_bytes(packed_pixel_spec(img.spec_pixel(x0 + i, y))))
}

/// The `n` lines of one tile whose top-left pixel is `(x0, y0)`, as separate
/// byte strings.
pub open spec fn tile_lines(img: SourceImage, x0: int, y0: int, tw: int, n: int) -> Seq<
    Seq<u8>,
> {
    Seq::new(n as nat, |j: int| row_line(img, y0 + j, x0, tw))
}

/// Every tile's block, as separate byte strings, in row-major order over the
/// tile grid: block `k` belongs to tile-row `k / tiles_wide`, tile-column
/// `k % tiles_wide`.
pub open spec fn tile_blocks(img: SourceImage, tw: int, th: int) -> Seq<Seq<u8>>
    recommends
        valid_tiling(img, tw, th),
{
    Seq::new(
        (tiles_wide(img, tw) * tiles_high(img, th)) as nat,
        |k: int| tile_block(img, k / tiles_wide(img, tw), k % tiles_wide(img, tw), tw, th),
    )
}

/// The emitted bytes of one line's tokens are those tokens laid end to end;
/// they amount to 19 bytes per token and contain no newline.
proof fn lemma_row_bytes_shape(img: SourceImage, y: int, x0: int, n: int)
    requires
        n >= 0,
    ensures
        row_bytes(img, y, x0, n) == row_tokens(img, y, x0, n).flatten_alt(),
        row_bytes(img, y, x0, n).len() == 19 * n,
        forall|k: int| 0 <= k < 19 * n ==> row_bytes(img, y, x0, n)[k] != 10,
        n > 0 ==> row_bytes(img, y, x0, n)[0] == 100,
    decreases n,
{
    let toks = row_tokens(img, y, x0, n);
    if n == 0 {
        assert(toks.flatten_alt() =~= Seq::<u8>::empty());
    } else {
        lemma_row_bytes_shape(img, y, x0, n - 1);
        lemma_token_bytes_shape(packed_pixel_spec(img.spec_pixel(x0 + n - 1, y)));
        assert(toks.drop_last() =~= row_tokens(img, y, x0, n - 1));
        assert(row_bytes(img, y, x0, n) == toks.drop_last().flatten_alt() + toks.last());
        assert(token_bytes(packed_pixel_spec(img.spec_pixel(x0 + n - 1, y)))[0] == 100);
    }
}

/// One emitted line is its `tw` tokens laid end to end plus a terminating
/// newline, and that newline is the only one in the line.
pub proof fn lemma_row_line_shape(img: SourceImage, y: int, x0: int, tw: int)
    requires
        tw >= 0,
    ensures
        row_tokens(img, y, x0, tw).len() == tw,
        row_line(img, y, x0, tw) == row_tokens(img, y, x0, tw).flatten() + seq![10u8],
        row_line(img, y, x0, tw).len() == 19 * tw + 1,
        row_line(img, y, x0, tw).last() == 10u8,
        forall|k: int| 0 <= k < 19 * tw ==> row_line(img, y, x0, tw)[k] != 10,
{
    lemma_row_bytes_shape(img, y, x0, tw);
    row_tokens(img, y, x0, tw).lemma_flatten_and_flatten_alt_are_equivalent();
}

/// The emitted bytes of a tile's first `n` rows are those rows' lines laid
/// end to end.
proof fn lemma_tile_rows_is_flatten(img: SourceImage, x0: int, y0: int, tw: int, n: int)
    requires
        n >= 0,
    ensures
        tile_rows(img, x0, y0, tw, n) == tile_lines(img, x0, y0, tw, n).flatten_alt(),
    decreases n,
{
    let lines = tile_lines(img, x0, y0, tw, n);
    if n == 0 {
        assert(lines.flatten_alt() =~= Seq::<u8>::empty());
    } else {
        lemma_tile_rows_is_flatten(img, x0, y0, tw, n - 1);
        assert(lines.drop_last() =~= tile_lines(img, x0, y0, tw, n - 1));
        assert(tile_rows(img, x0, y0, tw, n) == lines.drop_last().flatten_alt() + lines.last());
    }
}

/// Each tile block consists of exactly `th` non-blank lines followed by one
/// blank line: the lines laid end to end, then one extra newline. Each line
/// holds exactly `tw` tokens and ends with the line's only newline, so the
/// block's non-blank lines are exactly its token lines.
pub proof fn lemma_tile_block_structure(
    img: SourceImage,
    tile_row: int,
    tile_col: int,
    tw: int,
    th: int,
)
    requires
        valid_tiling(img, tw, th),
        0 <= tile_row,
        0 <= tile_col,
    ensures
        tile_lines(img, tile_col * tw, tile_row * th, tw, th).len() == th,
        tile_block(img, tile_row, tile_col, tw, th) == tile_lines(
            img,
            tile_col * tw,
            tile_row * th,
            tw,
            th,
        ).flatten() + seq![10u8],
        forall|j: int| 0 <= j < th ==> #[trigger] tile_lines(
            img,
            tile_col * tw,
            tile_row * th,
            tw,
            th,
        )[j] == row_tokens(img, tile_row * th + j, tile_col * tw, tw).flatten() + seq![10u8],
        forall|j: int| 0 <= j < th ==> #[trigger] row_tokens(
            img,
            tile_row * th + j,
            tile_col * tw,
            tw,
        ).len() == tw,
        forall|j: int| 0 <= j < th ==> (#[trigger] tile_lines(
            img,
            tile_col * tw,
            tile_row * th,
            tw,
            th,
        )[j]).len() == 19 * tw + 1,
        forall|j: int, k: int| 0 <= j < th && 0 <= k < 19 * tw ==> (#[trigger] tile_lines(
            img,
            tile_col * tw,
            tile_row * th,
            tw,
            th,
        )[j][k]) != 10,
        forall|j: int| 0 <= j < th ==> (#[trigger] tile_lines(
            img,
            tile_col * tw,
            tile_row * th,
            tw,
            th,
        )[j]).last() == 10u8,
{
    let x0: int = tile_col * tw;
    let y0: int = tile_row * th;
    lemma_tile_rows_is_flatten(img, x0, y0, tw, th);
    tile_lines(img, x0, y0, tw, th).lemma_flatten_and_flatten_alt_are_equivalent();
    assert forall|j: int| 0 <= j < th implies {
        &&& #[trigger] tile_lines(img, x0, y0, tw, th)[j] == row_tokens(img, y0 + j, x0, tw)
            .flatten() + seq![10u8]
        &&& row_tokens(img, y0 + j, x0, tw).len() == tw
        &&& tile_lines(img, x0, y0, tw, th)[j].len() == 19 * tw + 1
        &&& tile_lines(img, x0, y0, tw, th)[j].last() == 10u8
        &&& forall|k: int| 0 <= k < 19 * tw ==> tile_lines(img, x0, y0, tw, th)[j][k] != 10
    } by {
        lemma_row_line_shape(img, y0 + j, x0, tw);
    }
}

/// The first `n` tile blocks laid end to end are exactly the bytes the walk
/// emits for the first `n` tiles.
proof fn lemma_tiles_prefix_is_flatten(img: SourceImage, tw: int, th: int, n: int)
    requires
        valid_tiling(img, tw, th),
        0 <= n <= tile_blocks(img, tw, th).len(),
    ensures
        tiles_prefix(img, tw, th, n) == tile_blocks(img, tw, th).take(n).flatten_alt(),
    decreases n,
{
    let blocks = tile_blocks(img, tw, th);
    if n == 0 {
        assert(blocks.take(0) =~= Seq::<Seq<u8>>::empty());
        assert(blocks.take(0).flatten_alt() =~= Seq::<u8>::empty());
    } else {
        lemma_tiles_prefix_is_flatten(img, tw, th, n - 1);
        assert(blocks.take(n).drop_last() =~= blocks.take(n - 1));
        assert(blocks.take(n).last() == tile_block(
            img,
            (n - 1) / tiles_wide(img, tw),
            (n - 1) % tiles_wide(img, tw),
            tw,
            th,
        ));
        assert(blocks.take(n).flatten_alt() == blocks.take(n).drop_last().flatten_alt()
            + blocks.take(n).last());
    }
}

/// The output is exactly one block per tile: the concatenation, in row-major
/// order over the tile grid, of `tiles_wide * tiles_high` tile blocks and
/// nothing else.
pub proof fn lemma_output_is_tile_blocks(img: SourceImage, tw: int, th: int)
    requires
        valid_tiling(img, tw, th),
    ensures
        tile_blocks(img, tw, th).len() == tiles_wide(img, tw) * tiles_high(img, th),
        output_bytes(img, tw, th) == tile_blocks(img, tw, th).flatten(),
{
    let n: int = tiles_wide(img, tw) * tiles_high(img, th);
    lemma_div_pos_is_pos(img.width as int, tw);
    lemma_div_pos_is_pos(img.height as int, th);
    lemma_mul_nonnegative(tiles_wide(img, tw), tiles_high(img, th));
    let blocks = tile_blocks(img, tw, th);
    lemma_tiles_prefix_is_flatten(img, tw, th, n);
    assert(blocks.take(n) =~= blocks);
    blocks.lemma_flatten_and_flatten_alt_are_equivalent();
}

/// How many blank lines a byte text holds: a blank line is a newline that
/// begins a line, i.e. one standing at the start of the text or immediately
/// after another newline.
pub open spec fn count_blank_lines(s: Seq<u8>) -> int
    decreases s.len(),
{
    if s.len() == 0 {
        0
    } else if s.last() == 10 && (s.len() == 1 || s[s.len() - 2] == 10) {
        count_blank_lines(s.drop_last()) + 1
    } else {
        count_blank_lines(s.drop_last())
    }
}

/// Blank lines count piece by piece across a concatenation whose right part
/// does not begin with a newline.
proof fn lemma_count_blank_lines_concat(a: Seq<u8>, b: Seq<u8>)
    requires
        b.len() > 0 ==> b[0] != 10,
    ensures
        count_blank_lines(a + b) == count_blank_lines(a) + count_blank_lines(b),
    decreases b.len(),
{
    if b.len() == 0 {
        assert(a + b =~= a);
    } else {
        lemma_count_blank_lines_concat(a, b.drop_last());
        assert((a + b).drop_last() =~= a + b.drop_last());
    }
}

/// A text with no newline at all has no blank line.
proof fn lemma_count_blank_lines_none(s: Seq<u8>)
    requires
        forall|k: int| 0 <= k < s.len() ==> s[k] != 10,
    ensures
        count_blank_lines(s) == 0,
    decreases s.len(),
{
    if s.len() > 0 {
        lemma_count_blank_lines_none(s.drop_last());
    }
}

/// One emitted line is never blank: it starts with a token byte and its only
/// newline is the terminator.
proof fn lemma_row_line_blank_lines(img: SourceImage, y: int, x0: int, tw: int)
    requires
        tw >= 1,
    ensures
        count_blank_lines(row_line(img, y, x0, tw)) == 0,
        row_line(img, y, x0, tw).len() == 19 * tw + 1,
        row_line(img, y, x0, tw)[0] == 100,
        row_line(img, y, x0, tw).last() == 10,
{
    lemma_row_bytes_shape(img, y, x0, tw);
    lemma_count_blank_lines_none(row_bytes(img, y, x0, tw));
    let line = row_line(img, y, x0, tw);
    assert(line.drop_last() =~= row_bytes(img, y, x0, tw));
    assert(line[line.len() - 2] == row_bytes(img, y, x0, tw)[19 * tw - 1]);
}

/// A tile's rows hold no blank line: every line ends with its own newline
/// and the next line starts with a token byte.
proof fn lemma_tile_rows_blank_lines(img: SourceImage, x0: int, y0: int, tw: int, n: int)
    requires
        tw >= 1,
        n >= 0,
    ensures
        count_blank_lines(tile_rows(img, x0, y0, tw, n)) == 0,
        tile_rows(img, x0, y0, tw, n).len() == n * (19 * tw + 1),
        n > 0 ==> tile_rows(img, x0, y0, tw, n)[0] == 100,
        n > 0 ==> tile_rows(img, x0, y0, tw, n).last() == 10,
    decreases n,
{
    if n > 0 {
        lemma_tile_rows_blank_lines(img, x0, y0, tw, n - 1);
        lemma_row_line_blank_lines(img, y0 + n - 1, x0, tw);
        lemma_count_blank_lines_concat(
            tile_rows(img, x0, y0, tw, n - 1),
            row_line(img, y0 + n - 1, x0, tw),
        );
        assert(n * (19 * tw + 1) == (n - 1) * (19 * tw + 1) + (19 * tw + 1))
            by (nonlinear_arith);
    }
}

/// Each tile block contains exactly one blank line: the one emitted after
/// its rows to separate it from the next block.
proof fn lemma_tile_block_blank_lines(
    img: SourceImage,
    tile_row: int,
    tile_col: int,
    tw: int,
    th: int,
)
    requires
        tw >= 1,
        th >= 1,
    ensures
        count_blank_lines(tile_block(img, tile_row, tile_col, tw, th)) == 1,
        tile_block(img, tile_row, tile_col, tw, th)[0] == 100,
{
    let rows = tile_rows(img, tile_col * tw, tile_row * th, tw, th);
    let block = tile_block(img, tile_row, tile_col, tw, th);
    lemma_tile_rows_blank_lines(img, tile_col * tw, tile_row * th, tw, th);
    assert(rows.len() >= 19 * tw + 1) by (nonlinear_arith)
        requires
            th >= 1,
            tw >= 1,
            rows.len() == th * (19 * tw + 1),
    ;
    assert(block.drop_last() =~= rows);
    assert(block[block.len() - 2] == rows.last());
}

/// The first `n` tiles contribute exactly `n` blank lines.
proof fn lemma_tiles_prefix_blank_lines(img: SourceImage, tw: int, th: int, n: int)
    requires
        tw >= 1,
        th >= 1,
        n >= 0,
    ensures
        count_blank_lines(tiles_prefix(img, tw, th, n)) == n,
    decreases n,
{
    if n > 0 {
        let block = tile_block(
            img,
            (n - 1) / tiles_wide(img, tw),
            (n - 1) % tiles_wide(img, tw),
            tw,
            th,
        );
        lemma_tiles_prefix_blank_lines(img, tw, th, n - 1);
        lemma_tile_block_blank_lines(
            img,
            (n - 1) / tiles_wide(img, tw),
            (n - 1) % tiles_wide(img, tw),
            tw,
            th,
        );
        lemma_count_blank_lines_concat(tiles_prefix(img, tw, th, n - 1), block);
    }
}

/// The output text contains exactly one blank line per tile: the number of
/// blank-line-delimited groups it falls into equals
/// `tiles_wide * tiles_high`, since every group ends with its one blank line.
pub proof fn lemma_output_blank_line_count(img: SourceImage, tw: int, th: int)
    requires
        valid_tiling(img, tw, th),
    ensures
        count_blank_lines(output_bytes(img, tw, th)) == tiles_wide(img, tw) * tiles_high(
            img,
            th,
        ),
{
    lemma_div_pos_is_pos(img.width as int, tw);
    lemma_div_pos_is_pos(img.height as int, th);
    lemma_mul_nonnegative(tiles_wide(img, tw), tiles_high(img, th));
    lemma_tiles_prefix_blank_lines(img, tw, th, tiles_wide(img, tw) * tiles_high(img, th));
}

/// Conversion is deterministic: any two output texts produced from the same
/// image and the same tile size are byte-for-byte identical.
pub proof fn lemma_convert_deterministic(
    img: SourceImage,
    tw: int,
    th: int,
    out1: Seq<u8>,
    out2: Seq<u8>,
)
    requires
        out1 == output_bytes(img, tw, th),
        out2 == output_bytes(img, tw, th),
    ensures
        out1 == out2,
{
}

} // verus!
