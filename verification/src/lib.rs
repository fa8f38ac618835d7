//! Converts an in-memory raster image into a textual, tile-ordered dump of
//! 32-bit packed-pixel literals, suitable for inclusion as static data by an
//! assembler. The image is partitioned into a grid of fixed-size tiles; each
//! tile's pixels are emitted contiguously, row by row, as `data.32 0x...`
//! tokens, with a blank line after every tile.

pub mod convert;
pub mod encode;
pub mod pixel;
pub mod properties;
pub mod source_image;

pub use convert::convert;
pub use convert::emit_tile;
pub use convert::ConversionError;
pub use pixel::packed_pixel;
pub use pixel::Pixel;
pub use source_image::SourceImage;
