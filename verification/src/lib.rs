//! Renders a raster image as a grid of characters, or of coloured cells,
//! sized for a terminal.
//!
//! An image is cut into equal blocks of pixels, one block per character
//! cell. Each block is reduced either to its mean brightness, which picks
//! a character from a palette, or to its mean colour, which paints the
//! background of a blank cell.

pub mod bitmap;
pub mod cluster;
pub mod error;
pub mod palette;
pub mod render;
pub mod sampler;
pub mod terminal;

pub use bitmap::{Bitmap, Rgb};
pub use cluster::{calculate_clustersize, Cluster};
pub use error::ConvertError;
pub use palette::{default_palette, pick_char_from_palette};
pub use render::to_ascii;
pub use sampler::{get_brightness_of_cluster, get_colour_of_cluster};
pub use terminal::get_terminal_size;
