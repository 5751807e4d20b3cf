//! Integer core of a Whitted-style raytracer: surface rules, the search for the
//! nearest hit over IEEE-754 distance encodings, the reflection depth bound,
//! pixel quantisation and the bottom-up layout of the frame buffer.

pub mod distance;
pub mod pixel;
pub mod raster;
pub mod shading;
pub mod surface;

pub use distance::{hit_before, is_nan_bits, less_bits, nearest_hit, INFINITY};
pub use pixel::{pack_rgb, pixel_of_scaled, quantize, MAX_PIXEL};
pub use raster::{raster_index, Frame, sample_coords, store_flipped};
pub use shading::{reflection_depth, MAX_DEPTH};
pub use surface::{is_odd_cell, CheckBoard, Cell, Shiny, Surface, Tone};
