//! Client-side logic for a line-oriented pixel-drawing canvas server:
//! the wire-protocol codec, the response parsers, lookahead-ray
//! rasterization, the bouncing-sprite physics step, and the draw-command
//! generators, all with verified contracts.  Network transport, asset
//! decoding and the async runtime live outside this library.

pub mod args;
pub mod ball;
pub mod digits;
pub mod draw;
pub mod frame;
pub mod goal;
pub mod image;
pub mod line;
pub mod parse;
pub mod protocol;
pub mod sampler;
