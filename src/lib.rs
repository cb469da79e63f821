//! Encoding of text and binary data into QR Code symbols (Model 2, versions 1 to 40): segments
//! and bit packing, capacity planning, Reed-Solomon error correction, module placement and
//! mask selection, with a verified contract for each step; and rendering of a finished symbol
//! as an SVG document.

pub mod params;
pub mod bits;
pub mod segment;
pub mod qrcode;
mod reed_solomon;
mod grid;
mod drawing;
mod codewords;
mod placement;
pub mod penalty;
pub mod helper;
pub mod laws;
mod text;
