//! Core of a grayscale-to-CNC toolpath pipeline: dense height fields with
//! fixed-point samples, grayscale morphological compensation through a 2-D
//! convolution over the max-plus (tropical) semiring — sequential and
//! parallel, proved to agree — thresholding into binary fields, sub-pixel
//! contour extraction per 2x2 cell, and an exact 2-D half-line intersection
//! solver.  Raster decoding and encoding, configuration loading and command
//! handling live outside this library and exchange plain samples with it.

pub mod bit_map;
pub mod config;
pub mod grid;
pub mod height_map;
pub mod segment;
