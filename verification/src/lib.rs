//! Integer core of a no-reference image quality assessor: exposure, blur and
//! noise heuristics on 8-bit grayscale pixels, border handling for the
//! BRISQUE filters, the decode-and-size gate of the pipeline, and the
//! pass/fail decision of validation.
pub mod brisque;
pub mod heuristics;
pub mod moments;
pub mod pipeline;
pub mod text;
pub mod validation;
