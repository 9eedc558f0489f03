//! Index handling of the BRISQUE filters: borders and neighbours.
pub mod features;
pub mod mscn;
