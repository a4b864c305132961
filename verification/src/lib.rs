//! Fixed-width histograms over fixed-point samples, and their rendering as a
//! column-aligned text bar chart.
//!
//! Every sample, bound and bucket width is an `i64` that counts thousandths,
//! so `2500` stands for 2.5 and labels are printed with three decimals.

pub mod histogram;
pub mod paint;
pub mod text;
pub mod writer;
