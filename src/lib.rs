//! Preparation of multi-asset price histories for a trading model.
//!
//! A global price matrix (one row per asset, one column per period, led by a
//! riskless row) is cut into overlapping windows, each normalized by the prices
//! at its last period and paired with the price change over the period that
//! follows; the windows and change rates are then grouped into mini-batches.
//! Each normalized value is handed out as the exact pair `num / den`.
pub mod batch;
pub mod error;
pub mod matrix;
pub mod window;

pub use batch::make_mini_batches;
pub use error::ShapeError;
pub use matrix::build_global_price_matrix;
pub use window::{make_local_price_matrix, Ratio};
