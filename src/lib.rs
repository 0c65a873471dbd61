//! A spatial kernel-density estimator: points are splatted onto a dense grid
//! with a radius-bounded kernel, optionally smoothed over the 3x3
//! neighbourhood, and summarised into a quantized colour legend.

pub mod grid;
pub mod options;
pub mod density;
pub mod legend;
pub mod kernel;
pub mod heatmap;
