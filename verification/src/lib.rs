//! Iteration bookkeeping for perturbation rendering of the Mandelbrot set
//! with a series approximation: which coefficient rows are stored and read,
//! how the validity check of the approximation moves its probes, and how the
//! reference orbit's progress is counted.

pub mod grid;
pub mod iteration;
pub mod reference;
pub mod series;
