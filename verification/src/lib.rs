//! Monte Carlo estimation of the probability that two random chords of a
//! convex regular polygon intersect inside the polygon.
//!
//! The library holds the verified core: polygon modelling on fixed-point
//! coordinates, random chord sampling on polygon edges, exact segment
//! intersection classification, trial execution and reduction, fixed-point
//! statistics, and the sweep bookkeeping. Device orchestration, threading
//! and report output live outside the library and hand it plain values.
pub mod engine;
pub mod errors;
pub mod geometry;
pub mod oracle;
pub mod polygon;
pub mod sampler;
pub mod stats;
pub mod sweep;
