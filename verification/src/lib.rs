//! The discrete side of a sphere path tracer: everything the renderer does
//! with whole numbers, proved correct.
//!
//! * [`integrator`] decides how a path of light goes on at each ray: when it
//!   is cut, when it ends, and with how much depth it bounces on.
//! * [`schedule`] hands the rows of the image out to workers and puts the
//!   finished rows back in order.
//! * [`pixel`] and [`raster`] hold quantised 8-bit pixels and lay them out,
//!   top row first, in an image buffer.
//! * [`file`] writes a pixel grid as plain-text PPM.
//! * [`decimal`] is the numeral writer underneath the PPM text.
//!
//! The colours themselves are floating-point work and are no part of this
//! crate.

pub mod decimal;
pub mod file;
pub mod integrator;
pub mod pixel;
pub mod raster;
pub mod schedule;
