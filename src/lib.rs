//! Integer side of a small ray tracer: the text encoding of pixel colours,
//! the plain-text PPM framing and the scan order of the pixel grid.
pub mod decimal;
pub mod ppm;
pub mod scan;
