/// The pixel buffer and the rasterizer that draws figures into it.
pub mod canvas;
/// Command-line options of the drawing program.
pub mod cli;
/// Default canvas size and stock colors.
pub mod constants;
/// Extent of a rectangle.
pub mod dims;
/// The drawable figures and the ordering of their points.
pub mod figure;
/// Pixel coordinates, their order, and interpolation along a line.
pub mod point;
/// The plain-text pixel dump of a canvas.
pub mod ppm;
