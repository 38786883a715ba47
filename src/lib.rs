//! A click-through text overlay anchored to the bottom-right corner of the
//! primary display: the decisions behind the window, its visual, its
//! protocol requests and the pixels it shows, stated and proved.
pub mod geometry;
pub mod raster;
pub mod overlay;
pub mod visual;
pub mod compositor;
pub mod window;
