//! Spiral tile layout library.
//!
//! The heart of the crate is a generator that places fixed-size square tiles
//! along an expanding spiral inside a bounding rectangle, keeping exactly the
//! samples whose tile lies fully inside the rectangle.  All geometry is done
//! in fixed-point integer arithmetic (micro-units), so the whole pipeline is
//! verified: the emitted positions are proved to stay inside the rectangle,
//! the sampling radius is proved to grow monotonically, and the number of
//! iterations is pinned down exactly.
//!
//! Around the generator sit the small page models of the demo application:
//! a static list of rows, a click counter, and the route table.

pub mod pages;
pub mod spiral;
pub mod trig;
