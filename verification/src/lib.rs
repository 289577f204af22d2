//! Line-breaking and inline-arrangement core of a document layout engine.
//!
//! Pre-sized content boxes tagged with an alignment are packed along the
//! cross axis into lines; a line break is inserted when content no longer
//! fits, and finished lines are handed to a stacking layouter that arranges
//! them along the main axis across one or more bounded spaces.
//!
//! All lengths are integer layout units.  Every extent that enters the
//! layouters is bounded by [`geom::extent_limit`], which keeps all internal
//! arithmetic free of overflow.

pub mod geom;
pub mod stack;
pub mod line;
pub mod laws;
