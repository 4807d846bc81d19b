//! The decisions of a path tracer for a scene given as a signed distance
//! field: which surface a point is closest to, when a march along a ray
//! lands, moves on or gives up, what becomes of a light path where its ray
//! ends, which strokes make up the lettering of the scene, and which pixel of
//! the image a sample belongs to.
//!
//! Distances, directions and colours are the caller's to compute. What is
//! decided from them is decided here, on comparisons, counts and kinds, and
//! every function says in its contract what it decides.

pub mod hit;
pub mod image;
pub mod letters;
pub mod march;
pub mod order;
pub mod path;
pub mod scene;

pub use hit::Hit;
pub use order::min;
pub use letters::{Segment, Stroke};
pub use march::{March, Marcher, Sample};
pub use path::{Bounce, Path};
pub use scene::nearest;
