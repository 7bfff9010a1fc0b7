//! Builders for the vertex and face tables of three solids: the icosahedron,
//! the dodecahedron (plain and with face centers) and the C60 truncated
//! icosahedron (plain and with face centers).
//!
//! Every coordinate produced here lies in the field of numbers of the form
//! `(a + b*sqrt(5)) / d` with integer `a`, `b`, `d`, since the golden ratio
//! `(1 + sqrt(5)) / 2` generates all of them.  Coordinates are therefore kept
//! exactly, and every builder's output is pinned down by its contract.

pub mod c60;
pub mod dodecahedron;
pub mod icosahedron;
pub mod point;
pub mod polyhedron;
pub mod scalar;

pub use c60::C60;
pub use c60::C60Center;
pub use dodecahedron::Dodecahedron;
pub use dodecahedron::DodecahedronCenter;
pub use icosahedron::Icosahedron;
pub use point::GeomError;
pub use point::Point3;
pub use scalar::Scalar;
