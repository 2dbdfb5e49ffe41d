//! Outer wrapping boundary of a set of circles.
//!
//! Given a set of circles, the wrapping pipeline removes circles that are
//! enclosed by another, computes the common tangent segments of every
//! remaining pair, collects the tangent endpoints into a registry keyed by
//! exact coordinate identity, and resolves the vertices of the convex hull
//! of those endpoints back to their originating circles.
//!
//! The numeric work (distances, tangent normals, the hull sweep itself) is
//! the host's: it runs on machine floating point, which this library does
//! not touch. The library works on coordinates as opaque exact values (the
//! host's 32-bit encodings), which it only compares for identity, packs
//! into registry keys, and hands back. Everything here — slot assembly,
//! enclosure filtering, pair enumeration, deduplication, hull resolution —
//! is verified against the contracts in each module.

pub mod circle;
pub mod registry;
pub mod tangent_slots;
pub mod enclosure;
pub mod pairs;
pub mod collector;
pub mod hull;
pub mod polygon;
pub mod scene;
pub mod unordered;
