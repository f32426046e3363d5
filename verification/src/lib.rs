//! A verified core for a 2D card-table scene.
//!
//! The library lays out a standard 52-card deck on a grid, models each
//! card's orientation (and the face it currently shows) as a small state
//! machine, converts pointer positions from viewport pixels to world
//! coordinates, and routes click events to flip requests.
//!
//! All geometry is kept in integer world units and all angles in tenths of
//! a degree, so every rule here is exact; conversion to the renderer's
//! floating-point types is the caller's concern.

pub mod catalog;
pub mod layout;
pub mod orientation;
pub mod pointer;
pub mod dispatch;
