//! Core model for a Celtic-knot tiling editor and a small cellular automaton.
//!
//! A user-toggled graph of connections lives on a quincunx (offset-row)
//! lattice of nodes.  Each unit tile of the display is classified, from the
//! connections that bound it, into a pair of `Cut` values plus row/column
//! parity, and that classification resolves to one of five glyphs at one of
//! four rotations with an optional horizontal mirror.  A separate
//! Game-of-Life grid evolves under the standard rule.  Rendering and input
//! polling live outside this crate; everything here is plain coordinate and
//! set arithmetic.

pub mod celtic;
pub mod edge;
pub mod life;
