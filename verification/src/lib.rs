//! A grouped, searchable selection list for an emoji picker.
//!
//! The crate turns a flat catalog of emoji into sections by category, lays each
//! section out in rows of a fixed width, moves a cursor over that grid, and
//! picks the glyph that a skin-tone setting selects. Every function carries a
//! contract that Verus checks.

pub mod bar;
pub mod catalog;
pub mod grid;
pub mod grouping;
pub mod layout;
pub mod navigation;
pub mod picker;
pub mod search;
pub mod tone;
