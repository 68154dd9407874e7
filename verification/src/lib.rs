//! The model behind a viewer for the uncommitted changes of a project.
//!
//! * [`git`] turns the raw comparison of a working tree with its last commit
//!   into per-file diffs and project-wide statistics.
//! * [`laws`] states what holds of that on every input.
//! * [`rows`] lays a diff out as rows: its lines, each preceded by the hunk
//!   headers that anchor it.
//! * [`state`] is the state of the viewer and how each event changes it.
//! * [`ui`] says what each widget shows, and [`style`] in which colour.
//! * [`text`] holds what these need of texts: numerals, padding, cutting.
//!
//! Nothing here reads a repository or draws on a screen. Every function is
//! a function of its arguments, so calls are independent of each other and
//! may run side by side.

pub mod git;
pub mod laws;
pub mod rows;
pub mod state;
pub mod style;
pub mod text;
pub mod ui;
