//! Commit heat-map calendar: a trailing one-year window aligned to whole
//! weeks, per-day commit counts, intensity levels relative to the busiest
//! day, and the week-column grid with its month label row.
//!
//! The stages, each handing its result to the next:
//!
//! - [`window`]: the reporting window that ends today;
//! - [`source`]: the commit times that the version-control tool has listed;
//! - [`bucket`]: the number of commits on each day of the window;
//! - [`intensity`]: the level of each day relative to the busiest day;
//! - [`grid`]: the levels in week columns, and the month labels above them;
//! - [`render`]: the grid as lines of text;
//! - [`report`]: all of these in a row.
//!
//! [`calendar`] holds the days that the window is made of. Converting
//! between civil dates, day numbers and points in time is done by `chrono`,
//! behind the functions of [`gregorian`]; everything else is verified.

pub mod bucket;
pub mod calendar;
pub mod gregorian;
pub mod grid;
pub mod intensity;
pub mod render;
pub mod report;
pub mod source;
pub mod window;
