//! Constraint-based layout for a widget toolkit.
//!
//! Widgets report, one axis at a time, the range of sizes they accept
//! ([`layout::SizeRules`]). Solvers combine the rules of a container's
//! children into rules for the container, and setters turn a final
//! rectangle into one rectangle per child. Sizes are physical pixels.
//!
//! Around the solver stand the few other things that are decided in whole
//! pixels and small cases: where a pop-up goes ([`popup`]) and which pop-ups
//! a window has open ([`window`]), how large a simple theme makes a widget
//! ([`theme`]), what a sub-menu does about an event ([`menu`]), and what a
//! toolkit does about the events of its windows ([`toolkit`]).

pub mod geom;
pub mod layout;
pub mod menu;
pub mod popup;
pub mod theme;
pub mod toolkit;
pub mod window;
