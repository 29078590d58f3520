//! Style resolution for a markup-in-script transpiler.
//!
//! A source unit is given as the part of its syntax tree that matters here
//! ([`syntax`]). From it the source tree is built, an `ego_tree::Tree` of
//! elements and fragments ([`tree`], [`node`]), together with the record
//! that leads from the span of each markup node to its tree node
//! ([`record`], [`span`]). [`rows`] states what markup adds to the tree,
//! [`visitor`] holds the passes that do it, and the pass that writes the
//! styles resolved for the nodes back into the `style` attributes of the
//! markup, as [`merge`] has them merged. [`laws`] states what holds of both
//! for every input.
//!
//! [`style_properties`] holds the style values: what a parsed declaration
//! comes to for each kind of property, and the expression that it is
//! lowered to on each of the two platforms.

pub mod laws;
pub mod merge;
pub mod node;
pub mod record;
pub mod rows;
pub mod span;
pub mod style_properties;
pub mod syntax;
pub mod text;
pub mod tree;
pub mod visitor;
