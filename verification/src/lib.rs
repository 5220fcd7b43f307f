//! The logic behind the Elixir bindings of the Vize Vue.js toolchain: the
//! Vapor IR as Erlang-shaped terms, the split of a template into static HTML
//! and dynamic slots, and the answers about compiles, lints, style sheets and
//! single-file components.

pub mod compile;
pub mod css;
pub mod elements;
pub mod encode;
pub mod html;
pub mod ir;
pub mod lower;
pub mod markers;
pub mod reparse;
pub mod sfc;
pub mod split;
pub mod term;
pub mod text;
pub mod vapor;
