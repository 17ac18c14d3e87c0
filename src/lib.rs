//! Generation of widget-construction code from a declarative widget tree.
//!
//! A [`widget::Widget`] tree is walked in preorder; each widget gets a unique
//! name from a [`names::NameRegistry`], and the code that builds, configures and
//! attaches it is appended, token by token, to a `quote::Tokens` buffer.

pub mod codegen;
pub mod names;
pub mod tokens;
pub mod widget;

pub use codegen::gen;
pub use names::{decimal_string, gen_widget_name, last_segment, NameRegistry};
pub use widget::{Event, Widget};
