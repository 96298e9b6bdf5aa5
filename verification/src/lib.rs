//! Cascading theme styles rendered as CSS custom properties.
//!
//! A theme family document lists themes. Each theme's style is laid over a
//! shared default style, key by key, and the result is written out as one
//! stylesheet of `--name: value;` declarations per theme, together with a
//! descriptor of the theme and an index that imports the stylesheets.
//!
//! - [`names`] gives every variable and file its canonical name.
//! - [`json`] reads JSON documents through `serde_json` and models what
//!   they hold.
//! - [`resolve`] lays a theme's style over the default style.
//! - [`render`] writes the resolved declarations as a stylesheet.
//! - [`family`] processes all themes of one family document.
//! - [`text`] holds small tools for building text.
//!
//! Nothing here reads or writes files: callers hand in text or parsed
//! documents and get text back.

pub mod family;
pub mod json;
pub mod names;
pub mod render;
pub mod resolve;
pub mod text;
