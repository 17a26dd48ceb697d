//! Simple customizable string templating.
//!
//! A [`template::Template`] owns a source text and the positions of the
//! placeholders that a pattern finds in it. Rendering copies the text between
//! the placeholders and puts, for each placeholder, the value that the data
//! holds under the placeholder's name. A placeholder without a value is an
//! error for [`template::Template::render`] and stays as written for
//! [`template::Template::render_nofail`].
//!
//! ```text
//! let template = Template::new("Something {data1} be {data2}, and { not here }");
//! let mut data = HashMap::new();
//! data.insert("data1", "should");
//! assert_eq!(
//!     template.render_nofail(&data),
//!     "Something should be {data2}, and { not here }",
//! );
//! ```
//!
//! The placeholders are found with a regular expression of the `regex`
//! crate: the built-in one, [`matcher::DEFAULT_PATTERN`], or any other whose
//! first capture group is the placeholder's name
//! ([`template::Template::with_regex`]).
//!
//! What is proved: rendering never panics or reads outside the source, and
//! its result is the one that [`rendering::rendered`] and
//! [`rendering::rendered_strictly`] define. What a regular expression matches
//! is taken from the `regex` crate as it is.
pub mod error;
pub mod lookup;
pub mod matcher;
pub mod rendering;
pub mod template;
pub mod text;
