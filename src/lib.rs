// Stamping and refreshing license headers in source files: rendering a
// license template for a context, reflowing pre-wrapped text, laying the
// header out as a comment of the file's language, building the pattern
// that recognises an earlier rendering with any year, and deciding per file
// whether the header is current, outdated or missing.
pub mod comments;
pub mod decision;
pub mod pattern;
pub mod template;
pub mod text;
pub mod wrap;
