//! Parsing and validation of vers-like specifiers (VLS): the `<constraints>` part of a
//! vers URI, such as `>10.9a|!=10.9c|<=10.9k`.

pub mod comparator;
pub mod constraint;
pub mod error;
pub mod laws;
pub mod sorted;
pub mod text;
pub mod utils;
pub mod valid_chars;
pub mod version;
pub mod vls;

pub use comparator::{Comparator, EqualComparatorKind};
pub use constraint::VersionConstraint;
pub use error::{VersionConstraintError, VlsError};
pub use version::VersionString;
pub use vls::Vls;
