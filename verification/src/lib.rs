//! Parsing and rendering of human-readable duration strings.
//!
//! A duration string such as `"1h30m"` or `"1 jam 30 menit"` is a run of
//! `<number><unit>` components, where the unit may be spelled in any of a
//! fixed set of English and Indonesian aliases, short or long.  The library
//! parses such a string into an ordered list of [`TimeTuple`] components,
//! folds a component list into a single [`DurationValue`] with saturating
//! arithmetic, and renders a component list back into a canonical string,
//! coarsest scale first.
//!
//! Every function is specified against a mathematical model of the grammar
//! (see [`parse`]) and verified with Verus.

use vstd::prelude::*;

pub mod chars;
pub mod duration;
pub mod format;
pub mod parse;
pub mod scale;
pub mod tuple;

pub use duration::DurationValue;
pub use duration::accumulate_duration;
pub use format::expand_timestring;
pub use parse::ParseError;
pub use parse::parse_timestring;
pub use parse::parse_timestring_as_duration;
pub use scale::TimeScale;
pub use tuple::TimeTuple;
