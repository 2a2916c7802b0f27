//! Converts delimited tabular text (CSV) into JSON values, driven by a
//! per-column schema that controls naming, type coercion and default values.
//!
//! The core pipeline is: resolve a partial user-supplied schema against the
//! CSV's header row and column count into one full definition per column,
//! then coerce each raw string cell into a typed JSON value, falling back to
//! the column's configured default on any parse failure.

pub mod column_def;
pub mod input;
pub mod json;
pub mod num;
pub mod parse;
pub mod text;
pub mod whoops;

pub use column_def::ColType;
pub use column_def::ColumnDef;
pub use column_def::ColumnDefOptions;
pub use input::FormattedInputs;
pub use input::InputArgs;
pub use input::InputService;
pub use json::JsonValue;
pub use parse::ParseService;
pub use parse::get_sanitise_err;
pub use parse::sanitise_number;
pub use whoops::Whoops;
pub use whoops::WhoopsBuilder;
