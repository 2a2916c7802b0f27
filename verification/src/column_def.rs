//! Column definitions: the resolved, gap-free description of one CSV column,
//! and the raw, partial options a user may supply for it.

use vstd::prelude::*;
use crate::json::JsonValue;

verus! {

/// The intended JSON shape of a column's values.
#[derive(Clone, Copy, Debug, PartialEq, Eq, Structural)]
pub enum ColType {
    /// emitted as a JSON string
    String,
    /// emitted as a JSON number with no decimal point
    Integer,
    /// emitted as a regular JSON number
    Float,
    /// parsed as a calendar date, emitted as a Unix timestamp in seconds
    Date,
    /// emitted as JSON true or false
    Bool,
}

impl Default for ColType {
    /// Columns default to `String` when no type is configured.
    fn default() -> (t: Self)
        ensures
            t == ColType::String,
    {
        ColType::String
    }
}

/// A fully resolved column definition: one per CSV column, by position,
/// immutable once built. Every coercion decision for a column reads from
/// this record.
#[derive(Debug)]
pub struct ColumnDef {
    pub col_type: ColType,
    /// the JSON object key to emit
    pub col_name: String,
    /// date format; only meaningful when `col_type` is `Date`
    pub col_format: String,
    /// the exact text parsed as true; only meaningful when `col_type` is `Bool`
    pub col_true_string: String,
    /// the exact text parsed as false; only meaningful when `col_type` is `Bool`
    pub col_false_string: String,
    /// emitted whenever coercion of a cell fails
    pub col_default: JsonValue,
}

/// User input for column options: every field optional; absence means "use
/// the default or derive from the header". Never used directly for coercion,
/// only as input to schema resolution.
#[derive(Debug)]
pub struct ColumnDefOptions {
    pub col_type: Option<ColType>,
    pub col_name: Option<String>,
    pub col_format: Option<String>,
    pub col_true_string: Option<String>,
    pub col_false_string: Option<String>,
    pub col_default: Option<JsonValue>,
}

impl Default for ColumnDefOptions {
    /// Options with every field absent: resolution fills each from its default.
    fn default() -> (o: Self)
        ensures
            o.col_type is None,
            o.col_name is None,
            o.col_format is None,
            o.col_true_string is None,
            o.col_false_string is None,
            o.col_default is None,
    {
        ColumnDefOptions {
            col_type: None,
            col_name: None,
            col_format: None,
            col_true_string: None,
            col_false_string: None,
            col_default: None,
        }
    }
}

} // verus!
