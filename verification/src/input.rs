//! The column schema resolver and input shaping: reconciles the user's
//! partial column configuration with the CSV's actual header row and column
//! count, producing one fully populated definition per column.

use vstd::prelude::*;
use crate::column_def::ColType;
use crate::column_def::ColumnDef;
use crate::column_def::ColumnDefOptions;
use crate::json::JsonData;
use crate::json::JsonValue;
use crate::text::dec_str;
use crate::text::index_to_string;

verus! {

/// User arguments passed in to the program.
pub struct InputArgs<'a> {
    /// path of the CSV file to take as input
    pub csv_path: &'a str,
    /// path of the JSON file to output
    pub out_path: Option<&'a str>,
    /// path of the JSON file holding the configuration
    pub config_path: Option<&'a str>,
}

/// Formatted inputs to the conversion: the complete resolved schema, the
/// records extracted from the CSV, and the desired output path. Built once
/// per run and consumed once by the row assembler.
pub struct FormattedInputs {
    /// complete schema generated from defaults and user input
    pub schema: Vec<ColumnDef>,
    /// records extracted from the CSV file
    pub records: Vec<Vec<String>>,
    /// the desired output path of the resulting JSON file
    pub output_path: String,
}

/// The options governing column i: the user's entry at that position, or
/// empty options past the end of the user's list.
pub open spec fn opt_at(config: Seq<ColumnDefOptions>, i: int) -> ColumnDefOptions {
    if 0 <= i < config.len() {
        config[i]
    } else {
        ColumnDefOptions {
            col_type: None,
            col_name: None,
            col_format: None,
            col_true_string: None,
            col_false_string: None,
            col_default: None,
        }
    }
}

/// Name precedence: the configured name if present, else the CSV header at
/// this position, else the column index in decimal.
pub open spec fn resolved_name(
    opt: ColumnDefOptions,
    headers: Seq<Seq<char>>,
    i: int,
) -> Seq<char> {
    match opt.col_name {
        Some(n) => n@,
        None => if 0 <= i < headers.len() {
            headers[i]
        } else {
            dec_str(i as nat)
        },
    }
}

/// The configured type if present, else `String`.
pub open spec fn resolved_type(opt: ColumnDefOptions) -> ColType {
    match opt.col_type {
        Some(t) => t,
        None => ColType::String,
    }
}

/// The configured default if present, else JSON null.
pub open spec fn resolved_default(opt: ColumnDefOptions) -> JsonData {
    match opt.col_default {
        Some(v) => v@,
        None => JsonData::Null,
    }
}

/// The date format: only a date column reads its configured format; every
/// other column keeps the fallback format.
pub open spec fn resolved_format(opt: ColumnDefOptions) -> Seq<char> {
    if resolved_type(opt) == ColType::Date {
        match opt.col_format {
            Some(f) => f@,
            None => "%d/%m/%Y"@,
        }
    } else {
        "%d/%m/%Y"@
    }
}

/// The text read as true: only a bool column reads its configured token.
pub open spec fn resolved_true_string(opt: ColumnDefOptions) -> Seq<char> {
    if resolved_type(opt) == ColType::Bool {
        match opt.col_true_string {
            Some(t) => t@,
            None => "true"@,
        }
    } else {
        "true"@
    }
}

/// The text read as false: only a bool column reads its configured token.
pub open spec fn resolved_false_string(opt: ColumnDefOptions) -> Seq<char> {
    if resolved_type(opt) == ColType::Bool {
        match opt.col_false_string {
            Some(t) => t@,
            None => "false"@,
        }
    } else {
        "false"@
    }
}

/// One fully resolved column: every field exactly as the resolver derives
/// it from the options at position i and the header row.
pub open spec fn def_resolves(
    def: ColumnDef,
    opt: ColumnDefOptions,
    headers: Seq<Seq<char>>,
    i: int,
) -> bool {
    &&& def.col_type == resolved_type(opt)
    &&& def.col_name@ == resolved_name(opt, headers, i)
    &&& def.col_format@ == resolved_format(opt)
    &&& def.col_true_string@ == resolved_true_string(opt)
    &&& def.col_false_string@ == resolved_false_string(opt)
    &&& def.col_default@ == resolved_default(opt)
}

/// Utilities for handling file and user inputs: completes the user's schema
/// configuration with defaults and shapes the collected inputs.
pub struct InputService();

impl InputService {
    /// Completes the user's schema configuration with defaults: always
    /// returns exactly `required_len` definitions, whatever length the
    /// user's list has — a short list is padded with empty options, a long
    /// one ignored past the column count — and resolves every field by its
    /// precedence rule.
    pub fn fill_schema_defaults(
        input_config: Vec<ColumnDefOptions>,
        headers: Vec<String>,
        required_len: usize,
    ) -> (r: Vec<ColumnDef>)
        ensures
            r@.len() == required_len,
            forall|i: int| 0 <= i < required_len ==> def_resolves(
                #[trigger] r@[i],
                opt_at(input_config@, i),
                headers.deep_view(),
                i,
            ),
    {
        let ghost orig = input_config@;
        let mut config = input_config;
        let mut r: Vec<ColumnDef> = Vec::new();
        let mut i: usize = 0;
        while i < required_len
            invariant
                i <= required_len,
                config@ == if i as int <= orig.len() {
                    orig.skip(i as int)
                } else {
                    Seq::<ColumnDefOptions>::empty()
                },
                r@.len() == i,
                forall|j: int| 0 <= j < i ==> def_resolves(
                    #[trigger] r@[j],
                    opt_at(orig, j),
                    headers.deep_view(),
                    j,
                ),
            decreases required_len - i,
        {
            let opt = if config.len() > 0 {
                config.remove(0)
            } else {
                ColumnDefOptions::default()
            };
            proof {
                assert(opt == opt_at(orig, i as int));
            }
            let col_type: ColType = match opt.col_type {
                Some(t) => t,
                None => ColType::String,
            };
            let name: String = match opt.col_name {
                Some(n) => n,
                None => {
                    if i < headers.len() {
                        proof {
                            assert(headers.deep_view()[i as int] == headers@[i as int]@);
                        }
                        headers[i].clone()
                    } else {
                        index_to_string(i)
                    }
                },
            };
            let default: JsonValue = match opt.col_default {
                Some(v) => v,
                None => JsonValue::Null,
            };
            let format: String = match col_type {
                ColType::Date => match opt.col_format {
                    Some(f) => f,
                    None => "%d/%m/%Y".to_owned(),
                },
                _ => "%d/%m/%Y".to_owned(),
            };
            let true_string: String = match col_type {
                ColType::Bool => match opt.col_true_string {
                    Some(t) => t,
                    None => "true".to_owned(),
                },
                _ => "true".to_owned(),
            };
            let false_string: String = match col_type {
                ColType::Bool => match opt.col_false_string {
                    Some(t) => t,
                    None => "false".to_owned(),
                },
                _ => "false".to_owned(),
            };
            r.push(
                ColumnDef {
                    col_type,
                    col_name: name,
                    col_format: format,
                    col_true_string: true_string,
                    col_false_string: false_string,
                    col_default: default,
                },
            );
            i = i + 1;
        }
        r
    }

    /// Shapes the collected inputs: resolves the schema against the header
    /// row, passes the records through, and settles the output path — the
    /// given path when one was supplied, "data.json" otherwise.
    pub fn format_inputs(
        config: Vec<ColumnDefOptions>,
        headers: Vec<String>,
        records: Vec<Vec<String>>,
        out_path: Option<&str>,
    ) -> (r: FormattedInputs)
        ensures
            r.schema@.len() == headers@.len(),
            forall|i: int| 0 <= i < headers@.len() ==> def_resolves(
                #[trigger] r.schema@[i],
                opt_at(config@, i),
                headers.deep_view(),
                i,
            ),
            r.records == records,
            r.output_path@ == match out_path {
                Some(p) => p@,
                None => "data.json"@,
            },
    {
        let required_len = headers.len();
        let output_path: String = match out_path {
            Some(p) => p.to_owned(),
            None => "data.json".to_owned(),
        };
        let schema = Self::fill_schema_defaults(config, headers, required_len);
        FormattedInputs { schema, records, output_path }
    }
}

} // verus!
