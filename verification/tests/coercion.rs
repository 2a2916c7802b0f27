use sane_csv_json_lib::column_def::ColType;
use sane_csv_json_lib::column_def::ColumnDef;
use sane_csv_json_lib::column_def::ColumnDefOptions;
use sane_csv_json_lib::input::InputService;
use sane_csv_json_lib::json::JsonValue;
use sane_csv_json_lib::parse::ParseService;
use sane_csv_json_lib::parse::sanitise_number;

fn def(col_type: ColType) -> ColumnDef {
    ColumnDef {
        col_type,
        col_name: "col".to_string(),
        col_format: "%d/%m/%Y".to_string(),
        col_true_string: "true".to_string(),
        col_false_string: "false".to_string(),
        col_default: JsonValue::Null,
    }
}

#[test]
fn sanitise_keeps_digits_dots_and_leading_minus() {
    assert_eq!(sanitise_number("$1,234.56"), "1234.56");
    assert_eq!(sanitise_number("-42 kg"), "-42");
    assert_eq!(sanitise_number("a-b1"), "1");
    assert_eq!(sanitise_number(""), "");
    assert_eq!(sanitise_number("- 5"), "-5");
}

#[test]
fn sanitise_is_idempotent_on_samples() {
    for s in ["$1,234.56", "-42 kg", "a-b1", "", "--7", "1.2.3", "-"] {
        let once = sanitise_number(s);
        let twice = sanitise_number(&once);
        assert_eq!(once, twice);
    }
}

#[test]
fn parse_i32_reads_cleaned_integers() {
    assert_eq!(ParseService::parse_i32("42").unwrap(), 42);
    assert_eq!(ParseService::parse_i32("$1,234").unwrap(), 1234);
    assert_eq!(ParseService::parse_i32("-17").unwrap(), -17);
    assert_eq!(ParseService::parse_i32("2147483647").unwrap(), 2147483647);
    assert_eq!(ParseService::parse_i32("-2147483648").unwrap(), -2147483648);
}

#[test]
fn parse_i32_rejects_malformed_or_out_of_range() {
    assert!(ParseService::parse_i32("2147483648").is_err());
    assert!(ParseService::parse_i32("-2147483649").is_err());
    assert!(ParseService::parse_i32("12.5").is_err());
    assert!(ParseService::parse_i32("").is_err());
    assert!(ParseService::parse_i32("abc").is_err());
    let err = ParseService::parse_i32("oops").unwrap_err();
    assert_eq!(err.err_type, "sanitise-i32-error");
    assert_eq!(err.why, " is not parsable as a i32");
}

#[test]
fn parse_float_accepts_one_decimal_point() {
    assert_eq!(ParseService::parse_float("3.14").unwrap(), "3.14");
    assert_eq!(ParseService::parse_float("-2.50 EUR").unwrap(), "-2.50");
    assert_eq!(ParseService::parse_float("$ -2.50").unwrap(), "2.50");
    assert_eq!(ParseService::parse_float("5.").unwrap(), "5.");
    assert_eq!(ParseService::parse_float("7").unwrap(), "7");
}

#[test]
fn parse_float_rejects_malformed() {
    assert!(ParseService::parse_float("1.2.3").is_err());
    assert!(ParseService::parse_float("").is_err());
    assert!(ParseService::parse_float(".").is_err());
    let err = ParseService::parse_float("x").unwrap_err();
    assert_eq!(err.err_type, "sanitise-f64-error");
}

#[test]
fn parse_date_round_trips_through_chrono() {
    // the same text and format, read independently with chrono, must give
    // the timestamp the engine emits
    let t = ParseService::parse_date("2020-01-15", "%Y-%m-%d").unwrap();
    assert_eq!(t, 1579046400);
    let independent = chrono::NaiveDate::parse_from_str("2020-01-15", "%Y-%m-%d")
        .unwrap()
        .and_hms_opt(0, 0, 0)
        .unwrap()
        .and_utc()
        .timestamp();
    assert_eq!(t, independent);
    let t = ParseService::parse_date("15/01/2020", "%d/%m/%Y").unwrap();
    assert_eq!(t, 1579046400);
}

#[test]
fn parse_date_rejects_wrong_format() {
    let err = ParseService::parse_date("2020-01-15", "%d/%m/%Y").unwrap_err();
    assert_eq!(err.err_type, "parse-date-err");
    assert_eq!(err.why, "2020-01-15 is not parsable with format %d/%m/%Y");
}

#[test]
fn coerce_string_passes_cell_through() {
    let d = def(ColType::String);
    assert_eq!(ParseService::parse_value(&d, " raw  text "), JsonValue::Str(" raw  text ".to_string()));
}

#[test]
fn coerce_integer_parses_or_falls_back() {
    let mut d = def(ColType::Integer);
    d.col_default = JsonValue::Int(0);
    assert_eq!(ParseService::parse_value(&d, "12"), JsonValue::Int(12));
    assert_eq!(ParseService::parse_value(&d, "notanumber"), JsonValue::Int(0));
}

#[test]
fn coerce_float_emits_cleaned_number_text() {
    let d = def(ColType::Float);
    assert_eq!(ParseService::parse_value(&d, "$2.5"), JsonValue::Num("2.5".to_string()));
    assert_eq!(ParseService::parse_value(&d, "nope"), JsonValue::Null);
}

#[test]
fn coerce_bool_matches_tokens_exactly() {
    let mut d = def(ColType::Bool);
    d.col_true_string = "yes".to_string();
    d.col_false_string = "no".to_string();
    assert_eq!(ParseService::parse_value(&d, "yes"), JsonValue::Bool(true));
    assert_eq!(ParseService::parse_value(&d, "no"), JsonValue::Bool(false));
}

#[test]
fn coerce_bool_neither_token_yields_default_silently() {
    // a cell equal to neither token is the default, not an error
    let mut d = def(ColType::Bool);
    d.col_default = JsonValue::Str("unknown".to_string());
    assert_eq!(
        ParseService::parse_value(&d, "maybe"),
        JsonValue::Str("unknown".to_string())
    );
}

#[test]
fn coerce_date_emits_epoch_seconds_or_default() {
    let mut d = def(ColType::Date);
    d.col_format = "%Y-%m-%d".to_string();
    assert_eq!(
        ParseService::parse_value(&d, "2020-01-15"),
        JsonValue::Int(1579046400)
    );
    assert_eq!(ParseService::parse_value(&d, "15.01.2020"), JsonValue::Null);
}

#[test]
fn coerce_malformed_inputs_always_yield_default() {
    // empty string, wrong format and out-of-range all resolve to the
    // configured default, whatever value it holds
    let sentinel = JsonValue::Str("sentinel".to_string());
    for col_type in [ColType::Integer, ColType::Float, ColType::Date, ColType::Bool] {
        let mut d = def(col_type);
        d.col_default = sentinel.deep_clone();
        assert_eq!(ParseService::parse_value(&d, ""), sentinel.deep_clone());
        assert_eq!(ParseService::parse_value(&d, "!!bad??"), sentinel.deep_clone());
    }
    let mut d = def(ColType::Integer);
    d.col_default = JsonValue::Int(-1);
    assert_eq!(ParseService::parse_value(&d, "99999999999"), JsonValue::Int(-1));
}

#[test]
fn assembled_row_matches_schema_order() {
    // headers ["id","age","active","joined"], schema with integer default 0,
    // bool and date columns, one mixed row
    let mut age = ColumnDefOptions::default();
    age.col_type = Some(ColType::Integer);
    age.col_default = Some(JsonValue::Int(0));
    let mut active = ColumnDefOptions::default();
    active.col_type = Some(ColType::Bool);
    let mut joined = ColumnDefOptions::default();
    joined.col_type = Some(ColType::Date);
    joined.col_format = Some("%Y-%m-%d".to_string());
    let headers: Vec<String> =
        ["id", "age", "active", "joined"].iter().map(|s| s.to_string()).collect();
    let schema = InputService::fill_schema_defaults(
        vec![ColumnDefOptions::default(), age, active, joined],
        headers,
        4,
    );
    let row: Vec<String> =
        ["7", "notanumber", "true", "2020-01-15"].iter().map(|s| s.to_string()).collect();
    let out = ParseService::parse_row(&schema, row);
    let expected = JsonValue::Obj(vec![
        ("id".to_string(), JsonValue::Str("7".to_string())),
        ("age".to_string(), JsonValue::Int(0)),
        ("active".to_string(), JsonValue::Bool(true)),
        ("joined".to_string(), JsonValue::Int(1579046400)),
    ]);
    assert_eq!(out, expected);
}

#[test]
fn assembled_row_omits_missing_trailing_cells() {
    // a row with fewer cells than the schema simply omits the trailing keys
    let defs = vec![
        ColumnDef {
            col_name: "a".to_string(),
            ..def(ColType::String)
        },
        ColumnDef {
            col_name: "b".to_string(),
            ..def(ColType::String)
        },
    ];
    let out = ParseService::parse_row(&defs, vec!["only".to_string()]);
    let expected = JsonValue::Obj(vec![("a".to_string(), JsonValue::Str("only".to_string()))]);
    assert_eq!(out, expected);
}

#[test]
fn assembled_row_duplicate_names_last_write_wins() {
    // the key keeps its first position but takes the last value
    let defs = vec![
        ColumnDef {
            col_name: "k".to_string(),
            ..def(ColType::String)
        },
        ColumnDef {
            col_name: "other".to_string(),
            ..def(ColType::String)
        },
        ColumnDef {
            col_name: "k".to_string(),
            ..def(ColType::String)
        },
    ];
    let row: Vec<String> = ["first", "mid", "last"].iter().map(|s| s.to_string()).collect();
    let out = ParseService::parse_row(&defs, row);
    let expected = JsonValue::Obj(vec![
        ("k".to_string(), JsonValue::Str("last".to_string())),
        ("other".to_string(), JsonValue::Str("mid".to_string())),
    ]);
    assert_eq!(out, expected);
}

#[test]
fn deep_clone_copies_nested_values() {
    let v = JsonValue::Obj(vec![
        ("xs".to_string(), JsonValue::Arr(vec![JsonValue::Int(1), JsonValue::Null])),
        ("s".to_string(), JsonValue::Str("text".to_string())),
    ]);
    assert_eq!(v.deep_clone(), v);
}
