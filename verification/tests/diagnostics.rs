use sane_csv_json_lib::parse::get_sanitise_err;
use sane_csv_json_lib::whoops::WhoopsBuilder;

#[test]
fn builder_fills_unset_fields_with_placeholders() {
    let w = WhoopsBuilder::new().build();
    assert_eq!(w.err_type, "unknown error type");
    assert_eq!(w.context, "unknown context");
    assert_eq!(w.why, "unknown reason");
    assert_eq!(w.suggestion, "no suggestions, contact author for help");
}

#[test]
fn builder_keeps_every_field_set() {
    let w = WhoopsBuilder::new()
        .err_type("csv-file-not-found")
        .context("whilst trying to read csv data")
        .why("file not found")
        .suggestion("specify a valid path")
        .build();
    assert_eq!(w.err_type, "csv-file-not-found");
    assert_eq!(w.context, "whilst trying to read csv data");
    assert_eq!(w.why, "file not found");
    assert_eq!(w.suggestion, "specify a valid path");
}

#[test]
fn augment_context_prepends() {
    let mut w = WhoopsBuilder::new().context("reading row").build();
    w.augment_context("converting table");
    assert_eq!(w.context, "converting table, reading row");
}

#[test]
fn render_lays_out_all_four_fields() {
    let w = WhoopsBuilder::new()
        .err_type("kind")
        .context("ctx")
        .why("because")
        .suggestion("try again")
        .build();
    let text = w.render();
    assert_eq!(
        text,
        "\n--- ERROR ---\n\nError Type: kind\n\nContext: ctx\n\nWhy: because\n\nSuggestion: try again\n\n-------------\n\n"
    );
}

#[test]
fn sanitise_err_names_input_and_type() {
    let w = get_sanitise_err("1.2.3", "f64");
    assert_eq!(w.err_type, "sanitise-f64-error");
    assert_eq!(w.context, "whilst trying to sanitise f64 str");
    assert_eq!(w.why, "1.2.3 is not parsable as a f64");
    assert_eq!(w.suggestion, "Modify 1.2.3, so that it is parsable as a f64");
}
