//! The value coercion engine and row assembler: cleans raw cells, parses
//! them under their column's resolved definition, and builds one JSON object
//! per row.

use vstd::prelude::*;
use crate::column_def::ColType;
use crate::column_def::ColumnDef;
use crate::json::JsonData;
use crate::json::JsonValue;
use crate::json::obj_fields_view;
use crate::json::obj_insert;
use crate::json::lemma_obj_insert_update;
use crate::json::lemma_obj_insert_absent;
use crate::num::float_text_ok;
use crate::num::float_text_valid;
use crate::num::i32_of_str;
use crate::num::i32_from_text;
use crate::num::is_digit;
use crate::text::push_char;
use crate::text::str_eq;
use crate::whoops::Whoops;
use crate::whoops::WhoopsBuilder;

verus! {

/// Whether sanitising keeps the character c found at index i of the input.
pub open spec fn keep_at(c: char, i: int) -> bool {
    is_digit(c) || c == '.' || (c == '-' && i == 0)
}

/// The cleaned form of a raw cell: digits and dots survive anywhere, a
/// minus survives only as the very first input character, everything else
/// is dropped.
pub open spec fn sanitized(s: Seq<char>) -> Seq<char>
    decreases s.len(),
{
    if s.len() == 0 {
        Seq::empty()
    } else if keep_at(s.last(), s.len() - 1) {
        sanitized(s.drop_last()).push(s.last())
    } else {
        sanitized(s.drop_last())
    }
}

/// Strips characters that cannot be part of a number, per [`sanitized`].
pub fn sanitise_number(n: &str) -> (r: String)
    ensures
        r@ == sanitized(n@),
{
    let len = n.unicode_len();
    let mut out = String::new();
    let mut i: usize = 0;
    while i < len
        invariant
            len == n@.len(),
            i <= len,
            out@ == sanitized(n@.take(i as int)),
        decreases len - i,
    {
        let c = n.get_char(i);
        if (c >= '0' && c <= '9') || c == '.' || (c == '-' && i == 0) {
            push_char(&mut out, c);
        }
        proof {
            let t = n@.take(i + 1);
            assert(t.drop_last() =~= n@.take(i as int));
            assert(t.last() == n@[i as int]);
        }
        i = i + 1;
    }
    proof {
        assert(n@.take(len as int) =~= n@);
    }
    out
}

/// Every character of a cleaned cell would be kept again at the position it
/// landed on: digits and dots stand anywhere, a minus only at the front.
proof fn lemma_sanitized_chars(s: Seq<char>)
    ensures
        forall|k: int| 0 <= k < sanitized(s).len() ==> keep_at(#[trigger] sanitized(s)[k], k),
    decreases s.len(),
{
    if s.len() > 0 {
        lemma_sanitized_chars(s.drop_last());
        if keep_at(s.last(), s.len() - 1) {
            let pre = sanitized(s.drop_last());
            assert(sanitized(s) == pre.push(s.last()));
            if s.last() == '-' && !is_digit(s.last()) && s.last() != '.' {
                assert(s.len() == 1);
                assert(s.drop_last().len() == 0);
                assert(pre.len() == 0);
            }
            assert forall|k: int| 0 <= k < sanitized(s).len() implies keep_at(
                #[trigger] sanitized(s)[k],
                k,
            ) by {
                if k < pre.len() {
                    assert(sanitized(s)[k] == pre[k]);
                    assert(keep_at(pre[k], k));
                } else {
                    assert(sanitized(s)[k] == s.last());
                }
            }
        } else {
            let pre = sanitized(s.drop_last());
            assert(sanitized(s) == pre);
            assert forall|k: int| 0 <= k < sanitized(s).len() implies keep_at(
                #[trigger] sanitized(s)[k],
                k,
            ) by {
                assert(sanitized(s)[k] == pre[k]);
                assert(keep_at(pre[k], k));
            }
        }
    }
}

/// A string every character of which survives sanitising is unchanged by it.
proof fn lemma_sanitized_fixed(t: Seq<char>)
    requires
        forall|k: int| 0 <= k < t.len() ==> keep_at(#[trigger] t[k], k),
    ensures
        sanitized(t) == t,
    decreases t.len(),
{
    if t.len() > 0 {
        lemma_sanitized_fixed(t.drop_last());
        assert(sanitized(t) =~= t);
    }
}

/// Sanitising is idempotent: cleaning an already cleaned cell changes
/// nothing.
pub proof fn lemma_sanitize_idempotent(s: Seq<char>)
    ensures
        sanitized(sanitized(s)) == sanitized(s),
{
    lemma_sanitized_chars(s);
    lemma_sanitized_fixed(sanitized(s));
}

/// The diagnostic reported when a cleaned cell cannot be read as a number
/// of the intended type.
pub open spec fn is_sanitise_err(w: Whoops, input: Seq<char>, intended: Seq<char>) -> bool {
    &&& w.err_type@ == "sanitise-"@ + intended + "-error"@
    &&& w.context@ == "whilst trying to sanitise "@ + intended + " str"@
    &&& w.why@ == input + " is not parsable as a "@ + intended
    &&& w.suggestion@ == "Modify "@ + input + ", so that it is parsable as a "@ + intended
}

/// Builds the diagnostic for a cell that could not be read as a number of
/// the intended type.
pub fn get_sanitise_err(input: &str, intended_type: &str) -> (w: Whoops)
    ensures
        is_sanitise_err(w, input@, intended_type@),
{
    let mut err_type = "sanitise-".to_owned();
    err_type.append(intended_type);
    err_type.append("-error");
    let mut context = "whilst trying to sanitise ".to_owned();
    context.append(intended_type);
    context.append(" str");
    let mut why = input.to_owned();
    why.append(" is not parsable as a ");
    why.append(intended_type);
    let mut suggestion = "Modify ".to_owned();
    suggestion.append(input);
    suggestion.append(", so that it is parsable as a ");
    suggestion.append(intended_type);
    Whoops { err_type, context, why, suggestion }
}

/// The diagnostic reported when a cell cannot be read as a date under the
/// column's format.
pub open spec fn is_date_err(w: Whoops, input: Seq<char>, fmt: Seq<char>) -> bool {
    &&& w.err_type@ == "parse-date-err"@
    &&& w.context@ == "whilst trying to parse date"@
    &&& w.why@ == input + " is not parsable with format "@ + fmt
    &&& w.suggestion@ == "format "@ + input + " with given format: "@ + fmt
}

/// The Unix timestamp, in whole seconds, of midnight UTC on the calendar
/// date that chrono reads from text s under format fmt; `None` where chrono
/// rejects the text. The timestamp is a function of the two texts alone.
pub uninterp spec fn date_epoch_of(s: Seq<char>, fmt: Seq<char>) -> Option<i64>;

/// Relies on chrono's `NaiveDate::parse_from_str`, `NaiveDate::and_hms_opt`
/// and `DateTime::timestamp`: parses a calendar date by the given format and
/// takes its midnight UTC as epoch seconds; both steps depend only on the
/// two texts.
#[verifier::external_body]
fn date_epoch(n: &str, format: &str) -> (r: Option<i64>)
    ensures
        r == date_epoch_of(n@, format@),
{
    match chrono::NaiveDate::parse_from_str(n, format) {
        Ok(d) => match d.and_hms_opt(0, 0, 0) {
            Some(dt) => Some(dt.and_utc().timestamp()),
            None => None,
        },
        Err(_) => None,
    }
}

/// What coercion produces for one cell under one resolved definition: the
/// heart of the value coercion engine. Every failure path yields the
/// column's configured default.
pub open spec fn coerce_spec(def: ColumnDef, cell: Seq<char>) -> JsonData {
    match def.col_type {
        ColType::String => JsonData::Str(cell),
        ColType::Integer => match i32_of_str(sanitized(cell)) {
            Some(v) => JsonData::Int(v as i64),
            None => def.col_default@,
        },
        ColType::Float => if float_text_ok(sanitized(cell)) {
            JsonData::Num(sanitized(cell))
        } else {
            def.col_default@
        },
        ColType::Bool => if cell == def.col_true_string@ {
            JsonData::Bool(true)
        } else if cell == def.col_false_string@ {
            JsonData::Bool(false)
        } else {
            def.col_default@
        },
        ColType::Date => match date_epoch_of(cell, def.col_format@) {
            Some(t) => JsonData::Int(t),
            None => def.col_default@,
        },
    }
}

/// Whether coercion of this cell fails under this definition, so that the
/// column's default is emitted in its place.
pub open spec fn coercion_fails(def: ColumnDef, cell: Seq<char>) -> bool {
    match def.col_type {
        ColType::String => false,
        ColType::Integer => i32_of_str(sanitized(cell)) is None,
        ColType::Float => !float_text_ok(sanitized(cell)),
        ColType::Bool => cell != def.col_true_string@ && cell != def.col_false_string@,
        ColType::Date => date_epoch_of(cell, def.col_format@) is None,
    }
}

/// Coercion falls back totally: whenever a cell cannot be read under its
/// column's type, the result is exactly the column's configured default.
pub proof fn lemma_coerce_total_fallback(def: ColumnDef, cell: Seq<char>)
    requires
        coercion_fails(def, cell),
    ensures
        coerce_spec(def, cell) == def.col_default@,
{
}

/// Date round trip: a cell whose text chrono reads under the column's
/// format coerces to exactly that date's timestamp, midnight UTC, in
/// seconds.
pub proof fn lemma_date_round_trip(def: ColumnDef, cell: Seq<char>, t: i64)
    requires
        def.col_type == ColType::Date,
        date_epoch_of(cell, def.col_format@) == Some(t),
    ensures
        coerce_spec(def, cell) == JsonData::Int(t),
{
}

/// The object assembled from the first k columns of a row, keyed by
/// resolved column names, with last-write-wins on duplicate names.
pub open spec fn assemble_prefix(
    defs: Seq<ColumnDef>,
    row: Seq<Seq<char>>,
    k: int,
) -> Seq<(Seq<char>, JsonData)>
    decreases k,
{
    if k <= 0 {
        Seq::empty()
    } else {
        obj_insert(
            assemble_prefix(defs, row, k - 1),
            defs[k - 1].col_name@,
            coerce_spec(defs[k - 1], row[k - 1]),
        )
    }
}

/// The full row object: one entry per column up to the shorter of the
/// schema and the row; a row shorter than the schema simply omits the
/// trailing keys.
pub open spec fn row_object(defs: Seq<ColumnDef>, row: Seq<Seq<char>>) -> Seq<
    (Seq<char>, JsonData),
> {
    if defs.len() <= row.len() {
        assemble_prefix(defs, row, defs.len() as int)
    } else {
        assemble_prefix(defs, row, row.len() as int)
    }
}

/// The first slot of the object holding the given key, if any; `None` means
/// no slot holds it.
fn find_key(obj: &Vec<(String, JsonValue)>, key: &str) -> (r: Option<usize>)
    ensures
        match r {
            Some(j) => j < obj@.len() && obj@[j as int].0@ == key@ && forall|t: int|
                0 <= t < j ==> (#[trigger] obj@[t]).0@ != key@,
            None => forall|t: int| 0 <= t < obj@.len() ==> (#[trigger] obj@[t]).0@ != key@,
        },
{
    let mut j: usize = 0;
    while j < obj.len()
        invariant
            j <= obj@.len(),
            forall|t: int| 0 <= t < j ==> (#[trigger] obj@[t]).0@ != key@,
        decreases obj@.len() - j,
    {
        if str_eq(obj[j].0.as_str(), key) {
            return Some(j);
        }
        j = j + 1;
    }
    None
}

/// Utilities for parsing and converting collected rows and columns from CSV
/// data.
pub struct ParseService();

impl ParseService {
    /// Zips a row's raw cells against the resolved schema into one JSON
    /// object: keys in column order, a duplicate name overwritten in place
    /// (last write wins), trailing columns omitted when the row is short.
    pub fn parse_row(def: &Vec<ColumnDef>, row: Vec<String>) -> (r: JsonValue)
        ensures
            r is Obj,
            obj_fields_view(r->Obj_0@) == row_object(def@, row.deep_view()),
    {
        let m = if row.len() < def.len() {
            row.len()
        } else {
            def.len()
        };
        let mut obj: Vec<(String, JsonValue)> = Vec::new();
        let mut i: usize = 0;
        while i < m
            invariant
                m <= def@.len(),
                m <= row@.len(),
                m == def@.len() || m == row@.len(),
                i <= m,
                obj_fields_view(obj@) == assemble_prefix(def@, row.deep_view(), i as int),
            decreases m - i,
        {
            let d = &def[i];
            let value = ParseService::parse_value(d, row[i].as_str());
            let key = d.col_name.clone();
            let ghost pre = obj_fields_view(obj@);
            proof {
                assert(row.deep_view()[i as int] == row@[i as int]@);
            }
            match find_key(&obj, key.as_str()) {
                Some(j) => {
                    obj[j] = (key, value);
                    proof {
                        lemma_obj_insert_update(pre, key@, value@, j as int);
                        assert(obj_fields_view(obj@) =~= pre.update(
                            j as int,
                            (key@, value@),
                        ));
                    }
                },
                None => {
                    obj.push((key, value));
                    proof {
                        lemma_obj_insert_absent(pre, key@, value@);
                        assert(obj_fields_view(obj@) =~= pre.push((key@, value@)));
                    }
                },
            }
            i = i + 1;
        }
        JsonValue::Obj(obj)
    }

    /// Cleans the cell and parses it as a 32-bit signed integer; the error
    /// names the cleaned text that could not be read.
    pub fn parse_i32(n: &str) -> (r: Result<i32, Whoops>)
        ensures
            match i32_of_str(sanitized(n@)) {
                Some(v) => r matches Ok(x) && x == v,
                None => r matches Err(w) && is_sanitise_err(w, sanitized(n@), "i32"@),
            },
    {
        let cleaned = sanitise_number(n);
        match i32_from_text(cleaned.as_str()) {
            Some(v) => Ok(v),
            None => Err(get_sanitise_err(cleaned.as_str(), "i32")),
        }
    }

    /// Cleans the cell and checks that it reads as a floating-point number;
    /// returns the cleaned decimal text, which downstream serialisation
    /// emits as a JSON number.
    pub fn parse_float(n: &str) -> (r: Result<String, Whoops>)
        ensures
            float_text_ok(sanitized(n@)) ==> (r matches Ok(t) && t@ == sanitized(n@)),
            !float_text_ok(sanitized(n@)) ==> (r matches Err(w) && is_sanitise_err(
                w,
                sanitized(n@),
                "f64"@,
            )),
    {
        let cleaned = sanitise_number(n);
        if float_text_valid(cleaned.as_str()) {
            Ok(cleaned)
        } else {
            Err(get_sanitise_err(cleaned.as_str(), "f64"))
        }
    }

    /// Parses the cell against the given date format and returns the Unix
    /// timestamp in seconds of that date's midnight UTC.
    pub fn parse_date(n: &str, format: &str) -> (r: Result<i64, Whoops>)
        ensures
            match date_epoch_of(n@, format@) {
                Some(t) => r matches Ok(x) && x == t,
                None => r matches Err(w) && is_date_err(w, n@, format@),
            },
    {
        match date_epoch(n, format) {
            Some(t) => Ok(t),
            None => {
                let mut why = n.to_owned();
                why.append(" is not parsable with format ");
                why.append(format);
                let mut suggestion = "format ".to_owned();
                suggestion.append(n);
                suggestion.append(" with given format: ");
                suggestion.append(format);
                Err(
                    WhoopsBuilder::new().err_type("parse-date-err").context(
                        "whilst trying to parse date",
                    ).why(why.as_str()).suggestion(suggestion.as_str()).build(),
                )
            },
        }
    }

    /// Coerces one raw cell to a typed JSON value under the column's
    /// resolved definition; never fails outward — every failure yields the
    /// column's configured default.
    pub fn parse_value(def: &ColumnDef, value: &str) -> (r: JsonValue)
        ensures
            r@ == coerce_spec(*def, value@),
    {
        match def.col_type {
            ColType::String => JsonValue::Str(value.to_owned()),
            ColType::Integer => match Self::parse_i32(value) {
                Ok(v) => JsonValue::Int(v as i64),
                Err(_) => def.col_default.deep_clone(),
            },
            ColType::Float => match Self::parse_float(value) {
                Ok(t) => JsonValue::Num(t),
                Err(_) => def.col_default.deep_clone(),
            },
            ColType::Bool => {
                if str_eq(value, def.col_true_string.as_str()) {
                    JsonValue::Bool(true)
                } else if str_eq(value, def.col_false_string.as_str()) {
                    JsonValue::Bool(false)
                } else {
                    def.col_default.deep_clone()
                }
            },
            ColType::Date => match Self::parse_date(value, def.col_format.as_str()) {
                Ok(t) => JsonValue::Int(t),
                Err(_) => def.col_default.deep_clone(),
            },
        }
    }
}

} // verus!
