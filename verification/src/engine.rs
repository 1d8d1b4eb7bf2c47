use vstd::prelude::*;

verus! {

use crate::json::{
    JsonValue,
    SpecJson,
    model_entries,
    model_seq,
    obj_insert,
    entries_insert,
    lemma_model_entries,
    lemma_model_seq,
};
use crate::pattern::{Matcher, CompileError, pattern_compiles, extraction_of};

/// The entry sequence of one record's JSON object: each participating
/// group name with the text it captured, as a string field, in order.
pub open spec fn record_entries(rec: Seq<(Seq<char>, Seq<char>)>) -> Seq<(Seq<char>, SpecJson)> {
    rec.map_values(|p: (Seq<char>, Seq<char>)| (p.0, SpecJson::Str(p.1)))
}

/// The model of one record: a JSON object of its captured fields.
pub open spec fn record_model(rec: Seq<(Seq<char>, Seq<char>)>) -> SpecJson {
    SpecJson::Obj(record_entries(rec))
}

/// The model of an extraction result: a JSON array holding one record
/// object per match, in scan order.
pub open spec fn extraction_json(rows: Seq<Seq<(Seq<char>, Seq<char>)>>) -> SpecJson {
    SpecJson::Arr(rows.map_values(|r: Seq<(Seq<char>, Seq<char>)>| record_model(r)))
}

/// Turns one record into its JSON object.
fn record_to_json(rec: &Vec<(String, String)>) -> (r: JsonValue)
    ensures
        r.model() == record_model(rec.deep_view()),
{
    let mut out: Vec<(String, JsonValue)> = Vec::new();
    let n = rec.len();
    let mut i: usize = 0;
    proof {
        lemma_model_entries(out@);
        assert(model_entries(out@) =~= record_entries(rec.deep_view().take(0)));
    }
    while i < n
        invariant
            n == rec.len(),
            i <= n,
            model_entries(out@) == record_entries(rec.deep_view().take(i as int)),
        decreases n - i,
    {
        let key = rec[i].0.clone();
        let val = JsonValue::Str(rec[i].1.clone());
        let ghost prev = out@;
        out.push((key, val));
        i += 1;
        proof {
            lemma_model_entries(prev);
            lemma_model_entries(out@);
            assert forall|j: int| 0 <= j < i as int implies model_entries(out@)[j]
                == record_entries(rec.deep_view().take(i as int))[j] by {
                assert(rec.deep_view()[j] == (rec@[j].0@, rec@[j].1@));
                if j < i as int - 1 {
                    assert(model_entries(prev)[j] == record_entries(
                        rec.deep_view().take(i as int - 1),
                    )[j]);
                }
            }
            assert(model_entries(out@) =~= record_entries(rec.deep_view().take(i as int)));
        }
    }
    proof {
        assert(rec.deep_view().take(n as int) =~= rec.deep_view());
    }
    JsonValue::Object(out)
}

/// Turns an extraction result into its JSON array of record objects.
pub fn extraction_to_json(rows: &Vec<Vec<(String, String)>>) -> (r: JsonValue)
    ensures
        r.model() == extraction_json(rows.deep_view()),
{
    let mut out: Vec<JsonValue> = Vec::new();
    let n = rows.len();
    let mut i: usize = 0;
    proof {
        lemma_model_seq(out@);
        assert(model_seq(out@) =~= rows.deep_view().take(0).map_values(
            |r: Seq<(Seq<char>, Seq<char>)>| record_model(r),
        ));
    }
    while i < n
        invariant
            n == rows.len(),
            i <= n,
            model_seq(out@) == rows.deep_view().take(i as int).map_values(
                |r: Seq<(Seq<char>, Seq<char>)>| record_model(r),
            ),
        decreases n - i,
    {
        let rec = record_to_json(&rows[i]);
        let ghost prev = out@;
        out.push(rec);
        i += 1;
        proof {
            lemma_model_seq(prev);
            lemma_model_seq(out@);
            assert forall|j: int| 0 <= j < i as int implies model_seq(out@)[j]
                == rows.deep_view().take(i as int).map_values(
                |r: Seq<(Seq<char>, Seq<char>)>| record_model(r),
            )[j] by {
                assert(rows.deep_view()[j] == rows@[j].deep_view());
                if j < i as int - 1 {
                    assert(model_seq(prev)[j] == rows.deep_view().take(i as int - 1).map_values(
                        |r: Seq<(Seq<char>, Seq<char>)>| record_model(r),
                    )[j]);
                }
            }
            assert(model_seq(out@) =~= rows.deep_view().take(i as int).map_values(
                |r: Seq<(Seq<char>, Seq<char>)>| record_model(r),
            ));
        }
    }
    proof {
        assert(rows.deep_view().take(n as int) =~= rows.deep_view());
    }
    JsonValue::Array(out)
}

/// Why one extraction step failed.
#[derive(Debug, PartialEq, Eq)]
pub enum ExtractionError {
    /// The pattern was refused by the regex syntax.
    Compile(CompileError),
    /// The value meant to receive results is not an object.
    TargetNotObject,
    /// A pattern definition lacks the named field (or holds a
    /// non-string under it).
    MissingField(String),
}

/// The model of an extraction error: the pattern text of a refused
/// pattern, or the name of a missing definition field.
pub enum SpecError {
    Compile(Seq<char>),
    TargetNotObject,
    MissingField(Seq<char>),
}

impl ExtractionError {
    /// The model of this error.
    pub open spec fn model(self) -> SpecError {
        match self {
            ExtractionError::Compile(c) => SpecError::Compile(c.pattern@),
            ExtractionError::TargetNotObject => SpecError::TargetNotObject,
            ExtractionError::MissingField(f) => SpecError::MissingField(f@),
        }
    }
}

/// Compiles `pattern`, extracts over `text`, and writes the result
/// array into `context` under `name`, overwriting any prior value at
/// that key; on any failure `context` is left exactly as it was.
pub fn apply(context: &mut JsonValue, text: &str, name: &str, pattern: &str) -> (r: Result<
    (),
    ExtractionError,
>)
    ensures
        r is Ok <==> ((*old(context)) is Object && pattern_compiles(pattern@)),
        r is Ok ==> (*final(context)) is Object && (*final(context)).obj_model() == obj_insert(
            (*old(context)).obj_model(),
            name@,
            extraction_json(extraction_of(pattern@, text@)),
        ),
        r is Err ==> *final(context) == *old(context),
        r matches Err(e) ==> (e is TargetNotObject <==> !((*old(context)) is Object)),
        r matches Err(e) ==> ((*old(context)) is Object ==> (e matches ExtractionError::Compile(c)
            && c.pattern@ == pattern@)),
{
    match context {
        JsonValue::Object(entries) => {
            match Matcher::compile(pattern) {
                Ok(m) => {
                    let rows = m.extract(text);
                    let value = extraction_to_json(&rows);
                    entries_insert(entries, name, value);
                    Ok(())
                },
                Err(e) => Err(ExtractionError::Compile(e)),
            }
        },
        _ => Err(ExtractionError::TargetNotObject),
    }
}

} // verus!
