use vstd::prelude::*;

verus! {

use crate::json::{JsonValue, SpecJson, obj_insert, obj_lookup, entries_get, lemma_model_seq,
    lemma_obj_insert_overwrite};
use crate::pattern::{pattern_compiles, extraction_of};
use crate::engine::{ExtractionError, SpecError, extraction_json, apply};

/// One pattern definition: the context key that receives the results,
/// and the pattern text to scan with.
#[derive(Debug, PartialEq, Eq)]
pub struct PatternDef {
    pub name: String,
    pub regex: String,
}

/// The definition list a context carries: the array under `regset`, or
/// nothing at all when that key is absent or holds something that is
/// not an array.
pub open spec fn spec_regset(m: Seq<(Seq<char>, SpecJson)>) -> Seq<SpecJson> {
    match obj_lookup(m, "regset"@) {
        Some(SpecJson::Arr(items)) => items,
        _ => Seq::empty(),
    }
}

/// How one element of the definition list reads: an object with string
/// fields `name` and `regex` yields the pair of their texts; anything
/// else names the field at fault, `name` before `regex`.
pub open spec fn spec_parse_def(item: SpecJson) -> Result<(Seq<char>, Seq<char>), Seq<char>> {
    if !(item is Obj) {
        Err("name"@)
    } else {
        match obj_lookup(item->Obj_0, "name"@) {
            Some(SpecJson::Str(n)) => match obj_lookup(item->Obj_0, "regex"@) {
                Some(SpecJson::Str(rx)) => Ok((n, rx)),
                _ => Err("regex"@),
            },
            _ => Err("name"@),
        }
    }
}

/// Why one element of the definition list fails, if it does: a field
/// at fault, or a pattern the regex syntax refuses.
pub open spec fn spec_def_error(item: SpecJson) -> Option<SpecError> {
    match spec_parse_def(item) {
        Err(f) => Some(SpecError::MissingField(f)),
        Ok(p) => if pattern_compiles(p.1) {
            None
        } else {
            Some(SpecError::Compile(p.1))
        },
    }
}

/// What one element of the definition list does to the context object:
/// a definition that parses and compiles writes its extraction under
/// its name; a failing one leaves the object untouched.
pub open spec fn spec_apply_def(
    m: Seq<(Seq<char>, SpecJson)>,
    text: Seq<char>,
    item: SpecJson,
) -> Seq<(Seq<char>, SpecJson)> {
    match spec_parse_def(item) {
        Ok(p) => if pattern_compiles(p.1) {
            obj_insert(m, p.0, extraction_json(extraction_of(p.1, text)))
        } else {
            m
        },
        Err(_) => m,
    }
}

/// The context object after the whole definition list has run, in
/// order, each element independently of the others.
pub open spec fn spec_run_batch(
    m: Seq<(Seq<char>, SpecJson)>,
    text: Seq<char>,
    items: Seq<SpecJson>,
) -> Seq<(Seq<char>, SpecJson)>
    decreases items.len(),
{
    if items.len() == 0 {
        m
    } else {
        spec_run_batch(
            spec_apply_def(m, text, items[0]),
            text,
            items.subrange(1, items.len() as int),
        )
    }
}

/// The failures the whole definition list reports: for each failing
/// element, its position (counted from `at`) and its error, in order.
pub open spec fn spec_batch_errors(items: Seq<SpecJson>, at: int) -> Seq<(int, SpecError)>
    decreases items.len(),
{
    if items.len() == 0 {
        Seq::empty()
    } else {
        let rest = spec_batch_errors(items.subrange(1, items.len() as int), at + 1);
        match spec_def_error(items[0]) {
            Some(e) => seq![(at, e)] + rest,
            None => rest,
        }
    }
}

/// Whether an attempt to read a definition came out as `spec_parse_def`
/// says it must.
pub open spec fn def_parse_ok(r: Result<PatternDef, String>, item: SpecJson) -> bool {
    match spec_parse_def(item) {
        Ok(p) => r matches Ok(d) && d.name@ == p.0 && d.regex@ == p.1,
        Err(f) => r matches Err(g) && g@ == f,
    }
}

/// Reads one pattern definition out of a JSON value.
pub fn parse_definition(item: &JsonValue) -> (r: Result<PatternDef, String>)
    ensures
        def_parse_ok(r, item.model()),
{
    match item {
        JsonValue::Object(entries) => {
            let name = match entries_get(entries, "name") {
                Some(JsonValue::Str(s)) => s.clone(),
                _ => {
                    return Err("name".to_owned());
                },
            };
            let regex = match entries_get(entries, "regex") {
                Some(JsonValue::Str(s)) => s.clone(),
                _ => {
                    return Err("regex".to_owned());
                },
            };
            Ok(PatternDef { name, regex })
        },
        _ => Err("name".to_owned()),
    }
}

/// Reads the whole definition list, keeping each element's outcome in
/// place.
pub fn parse_definitions(items: &Vec<JsonValue>) -> (r: Vec<Result<PatternDef, String>>)
    ensures
        r@.len() == items@.len(),
        forall|j: int| 0 <= j < items@.len() ==> def_parse_ok(r@[j], #[trigger] items@[j].model()),
{
    let n = items.len();
    let mut out: Vec<Result<PatternDef, String>> = Vec::new();
    let mut i: usize = 0;
    while i < n
        invariant
            n == items.len(),
            i <= n,
            out@.len() == i,
            forall|j: int| 0 <= j < i ==> def_parse_ok(out@[j], #[trigger] items@[j].model()),
        decreases n - i,
    {
        let d = parse_definition(&items[i]);
        out.push(d);
        i += 1;
    }
    out
}

/// A failed definition: its position in the definition list and why it
/// failed.
#[derive(Debug, PartialEq, Eq)]
pub struct BatchFailure {
    pub index: usize,
    pub error: ExtractionError,
}

impl BatchFailure {
    /// The model of a failure: the position and the error's model.
    pub open spec fn model(self) -> (int, SpecError) {
        (self.index as int, self.error.model())
    }
}

/// The models of a failure list, in order.
pub open spec fn failures_model(fs: Seq<BatchFailure>) -> Seq<(int, SpecError)> {
    fs.map_values(|f: BatchFailure| f.model())
}

/// Runs every definition the context carries under `regset` against
/// `text`, in order, writing each extraction into the context under the
/// definition's name; a definition that fails is skipped and reported,
/// and the rest still run. A context whose root is not an object is
/// refused outright and left untouched.
pub fn run_batch(context: &mut JsonValue, text: &str) -> (r: Result<
    Vec<BatchFailure>,
    ExtractionError,
>)
    ensures
        !((*old(context)) is Object) ==> (r matches Err(e) && e is TargetNotObject
            && *final(context) == *old(context)),
        (*old(context)) is Object ==> (*final(context)) is Object
            && (*final(context)).obj_model() == spec_run_batch(
            (*old(context)).obj_model(),
            text@,
            spec_regset((*old(context)).obj_model()),
        ),
        (*old(context)) is Object ==> (r matches Ok(fs) && failures_model(fs@)
            == spec_batch_errors(spec_regset((*old(context)).obj_model()), 0)),
{
    let ghost m0 = (*old(context)).obj_model();
    let ghost items_m = spec_regset(m0);
    let parsed: Vec<Result<PatternDef, String>> = match &*context {
        JsonValue::Object(entries) => {
            match entries_get(entries, "regset") {
                Some(JsonValue::Array(items)) => {
                    proof {
                        lemma_model_seq(items@);
                    }
                    parse_definitions(items)
                },
                _ => Vec::new(),
            }
        },
        _ => {
            return Err(ExtractionError::TargetNotObject);
        },
    };
    proof {
        assert(parsed@.len() == items_m.len());
        assert(forall|j: int| 0 <= j < items_m.len() ==> def_parse_ok(
            parsed@[j],
            #[trigger] items_m[j],
        ));
    }
    let n = parsed.len();
    let mut failures: Vec<BatchFailure> = Vec::new();
    let mut i: usize = 0;
    proof {
        assert(items_m.skip(0) =~= items_m);
        assert(failures_model(failures@) + spec_batch_errors(items_m.skip(0), 0)
            =~= spec_batch_errors(items_m, 0));
    }
    while i < n
        invariant
            n == parsed.len(),
            i <= n,
            n == items_m.len(),
            (*context) is Object,
            forall|j: int| 0 <= j < items_m.len() ==> def_parse_ok(
                parsed@[j],
                #[trigger] items_m[j],
            ),
            spec_run_batch(m0, text@, items_m) == spec_run_batch(
                (*context).obj_model(),
                text@,
                items_m.skip(i as int),
            ),
            spec_batch_errors(items_m, 0) == failures_model(failures@) + spec_batch_errors(
                items_m.skip(i as int),
                i as int,
            ),
        decreases n - i,
    {
        let ghost cur = (*context).obj_model();
        let ghost head = items_m[i as int];
        proof {
            assert(items_m.skip(i as int)[0] == head);
            assert(items_m.skip(i as int).subrange(1, items_m.skip(i as int).len() as int)
                =~= items_m.skip(i as int + 1));
        }
        let ghost fs_prev = failures@;
        match &parsed[i] {
            Ok(d) => {
                let res = apply(context, text, d.name.as_str(), d.regex.as_str());
                match res {
                    Ok(_) => {},
                    Err(e) => {
                        failures.push(BatchFailure { index: i, error: e });
                    },
                }
            },
            Err(f) => {
                failures.push(BatchFailure { index: i, error: ExtractionError::MissingField(f.clone()) });
            },
        }
        proof {
            assert((*context).obj_model() == spec_apply_def(cur, text@, head));
            if failures@.len() > fs_prev.len() {
                assert(failures@ == fs_prev.push(failures@[failures@.len() - 1]));
                assert(failures_model(failures@) =~= failures_model(fs_prev).push(
                    failures@[failures@.len() - 1].model(),
                ));
            }
            assert(failures_model(failures@) + spec_batch_errors(
                items_m.skip(i as int + 1),
                i as int + 1,
            ) =~= failures_model(fs_prev) + spec_batch_errors(items_m.skip(i as int), i as int));
        }
        i += 1;
    }
    proof {
        assert(items_m.skip(n as int) =~= Seq::<SpecJson>::empty());
        assert(failures_model(failures@) + spec_batch_errors(items_m.skip(n as int), n as int)
            =~= failures_model(failures@));
    }
    Ok(failures)
}

/// Runs the batch when a source text is supplied; without one,
/// extraction is never invoked and the context passes through
/// untouched, with nothing to report.
pub fn run_extraction(context: &mut JsonValue, text: Option<&str>) -> (r: Result<
    Vec<BatchFailure>,
    ExtractionError,
>)
    ensures
        text is None ==> (r matches Ok(fs) && fs@.len() == 0 && *final(context) == *old(context)),
        text matches Some(t) ==> {
            &&& !((*old(context)) is Object) ==> (r matches Err(e) && e is TargetNotObject
                && *final(context) == *old(context))
            &&& (*old(context)) is Object ==> (*final(context)) is Object
                && (*final(context)).obj_model() == spec_run_batch(
                (*old(context)).obj_model(),
                t@,
                spec_regset((*old(context)).obj_model()),
            )
            &&& (*old(context)) is Object ==> (r matches Ok(fs) && failures_model(fs@)
                == spec_batch_errors(spec_regset((*old(context)).obj_model()), 0))
        },
{
    match text {
        Some(t) => run_batch(context, t),
        None => Ok(Vec::new()),
    }
}

/// A definition that fails, for either reason, changes nothing, so the
/// rest of the batch runs exactly as if the failing definition were not
/// there.
pub proof fn lemma_failed_definition_is_skipped(
    m: Seq<(Seq<char>, SpecJson)>,
    text: Seq<char>,
    item: SpecJson,
)
    requires
        spec_def_error(item) is Some,
    ensures
        spec_apply_def(m, text, item) == m,
{
}

/// One bad definition does not spoil a batch: a two-definition batch
/// whose first definition fails leaves exactly what the second
/// definition alone would have left.
pub proof fn lemma_partial_failure_survives(
    m: Seq<(Seq<char>, SpecJson)>,
    text: Seq<char>,
    bad: SpecJson,
    good: SpecJson,
)
    requires
        spec_def_error(bad) is Some,
    ensures
        spec_run_batch(m, text, seq![bad, good]) == spec_apply_def(m, text, good),
{
    let items = seq![bad, good];
    assert(items.subrange(1, 2) =~= seq![good]);
    assert(seq![good].subrange(1, 1) =~= Seq::<SpecJson>::empty());
    let step = spec_apply_def(m, text, good);
    assert(spec_run_batch(m, text, items) == spec_run_batch(m, text, seq![good]));
    assert(spec_run_batch(m, text, seq![good]) == spec_run_batch(
        step,
        text,
        Seq::<SpecJson>::empty(),
    ));
    assert(spec_run_batch(step, text, Seq::<SpecJson>::empty()) == step);
}

/// The last write wins: when two definitions carry the same name and
/// both parse and compile, the batch of the two leaves the context
/// exactly as the second definition alone would have left it — the
/// second one's extraction stands under the shared name.
pub proof fn lemma_last_writer_wins(
    m: Seq<(Seq<char>, SpecJson)>,
    text: Seq<char>,
    d1: SpecJson,
    d2: SpecJson,
)
    requires
        spec_parse_def(d1) is Ok,
        spec_parse_def(d2) is Ok,
        pattern_compiles(spec_parse_def(d1)->Ok_0.1),
        pattern_compiles(spec_parse_def(d2)->Ok_0.1),
        spec_parse_def(d1)->Ok_0.0 == spec_parse_def(d2)->Ok_0.0,
    ensures
        spec_run_batch(m, text, seq![d1, d2]) == spec_apply_def(m, text, d2),
{
    let items = seq![d1, d2];
    assert(items.subrange(1, 2) =~= seq![d2]);
    assert(seq![d2].subrange(1, 1) =~= Seq::<SpecJson>::empty());
    let k = spec_parse_def(d1)->Ok_0.0;
    let v1 = extraction_json(extraction_of(spec_parse_def(d1)->Ok_0.1, text));
    let v2 = extraction_json(extraction_of(spec_parse_def(d2)->Ok_0.1, text));
    lemma_obj_insert_overwrite(m, k, v1, v2);
    let step1 = spec_apply_def(m, text, d1);
    let step2 = spec_apply_def(step1, text, d2);
    assert(spec_run_batch(m, text, items) == spec_run_batch(step1, text, seq![d2]));
    assert(spec_run_batch(step1, text, seq![d2]) == spec_run_batch(
        step2,
        text,
        Seq::<SpecJson>::empty(),
    ));
    assert(spec_run_batch(step2, text, Seq::<SpecJson>::empty()) == step2);
}

} // verus!
