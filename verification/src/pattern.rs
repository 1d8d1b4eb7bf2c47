use vstd::prelude::*;

verus! {

#[verifier::external_type_specification]
#[verifier::external_body]
pub struct ExRegex(regex::Regex);

/// What a compiled regex holds: the pattern text it was built from.
pub uninterp spec fn regex_pattern(re: regex::Regex) -> Seq<char>;

/// Whether `regex::Regex::new` accepts this pattern text.
pub uninterp spec fn pattern_compiles(pattern: Seq<char>) -> bool;

/// The pattern's named capture groups, in declaration order: what
/// `regex::Regex::capture_names` yields, with the unnamed ones left
/// out.
pub uninterp spec fn pattern_group_names(pattern: Seq<char>) -> Seq<Seq<char>>;

/// The scan of `text` by `pattern`: one entry per match, the matches
/// non-overlapping and in left-to-right order as
/// `regex::Regex::captures_iter` enumerates them; each entry lists the
/// named groups that took part in that match, in declaration order,
/// each paired with the text it captured.
pub uninterp spec fn pattern_matches(pattern: Seq<char>, text: Seq<char>) -> Seq<
    Seq<(Seq<char>, Seq<char>)>,
>;

/// Relies on `regex::Regex::new`: deterministic in the pattern text
/// alone, `Ok` exactly for the patterns the regex syntax accepts
/// (within the crate's default size limit); on failure the error's
/// display text is handed back.
#[verifier::external_body]
fn regex_new(pattern: &str) -> (r: Result<regex::Regex, String>)
    ensures
        r is Ok <==> pattern_compiles(pattern@),
        r matches Ok(re) ==> regex_pattern(re) == pattern@,
{
    match regex::Regex::new(pattern) {
        Ok(re) => Ok(re),
        Err(e) => Err(format!("{}", e)),
    }
}

/// Relies on `regex::Regex::capture_names`: yields the pattern's
/// capture groups in declaration order, `None` standing for each
/// unnamed one; this wrapper keeps the named ones. Deterministic in
/// the pattern text alone.
#[verifier::external_body]
fn regex_named_groups(re: &regex::Regex) -> (r: Vec<String>)
    ensures
        r.deep_view() == pattern_group_names(regex_pattern(*re)),
{
    re.capture_names().flatten().map(|n| n.to_string()).collect()
}

/// Relies on `regex::Regex::captures_iter` and `regex::Captures::name`:
/// the former enumerates the non-overlapping matches left to right, the
/// latter reports, for a group name, whether that group took part in a
/// match and what text it captured. Both are deterministic in the
/// pattern and the text alone.
#[verifier::external_body]
fn regex_scan(re: &regex::Regex, names: &Vec<String>, text: &str) -> (r: Vec<
    Vec<(String, String)>,
>)
    requires
        names.deep_view() == pattern_group_names(regex_pattern(*re)),
    ensures
        r.deep_view() == pattern_matches(regex_pattern(*re), text@),
{
    re.captures_iter(text).map(
        |caps|
            names.iter().filter_map(
                |n| caps.name(n).map(|m| (n.clone(), m.as_str().to_string())),
            ).collect(),
    ).collect()
}

/// A pattern that the regex syntax refused, with the diagnostic text.
#[derive(Debug, PartialEq, Eq)]
pub struct CompileError {
    pub pattern: String,
    pub message: String,
}

/// What extraction yields for a pattern on a text: nothing at all when
/// the pattern names no capture group, else one record per match of the
/// scan.
pub open spec fn extraction_of(pattern: Seq<char>, text: Seq<char>) -> Seq<
    Seq<(Seq<char>, Seq<char>)>,
> {
    if pattern_group_names(pattern).len() == 0 {
        Seq::empty()
    } else {
        pattern_matches(pattern, text)
    }
}

/// A compiled pattern: the regex, the text it was built from, and the
/// pattern's named capture groups.
pub struct Matcher {
    re: regex::Regex,
    pattern: String,
    names: Vec<String>,
}

impl Matcher {
    /// The pattern text this matcher was compiled from.
    pub closed spec fn pattern_view(self) -> Seq<char> {
        self.pattern@
    }

    /// The matcher's named capture groups, in declaration order.
    pub closed spec fn names_view(self) -> Seq<Seq<char>> {
        self.names.deep_view()
    }

    /// A matcher is well formed when its pattern text compiles, its
    /// regex was built from that text, and it carries that pattern's
    /// named groups.
    pub closed spec fn wf(self) -> bool {
        &&& pattern_compiles(self.pattern@)
        &&& regex_pattern(self.re) == self.pattern@
        &&& self.names.deep_view() == pattern_group_names(self.pattern@)
    }

    /// Compiles a pattern into a reusable matcher, or reports the
    /// pattern that was refused.
    pub fn compile(pattern: &str) -> (r: Result<Matcher, CompileError>)
        ensures
            r is Ok <==> pattern_compiles(pattern@),
            r matches Ok(m) ==> m.wf() && m.pattern_view() == pattern@,
            r matches Err(e) ==> e.pattern@ == pattern@,
    {
        match regex_new(pattern) {
            Ok(re) => {
                let names = regex_named_groups(&re);
                Ok(Matcher { re, pattern: pattern.to_owned(), names })
            },
            Err(message) => Err(CompileError { pattern: pattern.to_owned(), message }),
        }
    }

    /// The named capture groups the pattern declares, in order.
    pub fn group_names(&self) -> (r: &Vec<String>)
        requires
            self.wf(),
        ensures
            r.deep_view() == pattern_group_names(self.pattern_view()),
    {
        &self.names
    }

    /// Scans `text` and hands back one record per match, each record
    /// the named groups that took part, with their captured text; a
    /// pattern with no named groups yields no records at all.
    pub fn extract(&self, text: &str) -> (r: Vec<Vec<(String, String)>>)
        requires
            self.wf(),
        ensures
            r.deep_view() == extraction_of(self.pattern_view(), text@),
    {
        if self.names.len() == 0 {
            let r: Vec<Vec<(String, String)>> = Vec::new();
            proof {
                assert(r.deep_view() =~= Seq::<Seq<(Seq<char>, Seq<char>)>>::empty());
            }
            r
        } else {
            regex_scan(&self.re, &self.names, text)
        }
    }
}

/// Recompilation changes nothing: two matchers compiled from the same
/// pattern text carry the same named-group list, and extraction with
/// either yields the same records on every text.
pub proof fn lemma_recompile_idempotent(m1: Matcher, m2: Matcher, text: Seq<char>)
    requires
        m1.wf(),
        m2.wf(),
        m1.pattern_view() == m2.pattern_view(),
    ensures
        m1.names_view() == m2.names_view(),
        extraction_of(m1.pattern_view(), text) == extraction_of(m2.pattern_view(), text),
{
}

/// The scan order is kept: whenever the pattern names at least one
/// capture group, the extraction is exactly the scan sequence, so
/// record `i` comes from match `i` of the left-to-right scan.
pub proof fn lemma_extraction_in_scan_order(pattern: Seq<char>, text: Seq<char>)
    requires
        pattern_group_names(pattern).len() > 0,
    ensures
        extraction_of(pattern, text) == pattern_matches(pattern, text),
{
}

/// No named groups, no records: a pattern that names no capture
/// group yields an empty extraction on every text, however many raw
/// matches the scan would find.
pub proof fn lemma_no_named_groups_no_records(pattern: Seq<char>, text: Seq<char>)
    requires
        pattern_group_names(pattern).len() == 0,
    ensures
        extraction_of(pattern, text) == Seq::<Seq<(Seq<char>, Seq<char>)>>::empty(),
{
}

} // verus!
