//! The section segmenter: cuts the document into its top-level sections and
//! reads the summary and the session variables.

use crate::models::{
    inserted, lookup, result_view, Entries, ParseError, ParseErrorView, ProfileSummary,
    ProfileSummaryView, StringMap,
};
use crate::parser::operator_parser::{metric_of, read_metric};
use crate::parser::value_parser::{time_ns_of, ValueParser};
use crate::text::{
    chars_of, find, find_of, indent, indent_of, lemma_find_from_bounds, line_views, lines_of,
    occurs_at, pos_of, split_lines, starts_with, string_of, trim, trim_of,
};
use vstd::prelude::*;
use vstd::slice::slice_subrange;
use vstd::string::StringExecFns;

verus! {

/// Whether a trimmed line begins with the marker of a top-level section.
pub open spec fn is_section_marker(t: Seq<char>) -> bool {
    ||| "Summary:"@.is_prefix_of(t)
    ||| "Execution Summary:"@.is_prefix_of(t)
    ||| "ChangedSessionVariables:"@.is_prefix_of(t)
    ||| "MergedProfile:"@.is_prefix_of(t)
}

/// Whether a line opens a top-level section: after trimming it is not
/// empty, does not begin with `-`, `[` or `{`, and begins with a marker.
pub open spec fn opens_section(line: Seq<char>) -> bool {
    let t = trim_of(line);
    t.len() > 0 && t[0] != '-' && t[0] != '[' && t[0] != '{' && is_section_marker(t)
}

/// The first position at or after `i` that holds a line feed, or the
/// length.
pub open spec fn line_stop(s: Seq<char>, i: int) -> int
    decreases s.len() - i,
{
    if 0 <= i < s.len() && s[i] != '\n' {
        line_stop(s, i + 1)
    } else {
        i
    }
}

/// The first position at or after `i` where a line other than the first
/// begins that opens a top-level section; the length where there is none.
pub open spec fn section_end_from(s: Seq<char>, i: int) -> int
    decreases s.len() - i,
{
    if i < 0 || i >= s.len() {
        s.len() as int
    } else if i > 0 && s[i - 1] == '\n' && opens_section(s.subrange(i, line_stop(s, i))) {
        i
    } else {
        section_end_from(s, i + 1)
    }
}

/// Where the section that `s` begins with ends.
pub open spec fn section_end_of(s: Seq<char>) -> int {
    section_end_from(s, 0)
}

/// The body of the section that `marker` opens: what follows the first
/// occurrence of `marker` up to the next line that opens a top-level
/// section. Without the marker the section is missing.
pub open spec fn section_of(text: Seq<char>, marker: Seq<char>) -> Result<Seq<char>, ParseErrorView> {
    match find_of(text, marker) {
        Some(p) => {
            let rest = text.subrange(p + marker.len(), text.len() as int);
            Ok(rest.subrange(0, section_end_of(rest)))
        },
        None => Err(ParseErrorView::MissingField(marker + " section"@)),
    }
}

/// The metric lines of `lines` from `i` on, put into `m` in order; lines
/// with an empty key are passed over, and so are lines without indentation
/// where `indented` asks for it.
pub open spec fn fields_scan(lines: Seq<Seq<char>>, i: int, indented: bool, m: Entries) -> Entries
    decreases lines.len() - i,
{
    if i < 0 || i >= lines.len() {
        m
    } else {
        match metric_of(lines[i]) {
            Some((key, value)) => if key.len() > 0 && (!indented || indent_of(lines[i]) > 0) {
                fields_scan(lines, i + 1, indented, inserted(m, key, value))
            } else {
                fields_scan(lines, i + 1, indented, m)
            },
            None => fields_scan(lines, i + 1, indented, m),
        }
    }
}

/// The key-value lines of the metadata section and, where the document has
/// one, of the execution summary after them.
pub open spec fn summary_fields(text: Seq<char>, block: Seq<char>) -> Entries {
    let first = fields_scan(lines_of(block), 0, false, Seq::empty());
    match section_of(text, "Execution Summary:"@) {
        Ok(more) => fields_scan(lines_of(more), 0, true, first),
        Err(_) => first,
    }
}

/// What `fields` holds under `key`, or the empty text.
pub open spec fn field_or_empty(fields: Entries, key: Seq<char>) -> Seq<char> {
    match lookup(fields, key) {
        Some(v) => v,
        None => Seq::empty(),
    }
}

/// The summary that the key-value lines `fields` give.
pub open spec fn summary_from(fields: Entries) -> ProfileSummaryView {
    ProfileSummaryView {
        query_id: field_or_empty(fields, "Profile ID"@),
        start_time: field_or_empty(fields, "Start Time"@),
        end_time: field_or_empty(fields, "End Time"@),
        total_time: field_or_empty(fields, "Total"@),
        query_state: field_or_empty(fields, "Task State"@),
        doris_version: field_or_empty(fields, "Doris Version"@),
        sql_statement: field_or_empty(fields, "Sql Statement"@),
        query_type: lookup(fields, "Task Type"@),
        user: lookup(fields, "User"@),
        default_db: lookup(fields, "Default Db"@),
        variables: Seq::empty(),
        session_variables: Seq::empty(),
        total_time_ns: time_ns_of(field_or_empty(fields, "Total"@)),
        query_peak_memory: None,
    }
}

/// The summary of a document, or that its metadata section is missing.
pub open spec fn summary_of(text: Seq<char>) -> Result<ProfileSummaryView, ParseErrorView> {
    match section_of(text, "Summary:"@) {
        Ok(block) => Ok(summary_from(summary_fields(text, block))),
        Err(e) => Err(e),
    }
}

/// Where the section that `s` begins with ends.
pub fn find_section_end(s: &[char]) -> (r: usize)
    ensures
        r == section_end_of(s@),
        r <= s@.len(),
{
    let summary = chars_of("Summary:");
    let execution = chars_of("Execution Summary:");
    let variables = chars_of("ChangedSessionVariables:");
    let merged = chars_of("MergedProfile:");
    let mut i: usize = 0;
    while i < s.len()
        invariant
            i <= s.len(),
            summary@ == "Summary:"@,
            execution@ == "Execution Summary:"@,
            variables@ == "ChangedSessionVariables:"@,
            merged@ == "MergedProfile:"@,
            section_end_from(s@, 0) == section_end_from(s@, i as int),
        decreases s.len() - i,
    {
        if i > 0 && s[i - 1] == '\n' {
            let mut e: usize = i;
            while e < s.len() && s[e] != '\n'
                invariant
                    i <= e <= s.len(),
                    line_stop(s@, i as int) == line_stop(s@, e as int),
                decreases s.len() - e,
            {
                e += 1;
            }
            let t = trim(slice_subrange(s, i, e));
            if t.len() > 0 && t[0] != '-' && t[0] != '[' && t[0] != '{' && (starts_with(
                t,
                summary.as_slice(),
            ) || starts_with(t, execution.as_slice()) || starts_with(t, variables.as_slice())
                || starts_with(t, merged.as_slice())) {
                return i;
            }
        }
        i += 1;
    }
    s.len()
}

/// The section body after the first occurrence of `marker`.
pub fn section_chars<'a>(text: &'a [char], marker: &[char]) -> (r: Option<&'a [char]>)
    ensures
        match section_of(text@, marker@) {
            Ok(body) => r matches Some(b) && b@ == body,
            Err(_) => r is None,
        },
{
    proof {
        lemma_find_from_bounds(text@, marker@, 0);
    }
    match find(text, marker) {
        Some(p) => {
            assert(occurs_at(text@, marker@, p as int));
            let n: usize = text.len();
            let rest = slice_subrange(text, p + marker.len(), n);
            let end = find_section_end(rest);
            Some(slice_subrange(rest, 0, end))
        },
        None => None,
    }
}

/// Puts the metric lines of `block` into `fields`.
fn read_fields(block: &[char], indented: bool, fields: &mut StringMap)
    ensures
        final(fields).deep_view() == fields_scan(
            lines_of(block@),
            0,
            indented,
            old(fields).deep_view(),
        ),
{
    let lines = split_lines(block);
    let ghost all = line_views(lines@);
    let mut i: usize = 0;
    while i < lines.len()
        invariant
            i <= lines.len(),
            all == line_views(lines@),
            all == lines_of(block@),
            fields_scan(all, i as int, indented, fields.deep_view()) == fields_scan(
                all,
                0,
                indented,
                old(fields).deep_view(),
            ),
        decreases lines.len() - i,
    {
        let line: &[char] = lines[i];
        assert(all[i as int] == line@);
        match read_metric(line) {
            Some((key, value)) => {
                let n: usize = key.as_str().unicode_len();
                if n > 0 && (!indented || indent(line) > 0) {
                    fields.insert(key, value);
                }
            },
            None => {},
        }
        i += 1;
    }
}

/// What `fields` holds under `key`, or the empty text.
fn field_text(fields: &StringMap, key: &str) -> (r: String)
    ensures
        r@ == field_or_empty(fields.deep_view(), key@),
{
    match fields.get(key) {
        Some(v) => v.clone(),
        None => String::new(),
    }
}

/// What `fields` holds under `key`.
fn field(fields: &StringMap, key: &str) -> (r: Option<String>)
    ensures
        r.deep_view() == lookup(fields.deep_view(), key@),
{
    match fields.get(key) {
        Some(v) => Some(v.clone()),
        None => None,
    }
}

/// `marker` followed by ` section`.
fn missing_section(marker: &str) -> (r: ParseError)
    ensures
        r.deep_view() == ParseErrorView::MissingField(marker@ + " section"@),
{
    let mut message: String = marker.to_owned();
    message.append(" section");
    ParseError::MissingField(message)
}

/// The error of the JSON decoder.
#[verifier::external_type_specification]
#[verifier::external_body]
pub struct ExJsonError(serde_json::Error);

/// What `serde_json::from_str` makes of `text` when asked for a list of
/// maps from strings to strings: the maps, each with its keys in ascending
/// order, or nothing where the decoder reports an error.
pub uninterp spec fn json_string_maps(text: Seq<char>) -> Option<Seq<Entries>>;

/// `serde_json::from_str` for a list of maps from strings to strings. The
/// result is the decoder's alone; it depends on nothing but the text.
#[verifier::external_body]
fn decode_string_maps(json: &str) -> (r: Result<Vec<StringMap>, serde_json::Error>)
    ensures
        match r {
            Ok(maps) => json_string_maps(json@) == Some(maps.deep_view()),
            Err(_) => json_string_maps(json@) is None,
        },
{
    let maps: Vec<std::collections::BTreeMap<String, String>> = serde_json::from_str(json)?;
    Ok(maps.into_iter().map(|m| StringMap { entries: m.into_iter().collect() }).collect())
}

/// The message of a JSON decoder error, as its `Display` writes it.
#[verifier::external_body]
fn json_error_text(error: &serde_json::Error) -> (r: String) {
    error.to_string()
}

/// Where the bracket that is open `depth` levels deep at `i` closes: the
/// position after the `]` that brings the depth to zero.
pub open spec fn bracket_end(s: Seq<char>, i: int, depth: int) -> Option<int>
    decreases s.len() - i,
{
    if i < 0 || i >= s.len() {
        None
    } else if s[i] == '[' {
        bracket_end(s, i + 1, depth + 1)
    } else if s[i] == ']' {
        if depth <= 1 {
            Some(i + 1)
        } else {
            bracket_end(s, i + 1, depth - 1)
        }
    } else {
        bracket_end(s, i + 1, depth)
    }
}

/// The text of the session variables: after the marker, the span from the
/// first `[` to the `]` that closes it, brackets counted character by
/// character. Where the bracket never closes the span is empty.
pub open spec fn json_span_of(text: Seq<char>) -> Result<Seq<char>, ParseErrorView> {
    match find_of(text, "ChangedSessionVariables:"@) {
        None => Err(ParseErrorView::MissingField("ChangedSessionVariables section"@)),
        Some(p) => {
            let after = text.subrange(
                p + "ChangedSessionVariables:"@.len(),
                text.len() as int,
            );
            match find_of(after, "["@) {
                None => Err(ParseErrorView::InvalidFormat("No JSON array found"@)),
                Some(a) => match bracket_end(after, a, 0) {
                    Some(b) => Ok(after.subrange(a, b)),
                    None => Ok(Seq::empty()),
                },
            }
        },
    }
}

/// What becomes of the decoder's answer: its maps, or a format error that
/// carries its message.
pub open spec fn session_variables_from(decoded: Result<Seq<Entries>, Seq<char>>) -> Result<
    Seq<Entries>,
    ParseErrorView,
> {
    match decoded {
        Ok(maps) => Ok(maps),
        Err(message) => Err(ParseErrorView::InvalidFormat("Failed to parse JSON: "@ + message)),
    }
}

/// A bracket closes after where the search starts, within the text.
pub proof fn lemma_bracket_end_bounds(s: Seq<char>, i: int, depth: int)
    requires
        0 <= i,
    ensures
        bracket_end(s, i, depth) matches Some(b) ==> i < b <= s.len(),
    decreases s.len() - i,
{
    if i < s.len() {
        if s[i] == '[' {
            lemma_bracket_end_bounds(s, i + 1, depth + 1);
        } else if s[i] == ']' {
            if depth > 1 {
                lemma_bracket_end_bounds(s, i + 1, depth - 1);
            }
        } else {
            lemma_bracket_end_bounds(s, i + 1, depth);
        }
    }
}

/// Where the bracket that opens at `a` closes.
fn find_bracket_end(s: &[char], a: usize) -> (r: Option<usize>)
    requires
        a <= s@.len(),
    ensures
        pos_of(r) == bracket_end(s@, a as int, 0),
        r matches Some(b) ==> a < b <= s@.len(),
{
    let mut depth: usize = 0;
    let mut i: usize = a;
    proof {
        lemma_bracket_end_bounds(s@, a as int, 0);
    }
    while i < s.len()
        invariant
            a <= i <= s.len(),
            depth <= i - a,
            bracket_end(s@, a as int, 0) == bracket_end(s@, i as int, depth as int),
        decreases s.len() - i,
    {
        if s[i] == '[' {
            depth += 1;
        } else if s[i] == ']' {
            if depth <= 1 {
                return Some(i + 1);
            }
            depth -= 1;
        }
        i += 1;
    }
    None
}

/// Namespace of the section segmenter.
pub struct SectionParser;

impl SectionParser {
    /// The body of the section that `marker` opens.
    pub fn extract_section(text: &str, marker: &str) -> (r: Result<String, ParseError>)
        ensures
            result_view(r) == section_of(text@, marker@),
    {
        let cs = chars_of(text);
        let ms = chars_of(marker);
        match section_chars(cs.as_slice(), ms.as_slice()) {
            Some(body) => Ok(string_of(body)),
            None => Err(missing_section(marker)),
        }
    }

    /// The body of the merged profile.
    pub fn extract_merged_profile(text: &str) -> (r: Result<String, ParseError>)
        ensures
            result_view(r) == section_of(text@, "MergedProfile:"@),
    {
        Self::extract_section(text, "MergedProfile:")
    }

    /// The text of the session variables in a document.
    pub fn json_span(text: &str) -> (r: Result<String, ParseError>)
        ensures
            result_view(r) == json_span_of(text@),
    {
        let cs = chars_of(text);
        let marker = chars_of("ChangedSessionVariables:");
        let open = chars_of("[");
        proof {
            lemma_find_from_bounds(cs@, "ChangedSessionVariables:"@, 0);
        }
        let p: usize = match find(cs.as_slice(), marker.as_slice()) {
            Some(p) => p,
            None => {
                return Err(
                    ParseError::MissingField("ChangedSessionVariables section".to_owned()),
                );
            },
        };
        assert(occurs_at(cs@, "ChangedSessionVariables:"@, p as int));
        let n: usize = cs.len();
        let after = slice_subrange(cs.as_slice(), p + marker.len(), n);
        proof {
            lemma_find_from_bounds(after@, "["@, 0);
        }
        let a: usize = match find(after, open.as_slice()) {
            Some(a) => a,
            None => {
                return Err(ParseError::InvalidFormat("No JSON array found".to_owned()));
            },
        };
        assert(occurs_at(after@, "["@, a as int));
        match find_bracket_end(after, a) {
            Some(b) => Ok(string_of(slice_subrange(after, a, b))),
            None => Ok(String::new()),
        }
    }

    /// What becomes of the decoder's answer: its maps, or a format error
    /// that carries its message.
    pub fn decoded_session_variables(decoded: Result<Vec<StringMap>, String>) -> (r: Result<
        Vec<StringMap>,
        ParseError,
    >)
        ensures
            result_view(r) == session_variables_from(
                match decoded {
                    Ok(maps) => Ok(maps.deep_view()),
                    Err(message) => Err(message@),
                },
            ),
    {
        match decoded {
            Ok(maps) => Ok(maps),
            Err(message) => {
                let mut text: String = "Failed to parse JSON: ".to_owned();
                text.append(message.as_str());
                Err(ParseError::InvalidFormat(text))
            },
        }
    }

    /// Reads the session variables of a document: the JSON array after the
    /// marker, as a list of maps from strings to strings.
    pub fn parse_session_variables(text: &str) -> (r: Result<Vec<StringMap>, ParseError>)
        ensures
            match json_span_of(text@) {
                Err(e) => result_view(r) == Err::<Seq<Entries>, ParseErrorView>(e),
                Ok(span) => match json_string_maps(span) {
                    Some(maps) => result_view(r) == Ok::<Seq<Entries>, ParseErrorView>(maps),
                    None => r matches Err(ParseError::InvalidFormat(m))
                        && "Failed to parse JSON: "@.is_prefix_of(m@),
                },
            },
    {
        let span: String = match Self::json_span(text) {
            Ok(s) => s,
            Err(e) => {
                return Err(e);
            },
        };
        let decoded: Result<Vec<StringMap>, String> = match decode_string_maps(span.as_str()) {
            Ok(maps) => Ok(maps),
            Err(e) => Err(json_error_text(&e)),
        };
        let ghost answer = decoded;
        let r = Self::decoded_session_variables(decoded);
        proof {
            match answer {
                Ok(_) => {},
                Err(message) => {
                    assert(("Failed to parse JSON: "@ + message@).subrange(
                        0,
                        "Failed to parse JSON: "@.len() as int,
                    ) =~= "Failed to parse JSON: "@);
                },
            }
        }
        r
    }

    /// Reads the summary of a document.
    pub fn parse_summary(text: &str) -> (r: Result<ProfileSummary, ParseError>)
        ensures
            result_view(r) == summary_of(text@),
    {
        let cs = chars_of(text);
        let summary_marker = chars_of("Summary:");
        let execution_marker = chars_of("Execution Summary:");
        let block: &[char] = match section_chars(cs.as_slice(), summary_marker.as_slice()) {
            Some(b) => b,
            None => {
                return Err(missing_section("Summary:"));
            },
        };
        let mut fields = StringMap::new();
        read_fields(block, false, &mut fields);
        match section_chars(cs.as_slice(), execution_marker.as_slice()) {
            Some(more) => {
                read_fields(more, true, &mut fields);
            },
            None => {},
        }
        let total_time = field_text(&fields, "Total");
        let total_time_ns = ValueParser::parse_time_to_ns(total_time.as_str());
        let summary = ProfileSummary {
            query_id: field_text(&fields, "Profile ID"),
            start_time: field_text(&fields, "Start Time"),
            end_time: field_text(&fields, "End Time"),
            total_time,
            query_state: field_text(&fields, "Task State"),
            doris_version: field_text(&fields, "Doris Version"),
            sql_statement: field_text(&fields, "Sql Statement"),
            query_type: field(&fields, "Task Type"),
            user: field(&fields, "User"),
            default_db: field(&fields, "Default Db"),
            variables: StringMap::new(),
            session_variables: Vec::new(),
            total_time_ns,
            query_peak_memory: None,
        };
        proof {
            assert(summary.session_variables.deep_view() =~= Seq::<Entries>::empty());
        }
        Ok(summary)
    }
}

} // verus!
