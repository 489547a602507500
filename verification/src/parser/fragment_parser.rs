//! The fragment and pipeline segmenter: splits the merged profile into
//! fragments and each fragment into pipelines, by header lines and their
//! indentation.

use crate::models::{
    inserted, Entries, Fragment, FragmentView, ParseError, Pipeline, PipelineView, StringMap,
};
use crate::parser::header::{after_digits, digits_after, word_end};
use crate::parser::operator_parser::{
    header_line, is_header_line, metric_of, operator_of, parsed_operators_of, read_metric,
    OperatorParser, ParsedOperatorView,
};
use crate::numbers::{all_digits, is_digit, lemma_digits_end};
use crate::text::{
    chars_of, has_no_dash, indent, indent_of, join_lines, join_of, line_views, lines_of,
    occurs_at, skip_space_run, skip_spaces, split_lines, starts_with, string_of, trim, trim_of,
};
use vstd::prelude::*;
use vstd::slice::slice_subrange;
use vstd::string::StringExecFns;

verus! {

/// The number of a fragment header line: after trimming, `Fragment`,
/// whitespace, digits, and a colon.
pub open spec fn fragment_id_of(line: Seq<char>) -> Option<Seq<char>> {
    let t = trim_of(line);
    let a = "Fragment"@.len() as int;
    let w = skip_spaces(t, a);
    if occurs_at(t, "Fragment"@, 0) && w > a && after_digits(t, w) is Some && after_digits(
        t,
        w,
    ).unwrap() < t.len() && t[after_digits(t, w).unwrap()] == ':' {
        Some(t.subrange(w, after_digits(t, w).unwrap()))
    } else {
        None
    }
}

/// The number and the instance count of a pipeline header line: after
/// trimming, `Pipeline`, whitespace, digits, `(instance_num=`, digits, and
/// `):`.
pub open spec fn pipeline_ids_of(line: Seq<char>) -> Option<(Seq<char>, Seq<char>)> {
    let t = trim_of(line);
    let a = "Pipeline"@.len() as int;
    let w = skip_spaces(t, a);
    if occurs_at(t, "Pipeline"@, 0) && w > a && after_digits(t, w) is Some {
        let e = after_digits(t, w).unwrap();
        let b = e + "(instance_num="@.len();
        if occurs_at(t, "(instance_num="@, e) && after_digits(t, b) is Some && occurs_at(
            t,
            "):"@,
            after_digits(t, b).unwrap(),
        ) {
            Some((t.subrange(w, e), t.subrange(b, after_digits(t, b).unwrap())))
        } else {
            None
        }
    } else {
        None
    }
}

/// The counters of a pipeline: the metric lines from `i` up to the first
/// operator header, put into `m` in order.
pub open spec fn pipeline_metrics_scan(lines: Seq<Seq<char>>, i: int, m: Entries) -> Entries
    decreases lines.len() - i,
{
    if i < 0 || i >= lines.len() || is_header_line(lines[i]) {
        m
    } else {
        match metric_of(lines[i]) {
            Some((key, value)) => if key.len() > 0 {
                pipeline_metrics_scan(lines, i + 1, inserted(m, key, value))
            } else {
                pipeline_metrics_scan(lines, i + 1, m)
            },
            None => pipeline_metrics_scan(lines, i + 1, m),
        }
    }
}

/// The pipeline that the block `text` describes, given the number `id` and
/// the instance count `instance_num` from its header.
pub open spec fn pipeline_of(text: Seq<char>, id: Seq<char>, instance_num: Seq<char>) -> PipelineView {
    PipelineView {
        id: "Pipeline "@ + id,
        metrics: pipeline_metrics_scan(
            lines_of(text),
            0,
            inserted(Seq::empty(), "instance_num"@, instance_num),
        ),
        operators: parsed_operators_of(text).map_values(|p: ParsedOperatorView| operator_of(p)),
        raw_text: text,
    }
}

/// Whether a line ends the pipeline block whose header is indented by
/// `base`: a pipeline or fragment header that is indented no deeper.
pub open spec fn pipeline_stop(line: Seq<char>, base: int) -> bool {
    indent_of(line) <= base && (pipeline_ids_of(line) is Some || fragment_id_of(line) is Some)
}

/// The first line at or after `j` that ends the pipeline block, or the
/// number of lines.
pub open spec fn pipeline_end(lines: Seq<Seq<char>>, j: int, base: int) -> int
    decreases lines.len() - j,
{
    if 0 <= j < lines.len() && !pipeline_stop(lines[j], base) {
        pipeline_end(lines, j + 1, base)
    } else {
        j
    }
}

/// A pipeline block ends at or after where the search for its end starts, within the lines.
pub proof fn lemma_pipeline_end_bounds(lines: Seq<Seq<char>>, j: int, base: int)
    requires
        0 <= j <= lines.len(),
    ensures
        j <= pipeline_end(lines, j, base) <= lines.len(),
    decreases lines.len() - j,
{
    if j < lines.len() && !pipeline_stop(lines[j], base) {
        lemma_pipeline_end_bounds(lines, j + 1, base);
    }
}

/// The pipelines of the lines from `i` on, in order.
pub open spec fn pipelines_from(lines: Seq<Seq<char>>, i: int) -> Seq<PipelineView>
    decreases lines.len() - i,
{
    if i < 0 || i >= lines.len() {
        Seq::empty()
    } else {
        match pipeline_ids_of(lines[i]) {
            Some((id, instance_num)) => {
                let end = pipeline_end(lines, i + 1, indent_of(lines[i]));
                proof {
                    lemma_pipeline_end_bounds(lines, i + 1, indent_of(lines[i]));
                }
                seq![pipeline_of(join_of(lines.subrange(i, end)), id, instance_num)]
                    + pipelines_from(lines, end)
            },
            None => pipelines_from(lines, i + 1),
        }
    }
}

/// The fragment that the block `text` describes, given the number `id` from
/// its header.
pub open spec fn fragment_of(text: Seq<char>, id: Seq<char>) -> FragmentView {
    FragmentView {
        id: "Fragment "@ + id,
        backend_addresses: Seq::empty(),
        instance_ids: Seq::empty(),
        pipelines: pipelines_from(lines_of(text), 0),
    }
}

/// Whether a line ends the fragment block whose header is indented by
/// `base`: a fragment header that is indented no deeper.
pub open spec fn fragment_stop(line: Seq<char>, base: int) -> bool {
    trim_of(line).len() > 0 && indent_of(line) <= base && fragment_id_of(line) is Some
}

/// The first line at or after `j` that ends the fragment block, or the
/// number of lines.
pub open spec fn fragment_end(lines: Seq<Seq<char>>, j: int, base: int) -> int
    decreases lines.len() - j,
{
    if 0 <= j < lines.len() && !fragment_stop(lines[j], base) {
        fragment_end(lines, j + 1, base)
    } else {
        j
    }
}

/// A fragment block ends at or after where the search for its end starts, within the lines.
pub proof fn lemma_fragment_end_bounds(lines: Seq<Seq<char>>, j: int, base: int)
    requires
        0 <= j <= lines.len(),
    ensures
        j <= fragment_end(lines, j, base) <= lines.len(),
    decreases lines.len() - j,
{
    if j < lines.len() && !fragment_stop(lines[j], base) {
        lemma_fragment_end_bounds(lines, j + 1, base);
    }
}

/// The fragments of the lines from `i` on, in order.
pub open spec fn fragments_from(lines: Seq<Seq<char>>, i: int) -> Seq<FragmentView>
    decreases lines.len() - i,
{
    if i < 0 || i >= lines.len() {
        Seq::empty()
    } else {
        match fragment_id_of(lines[i]) {
            Some(id) => {
                let end = fragment_end(lines, i + 1, indent_of(lines[i]));
                proof {
                    lemma_fragment_end_bounds(lines, i + 1, indent_of(lines[i]));
                }
                seq![fragment_of(join_of(lines.subrange(i, end)), id)] + fragments_from(
                    lines,
                    end,
                )
            },
            None => fragments_from(lines, i + 1),
        }
    }
}

/// The first line at or after `i` that begins, after trimming, with
/// `Fragments:`; the number of lines where there is none.
pub open spec fn fragments_marker(lines: Seq<Seq<char>>, i: int) -> int
    decreases lines.len() - i,
{
    if 0 <= i < lines.len() && !"Fragments:"@.is_prefix_of(trim_of(lines[i])) {
        fragments_marker(lines, i + 1)
    } else {
        i
    }
}

/// The fragments of a merged profile: those whose header lines stand at or
/// after the `Fragments:` line, or anywhere where there is no such line.
pub open spec fn fragments_of(text: Seq<char>) -> Seq<FragmentView> {
    let lines = lines_of(text);
    let marker = fragments_marker(lines, 0);
    fragments_from(
        lines,
        if marker < lines.len() {
            marker
        } else {
            0
        },
    )
}

/// Whether the ids of a fragment and of its pipelines hold no `-`.
pub open spec fn plain_ids(f: FragmentView) -> bool {
    &&& has_no_dash(f.id)
    &&& forall|j: int| 0 <= j < f.pipelines.len() ==> has_no_dash((#[trigger] f.pipelines[j]).id)
}

proof fn lemma_label_has_no_dash(label: Seq<char>, digits: Seq<char>)
    requires
        has_no_dash(label),
        all_digits(digits),
    ensures
        has_no_dash(label + digits),
{
    assert forall|i: int| 0 <= i < (label + digits).len() implies (label + digits)[i] != '-' by {
        if i >= label.len() {
            assert(is_digit(digits[i - label.len()]));
        }
    }
}

proof fn lemma_pipeline_ids(lines: Seq<Seq<char>>, i: int)
    requires
        0 <= i,
    ensures
        forall|k: int|
            0 <= k < pipelines_from(lines, i).len() ==> has_no_dash(
                (#[trigger] pipelines_from(lines, i)[k]).id,
            ),
    decreases lines.len() - i,
{
    if i < lines.len() {
        match pipeline_ids_of(lines[i]) {
            Some((id, instance_num)) => {
                let end = pipeline_end(lines, i + 1, indent_of(lines[i]));
                lemma_pipeline_end_bounds(lines, i + 1, indent_of(lines[i]));
                lemma_pipeline_ids(lines, end);
                let t = trim_of(lines[i]);
                let w = skip_spaces(t, "Pipeline"@.len() as int);
                lemma_skip_spaces_from(t, "Pipeline"@.len() as int);
                reveal_strlit("Pipeline");
                reveal_strlit("Pipeline ");
                lemma_digits_end(t, w);
                lemma_label_has_no_dash("Pipeline "@, id);
                let first = pipeline_of(join_of(lines.subrange(i, end)), id, instance_num);
                let rest = pipelines_from(lines, end);
                let all = pipelines_from(lines, i);
                assert forall|k: int| 0 <= k < all.len() implies has_no_dash(
                    (#[trigger] all[k]).id,
                ) by {
                    if k > 0 {
                        assert(all[k] == rest[k - 1]);
                    } else {
                        assert(all[k] == first);
                    }
                }
            },
            None => {
                lemma_pipeline_ids(lines, i + 1);
                assert(pipelines_from(lines, i) == pipelines_from(lines, i + 1));
            },
        }
    } else {
        assert(pipelines_from(lines, i).len() == 0);
    }
}

proof fn lemma_fragment_ids(lines: Seq<Seq<char>>, i: int)
    requires
        0 <= i,
    ensures
        forall|k: int|
            0 <= k < fragments_from(lines, i).len() ==> plain_ids(
                #[trigger] fragments_from(lines, i)[k],
            ),
    decreases lines.len() - i,
{
    if i < lines.len() {
        match fragment_id_of(lines[i]) {
            Some(id) => {
                let end = fragment_end(lines, i + 1, indent_of(lines[i]));
                lemma_fragment_end_bounds(lines, i + 1, indent_of(lines[i]));
                lemma_fragment_ids(lines, end);
                let t = trim_of(lines[i]);
                let w = skip_spaces(t, "Fragment"@.len() as int);
                lemma_skip_spaces_from(t, "Fragment"@.len() as int);
                reveal_strlit("Fragment");
                reveal_strlit("Fragment ");
                lemma_digits_end(t, w);
                lemma_label_has_no_dash("Fragment "@, id);
                let block = join_of(lines.subrange(i, end));
                lemma_pipeline_ids(lines_of(block), 0);
                let first = fragment_of(block, id);
                let rest = fragments_from(lines, end);
                let all = fragments_from(lines, i);
                assert forall|k: int| 0 <= k < all.len() implies plain_ids(#[trigger] all[k]) by {
                    if k > 0 {
                        assert(all[k] == rest[k - 1]);
                    } else {
                        assert(all[k] == first);
                    }
                }
            },
            None => {
                lemma_fragment_ids(lines, i + 1);
                assert(fragments_from(lines, i) == fragments_from(lines, i + 1));
            },
        }
    } else {
        assert(fragments_from(lines, i).len() == 0);
    }
}

proof fn lemma_skip_spaces_from(s: Seq<char>, i: int)
    requires
        0 <= i,
    ensures
        i <= skip_spaces(s, i),
        skip_spaces(s, i) <= s.len() || skip_spaces(s, i) == i,
    decreases s.len() - i,
{
    if i < s.len() && crate::text::is_space(s[i]) {
        lemma_skip_spaces_from(s, i + 1);
    }
}

proof fn lemma_fragments_marker(lines: Seq<Seq<char>>, i: int)
    requires
        0 <= i,
    ensures
        i <= fragments_marker(lines, i),
    decreases lines.len() - i,
{
    if i < lines.len() && !"Fragments:"@.is_prefix_of(trim_of(lines[i])) {
        lemma_fragments_marker(lines, i + 1);
    }
}

/// The ids that the segmenter gives hold no `-`: those of the fragments of
/// a merged profile, and those of their pipelines.
pub proof fn segment_ids_are_plain(text: Seq<char>)
    ensures
        forall|k: int|
            0 <= k < fragments_of(text).len() ==> plain_ids(#[trigger] fragments_of(text)[k]),
{
    let lines = lines_of(text);
    lemma_fragments_marker(lines, 0);
    let marker = fragments_marker(lines, 0);
    lemma_fragment_ids(
        lines,
        if marker < lines.len() {
            marker
        } else {
            0
        },
    );
}

/// The number of a fragment header line.
pub fn fragment_header(line: &[char]) -> (r: Option<Vec<char>>)
    ensures
        r.deep_view() == fragment_id_of(line@),
{
    let t = trim(line);
    let word = chars_of("Fragment");
    let a: usize = match word_end(t, 0, word.as_slice()) {
        Some(a) => a,
        None => {
            return None;
        },
    };
    let w: usize = skip_space_run(t, a);
    if w <= a {
        return None;
    }
    let e: usize = match digits_after(t, w) {
        Some(e) => e,
        None => {
            return None;
        },
    };
    if e >= t.len() || t[e] != ':' {
        return None;
    }
    let id = vstd::slice::slice_to_vec(slice_subrange(t, w, e));
    assert(id.deep_view() =~= id@);
    Some(id)
}

/// The number and the instance count of a pipeline header line.
pub fn pipeline_header(line: &[char]) -> (r: Option<(Vec<char>, Vec<char>)>)
    ensures
        r.deep_view() == pipeline_ids_of(line@),
{
    let t = trim(line);
    let word = chars_of("Pipeline");
    let open = chars_of("(instance_num=");
    let close = chars_of("):");
    let a: usize = match word_end(t, 0, word.as_slice()) {
        Some(a) => a,
        None => {
            return None;
        },
    };
    let w: usize = skip_space_run(t, a);
    if w <= a {
        return None;
    }
    let e: usize = match digits_after(t, w) {
        Some(e) => e,
        None => {
            return None;
        },
    };
    let b: usize = match word_end(t, e, open.as_slice()) {
        Some(b) => b,
        None => {
            return None;
        },
    };
    let f: usize = match digits_after(t, b) {
        Some(f) => f,
        None => {
            return None;
        },
    };
    if word_end(t, f, close.as_slice()).is_none() {
        return None;
    }
    let id = vstd::slice::slice_to_vec(slice_subrange(t, w, e));
    let instance_num = vstd::slice::slice_to_vec(slice_subrange(t, b, f));
    assert(id.deep_view() =~= id@);
    assert(instance_num.deep_view() =~= instance_num@);
    Some((id, instance_num))
}

/// `word` followed by `rest`.
fn labelled(word: &str, rest: &str) -> (r: String)
    ensures
        r@ == word@ + rest@,
{
    let mut out: String = word.to_owned();
    out.append(rest);
    out
}

/// Namespace of the fragment and pipeline segmenter.
pub struct FragmentParser;

impl FragmentParser {
    /// The number of a fragment header line, if the line is one.
    pub fn fragment_header_id(line: &str) -> (r: Option<String>)
        ensures
            r.deep_view() == fragment_id_of(line@),
    {
        let cs = chars_of(line);
        match fragment_header(cs.as_slice()) {
            Some(id) => {
                assert(id.deep_view() =~= id@);
                Some(string_of(id.as_slice()))
            },
            None => None,
        }
    }

    /// The number and the instance count of a pipeline header line, if the
    /// line is one.
    pub fn pipeline_header_ids(line: &str) -> (r: Option<(String, String)>)
        ensures
            r.deep_view() == pipeline_ids_of(line@),
    {
        let cs = chars_of(line);
        match pipeline_header(cs.as_slice()) {
            Some((id, instance_num)) => {
                assert(id.deep_view() =~= id@);
                assert(instance_num.deep_view() =~= instance_num@);
                Some((string_of(id.as_slice()), string_of(instance_num.as_slice())))
            },
            None => None,
        }
    }

    /// Reads one pipeline block.
    pub fn parse_single_pipeline(text: &str, id: &str, instance_num: &str) -> (r: Result<
        Pipeline,
        ParseError,
    >)
        ensures
            r is Ok,
            r.unwrap().deep_view() == pipeline_of(text@, id@, instance_num@),
    {
        let mut metrics = StringMap::new();
        metrics.insert("instance_num".to_owned(), instance_num.to_owned());
        let cs = chars_of(text);
        let lines = split_lines(cs.as_slice());
        let ghost all = line_views(lines@);
        let mut i: usize = 0;
        while i < lines.len() && !header_line(lines[i])
            invariant
                i <= lines.len(),
                all == line_views(lines@),
                pipeline_metrics_scan(all, i as int, metrics.deep_view()) == pipeline_metrics_scan(
                    all,
                    0,
                    inserted(Seq::empty(), "instance_num"@, instance_num@),
                ),
            decreases lines.len() - i,
        {
            let line: &[char] = lines[i];
            assert(all[i as int] == line@);
            match read_metric(line) {
                Some((key, value)) => {
                    let n: usize = key.as_str().unicode_len();
                    if n > 0 {
                        metrics.insert(key, value);
                    }
                },
                None => {},
            }
            i += 1;
        }
        proof {
            if i < lines.len() {
                assert(all[i as int] == lines@[i as int]@);
            }
        }
        let operators = OperatorParser::extract_operators(text);
        Ok(
            Pipeline {
                id: labelled("Pipeline ", id),
                metrics,
                operators,
                raw_text: text.to_owned(),
            },
        )
    }

    /// The pipelines of a fragment block.
    pub fn parse_pipelines(text: &str) -> (r: Result<Vec<Pipeline>, ParseError>)
        ensures
            r is Ok,
            r.unwrap().deep_view() == pipelines_from(lines_of(text@), 0),
    {
        let cs = chars_of(text);
        let lines = split_lines(cs.as_slice());
        let ghost all = line_views(lines@);
        let mut out: Vec<Pipeline> = Vec::new();
        let mut i: usize = 0;
        proof {
            assert(out.deep_view() + pipelines_from(all, 0) =~= pipelines_from(all, 0));
        }
        while i < lines.len()
            invariant
                i <= lines.len(),
                all == line_views(lines@),
                out.deep_view() + pipelines_from(all, i as int) == pipelines_from(all, 0),
            decreases lines.len() - i,
        {
            let line: &[char] = lines[i];
            assert(all[i as int] == line@);
            match pipeline_header(line) {
                Some((id, instance_num)) => {
                    assert(id.deep_view() =~= id@);
                    assert(instance_num.deep_view() =~= instance_num@);
                    let base: usize = indent(line);
                    let mut end: usize = i + 1;
                    while end < lines.len() && !Self::ends_pipeline(lines[end], base)
                        invariant
                            i < end <= lines.len(),
                            all == line_views(lines@),
                            pipeline_end(all, i + 1, base as int) == pipeline_end(
                                all,
                                end as int,
                                base as int,
                            ),
                        decreases lines.len() - end,
                    {
                        assert(all[end as int] == lines@[end as int]@);
                        end += 1;
                    }
                    proof {
                        if end < lines.len() {
                            assert(all[end as int] == lines@[end as int]@);
                        }
                    }
                    let block = join_lines(lines.as_slice(), i, end);
                    let block_text = string_of(block.as_slice());
                    let id_text = string_of(id.as_slice());
                    let instance_text = string_of(instance_num.as_slice());
                    let pipeline = match Self::parse_single_pipeline(
                        block_text.as_str(),
                        id_text.as_str(),
                        instance_text.as_str(),
                    ) {
                        Ok(p) => p,
                        Err(e) => {
                            return Err(e);
                        },
                    };
                    let ghost before = out.deep_view();
                    let ghost rest = pipelines_from(all, end as int);
                    out.push(pipeline);
                    proof {
                        assert(out.deep_view() =~= before.push(pipeline.deep_view()));
                        assert(before.push(pipeline.deep_view()) + rest =~= before + (seq![
                            pipeline.deep_view(),
                        ] + rest));
                    }
                    i = end;
                },
                None => {
                    i += 1;
                },
            }
        }
        proof {
            assert(out.deep_view() + Seq::<PipelineView>::empty() =~= out.deep_view());
        }
        Ok(out)
    }

    /// Whether a line ends the pipeline block whose header is indented by
    /// `base`.
    fn ends_pipeline(line: &[char], base: usize) -> (r: bool)
        ensures
            r == pipeline_stop(line@, base as int),
    {
        indent(line) <= base && (pipeline_header(line).is_some() || fragment_header(
            line,
        ).is_some())
    }

    /// Whether a line ends the fragment block whose header is indented by
    /// `base`.
    fn ends_fragment(line: &[char], base: usize) -> (r: bool)
        ensures
            r == fragment_stop(line@, base as int),
    {
        trim(line).len() > 0 && indent(line) <= base && fragment_header(line).is_some()
    }

    /// Reads one fragment block, given the number from its header.
    pub fn parse_fragment(text: &str, id: &str) -> (r: Result<Fragment, ParseError>)
        ensures
            r is Ok,
            r.unwrap().deep_view() == fragment_of(text@, id@),
    {
        let pipelines = match Self::parse_pipelines(text) {
            Ok(p) => p,
            Err(e) => {
                return Err(e);
            },
        };
        let fragment = Fragment {
            id: labelled("Fragment ", id),
            backend_addresses: Vec::new(),
            instance_ids: Vec::new(),
            pipelines,
        };
        proof {
            assert(fragment.backend_addresses.deep_view() =~= Seq::<Seq<char>>::empty());
            assert(fragment.instance_ids.deep_view() =~= Seq::<Seq<char>>::empty());
        }
        Ok(fragment)
    }

    /// The fragments of a merged profile, in order.
    pub fn extract_all_fragments(text: &str) -> (r: Vec<Fragment>)
        ensures
            r.deep_view() == fragments_of(text@),
    {
        let cs = chars_of(text);
        let lines = split_lines(cs.as_slice());
        let ghost all = line_views(lines@);
        let marker_word = chars_of("Fragments:");
        let mut marker: usize = 0;
        while marker < lines.len() && !starts_with(trim(lines[marker]), marker_word.as_slice())
            invariant
                marker <= lines.len(),
                all == line_views(lines@),
                marker_word@ == "Fragments:"@,
                fragments_marker(all, 0) == fragments_marker(all, marker as int),
            decreases lines.len() - marker,
        {
            assert(all[marker as int] == lines@[marker as int]@);
            marker += 1;
        }
        proof {
            if marker < lines.len() {
                assert(all[marker as int] == lines@[marker as int]@);
            }
        }
        let first: usize = if marker < lines.len() {
            marker
        } else {
            0
        };
        let mut out: Vec<Fragment> = Vec::new();
        let mut i: usize = first;
        proof {
            assert(out.deep_view() + fragments_from(all, first as int) =~= fragments_from(
                all,
                first as int,
            ));
        }
        while i < lines.len()
            invariant
                first <= i,
                all == line_views(lines@),
                out.deep_view() + fragments_from(all, i as int) == fragments_from(
                    all,
                    first as int,
                ),
            decreases lines.len() - i,
        {
            let line: &[char] = lines[i];
            assert(all[i as int] == line@);
            match fragment_header(line) {
                Some(id) => {
                    assert(id.deep_view() =~= id@);
                    let base: usize = indent(line);
                    let mut end: usize = i + 1;
                    while end < lines.len() && !Self::ends_fragment(lines[end], base)
                        invariant
                            i < end <= lines.len(),
                            all == line_views(lines@),
                            fragment_end(all, i + 1, base as int) == fragment_end(
                                all,
                                end as int,
                                base as int,
                            ),
                        decreases lines.len() - end,
                    {
                        assert(all[end as int] == lines@[end as int]@);
                        end += 1;
                    }
                    proof {
                        if end < lines.len() {
                            assert(all[end as int] == lines@[end as int]@);
                        }
                    }
                    let block = join_lines(lines.as_slice(), i, end);
                    let block_text = string_of(block.as_slice());
                    let id_text = string_of(id.as_slice());
                    match Self::parse_fragment(block_text.as_str(), id_text.as_str()) {
                        Ok(fragment) => {
                            let ghost before = out.deep_view();
                            let ghost rest = fragments_from(all, end as int);
                            out.push(fragment);
                            proof {
                                assert(out.deep_view() =~= before.push(fragment.deep_view()));
                                assert(before.push(fragment.deep_view()) + rest =~= before + (
                                seq![fragment.deep_view()] + rest));
                            }
                        },
                        Err(_) => {},
                    }
                    i = end;
                },
                None => {
                    i += 1;
                },
            }
        }
        proof {
            assert(out.deep_view() + Seq::<FragmentView>::empty() =~= out.deep_view());
        }
        out
    }
}

} // verus!
