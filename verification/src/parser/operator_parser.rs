//! The operator segmenter: splits a pipeline's text into operator blocks and
//! reads each block's header and its three sections of metrics.

use crate::models::{
    find_item, inserted, item_value, lemma_metric_item_view, Entries, MetricItem, MetricItemView,
    Operator, OperatorView, StringMap,
};
use crate::numbers::{int_chars, int_repr};
use crate::parser::header::{header_of, read_header, Header};
use crate::parser::value_parser::{aggregated_of, AggregatedView, ValueParser};
use crate::text::{
    chars_of, indent, indent_of, is_space, join_lines, join_of, line_views, lines_of, same,
    split_lines, starts_with, string_of, trim, trim_of, char_is_space,
};
use vstd::prelude::*;
use vstd::slice::slice_subrange;
use vstd::string::StringExecFns;

verus! {

/// An operator with everything that its block says of it.
#[derive(Debug)]
pub struct ParsedOperator {
    pub name: String,
    pub id: i32,
    pub nereids_id: Option<i32>,
    /// Of data-stream sinks: the exchange that receives the data.
    pub dest_id: Option<i32>,
    /// Of local exchanges: the kind of exchange.
    pub exchange_type: Option<String>,
    pub plan_info: Vec<MetricItem>,
    pub common_counters: Vec<MetricItem>,
    pub custom_counters: Vec<MetricItem>,
    pub table_name: Option<String>,
}

/// An operator with everything that its block says of it, as mathematical values.
pub struct ParsedOperatorView {
    pub name: Seq<char>,
    pub id: i32,
    pub nereids_id: Option<i32>,
    pub dest_id: Option<i32>,
    pub exchange_type: Option<Seq<char>>,
    pub plan_info: Seq<MetricItemView>,
    pub common_counters: Seq<MetricItemView>,
    pub custom_counters: Seq<MetricItemView>,
    pub table_name: Option<Seq<char>>,
}

impl DeepView for ParsedOperator {
    type V = ParsedOperatorView;

    open spec fn deep_view(&self) -> ParsedOperatorView {
        ParsedOperatorView {
            name: self.name@,
            id: self.id,
            nereids_id: self.nereids_id,
            dest_id: self.dest_id,
            exchange_type: self.exchange_type.deep_view(),
            plan_info: self.plan_info.deep_view(),
            common_counters: self.common_counters.deep_view(),
            custom_counters: self.custom_counters.deep_view(),
            table_name: self.table_name.deep_view(),
        }
    }
}

/// The first position at or after `i` that holds a colon, or the length.
pub open spec fn colon_end(t: Seq<char>, i: int) -> int
    decreases t.len() - i,
{
    if 0 <= i < t.len() && t[i] != ':' {
        colon_end(t, i + 1)
    } else {
        i
    }
}

/// The key and the value of a metric line `- Key: Value`: after trimming,
/// a `-`, whitespace, a key that ends at the first colon, and the value
/// after that colon; both trimmed.
pub open spec fn metric_of(line: Seq<char>) -> Option<(Seq<char>, Seq<char>)> {
    let t = trim_of(line);
    let c = colon_end(t, 2);
    if t.len() > 2 && t[0] == '-' && is_space(t[1]) && 2 < c < t.len() {
        Some((trim_of(t.subrange(2, c)), trim_of(t.subrange(c + 1, t.len() as int))))
    } else {
        None
    }
}

/// Reads a metric line.
pub fn read_metric(line: &[char]) -> (r: Option<(String, String)>)
    ensures
        r.deep_view() == metric_of(line@),
{
    let t = trim(line);
    if t.len() <= 2 || t[0] != '-' || !char_is_space(t[1]) {
        return None;
    }
    let mut c: usize = 2;
    while c < t.len() && t[c] != ':'
        invariant
            2 <= c <= t.len(),
            colon_end(t@, 2) == colon_end(t@, c as int),
        decreases t.len() - c,
    {
        c += 1;
    }
    if c <= 2 || c >= t.len() {
        return None;
    }
    let key = string_of(trim(slice_subrange(t, 2, c)));
    let value = string_of(trim(slice_subrange(t, c + 1, t.len())));
    Some((key, value))
}

/// A metric line with its indentation, before nesting.
pub struct FlatMetric {
    pub indent: int,
    pub key: Seq<char>,
    pub value: Seq<char>,
}

/// Whether a line that is indented by `indent` is nested under a line that
/// is indented by `base`: it stands at least two columns further in.
pub open spec fn nested_under(indent: int, base: int) -> bool {
    indent >= base + 2
}

/// The first position in `j..hi` whose line is not nested under a line
/// that is indented by `base`, or `hi`.
pub open spec fn subtree_end(items: Seq<FlatMetric>, j: int, hi: int, base: int) -> int
    decreases hi - j,
{
    if 0 <= j < hi && j < items.len() && nested_under(items[j].indent, base) {
        subtree_end(items, j + 1, hi, base)
    } else {
        j
    }
}

/// The lines nested under a line end at or after where the search starts, within the range.
pub proof fn lemma_subtree_end_bounds(items: Seq<FlatMetric>, j: int, hi: int, base: int)
    requires
        0 <= j <= hi,
    ensures
        j <= subtree_end(items, j, hi, base) <= hi,
    decreases hi - j,
{
    if j < hi && j < items.len() && nested_under(items[j].indent, base) {
        lemma_subtree_end_bounds(items, j + 1, hi, base);
    }
}

/// The trees that the metric lines `lo..hi` form: the children of a line
/// are the lines that follow it up to the first line that is not nested
/// under it, formed into trees in the same way.
pub open spec fn forest_of(items: Seq<FlatMetric>, lo: int, hi: int) -> Seq<MetricItemView>
    decreases hi - lo,
{
    if lo < 0 || lo >= hi || hi > items.len() {
        Seq::empty()
    } else {
        let e = subtree_end(items, lo + 1, hi, items[lo].indent);
        proof {
            lemma_subtree_end_bounds(items, lo + 1, hi, items[lo].indent);
        }
        seq![
            MetricItemView {
                key: items[lo].key,
                value: items[lo].value,
                children: forest_of(items, lo + 1, e),
            },
        ] + forest_of(items, e, hi)
    }
}

/// A metric line as read.
pub struct FlatItem {
    pub indent: usize,
    pub key: String,
    pub value: String,
}

impl DeepView for FlatItem {
    type V = FlatMetric;

    open spec fn deep_view(&self) -> FlatMetric {
        FlatMetric { indent: self.indent as int, key: self.key@, value: self.value@ }
    }
}

/// Nests the metric lines `lo..hi`.
pub fn build_forest(items: &Vec<FlatItem>, lo: usize, hi: usize) -> (r: Vec<MetricItem>)
    requires
        lo <= hi <= items@.len(),
    ensures
        r.deep_view() == forest_of(items.deep_view(), lo as int, hi as int),
    decreases hi - lo,
{
    let mut out: Vec<MetricItem> = Vec::new();
    let mut i: usize = lo;
    while i < hi
        invariant
            lo <= i <= hi <= items@.len(),
            out.deep_view() + forest_of(items.deep_view(), i as int, hi as int) == forest_of(
                items.deep_view(),
                lo as int,
                hi as int,
            ),
        decreases hi - i,
    {
        let base: usize = items[i].indent;
        let mut e: usize = i + 1;
        while e < hi && items[e].indent >= base && items[e].indent - base >= 2
            invariant
                i < e <= hi <= items@.len(),
                base == items.deep_view()[i as int].indent,
                subtree_end(items.deep_view(), i + 1, hi as int, base as int) == subtree_end(
                    items.deep_view(),
                    e as int,
                    hi as int,
                    base as int,
                ),
            decreases hi - e,
        {
            e += 1;
        }
        let children = build_forest(items, i + 1, e);
        let item = MetricItem {
            key: items[i].key.clone(),
            value: items[i].value.clone(),
            children,
        };
        let ghost before = out.deep_view();
        let ghost rest = forest_of(items.deep_view(), e as int, hi as int);
        out.push(item);
        proof {
            lemma_metric_item_view(item);
            assert(out.deep_view() =~= before.push(item.deep_view()));
            assert(before.push(item.deep_view()) + rest =~= before + (seq![item.deep_view()]
                + rest));
        }
        i = e;
    }
    proof {
        assert(out.deep_view() + Seq::<MetricItemView>::empty() =~= out.deep_view());
    }
    out
}

/// The part of an operator block that metric lines go to.
#[derive(Debug, Clone, Copy, PartialEq, Eq, Structural)]
pub enum Section {
    /// Before any section marker.
    Outside,
    Plan,
    Common,
    Custom,
}

/// The section that the marker line `t` (trimmed) opens.
pub open spec fn marker_of(t: Seq<char>) -> Option<Section> {
    if t == "CommonCounters:"@ {
        Some(Section::Common)
    } else if t == "CustomCounters:"@ {
        Some(Section::Custom)
    } else if t == "- PlanInfo"@ {
        Some(Section::Plan)
    } else if "RuntimeFilterInfo:"@.is_prefix_of(t) {
        Some(Section::Custom)
    } else {
        None
    }
}

/// The metric lines of an operator block, by section.
pub struct Sections {
    pub plan: Seq<FlatMetric>,
    pub common: Seq<FlatMetric>,
    pub custom: Seq<FlatMetric>,
}

/// `acc` with `m` added to the section `cur`; outside every section the
/// line is dropped.
pub open spec fn with_metric(acc: Sections, cur: Section, m: FlatMetric) -> Sections {
    match cur {
        Section::Outside => acc,
        Section::Plan => Sections { plan: acc.plan.push(m), ..acc },
        Section::Common => Sections { common: acc.common.push(m), ..acc },
        Section::Custom => Sections { custom: acc.custom.push(m), ..acc },
    }
}

/// Sorts the metric lines of `lines` from `i` on into sections. A marker
/// line switches the section; a metric line joins the current one; any
/// other line is passed over.
pub open spec fn sections_scan(lines: Seq<Seq<char>>, i: int, cur: Section, acc: Sections) -> Sections
    decreases lines.len() - i,
{
    if i < 0 || i >= lines.len() {
        acc
    } else {
        let t = trim_of(lines[i]);
        if t.len() == 0 {
            sections_scan(lines, i + 1, cur, acc)
        } else if marker_of(t) is Some {
            sections_scan(lines, i + 1, marker_of(t).unwrap(), acc)
        } else {
            match metric_of(lines[i]) {
                Some((key, value)) => sections_scan(
                    lines,
                    i + 1,
                    cur,
                    with_metric(acc, cur, FlatMetric { indent: indent_of(lines[i]), key, value }),
                ),
                None => sections_scan(lines, i + 1, cur, acc),
            }
        }
    }
}

/// The operator that the block `text` describes: its first line is the
/// header, the lines after it hold the sections.
pub open spec fn parsed_operator_of(text: Seq<char>) -> Option<ParsedOperatorView> {
    let lines = lines_of(text);
    if lines.len() == 0 {
        None
    } else {
        match header_of(lines[0]) {
            Some(h) => {
                let s = sections_scan(
                    lines,
                    1,
                    Section::Outside,
                    Sections { plan: Seq::empty(), common: Seq::empty(), custom: Seq::empty() },
                );
                Some(
                    ParsedOperatorView {
                        name: h.name,
                        id: h.id,
                        nereids_id: h.nereids_id,
                        dest_id: h.dest_id,
                        exchange_type: h.exchange_type,
                        plan_info: forest_of(s.plan, 0, s.plan.len() as int),
                        common_counters: forest_of(s.common, 0, s.common.len() as int),
                        custom_counters: forest_of(s.custom, 0, s.custom.len() as int),
                        table_name: h.table_name,
                    },
                )
            },
            None => None,
        }
    }
}

/// The section that a trimmed line opens, if it is a marker.
fn read_marker(t: &[char]) -> (r: Option<Section>)
    ensures
        r == marker_of(t@),
{
    let common = chars_of("CommonCounters:");
    let custom = chars_of("CustomCounters:");
    let plan = chars_of("- PlanInfo");
    let filter = chars_of("RuntimeFilterInfo:");
    if same(t, common.as_slice()) {
        Some(Section::Common)
    } else if same(t, custom.as_slice()) {
        Some(Section::Custom)
    } else if same(t, plan.as_slice()) {
        Some(Section::Plan)
    } else if starts_with(t, filter.as_slice()) {
        Some(Section::Custom)
    } else {
        None
    }
}

/// Reads one operator block.
pub fn parse_operator(text: &[char]) -> (r: Option<ParsedOperator>)
    ensures
        r.deep_view() == parsed_operator_of(text@),
{
    let lines = split_lines(text);
    if lines.len() == 0 {
        return None;
    }
    let header: Header = match read_header(lines[0]) {
        Some(h) => h,
        None => {
            return None;
        },
    };
    let mut plan: Vec<FlatItem> = Vec::new();
    let mut common: Vec<FlatItem> = Vec::new();
    let mut custom: Vec<FlatItem> = Vec::new();
    let mut cur: Section = Section::Outside;
    let ghost all = line_views(lines@);
    let ghost start = Sections { plan: Seq::empty(), common: Seq::empty(), custom: Seq::empty() };
    let mut i: usize = 1;
    proof {
        assert(plan.deep_view() =~= start.plan);
        assert(common.deep_view() =~= start.common);
        assert(custom.deep_view() =~= start.custom);
    }
    while i < lines.len()
        invariant
            1 <= i <= lines.len(),
            all == line_views(lines@),
            sections_scan(
                all,
                i as int,
                cur,
                Sections {
                    plan: plan.deep_view(),
                    common: common.deep_view(),
                    custom: custom.deep_view(),
                },
            ) == sections_scan(all, 1, Section::Outside, start),
        decreases lines.len() - i,
    {
        let line: &[char] = lines[i];
        assert(all[i as int] == line@);
        let t = trim(line);
        if t.len() > 0 {
            match read_marker(t) {
                Some(s) => {
                    cur = s;
                },
                None => match read_metric(line) {
                    Some((key, value)) => {
                        let item = FlatItem { indent: indent(line), key, value };
                        let ghost acc = Sections {
                            plan: plan.deep_view(),
                            common: common.deep_view(),
                            custom: custom.deep_view(),
                        };
                        match cur {
                            Section::Outside => {},
                            Section::Plan => {
                                plan.push(item);
                                assert(plan.deep_view() =~= acc.plan.push(item.deep_view()));
                            },
                            Section::Common => {
                                common.push(item);
                                assert(common.deep_view() =~= acc.common.push(item.deep_view()));
                            },
                            Section::Custom => {
                                custom.push(item);
                                assert(custom.deep_view() =~= acc.custom.push(item.deep_view()));
                            },
                        }
                    },
                    None => {},
                },
            }
        }
        i += 1;
    }
    let plan_info = build_forest(&plan, 0, plan.len());
    let common_counters = build_forest(&common, 0, common.len());
    let custom_counters = build_forest(&custom, 0, custom.len());
    Some(
        ParsedOperator {
            name: header.name,
            id: header.id,
            nereids_id: header.nereids_id,
            dest_id: header.dest_id,
            exchange_type: header.exchange_type,
            plan_info,
            common_counters,
            custom_counters,
            table_name: header.table_name,
        },
    )
}

/// Whether a line is an operator header: no metric line, no section marker,
/// and of one of the header forms.
pub open spec fn is_header_line(line: Seq<char>) -> bool {
    let t = trim_of(line);
    &&& !"-"@.is_prefix_of(t)
    &&& !"CommonCounters"@.is_prefix_of(t)
    &&& !"CustomCounters"@.is_prefix_of(t)
    &&& !"RuntimeFilterInfo"@.is_prefix_of(t)
    &&& header_of(line) is Some
}

/// Whether a line ends the operator block whose header is indented by
/// `base`: a header that is indented no deeper, or the header of a
/// pipeline or of a fragment.
pub open spec fn operator_stop(line: Seq<char>, base: int) -> bool {
    let t = trim_of(line);
    &&& t.len() > 0
    &&& (indent_of(line) <= base && is_header_line(line)) || "Pipeline "@.is_prefix_of(t)
        || "Fragment "@.is_prefix_of(t)
}

/// The first line at or after `j` that ends the operator block, or the
/// number of lines.
pub open spec fn operator_end(lines: Seq<Seq<char>>, j: int, base: int) -> int
    decreases lines.len() - j,
{
    if 0 <= j < lines.len() && !operator_stop(lines[j], base) {
        operator_end(lines, j + 1, base)
    } else {
        j
    }
}

/// An operator block ends at or after where the search for its end starts, within the lines.
pub proof fn lemma_operator_end_bounds(lines: Seq<Seq<char>>, j: int, base: int)
    requires
        0 <= j <= lines.len(),
    ensures
        j <= operator_end(lines, j, base) <= lines.len(),
    decreases lines.len() - j,
{
    if j < lines.len() && !operator_stop(lines[j], base) {
        lemma_operator_end_bounds(lines, j + 1, base);
    }
}

/// The operators of the lines from `i` on, in order. Each header line opens
/// a block that runs to the line that ends it; a block that cannot be read
/// is left out.
pub open spec fn operators_from(lines: Seq<Seq<char>>, i: int) -> Seq<ParsedOperatorView>
    decreases lines.len() - i,
{
    if i < 0 || i >= lines.len() {
        Seq::empty()
    } else if is_header_line(lines[i]) {
        let end = operator_end(lines, i + 1, indent_of(lines[i]));
        proof {
            lemma_operator_end_bounds(lines, i + 1, indent_of(lines[i]));
        }
        match parsed_operator_of(join_of(lines.subrange(i, end))) {
            Some(op) => seq![op] + operators_from(lines, end),
            None => operators_from(lines, end),
        }
    } else {
        operators_from(lines, i + 1)
    }
}

/// The operators that the pipeline text `text` holds.
pub open spec fn parsed_operators_of(text: Seq<char>) -> Seq<ParsedOperatorView> {
    operators_from(lines_of(text), 0)
}

/// `m` with the first `n` trees of `items` put into it, each item under
/// `prefix` and its key, an item before the items nested under it.
pub open spec fn merged_forest(
    m: Entries,
    items: Seq<MetricItemView>,
    prefix: Seq<char>,
    n: nat,
) -> Entries
    decreases items, n,
{
    if n == 0 || n > items.len() {
        m
    } else {
        let before = merged_forest(m, items, prefix, (n - 1) as nat);
        let item = items[n - 1];
        merged_forest(
            inserted(before, prefix + item.key, item.value),
            item.children,
            prefix,
            item.children.len(),
        )
    }
}

/// `m` with `v` under `key` where there is a `v`.
pub open spec fn with_text(m: Entries, key: Seq<char>, v: Option<Seq<char>>) -> Entries {
    match v {
        Some(t) => inserted(m, key, t),
        None => m,
    }
}

/// `m` with the numeral of `v` under `key` where there is a `v`.
pub open spec fn with_number(m: Entries, key: Seq<char>, v: Option<i32>) -> Entries {
    match v {
        Some(n) => inserted(m, key, int_repr(n as int)),
        None => m,
    }
}

/// Every metric of an operator in one map: what its header says, its plan
/// metadata under `plan_` and the key, its common and its custom counters.
/// Where a key comes twice the later value stands.
pub open spec fn merged_of(p: ParsedOperatorView) -> Entries {
    let m0 = with_number(Seq::empty(), "nereids_id"@, p.nereids_id);
    let m1 = with_number(m0, "dest_id"@, p.dest_id);
    let m2 = with_text(m1, "exchange_type"@, p.exchange_type);
    let m3 = with_text(m2, "table_name"@, p.table_name);
    let m4 = merged_forest(m3, p.plan_info, "plan_"@, p.plan_info.len());
    let m5 = merged_forest(m4, p.common_counters, Seq::empty(), p.common_counters.len());
    merged_forest(m5, p.custom_counters, Seq::empty(), p.custom_counters.len())
}

/// The operator as a pipeline lists it.
pub open spec fn operator_of(p: ParsedOperatorView) -> OperatorView {
    OperatorView { id: int_repr(p.id as int), name: p.name, metrics: merged_of(p) }
}

/// The average execution time of an operator, in nanoseconds.
pub open spec fn exec_time_of(p: ParsedOperatorView) -> Option<i64> {
    match item_value(p.common_counters, "ExecTime"@) {
        Some(v) => aggregated_of(v).avg,
        None => None,
    }
}

/// The sum of an aggregate, or its average where it names no sum.
pub open spec fn sum_or_avg(a: AggregatedView) -> Option<i64> {
    match a.sum {
        Some(v) => Some(v),
        None => a.avg,
    }
}

/// The rows that an operator produced.
pub open spec fn rows_produced_of(p: ParsedOperatorView) -> Option<i64> {
    match item_value(p.common_counters, "RowsProduced"@) {
        Some(v) => sum_or_avg(aggregated_of(v)),
        None => None,
    }
}

/// The rows that an operator took in.
pub open spec fn input_rows_of(p: ParsedOperatorView) -> Option<i64> {
    match item_value(p.common_counters, "InputRows"@) {
        Some(v) => sum_or_avg(aggregated_of(v)),
        None => None,
    }
}

/// Whether the characters of a line are an operator header.
pub fn header_line(line: &[char]) -> (r: bool)
    ensures
        r == is_header_line(line@),
{
    let t = trim(line);
    let dash = chars_of("-");
    let common = chars_of("CommonCounters");
    let custom = chars_of("CustomCounters");
    let filter = chars_of("RuntimeFilterInfo");
    if starts_with(t, dash.as_slice()) || starts_with(t, common.as_slice()) || starts_with(
        t,
        custom.as_slice(),
    ) || starts_with(t, filter.as_slice()) {
        return false;
    }
    read_header(line).is_some()
}

/// Whether a line ends the operator block whose header is indented by
/// `base`.
fn ends_operator(line: &[char], base: usize) -> (r: bool)
    ensures
        r == operator_stop(line@, base as int),
{
    let t = trim(line);
    if t.len() == 0 {
        return false;
    }
    let pipeline = chars_of("Pipeline ");
    let fragment = chars_of("Fragment ");
    (indent(line) <= base && header_line(line)) || starts_with(t, pipeline.as_slice())
        || starts_with(t, fragment.as_slice())
}

/// The operators of a pipeline, from the characters of its text.
pub fn parsed_operators(text: &[char]) -> (r: Vec<ParsedOperator>)
    ensures
        r.deep_view() == parsed_operators_of(text@),
{
    let lines = split_lines(text);
    let ghost all = line_views(lines@);
    let mut out: Vec<ParsedOperator> = Vec::new();
    let mut i: usize = 0;
    proof {
        assert(out.deep_view() + operators_from(all, 0) =~= operators_from(all, 0));
    }
    while i < lines.len()
        invariant
            i <= lines.len(),
            all == line_views(lines@),
            all == lines_of(text@),
            out.deep_view() + operators_from(all, i as int) == operators_from(all, 0),
        decreases lines.len() - i,
    {
        let line: &[char] = lines[i];
        assert(all[i as int] == line@);
        if header_line(line) {
            let base: usize = indent(line);
            let mut end: usize = i + 1;
            while end < lines.len() && !ends_operator(lines[end], base)
                invariant
                    i < end <= lines.len(),
                    all == line_views(lines@),
                    operator_end(all, i + 1, base as int) == operator_end(
                        all,
                        end as int,
                        base as int,
                    ),
                decreases lines.len() - end,
            {
                assert(all[end as int] == lines@[end as int]@);
                end += 1;
            }
            proof {
                if end < lines.len() {
                    assert(all[end as int] == lines@[end as int]@);
                }
            }
            let block = join_lines(lines.as_slice(), i, end);
            let ghost before = out.deep_view();
            let ghost rest = operators_from(all, end as int);
            match parse_operator(block.as_slice()) {
                Some(op) => {
                    out.push(op);
                    proof {
                        assert(out.deep_view() =~= before.push(op.deep_view()));
                        assert(before.push(op.deep_view()) + rest =~= before + (seq![
                            op.deep_view(),
                        ] + rest));
                    }
                },
                None => {},
            }
            i = end;
        } else {
            i += 1;
        }
    }
    proof {
        assert(out.deep_view() + Seq::<ParsedOperatorView>::empty() =~= out.deep_view());
    }
    out
}

/// The decimal numeral of `n`.
pub fn int_string(n: i64) -> (r: String)
    ensures
        r@ == int_repr(n as int),
{
    let cs = int_chars(n);
    string_of(cs.as_slice())
}

/// Puts the trees of `items` into `map`, each item under `prefix` and its
/// key.
pub fn merge_items(map: &mut StringMap, items: &Vec<MetricItem>, prefix: &str)
    ensures
        final(map).deep_view() == merged_forest(
            old(map).deep_view(),
            items.deep_view(),
            prefix@,
            items@.len(),
        ),
    decreases items,
{
    let mut n: usize = 0;
    while n < items.len()
        invariant
            n <= items.len(),
            map.deep_view() == merged_forest(
                old(map).deep_view(),
                items.deep_view(),
                prefix@,
                n as nat,
            ),
        decreases items.len() - n,
    {
        let item: &MetricItem = &items[n];
        proof {
            lemma_metric_item_view(*item);
        }
        let mut key: String = prefix.to_owned();
        key.append(item.key.as_str());
        map.insert(key, item.value.clone());
        merge_items(map, &item.children, prefix);
        n += 1;
    }
}

/// Namespace of the operator segmenter.
pub struct OperatorParser;

impl OperatorParser {
    /// Whether a line is an operator header.
    pub fn is_operator_header(line: &str) -> (r: bool)
        ensures
            r == is_header_line(line@),
    {
        let cs = chars_of(line);
        header_line(cs.as_slice())
    }

    /// Reads an operator header line.
    pub fn parse_header(header: &str) -> (r: Option<Header>)
        ensures
            r.deep_view() == header_of(header@),
    {
        let cs = chars_of(header);
        read_header(cs.as_slice())
    }

    /// The operators of a pipeline with everything that their blocks say.
    pub fn extract_parsed_operators(text: &str) -> (r: Vec<ParsedOperator>)
        ensures
            r.deep_view() == parsed_operators_of(text@),
    {
        let cs = chars_of(text);
        parsed_operators(cs.as_slice())
    }

    /// Every metric of an operator in one map.
    pub fn merge_metrics(parsed: &ParsedOperator) -> (r: StringMap)
        ensures
            r.deep_view() == merged_of(parsed.deep_view()),
    {
        let mut map = StringMap::new();
        match parsed.nereids_id {
            Some(n) => {
                map.insert("nereids_id".to_owned(), int_string(n as i64));
            },
            None => {},
        }
        match parsed.dest_id {
            Some(n) => {
                map.insert("dest_id".to_owned(), int_string(n as i64));
            },
            None => {},
        }
        match &parsed.exchange_type {
            Some(t) => {
                map.insert("exchange_type".to_owned(), t.clone());
            },
            None => {},
        }
        match &parsed.table_name {
            Some(t) => {
                map.insert("table_name".to_owned(), t.clone());
            },
            None => {},
        }
        merge_items(&mut map, &parsed.plan_info, "plan_");
        merge_items(&mut map, &parsed.common_counters, "");
        merge_items(&mut map, &parsed.custom_counters, "");
        proof {
            reveal_strlit("");
            assert(""@ =~= Seq::<char>::empty());
        }
        map
    }

    /// The operators of a pipeline as the pipeline lists them.
    pub fn extract_operators(text: &str) -> (r: Vec<Operator>)
        ensures
            r.deep_view() == parsed_operators_of(text@).map_values(
                |p: ParsedOperatorView| operator_of(p),
            ),
    {
        let parsed = Self::extract_parsed_operators(text);
        let mut out: Vec<Operator> = Vec::new();
        let mut i: usize = 0;
        while i < parsed.len()
            invariant
                i <= parsed.len(),
                out.len() == i,
                forall|j: int|
                    0 <= j < i ==> out@[j].deep_view() == operator_of(parsed@[j].deep_view()),
            decreases parsed.len() - i,
        {
            let p: &ParsedOperator = &parsed[i];
            let op = Operator {
                id: int_string(p.id as i64),
                name: p.name.clone(),
                metrics: Self::merge_metrics(p),
            };
            out.push(op);
            i += 1;
        }
        proof {
            assert(out.deep_view() =~= parsed.deep_view().map_values(
                |p: ParsedOperatorView| operator_of(p),
            ));
        }
        out
    }

    /// The average execution time of an operator, in nanoseconds.
    pub fn get_exec_time_ns(operator: &ParsedOperator) -> (r: Option<i64>)
        ensures
            r == exec_time_of(operator.deep_view()),
    {
        match find_item(&operator.common_counters, "ExecTime") {
            Some(v) => ValueParser::parse_aggregated(v.as_str()).avg,
            None => None,
        }
    }

    /// The rows that an operator produced.
    pub fn get_rows_produced(operator: &ParsedOperator) -> (r: Option<i64>)
        ensures
            r == rows_produced_of(operator.deep_view()),
    {
        match find_item(&operator.common_counters, "RowsProduced") {
            Some(v) => {
                let agg = ValueParser::parse_aggregated(v.as_str());
                match agg.sum {
                    Some(s) => Some(s),
                    None => agg.avg,
                }
            },
            None => None,
        }
    }

    /// The rows that an operator took in.
    pub fn get_input_rows(operator: &ParsedOperator) -> (r: Option<i64>)
        ensures
            r == input_rows_of(operator.deep_view()),
    {
        match find_item(&operator.common_counters, "InputRows") {
            Some(v) => {
                let agg = ValueParser::parse_aggregated(v.as_str());
                match agg.sum {
                    Some(s) => Some(s),
                    None => agg.avg,
                }
            },
            None => None,
        }
    }
}

} // verus!
