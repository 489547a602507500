//! The data model: what a parsed profile consists of, and the mathematical
//! view of each part that the contracts speak of.

use vstd::prelude::*;
use vstd::string::StringExecFns;

verus! {

/// Kind of an execution node, by its operator's name.
#[derive(Debug, Clone, Copy, PartialEq, Eq, Structural)]
pub enum NodeType {
    OlapScan,
    Exchange,
    HashJoin,
    Aggregate,
    Sort,
    Limit,
    Project,
    Filter,
    Union,
    ResultSink,
    DataStreamSink,
    Unknown,
}

impl Default for NodeType {
    fn default() -> (r: Self)
        ensures
            r == NodeType::Unknown,
    {
        NodeType::Unknown
    }
}

/// How large a node's share of the total execution time is.
#[derive(Debug, Clone, Copy, PartialEq, Eq, Structural)]
pub enum HotspotSeverity {
    Critical,
    High,
    Medium,
    Low,
    /// Below every threshold, or not measured.
    Unset,
}

impl Default for HotspotSeverity {
    fn default() -> (r: Self)
        ensures
            r == HotspotSeverity::Unset,
    {
        HotspotSeverity::Unset
    }
}

/// A node's own execution time beside the total over all nodes. The node's
/// time percentage is `100 * part / total`.
#[derive(Debug, Clone, Copy, PartialEq, Eq, Structural)]
pub struct TimeShare {
    pub part: u64,
    pub total: u128,
}

/// One `- Key: Value` line with the lines nested under it.
#[derive(Debug)]
pub struct MetricItem {
    pub key: String,
    pub value: String,
    pub children: Vec<MetricItem>,
}

/// A metric with what is nested under it, as mathematical values.
pub struct MetricItemView {
    pub key: Seq<char>,
    pub value: Seq<char>,
    pub children: Seq<MetricItemView>,
}

impl MetricItem {
    /// The item and everything nested under it, as mathematical values.
    pub open spec fn model(self) -> MetricItemView
        decreases self,
    {
        MetricItemView {
            key: self.key@,
            value: self.value@,
            children: Seq::new(
                self.children@.len(),
                |i: int|
                    if 0 <= i < self.children@.len() {
                        self.children@[i].model()
                    } else {
                        arbitrary()
                    },
            ),
        }
    }
}

impl DeepView for MetricItem {
    type V = MetricItemView;

    open spec fn deep_view(&self) -> MetricItemView {
        self.model()
    }
}

/// The view of an item holds the views of its children.
pub proof fn lemma_metric_item_view(item: MetricItem)
    ensures
        item.deep_view().key == item.key@,
        item.deep_view().value == item.value@,
        item.deep_view().children == item.children.deep_view(),
{
    assert(item.model().children =~= item.children.deep_view());
}

impl Clone for MetricItem {
    fn clone(&self) -> (r: Self)
        ensures
            r.deep_view() == self.deep_view(),
        decreases self,
    {
        let mut kids: Vec<MetricItem> = Vec::new();
        let mut i: usize = 0;
        while i < self.children.len()
            invariant
                i <= self.children.len(),
                kids.len() == i,
                forall|j: int|
                    0 <= j < i ==> kids@[j].deep_view() == self.children@[j].deep_view(),
            decreases self.children.len() - i,
        {
            let c = self.children[i].clone();
            kids.push(c);
            i += 1;
        }
        let r = MetricItem { key: self.key.clone(), value: self.value.clone(), children: kids };
        proof {
            lemma_metric_item_view(r);
            lemma_metric_item_view(*self);
            assert(r.children.deep_view() =~= self.children.deep_view());
        }
        r
    }
}

/// A copy of a list of metrics.
pub fn clone_items(items: &Vec<MetricItem>) -> (r: Vec<MetricItem>)
    ensures
        r.deep_view() == items.deep_view(),
{
    let mut out: Vec<MetricItem> = Vec::new();
    let mut i: usize = 0;
    while i < items.len()
        invariant
            i <= items.len(),
            out.len() == i,
            forall|j: int| 0 <= j < i ==> out@[j].deep_view() == items@[j].deep_view(),
        decreases items.len() - i,
    {
        out.push(items[i].clone());
        i += 1;
    }
    assert(out.deep_view() =~= items.deep_view());
    out
}

/// A copy of a list of texts.
pub fn clone_strings(items: &Vec<String>) -> (r: Vec<String>)
    ensures
        r.deep_view() == items.deep_view(),
{
    let mut out: Vec<String> = Vec::new();
    let mut i: usize = 0;
    while i < items.len()
        invariant
            i <= items.len(),
            out.len() == i,
            forall|j: int| 0 <= j < i ==> out@[j]@ == items@[j]@,
        decreases items.len() - i,
    {
        out.push(items[i].clone());
        i += 1;
    }
    assert(out.deep_view() =~= items.deep_view());
    out
}

/// A copy of an optional text.
pub fn clone_opt_string(s: &Option<String>) -> (r: Option<String>)
    ensures
        r.deep_view() == s.deep_view(),
{
    match s {
        Some(t) => Some(t.clone()),
        None => None,
    }
}

/// Decoded measurements of one operator.
#[derive(Debug)]
pub struct OperatorMetrics {
    /// Execution time in nanoseconds.
    pub operator_total_time: Option<u64>,
    /// The execution time as the profile shows it.
    pub operator_total_time_raw: Option<String>,
    pub rows_returned: Option<u64>,
    pub input_rows: Option<u64>,
    /// Peak memory in bytes.
    pub memory_used: Option<u64>,
    pub cpu_time: Option<u64>,
    pub wait_time: Option<u64>,
}

/// The decoded measurements of an operator as mathematical values.
pub struct OperatorMetricsView {
    pub operator_total_time: Option<u64>,
    pub operator_total_time_raw: Option<Seq<char>>,
    pub rows_returned: Option<u64>,
    pub input_rows: Option<u64>,
    pub memory_used: Option<u64>,
    pub cpu_time: Option<u64>,
    pub wait_time: Option<u64>,
}

impl DeepView for OperatorMetrics {
    type V = OperatorMetricsView;

    open spec fn deep_view(&self) -> OperatorMetricsView {
        OperatorMetricsView {
            operator_total_time: self.operator_total_time,
            operator_total_time_raw: self.operator_total_time_raw.deep_view(),
            rows_returned: self.rows_returned,
            input_rows: self.input_rows,
            memory_used: self.memory_used,
            cpu_time: self.cpu_time,
            wait_time: self.wait_time,
        }
    }
}

impl OperatorMetricsView {
    /// No measurement at all.
    pub open spec fn empty() -> OperatorMetricsView {
        OperatorMetricsView {
            operator_total_time: None,
            operator_total_time_raw: None,
            rows_returned: None,
            input_rows: None,
            memory_used: None,
            cpu_time: None,
            wait_time: None,
        }
    }
}

impl Default for OperatorMetrics {
    fn default() -> (r: Self)
        ensures
            r.deep_view() == OperatorMetricsView::empty(),
    {
        OperatorMetrics {
            operator_total_time: None,
            operator_total_time_raw: None,
            rows_returned: None,
            input_rows: None,
            memory_used: None,
            cpu_time: None,
            wait_time: None,
        }
    }
}

impl Clone for OperatorMetrics {
    fn clone(&self) -> (r: Self)
        ensures
            r.deep_view() == self.deep_view(),
    {
        OperatorMetrics {
            operator_total_time: self.operator_total_time,
            operator_total_time_raw: clone_opt_string(&self.operator_total_time_raw),
            rows_returned: self.rows_returned,
            input_rows: self.input_rows,
            memory_used: self.memory_used,
            cpu_time: self.cpu_time,
            wait_time: self.wait_time,
        }
    }
}

/// Why a profile could not be parsed.
#[derive(Debug)]
pub enum ParseError {
    /// The input is structurally malformed.
    InvalidFormat(String),
    /// An expected top-level section is absent.
    MissingField(String),
    /// A scalar could not be decoded where decoding was mandatory.
    ParseValue(String),
    UnexpectedEof,
}

/// What a parsing operation returns.
pub type ParseResult<T> = Result<T, ParseError>;

/// A parse error as mathematical values.
pub enum ParseErrorView {
    InvalidFormat(Seq<char>),
    MissingField(Seq<char>),
    ParseValue(Seq<char>),
    UnexpectedEof,
}

/// What an error says, in words.
pub open spec fn error_message_of(e: ParseErrorView) -> Seq<char> {
    match e {
        ParseErrorView::InvalidFormat(m) => "Invalid profile format: "@ + m,
        ParseErrorView::MissingField(m) => "Missing required field: "@ + m,
        ParseErrorView::ParseValue(m) => "Failed to parse value: "@ + m,
        ParseErrorView::UnexpectedEof => "Unexpected end of input"@,
    }
}

impl ParseError {
    /// What the error says, in words.
    pub fn message(&self) -> (r: String)
        ensures
            r@ == error_message_of(self.deep_view()),
    {
        match self {
            ParseError::InvalidFormat(m) => concat("Invalid profile format: ", m.as_str()),
            ParseError::MissingField(m) => concat("Missing required field: ", m.as_str()),
            ParseError::ParseValue(m) => concat("Failed to parse value: ", m.as_str()),
            ParseError::UnexpectedEof => "Unexpected end of input".to_owned(),
        }
    }
}

/// `a` followed by `b`.
pub fn concat(a: &str, b: &str) -> (r: String)
    ensures
        r@ == a@ + b@,
{
    let mut out: String = a.to_owned();
    out.append(b);
    out
}

impl DeepView for ParseError {
    type V = ParseErrorView;

    open spec fn deep_view(&self) -> ParseErrorView {
        match self {
            ParseError::InvalidFormat(m) => ParseErrorView::InvalidFormat(m@),
            ParseError::MissingField(m) => ParseErrorView::MissingField(m@),
            ParseError::ParseValue(m) => ParseErrorView::ParseValue(m@),
            ParseError::UnexpectedEof => ParseErrorView::UnexpectedEof,
        }
    }
}

/// A parse result as mathematical values.
pub open spec fn result_view<T: DeepView>(r: Result<T, ParseError>) -> Result<T::V, ParseErrorView> {
    match r {
        Ok(v) => Ok(v.deep_view()),
        Err(e) => Err(e.deep_view()),
    }
}

/// The entries of a key-value map, in the order in which their keys came.
pub type Entries = Seq<(Seq<char>, Seq<char>)>;

/// The first position at or after `i` whose entry has the key `k`.
pub open spec fn key_index_from(m: Entries, k: Seq<char>, i: int) -> Option<int>
    decreases m.len() - i,
{
    if i < 0 || i >= m.len() {
        None
    } else if m[i].0 == k {
        Some(i)
    } else {
        key_index_from(m, k, i + 1)
    }
}

/// What the map holds under the key `k`.
pub open spec fn lookup(m: Entries, k: Seq<char>) -> Option<Seq<char>> {
    match key_index_from(m, k, 0) {
        Some(i) => Some(m[i].1),
        None => None,
    }
}

/// The map after `v` is put under the key `k`: in the place of the entry
/// that had the key, or at the end.
pub open spec fn inserted(m: Entries, k: Seq<char>, v: Seq<char>) -> Entries {
    match key_index_from(m, k, 0) {
        Some(i) => m.update(i, (k, v)),
        None => m.push((k, v)),
    }
}

/// No key occurs twice.
pub open spec fn distinct_keys(m: Entries) -> bool {
    forall|i: int, j: int| 0 <= i < j < m.len() ==> m[i].0 != m[j].0
}

/// What `key_index_from` finds is the first entry with the key.
proof fn lemma_key_index(m: Entries, k: Seq<char>, i: int)
    requires
        0 <= i,
    ensures
        match key_index_from(m, k, i) {
            Some(j) => i <= j < m.len() && m[j].0 == k && forall|x: int|
                i <= x < j ==> (#[trigger] m[x]).0 != k,
            None => forall|x: int| i <= x < m.len() ==> (#[trigger] m[x]).0 != k,
        },
    decreases m.len() - i,
{
    if i < m.len() && m[i].0 != k {
        lemma_key_index(m, k, i + 1);
    }
}

/// Putting a value under a key keeps the keys distinct, and the key then
/// holds that value.
pub proof fn lemma_inserted(m: Entries, k: Seq<char>, v: Seq<char>)
    requires
        distinct_keys(m),
    ensures
        distinct_keys(inserted(m, k, v)),
        lookup(inserted(m, k, v), k) == Some(v),
{
    lemma_key_index(m, k, 0);
    let r = inserted(m, k, v);
    lemma_key_index(r, k, 0);
    match key_index_from(m, k, 0) {
        Some(i) => {
            assert(r[i] == (k, v));
        },
        None => {
            assert(r[m.len() as int] == (k, v));
        },
    }
}

/// A map from text to text that remembers the order in which keys came.
#[derive(Debug)]
pub struct StringMap {
    pub entries: Vec<(String, String)>,
}

impl DeepView for StringMap {
    type V = Entries;

    open spec fn deep_view(&self) -> Entries {
        self.entries.deep_view()
    }
}

impl StringMap {
    /// No key occurs twice.
    pub open spec fn wf(&self) -> bool {
        distinct_keys(self.deep_view())
    }

    /// A map without entries.
    pub fn new() -> (r: StringMap)
        ensures
            r.deep_view() == Seq::<(Seq<char>, Seq<char>)>::empty(),
            r.wf(),
    {
        let r = StringMap { entries: Vec::new() };
        assert(r.deep_view() =~= Seq::<(Seq<char>, Seq<char>)>::empty());
        r
    }

    /// The number of entries.
    pub fn len(&self) -> (n: usize)
        ensures
            n == self.deep_view().len(),
    {
        self.entries.len()
    }

    /// Whether the map has no entry.
    pub fn is_empty(&self) -> (r: bool)
        ensures
            r == (self.deep_view().len() == 0),
    {
        self.entries.len() == 0
    }

    /// The position of the entry with the key `key`.
    fn position(&self, key: &String) -> (r: Option<usize>)
        ensures
            match r {
                Some(i) => key_index_from(self.deep_view(), key@, 0) == Some(i as int) && i
                    < self.entries@.len(),
                None => key_index_from(self.deep_view(), key@, 0) is None,
            },
    {
        let mut i: usize = 0;
        while i < self.entries.len()
            invariant
                i <= self.entries.len(),
                key_index_from(self.deep_view(), key@, 0) == key_index_from(
                    self.deep_view(),
                    key@,
                    i as int,
                ),
            decreases self.entries.len() - i,
        {
            assert(self.deep_view()[i as int].0 == self.entries@[i as int].0@);
            if self.entries[i].0 == *key {
                return Some(i);
            }
            i += 1;
        }
        None
    }

    /// Puts `value` under `key`, in the place of the entry that had the key
    /// or at the end.
    pub fn insert(&mut self, key: String, value: String)
        ensures
            final(self).deep_view() == inserted(old(self).deep_view(), key@, value@),
            old(self).wf() ==> final(self).wf(),
    {
        proof {
            if old(self).wf() {
                lemma_inserted(old(self).deep_view(), key@, value@);
            }
        }
        match self.position(&key) {
            Some(i) => {
                self.entries[i] = (key, value);
                assert(self.deep_view() =~= inserted(old(self).deep_view(), key@, value@));
            },
            None => {
                self.entries.push((key, value));
                assert(self.deep_view() =~= inserted(old(self).deep_view(), key@, value@));
            },
        }
    }

    /// The value under `key`.
    pub fn get(&self, key: &str) -> (r: Option<&String>)
        ensures
            r.deep_view() == lookup(self.deep_view(), key@),
    {
        let owned: String = key.to_owned();
        match self.position(&owned) {
            Some(i) => {
                assert(self.deep_view()[i as int].1 == self.entries@[i as int].1@);
                Some(&self.entries[i].1)
            },
            None => None,
        }
    }
}

impl Clone for StringMap {
    fn clone(&self) -> (r: Self)
        ensures
            r.deep_view() == self.deep_view(),
            self.wf() ==> r.wf(),
    {
        let mut out: Vec<(String, String)> = Vec::new();
        let mut i: usize = 0;
        while i < self.entries.len()
            invariant
                i <= self.entries.len(),
                out.len() == i,
                forall|j: int|
                    0 <= j < i ==> out@[j].0@ == self.entries@[j].0@ && out@[j].1@
                        == self.entries@[j].1@,
            decreases self.entries.len() - i,
        {
            out.push((self.entries[i].0.clone(), self.entries[i].1.clone()));
            i += 1;
        }
        let r = StringMap { entries: out };
        assert(r.deep_view() =~= self.deep_view());
        r
    }
}

/// The first item of `items` with the key `key`.
pub open spec fn item_index_from(items: Seq<MetricItemView>, key: Seq<char>, i: int) -> Option<int>
    decreases items.len() - i,
{
    if i < 0 || i >= items.len() {
        None
    } else if items[i].key == key {
        Some(i)
    } else {
        item_index_from(items, key, i + 1)
    }
}

/// The value of the first item of `items` with the key `key`. Nested items
/// are not searched.
pub open spec fn item_value(items: Seq<MetricItemView>, key: Seq<char>) -> Option<Seq<char>> {
    match item_index_from(items, key, 0) {
        Some(i) => Some(items[i].value),
        None => None,
    }
}

/// The value of the first item of `items` with the key `key`.
pub fn find_item<'a>(items: &'a Vec<MetricItem>, key: &str) -> (r: Option<&'a String>)
    ensures
        r.deep_view() == item_value(items.deep_view(), key@),
{
    let owned: String = key.to_owned();
    let mut i: usize = 0;
    while i < items.len()
        invariant
            i <= items.len(),
            owned@ == key@,
            item_index_from(items.deep_view(), key@, 0) == item_index_from(
                items.deep_view(),
                key@,
                i as int,
            ),
        decreases items.len() - i,
    {
        proof {
            lemma_metric_item_view(items@[i as int]);
        }
        if items[i].key == owned {
            return Some(&items[i].value);
        }
        i += 1;
    }
    None
}

/// An operator as a pipeline lists it: its id and name, and every metric of
/// it under one roof.
#[derive(Debug)]
pub struct Operator {
    pub id: String,
    pub name: String,
    pub metrics: StringMap,
}

/// An operator of a pipeline as mathematical values.
pub struct OperatorView {
    pub id: Seq<char>,
    pub name: Seq<char>,
    pub metrics: Entries,
}

impl DeepView for Operator {
    type V = OperatorView;

    open spec fn deep_view(&self) -> OperatorView {
        OperatorView { id: self.id@, name: self.name@, metrics: self.metrics.deep_view() }
    }
}

/// A chain of operators that run together within a fragment.
#[derive(Debug)]
pub struct Pipeline {
    pub id: String,
    /// Counters of the pipeline itself.
    pub metrics: StringMap,
    pub operators: Vec<Operator>,
    /// The lines that the pipeline was read from, joined by line feeds.
    pub raw_text: String,
}

/// A pipeline as mathematical values.
pub struct PipelineView {
    pub id: Seq<char>,
    pub metrics: Entries,
    pub operators: Seq<OperatorView>,
    pub raw_text: Seq<char>,
}

impl DeepView for Pipeline {
    type V = PipelineView;

    open spec fn deep_view(&self) -> PipelineView {
        PipelineView {
            id: self.id@,
            metrics: self.metrics.deep_view(),
            operators: self.operators.deep_view(),
            raw_text: self.raw_text@,
        }
    }
}

/// One physical unit of the distributed plan.
#[derive(Debug)]
pub struct Fragment {
    pub id: String,
    pub backend_addresses: Vec<String>,
    pub instance_ids: Vec<String>,
    pub pipelines: Vec<Pipeline>,
}

/// A fragment as mathematical values.
pub struct FragmentView {
    pub id: Seq<char>,
    pub backend_addresses: Seq<Seq<char>>,
    pub instance_ids: Seq<Seq<char>>,
    pub pipelines: Seq<PipelineView>,
}

impl DeepView for Fragment {
    type V = FragmentView;

    open spec fn deep_view(&self) -> FragmentView {
        FragmentView {
            id: self.id@,
            backend_addresses: self.backend_addresses.deep_view(),
            instance_ids: self.instance_ids.deep_view(),
            pipelines: self.pipelines.deep_view(),
        }
    }
}

/// Identity and metadata of the query.
#[derive(Debug)]
pub struct ProfileSummary {
    pub query_id: String,
    pub start_time: String,
    pub end_time: String,
    /// The total time as the profile shows it.
    pub total_time: String,
    pub query_state: String,
    pub doris_version: String,
    pub sql_statement: String,
    pub query_type: Option<String>,
    pub user: Option<String>,
    pub default_db: Option<String>,
    pub variables: StringMap,
    /// The session variables that were changed, one map for each.
    pub session_variables: Vec<StringMap>,
    /// The total time in nanoseconds.
    pub total_time_ns: Option<i64>,
    pub query_peak_memory: Option<u64>,
}

/// A summary as mathematical values.
pub struct ProfileSummaryView {
    pub query_id: Seq<char>,
    pub start_time: Seq<char>,
    pub end_time: Seq<char>,
    pub total_time: Seq<char>,
    pub query_state: Seq<char>,
    pub doris_version: Seq<char>,
    pub sql_statement: Seq<char>,
    pub query_type: Option<Seq<char>>,
    pub user: Option<Seq<char>>,
    pub default_db: Option<Seq<char>>,
    pub variables: Entries,
    pub session_variables: Seq<Entries>,
    pub total_time_ns: Option<i64>,
    pub query_peak_memory: Option<u64>,
}

impl ProfileSummaryView {
    /// A summary that says nothing.
    pub open spec fn empty() -> ProfileSummaryView {
        ProfileSummaryView {
            query_id: Seq::empty(),
            start_time: Seq::empty(),
            end_time: Seq::empty(),
            total_time: Seq::empty(),
            query_state: Seq::empty(),
            doris_version: Seq::empty(),
            sql_statement: Seq::empty(),
            query_type: None,
            user: None,
            default_db: None,
            variables: Seq::empty(),
            session_variables: Seq::empty(),
            total_time_ns: None,
            query_peak_memory: None,
        }
    }
}

impl Default for ProfileSummary {
    fn default() -> (r: Self)
        ensures
            r.deep_view() == ProfileSummaryView::empty(),
    {
        let r = ProfileSummary {
            query_id: String::new(),
            start_time: String::new(),
            end_time: String::new(),
            total_time: String::new(),
            query_state: String::new(),
            doris_version: String::new(),
            sql_statement: String::new(),
            query_type: None,
            user: None,
            default_db: None,
            variables: StringMap::new(),
            session_variables: Vec::new(),
            total_time_ns: None,
            query_peak_memory: None,
        };
        assert(r.session_variables.deep_view() =~= Seq::<Entries>::empty());
        r
    }
}

impl DeepView for ProfileSummary {
    type V = ProfileSummaryView;

    open spec fn deep_view(&self) -> ProfileSummaryView {
        ProfileSummaryView {
            query_id: self.query_id@,
            start_time: self.start_time@,
            end_time: self.end_time@,
            total_time: self.total_time@,
            query_state: self.query_state@,
            doris_version: self.doris_version@,
            sql_statement: self.sql_statement@,
            query_type: self.query_type.deep_view(),
            user: self.user.deep_view(),
            default_db: self.default_db.deep_view(),
            variables: self.variables.deep_view(),
            session_variables: self.session_variables.deep_view(),
            total_time_ns: self.total_time_ns,
            query_peak_memory: self.query_peak_memory,
        }
    }
}

/// A node of the execution graph: one operator with its decoded metrics,
/// the ids of the nodes that feed it, and what the analysis found of it.
#[derive(Debug)]
pub struct ExecutionTreeNode {
    /// Made of the fragment, the pipeline, and the operator's destination
    /// or own id.
    pub id: String,
    pub operator_name: String,
    pub node_type: NodeType,
    pub plan_node_id: Option<i32>,
    pub parent_plan_node_id: Option<i32>,
    pub nereids_id: Option<i32>,
    pub dest_id: Option<i32>,
    pub metrics: OperatorMetrics,
    /// Ids of the nodes that feed data into this one.
    pub children: Vec<String>,
    /// Distance from the root along the edges.
    pub depth: usize,
    pub is_hotspot: bool,
    pub hotspot_severity: HotspotSeverity,
    pub fragment_id: Option<String>,
    pub pipeline_id: Option<String>,
    pub table_name: Option<String>,
    pub time_percentage: Option<TimeShare>,
    pub is_most_consuming: bool,
    pub is_second_most_consuming: bool,
    pub unique_metrics: StringMap,
    pub plan_info: Vec<MetricItem>,
    pub common_counters: Vec<MetricItem>,
    pub custom_counters: Vec<MetricItem>,
}

/// A node of the execution graph as mathematical values.
pub struct NodeView {
    pub id: Seq<char>,
    pub operator_name: Seq<char>,
    pub node_type: NodeType,
    pub plan_node_id: Option<i32>,
    pub parent_plan_node_id: Option<i32>,
    pub nereids_id: Option<i32>,
    pub dest_id: Option<i32>,
    pub metrics: OperatorMetricsView,
    pub children: Seq<Seq<char>>,
    pub depth: nat,
    pub is_hotspot: bool,
    pub hotspot_severity: HotspotSeverity,
    pub fragment_id: Option<Seq<char>>,
    pub pipeline_id: Option<Seq<char>>,
    pub table_name: Option<Seq<char>>,
    pub time_percentage: Option<TimeShare>,
    pub is_most_consuming: bool,
    pub is_second_most_consuming: bool,
    pub unique_metrics: Entries,
    pub plan_info: Seq<MetricItemView>,
    pub common_counters: Seq<MetricItemView>,
    pub custom_counters: Seq<MetricItemView>,
}

impl DeepView for ExecutionTreeNode {
    type V = NodeView;

    open spec fn deep_view(&self) -> NodeView {
        NodeView {
            id: self.id@,
            operator_name: self.operator_name@,
            node_type: self.node_type,
            plan_node_id: self.plan_node_id,
            parent_plan_node_id: self.parent_plan_node_id,
            nereids_id: self.nereids_id,
            dest_id: self.dest_id,
            metrics: self.metrics.deep_view(),
            children: self.children.deep_view(),
            depth: self.depth as nat,
            is_hotspot: self.is_hotspot,
            hotspot_severity: self.hotspot_severity,
            fragment_id: self.fragment_id.deep_view(),
            pipeline_id: self.pipeline_id.deep_view(),
            table_name: self.table_name.deep_view(),
            time_percentage: self.time_percentage,
            is_most_consuming: self.is_most_consuming,
            is_second_most_consuming: self.is_second_most_consuming,
            unique_metrics: self.unique_metrics.deep_view(),
            plan_info: self.plan_info.deep_view(),
            common_counters: self.common_counters.deep_view(),
            custom_counters: self.custom_counters.deep_view(),
        }
    }
}

impl Clone for ExecutionTreeNode {
    fn clone(&self) -> (r: Self)
        ensures
            r.deep_view() == self.deep_view(),
    {
        ExecutionTreeNode {
            id: self.id.clone(),
            operator_name: self.operator_name.clone(),
            node_type: self.node_type,
            plan_node_id: self.plan_node_id,
            parent_plan_node_id: self.parent_plan_node_id,
            nereids_id: self.nereids_id,
            dest_id: self.dest_id,
            metrics: self.metrics.clone(),
            children: clone_strings(&self.children),
            depth: self.depth,
            is_hotspot: self.is_hotspot,
            hotspot_severity: self.hotspot_severity,
            fragment_id: clone_opt_string(&self.fragment_id),
            pipeline_id: clone_opt_string(&self.pipeline_id),
            table_name: clone_opt_string(&self.table_name),
            time_percentage: self.time_percentage,
            is_most_consuming: self.is_most_consuming,
            is_second_most_consuming: self.is_second_most_consuming,
            unique_metrics: self.unique_metrics.clone(),
            plan_info: clone_items(&self.plan_info),
            common_counters: clone_items(&self.common_counters),
            custom_counters: clone_items(&self.custom_counters),
        }
    }
}

/// The execution graph: every node, and a copy of the one chosen as root.
#[derive(Debug)]
pub struct ExecutionTree {
    pub root: ExecutionTreeNode,
    pub nodes: Vec<ExecutionTreeNode>,
}

/// An execution graph as mathematical values.
pub struct ExecutionTreeView {
    pub root: NodeView,
    pub nodes: Seq<NodeView>,
}

impl DeepView for ExecutionTree {
    type V = ExecutionTreeView;

    open spec fn deep_view(&self) -> ExecutionTreeView {
        ExecutionTreeView { root: self.root.deep_view(), nodes: self.nodes.deep_view() }
    }
}

/// Everything that a profile holds.
#[derive(Debug)]
pub struct Profile {
    pub summary: ProfileSummary,
    pub fragments: Vec<Fragment>,
    pub execution_tree: Option<ExecutionTree>,
}

/// A profile as mathematical values.
pub struct ProfileView {
    pub summary: ProfileSummaryView,
    pub fragments: Seq<FragmentView>,
    pub execution_tree: Option<ExecutionTreeView>,
}

impl DeepView for Profile {
    type V = ProfileView;

    open spec fn deep_view(&self) -> ProfileView {
        ProfileView {
            summary: self.summary.deep_view(),
            fragments: self.fragments.deep_view(),
            execution_tree: self.execution_tree.deep_view(),
        }
    }
}

/// A node that takes a notable share of the execution time.
#[derive(Debug)]
pub struct HotSpot {
    pub node_id: String,
    /// Where the node stands: fragment, pipeline, operator.
    pub node_path: String,
    pub operator_name: String,
    pub severity: HotspotSeverity,
    pub description: String,
    pub impact: String,
    pub time_percentage: Option<TimeShare>,
    pub suggestion: Option<String>,
    /// Where the suggestion came from.
    pub suggestion_source: Option<String>,
}

/// A hotspot as mathematical values.
pub struct HotSpotView {
    pub node_id: Seq<char>,
    pub node_path: Seq<char>,
    pub operator_name: Seq<char>,
    pub severity: HotspotSeverity,
    pub description: Seq<char>,
    pub impact: Seq<char>,
    pub time_percentage: Option<TimeShare>,
    pub suggestion: Option<Seq<char>>,
    pub suggestion_source: Option<Seq<char>>,
}

impl DeepView for HotSpot {
    type V = HotSpotView;

    open spec fn deep_view(&self) -> HotSpotView {
        HotSpotView {
            node_id: self.node_id@,
            node_path: self.node_path@,
            operator_name: self.operator_name@,
            severity: self.severity,
            description: self.description@,
            impact: self.impact@,
            time_percentage: self.time_percentage,
            suggestion: self.suggestion.deep_view(),
            suggestion_source: self.suggestion_source.deep_view(),
        }
    }
}

impl Clone for HotSpot {
    fn clone(&self) -> (r: Self)
        ensures
            r.deep_view() == self.deep_view(),
    {
        HotSpot {
            node_id: self.node_id.clone(),
            node_path: self.node_path.clone(),
            operator_name: self.operator_name.clone(),
            severity: self.severity,
            description: self.description.clone(),
            impact: self.impact.clone(),
            time_percentage: self.time_percentage,
            suggestion: clone_opt_string(&self.suggestion),
            suggestion_source: clone_opt_string(&self.suggestion_source),
        }
    }
}

/// How urgent a suggestion is.
#[derive(Debug, Clone, Copy, PartialEq, Eq, Structural)]
pub enum SuggestionPriority {
    Critical,
    High,
    Medium,
    Low,
}

/// What a suggestion is about.
#[derive(Debug, Clone, Copy, PartialEq, Eq, Structural)]
pub enum SuggestionCategory {
    Query,
    Schema,
    Resource,
    Configuration,
}

/// Advice on how to make the query faster.
#[derive(Debug)]
pub struct Suggestion {
    pub title: String,
    pub description: String,
    pub priority: SuggestionPriority,
    pub category: SuggestionCategory,
}

/// A suggestion as mathematical values.
pub struct SuggestionView {
    pub title: Seq<char>,
    pub description: Seq<char>,
    pub priority: SuggestionPriority,
    pub category: SuggestionCategory,
}

impl DeepView for Suggestion {
    type V = SuggestionView;

    open spec fn deep_view(&self) -> SuggestionView {
        SuggestionView {
            title: self.title@,
            description: self.description@,
            priority: self.priority,
            category: self.category,
        }
    }
}

/// What the analysis of a profile gives.
#[derive(Debug)]
pub struct ProfileAnalysisResponse {
    pub hotspots: Vec<HotSpot>,
    pub conclusion: String,
    pub suggestions: Vec<Suggestion>,
    /// From 0 to 100; more is better.
    pub performance_score: u32,
    pub execution_tree: Option<ExecutionTree>,
    pub summary: Option<ProfileSummary>,
}

/// The result of an analysis as mathematical values.
pub struct ProfileAnalysisResponseView {
    pub hotspots: Seq<HotSpotView>,
    pub conclusion: Seq<char>,
    pub suggestions: Seq<SuggestionView>,
    pub performance_score: u32,
    pub execution_tree: Option<ExecutionTreeView>,
    pub summary: Option<ProfileSummaryView>,
}

impl DeepView for ProfileAnalysisResponse {
    type V = ProfileAnalysisResponseView;

    open spec fn deep_view(&self) -> ProfileAnalysisResponseView {
        ProfileAnalysisResponseView {
            hotspots: self.hotspots.deep_view(),
            conclusion: self.conclusion@,
            suggestions: self.suggestions.deep_view(),
            performance_score: self.performance_score,
            execution_tree: self.execution_tree.deep_view(),
            summary: self.summary.deep_view(),
        }
    }
}

} // verus!
