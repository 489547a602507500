//! The linking rules of the graph builder. Edges run from the consumer to
//! the producer: a node's children are the nodes that feed it.
//!
//! Four rules add edges, in this order: the chain within a pipeline, a
//! node's sink in another pipeline of its fragment, the data-stream sink
//! that sends to an exchange, and the sink of a local exchange.

use crate::models::{ExecutionTreeNode, NodeView};
use crate::text::{chars_of, contains, contains_of, ends_with, pos_of, string_of};
use vstd::prelude::*;
use vstd::slice::slice_subrange;
use vstd::string::StringExecFns;

verus! {

/// What the linking rules read of a node.
pub struct LinkKeyView {
    pub id: Seq<char>,
    pub name: Seq<char>,
    pub fragment: Option<Seq<char>>,
    pub pipeline: Option<Seq<char>>,
    pub plan_id: Option<i32>,
    pub nereids_id: Option<i32>,
    pub dest_id: Option<i32>,
}

/// What the linking rules read of the node `n`.
pub open spec fn key_of(n: NodeView) -> LinkKeyView {
    LinkKeyView {
        id: n.id,
        name: n.operator_name,
        fragment: n.fragment_id,
        pipeline: n.pipeline_id,
        plan_id: n.plan_node_id,
        nereids_id: n.nereids_id,
        dest_id: n.dest_id,
    }
}

/// What the linking rules read of each node.
pub open spec fn keys_of(nodes: Seq<NodeView>) -> Seq<LinkKeyView> {
    nodes.map_values(|n: NodeView| key_of(n))
}

/// The node knows its fragment and its pipeline.
pub open spec fn placed(k: LinkKeyView) -> bool {
    k.fragment is Some && k.pipeline is Some
}

/// Whether the name of the node holds `SINK`.
pub open spec fn has_sink(k: LinkKeyView) -> bool {
    contains_of(k.name, "SINK"@)
}

/// The name of the sink that belongs to an operator: `_SINK_OPERATOR` in
/// the place of a final `_OPERATOR`, else `_SINK` appended.
pub open spec fn expected_sink_name(name: Seq<char>) -> Seq<char> {
    if "_OPERATOR"@.is_suffix_of(name) {
        name.subrange(0, name.len() - "_OPERATOR"@.len()) + "_SINK_OPERATOR"@
    } else {
        name + "_SINK"@
    }
}

/// An exchange that receives from another fragment.
pub open spec fn is_exchange(k: LinkKeyView) -> bool {
    placed(k) && contains_of(k.name, "EXCHANGE_OPERATOR"@) && !has_sink(k) && !contains_of(
        k.name,
        "LOCAL"@,
    ) && k.plan_id is Some
}

/// A data-stream sink with its destination.
pub open spec fn is_stream_sink(k: LinkKeyView) -> bool {
    placed(k) && contains_of(k.name, "DATA_STREAM_SINK"@) && k.dest_id is Some
}

/// A local exchange.
pub open spec fn is_local_exchange(k: LinkKeyView) -> bool {
    placed(k) && contains_of(k.name, "LOCAL_EXCHANGE_OPERATOR"@) && !has_sink(k) && k.plan_id
        is Some
}

/// The sink of a local exchange.
pub open spec fn is_local_sink(k: LinkKeyView) -> bool {
    placed(k) && contains_of(k.name, "LOCAL_EXCHANGE_SINK"@) && k.plan_id is Some
}

/// A sink other than a result sink or a data-stream sink.
pub open spec fn is_inner_sink(k: LinkKeyView) -> bool {
    placed(k) && has_sink(k) && !contains_of(k.name, "DATA_STREAM_SINK"@) && !contains_of(
        k.name,
        "RESULT_SINK"@,
    )
}

/// Whether `b` stands in the same pipeline of the same fragment as `a`.
pub open spec fn same_pipeline(a: LinkKeyView, b: LinkKeyView) -> bool {
    placed(a) && a.fragment == b.fragment && a.pipeline == b.pipeline
}

/// The first node at or after `j` in the pipeline of node `i`.
pub open spec fn next_in_pipeline(keys: Seq<LinkKeyView>, i: int, j: int) -> Option<int>
    decreases keys.len() - j,
{
    if j < 0 || j >= keys.len() {
        None
    } else if same_pipeline(keys[i], keys[j]) {
        Some(j)
    } else {
        next_in_pipeline(keys, i, j + 1)
    }
}

/// The node that follows node `i` in its pipeline.
pub open spec fn chain_index(keys: Seq<LinkKeyView>, i: int) -> Option<int> {
    next_in_pipeline(keys, i, i + 1)
}

/// Whether node `j` is the sink of node `i` by its name: in the same
/// fragment, in another pipeline, named as the sink of `i` is expected to
/// be, with the same plan id.
pub open spec fn named_sink(keys: Seq<LinkKeyView>, i: int, j: int) -> bool {
    &&& j != i
    &&& keys[i].fragment is Some
    &&& keys[j].fragment == keys[i].fragment
    &&& keys[j].pipeline != keys[i].pipeline
    &&& keys[j].name == expected_sink_name(keys[i].name)
    &&& keys[j].plan_id == keys[i].plan_id
}

/// The first node at or after `j` that is the sink of node `i` by its name.
pub open spec fn first_named_sink(keys: Seq<LinkKeyView>, i: int, j: int) -> Option<int>
    decreases keys.len() - j,
{
    if j < 0 || j >= keys.len() {
        None
    } else if named_sink(keys, i, j) {
        Some(j)
    } else {
        first_named_sink(keys, i, j + 1)
    }
}

/// Whether node `j` is a sink of node `i` by its nereids id: an inner sink
/// of the same fragment with the same nereids id, in another pipeline.
pub open spec fn nereids_sink(keys: Seq<LinkKeyView>, i: int, j: int) -> bool {
    &&& j != i
    &&& keys[i].fragment is Some
    &&& keys[i].nereids_id is Some
    &&& is_inner_sink(keys[j])
    &&& keys[j].fragment == keys[i].fragment
    &&& keys[j].nereids_id == keys[i].nereids_id
    &&& keys[j].pipeline != keys[i].pipeline
}

/// The first node at or after `j` that is a sink of node `i` by its nereids id.
pub open spec fn first_nereids_sink(keys: Seq<LinkKeyView>, i: int, j: int) -> Option<int>
    decreases keys.len() - j,
{
    if j < 0 || j >= keys.len() {
        None
    } else if nereids_sink(keys, i, j) {
        Some(j)
    } else {
        first_nereids_sink(keys, i, j + 1)
    }
}

/// The sink of node `i`: none for a node that is itself a sink; else the
/// first sink by name, else the first sink by nereids id.
pub open spec fn sink_index(keys: Seq<LinkKeyView>, i: int) -> Option<int> {
    if has_sink(keys[i]) {
        None
    } else if first_named_sink(keys, i, 0) is Some {
        first_named_sink(keys, i, 0)
    } else {
        first_nereids_sink(keys, i, 0)
    }
}

/// The last exchange before `j` with the plan id `id`.
pub open spec fn last_exchange(keys: Seq<LinkKeyView>, id: i32, j: int) -> Option<int>
    decreases j,
{
    if j <= 0 || j > keys.len() {
        None
    } else if is_exchange(keys[j - 1]) && keys[j - 1].plan_id == Some(id) {
        Some(j - 1)
    } else {
        last_exchange(keys, id, j - 1)
    }
}

/// The last data-stream sink before `j` with the destination `id`.
pub open spec fn last_stream_sink(keys: Seq<LinkKeyView>, id: i32, j: int) -> Option<int>
    decreases j,
{
    if j <= 0 || j > keys.len() {
        None
    } else if is_stream_sink(keys[j - 1]) && keys[j - 1].dest_id == Some(id) {
        Some(j - 1)
    } else {
        last_stream_sink(keys, id, j - 1)
    }
}

/// The data-stream sink that sends to the exchange `i`. Of several
/// exchanges with one plan id the last receives; of several sinks with one
/// destination the last sends.
pub open spec fn exchange_index(keys: Seq<LinkKeyView>, i: int) -> Option<int> {
    if is_exchange(keys[i]) && last_exchange(keys, keys[i].plan_id.unwrap(), keys.len() as int)
        == Some(i) {
        last_stream_sink(keys, keys[i].plan_id.unwrap(), keys.len() as int)
    } else {
        None
    }
}

/// The last local exchange before `j` of the fragment `fragment` with the
/// plan id `id`.
pub open spec fn last_local_exchange(
    keys: Seq<LinkKeyView>,
    fragment: Option<Seq<char>>,
    id: i32,
    j: int,
) -> Option<int>
    decreases j,
{
    if j <= 0 || j > keys.len() {
        None
    } else if is_local_exchange(keys[j - 1]) && keys[j - 1].fragment == fragment && keys[j
        - 1].plan_id == Some(id) {
        Some(j - 1)
    } else {
        last_local_exchange(keys, fragment, id, j - 1)
    }
}

/// The last local exchange sink before `j` of the fragment `fragment` with
/// the plan id `id`.
pub open spec fn last_local_sink(
    keys: Seq<LinkKeyView>,
    fragment: Option<Seq<char>>,
    id: i32,
    j: int,
) -> Option<int>
    decreases j,
{
    if j <= 0 || j > keys.len() {
        None
    } else if is_local_sink(keys[j - 1]) && keys[j - 1].fragment == fragment && keys[j
        - 1].plan_id == Some(id) {
        Some(j - 1)
    } else {
        last_local_sink(keys, fragment, id, j - 1)
    }
}

/// The sink of the local exchange `i`, within its fragment.
pub open spec fn local_index(keys: Seq<LinkKeyView>, i: int) -> Option<int> {
    if is_local_exchange(keys[i]) && last_local_exchange(
        keys,
        keys[i].fragment,
        keys[i].plan_id.unwrap(),
        keys.len() as int,
    ) == Some(i) {
        last_local_sink(keys, keys[i].fragment, keys[i].plan_id.unwrap(), keys.len() as int)
    } else {
        None
    }
}

/// `c` with the id of node `j` at its end.
pub open spec fn pushed(c: Seq<Seq<char>>, keys: Seq<LinkKeyView>, j: Option<int>) -> Seq<Seq<char>> {
    match j {
        Some(j) => c.push(keys[j].id),
        None => c,
    }
}

/// `c` with the id of node `j` at its end, unless `c` holds it already.
pub open spec fn added(c: Seq<Seq<char>>, keys: Seq<LinkKeyView>, j: Option<int>) -> Seq<Seq<char>> {
    match j {
        Some(j) => if c.contains(keys[j].id) {
            c
        } else {
            c.push(keys[j].id)
        },
        None => c,
    }
}

/// The children of node `i` after linking: those it had, then what each of
/// the four rules adds.
pub open spec fn children_of(keys: Seq<LinkKeyView>, i: int, had: Seq<Seq<char>>) -> Seq<Seq<char>> {
    added(
        added(
            added(pushed(had, keys, chain_index(keys, i)), keys, sink_index(keys, i)),
            keys,
            exchange_index(keys, i),
        ),
        keys,
        local_index(keys, i),
    )
}

/// The nodes after linking. Linking changes nothing of a node but its
/// children, and takes no child away.
pub open spec fn linked(nodes: Seq<NodeView>) -> Seq<NodeView> {
    Seq::new(
        nodes.len(),
        |i: int| NodeView { children: children_of(keys_of(nodes), i, nodes[i].children), ..nodes[i] },
    )
}

/// Linking only adds edges: the children that a node had are the first of
/// its children after linking, and nothing else of the node changes.
pub proof fn linking_only_adds(nodes: Seq<NodeView>, i: int)
    requires
        0 <= i < nodes.len(),
    ensures
        linked(nodes).len() == nodes.len(),
        nodes[i].children.is_prefix_of(linked(nodes)[i].children),
        linked(nodes)[i] == (NodeView { children: linked(nodes)[i].children, ..nodes[i] }),
{
    let keys = keys_of(nodes);
    let c0 = nodes[i].children;
    let c1 = pushed(c0, keys, chain_index(keys, i));
    let c2 = added(c1, keys, sink_index(keys, i));
    let c3 = added(c2, keys, exchange_index(keys, i));
    let c4 = added(c3, keys, local_index(keys, i));
    assert(c0.is_prefix_of(c1));
    assert(c1.is_prefix_of(c2));
    assert(c2.is_prefix_of(c3));
    assert(c3.is_prefix_of(c4));
    assert(c0 =~= c4.subrange(0, c0.len() as int));
}

proof fn lemma_next_in_pipeline(keys: Seq<LinkKeyView>, i: int, from: int, j: int)
    requires
        0 <= from <= j < keys.len(),
        same_pipeline(keys[i], keys[j]),
        forall|k: int| from <= k < j ==> !same_pipeline(keys[i], #[trigger] keys[k]),
    ensures
        next_in_pipeline(keys, i, from) == Some(j),
    decreases j - from,
{
    if from < j {
        lemma_next_in_pipeline(keys, i, from + 1, j);
    }
}

proof fn lemma_last_exchange(keys: Seq<LinkKeyView>, id: i32, e: int, upto: int)
    requires
        0 <= e < upto <= keys.len(),
        is_exchange(keys[e]) && keys[e].plan_id == Some(id),
        forall|k: int|
            e < k < upto ==> !(is_exchange(#[trigger] keys[k]) && keys[k].plan_id == Some(id)),
    ensures
        last_exchange(keys, id, upto) == Some(e),
    decreases upto - e,
{
    if e + 1 < upto {
        lemma_last_exchange(keys, id, e, upto - 1);
    }
}

proof fn lemma_last_stream_sink(keys: Seq<LinkKeyView>, id: i32, s: int, upto: int)
    requires
        0 <= s < upto <= keys.len(),
        is_stream_sink(keys[s]) && keys[s].dest_id == Some(id),
        forall|k: int|
            s < k < upto ==> !(is_stream_sink(#[trigger] keys[k]) && keys[k].dest_id == Some(id)),
    ensures
        last_stream_sink(keys, id, upto) == Some(s),
    decreases upto - s,
{
    if s + 1 < upto {
        lemma_last_stream_sink(keys, id, s, upto - 1);
    }
}

/// What was added stays, and what is added is there.
proof fn lemma_added(c: Seq<Seq<char>>, keys: Seq<LinkKeyView>, j: Option<int>, x: Seq<char>)
    ensures
        c.contains(x) ==> added(c, keys, j).contains(x),
        j matches Some(k) ==> added(c, keys, j).contains(keys[k].id),
{
    match j {
        Some(k) => {
            if !c.contains(keys[k].id) {
                let d = c.push(keys[k].id);
                assert(d[c.len() as int] == keys[k].id);
                if c.contains(x) {
                    let at = choose|at: int| 0 <= at < c.len() && c[at] == x;
                    assert(d[at] == x);
                }
            }
        },
        None => {},
    }
}

/// Within a pipeline each operator gets the next as a child: after linking,
/// a node names the node that follows it in its pipeline.
pub proof fn chain_links_the_next(nodes: Seq<NodeView>, i: int, j: int)
    requires
        0 <= i < j < nodes.len(),
        same_pipeline(key_of(nodes[i]), key_of(nodes[j])),
        forall|k: int| i < k < j ==> !same_pipeline(key_of(nodes[i]), key_of(#[trigger] nodes[k])),
    ensures
        linked(nodes)[i].children.contains(nodes[j].id),
{
    let keys = keys_of(nodes);
    assert forall|k: int| i + 1 <= k < j implies !same_pipeline(keys[i], #[trigger] keys[k]) by {
        assert(keys[k] == key_of(nodes[k]));
    }
    lemma_next_in_pipeline(keys, i, i + 1, j);
    let c1 = pushed(nodes[i].children, keys, chain_index(keys, i));
    assert(c1[nodes[i].children.len() as int] == nodes[j].id);
    let c2 = added(c1, keys, sink_index(keys, i));
    let c3 = added(c2, keys, exchange_index(keys, i));
    lemma_added(c1, keys, sink_index(keys, i), nodes[j].id);
    lemma_added(c2, keys, exchange_index(keys, i), nodes[j].id);
    lemma_added(c3, keys, local_index(keys, i), nodes[j].id);
}

/// An exchange pulls the sink that names it as its destination: after
/// linking, the last exchange with a plan id names the last data-stream
/// sink with that destination as a child, in whatever fragments the two
/// stand.
pub proof fn exchange_links_its_sink(nodes: Seq<NodeView>, e: int, s: int, id: i32)
    requires
        0 <= e < nodes.len(),
        0 <= s < nodes.len(),
        is_exchange(key_of(nodes[e])) && nodes[e].plan_node_id == Some(id),
        forall|k: int|
            e < k < nodes.len() ==> !(is_exchange(key_of(#[trigger] nodes[k]))
                && nodes[k].plan_node_id == Some(id)),
        is_stream_sink(key_of(nodes[s])) && nodes[s].dest_id == Some(id),
        forall|k: int|
            s < k < nodes.len() ==> !(is_stream_sink(key_of(#[trigger] nodes[k]))
                && nodes[k].dest_id == Some(id)),
    ensures
        linked(nodes)[e].children.contains(nodes[s].id),
{
    let keys = keys_of(nodes);
    assert forall|k: int| e < k < keys.len() implies !(is_exchange(#[trigger] keys[k])
        && keys[k].plan_id == Some(id)) by {
        assert(keys[k] == key_of(nodes[k]));
    }
    assert forall|k: int| s < k < keys.len() implies !(is_stream_sink(#[trigger] keys[k])
        && keys[k].dest_id == Some(id)) by {
        assert(keys[k] == key_of(nodes[k]));
    }
    lemma_last_exchange(keys, id, e, keys.len() as int);
    lemma_last_stream_sink(keys, id, s, keys.len() as int);
    assert(exchange_index(keys, e) == Some(s));
    let c1 = pushed(nodes[e].children, keys, chain_index(keys, e));
    let c2 = added(c1, keys, sink_index(keys, e));
    let c3 = added(c2, keys, exchange_index(keys, e));
    lemma_added(c2, keys, exchange_index(keys, e), nodes[s].id);
    lemma_added(c3, keys, local_index(keys, e), nodes[s].id);
}

proof fn lemma_first_named_sink(keys: Seq<LinkKeyView>, i: int, from: int, j: int)
    requires
        0 <= from <= j < keys.len(),
        named_sink(keys, i, j),
        forall|k: int| from <= k < j ==> !named_sink(keys, i, k),
    ensures
        first_named_sink(keys, i, from) == Some(j),
    decreases j - from,
{
    if from < j {
        lemma_first_named_sink(keys, i, from + 1, j);
    }
}

proof fn lemma_no_named_sink(keys: Seq<LinkKeyView>, i: int, from: int)
    requires
        0 <= from,
        forall|k: int| from <= k < keys.len() ==> !named_sink(keys, i, k),
    ensures
        first_named_sink(keys, i, from) is None,
    decreases keys.len() - from,
{
    if from < keys.len() {
        lemma_no_named_sink(keys, i, from + 1);
    }
}

proof fn lemma_first_nereids_sink(keys: Seq<LinkKeyView>, i: int, from: int, j: int)
    requires
        0 <= from <= j < keys.len(),
        nereids_sink(keys, i, j),
        forall|k: int| from <= k < j ==> !nereids_sink(keys, i, k),
    ensures
        first_nereids_sink(keys, i, from) == Some(j),
    decreases j - from,
{
    if from < j {
        lemma_first_nereids_sink(keys, i, from + 1, j);
    }
}

proof fn lemma_last_local_exchange(
    keys: Seq<LinkKeyView>,
    fragment: Option<Seq<char>>,
    id: i32,
    e: int,
    upto: int,
)
    requires
        0 <= e < upto <= keys.len(),
        is_local_exchange(keys[e]) && keys[e].fragment == fragment && keys[e].plan_id == Some(id),
        forall|k: int|
            e < k < upto ==> !(is_local_exchange(#[trigger] keys[k]) && keys[k].fragment
                == fragment && keys[k].plan_id == Some(id)),
    ensures
        last_local_exchange(keys, fragment, id, upto) == Some(e),
    decreases upto - e,
{
    if e + 1 < upto {
        lemma_last_local_exchange(keys, fragment, id, e, upto - 1);
    }
}

proof fn lemma_last_local_sink(
    keys: Seq<LinkKeyView>,
    fragment: Option<Seq<char>>,
    id: i32,
    s: int,
    upto: int,
)
    requires
        0 <= s < upto <= keys.len(),
        is_local_sink(keys[s]) && keys[s].fragment == fragment && keys[s].plan_id == Some(id),
        forall|k: int|
            s < k < upto ==> !(is_local_sink(#[trigger] keys[k]) && keys[k].fragment == fragment
                && keys[k].plan_id == Some(id)),
    ensures
        last_local_sink(keys, fragment, id, upto) == Some(s),
    decreases upto - s,
{
    if s + 1 < upto {
        lemma_last_local_sink(keys, fragment, id, s, upto - 1);
    }
}

/// An operator is linked to its sink: after linking, a node that is no
/// sink names the first node that is its sink by name; where there is
/// none, the first that is its sink by nereids id.
pub proof fn operator_links_its_sink(nodes: Seq<NodeView>, i: int, j: int)
    requires
        0 <= i < nodes.len(),
        0 <= j < nodes.len(),
        !has_sink(key_of(nodes[i])),
        ({
            ||| named_sink(keys_of(nodes), i, j) && forall|k: int|
                0 <= k < j ==> !named_sink(keys_of(nodes), i, k)
            ||| nereids_sink(keys_of(nodes), i, j) && (forall|k: int|
                0 <= k < j ==> !nereids_sink(keys_of(nodes), i, k)) && forall|k: int|
                0 <= k < nodes.len() ==> !named_sink(keys_of(nodes), i, k)
        }),
    ensures
        linked(nodes)[i].children.contains(nodes[j].id),
{
    let keys = keys_of(nodes);
    if named_sink(keys, i, j) && forall|k: int| 0 <= k < j ==> !named_sink(keys, i, k) {
        lemma_first_named_sink(keys, i, 0, j);
    } else {
        lemma_no_named_sink(keys, i, 0);
        lemma_first_nereids_sink(keys, i, 0, j);
    }
    assert(sink_index(keys, i) == Some(j));
    let c1 = pushed(nodes[i].children, keys, chain_index(keys, i));
    let c2 = added(c1, keys, sink_index(keys, i));
    let c3 = added(c2, keys, exchange_index(keys, i));
    lemma_added(c1, keys, sink_index(keys, i), nodes[j].id);
    lemma_added(c2, keys, exchange_index(keys, i), nodes[j].id);
    lemma_added(c3, keys, local_index(keys, i), nodes[j].id);
}

/// A local exchange is linked to its sink: after linking, the last local
/// exchange of a fragment with a plan id names the last local exchange
/// sink of that fragment with that plan id as a child.
pub proof fn local_exchange_links_its_sink(nodes: Seq<NodeView>, e: int, s: int, id: i32)
    requires
        0 <= e < nodes.len(),
        0 <= s < nodes.len(),
        is_local_exchange(key_of(nodes[e])) && nodes[e].plan_node_id == Some(id),
        forall|k: int|
            e < k < nodes.len() ==> !(is_local_exchange(key_of(#[trigger] nodes[k]))
                && nodes[k].fragment_id == nodes[e].fragment_id && nodes[k].plan_node_id == Some(
                id,
            )),
        is_local_sink(key_of(nodes[s])) && nodes[s].fragment_id == nodes[e].fragment_id
            && nodes[s].plan_node_id == Some(id),
        forall|k: int|
            s < k < nodes.len() ==> !(is_local_sink(key_of(#[trigger] nodes[k]))
                && nodes[k].fragment_id == nodes[e].fragment_id && nodes[k].plan_node_id == Some(
                id,
            )),
    ensures
        linked(nodes)[e].children.contains(nodes[s].id),
{
    let keys = keys_of(nodes);
    let fragment = keys[e].fragment;
    assert forall|k: int| e < k < keys.len() implies !(is_local_exchange(#[trigger] keys[k])
        && keys[k].fragment == fragment && keys[k].plan_id == Some(id)) by {
        assert(keys[k] == key_of(nodes[k]));
    }
    assert forall|k: int| s < k < keys.len() implies !(is_local_sink(#[trigger] keys[k])
        && keys[k].fragment == fragment && keys[k].plan_id == Some(id)) by {
        assert(keys[k] == key_of(nodes[k]));
    }
    lemma_last_local_exchange(keys, fragment, id, e, keys.len() as int);
    lemma_last_local_sink(keys, fragment, id, s, keys.len() as int);
    assert(local_index(keys, e) == Some(s));
    let c1 = pushed(nodes[e].children, keys, chain_index(keys, e));
    let c2 = added(c1, keys, sink_index(keys, e));
    let c3 = added(c2, keys, exchange_index(keys, e));
    lemma_added(c3, keys, local_index(keys, e), nodes[s].id);
}

/// What the linking rules read of a node, with the answers to the
/// questions that they ask of its name.
pub struct LinkKey {
    pub id: String,
    pub name: String,
    pub fragment: Option<String>,
    pub pipeline: Option<String>,
    pub plan_id: Option<i32>,
    pub nereids_id: Option<i32>,
    pub dest_id: Option<i32>,
    pub sink_name: String,
    pub sink: bool,
    pub exchange: bool,
    pub stream_sink: bool,
    pub local_exchange: bool,
    pub local_sink: bool,
    pub inner_sink: bool,
}

impl DeepView for LinkKey {
    type V = LinkKeyView;

    open spec fn deep_view(&self) -> LinkKeyView {
        LinkKeyView {
            id: self.id@,
            name: self.name@,
            fragment: self.fragment.deep_view(),
            pipeline: self.pipeline.deep_view(),
            plan_id: self.plan_id,
            nereids_id: self.nereids_id,
            dest_id: self.dest_id,
        }
    }
}

impl LinkKey {
    /// The answers are those of the name.
    pub open spec fn wf(self) -> bool {
        let k = self.deep_view();
        &&& self.sink_name@ == expected_sink_name(k.name)
        &&& self.sink == has_sink(k)
        &&& self.exchange == is_exchange(k)
        &&& self.stream_sink == is_stream_sink(k)
        &&& self.local_exchange == is_local_exchange(k)
        &&& self.local_sink == is_local_sink(k)
        &&& self.inner_sink == is_inner_sink(k)
    }
}

/// Whether two optional texts are the same.
pub fn same_opt(a: &Option<String>, b: &Option<String>) -> (r: bool)
    ensures
        r == (a.deep_view() == b.deep_view()),
{
    match (a, b) {
        (Some(x), Some(y)) => *x == *y,
        (None, None) => true,
        _ => false,
    }
}

/// Whether two optional numbers are the same.
pub fn same_id(a: Option<i32>, b: Option<i32>) -> (r: bool)
    ensures
        r == (a == b),
{
    match (a, b) {
        (Some(x), Some(y)) => x == y,
        (None, None) => true,
        _ => false,
    }
}

fn clone_opt(s: &Option<String>) -> (r: Option<String>)
    ensures
        r.deep_view() == s.deep_view(),
{
    match s {
        Some(t) => Some(t.clone()),
        None => None,
    }
}

/// The name of the sink that belongs to the operator `name`.
pub fn sink_name_of(name: &str) -> (r: String)
    ensures
        r@ == expected_sink_name(name@),
{
    let cs = chars_of(name);
    let suffix = chars_of("_OPERATOR");
    if ends_with(cs.as_slice(), suffix.as_slice()) {
        let stem = slice_subrange(cs.as_slice(), 0, cs.len() - suffix.len());
        let mut out: String = string_of(stem);
        out.append("_SINK_OPERATOR");
        out
    } else {
        let mut out: String = name.to_owned();
        out.append("_SINK");
        out
    }
}

/// What the linking rules read of `node`.
pub fn link_key(node: &ExecutionTreeNode) -> (r: LinkKey)
    ensures
        r.wf(),
        r.deep_view() == key_of(node.deep_view()),
{
    let cs = chars_of(node.operator_name.as_str());
    let name = cs.as_slice();
    let located: bool = node.fragment_id.is_some() && node.pipeline_id.is_some();
    let sink: bool = contains(name, chars_of("SINK").as_slice());
    let stream: bool = contains(name, chars_of("DATA_STREAM_SINK").as_slice());
    let result: bool = contains(name, chars_of("RESULT_SINK").as_slice());
    LinkKey {
        id: node.id.clone(),
        name: node.operator_name.clone(),
        fragment: clone_opt(&node.fragment_id),
        pipeline: clone_opt(&node.pipeline_id),
        plan_id: node.plan_node_id,
        nereids_id: node.nereids_id,
        dest_id: node.dest_id,
        sink_name: sink_name_of(node.operator_name.as_str()),
        sink,
        exchange: located && contains(name, chars_of("EXCHANGE_OPERATOR").as_slice()) && !sink
            && !contains(name, chars_of("LOCAL").as_slice()) && node.plan_node_id.is_some(),
        stream_sink: located && stream && node.dest_id.is_some(),
        local_exchange: located && contains(name, chars_of("LOCAL_EXCHANGE_OPERATOR").as_slice())
            && !sink && node.plan_node_id.is_some(),
        local_sink: located && contains(name, chars_of("LOCAL_EXCHANGE_SINK").as_slice())
            && node.plan_node_id.is_some(),
        inner_sink: located && sink && !stream && !result,
    }
}

/// Every key is well-formed.
pub open spec fn keys_wf(keys: Seq<LinkKey>) -> bool {
    forall|i: int| 0 <= i < keys.len() ==> (#[trigger] keys[i]).wf()
}

/// What the linking rules read of each node.
pub fn link_keys(nodes: &Vec<ExecutionTreeNode>) -> (r: Vec<LinkKey>)
    ensures
        keys_wf(r@),
        r.deep_view() == keys_of(nodes.deep_view()),
{
    let mut out: Vec<LinkKey> = Vec::new();
    let mut i: usize = 0;
    while i < nodes.len()
        invariant
            i <= nodes.len(),
            out.len() == i,
            keys_wf(out@),
            forall|j: int| 0 <= j < i ==> out@[j].deep_view() == key_of(nodes@[j].deep_view()),
        decreases nodes.len() - i,
    {
        out.push(link_key(&nodes[i]));
        i += 1;
    }
    assert(out.deep_view() =~= keys_of(nodes.deep_view()));
    out
}

/// The node that follows node `i` in its pipeline.
fn find_chain(keys: &Vec<LinkKey>, i: usize) -> (r: Option<usize>)
    requires
        i < keys@.len(),
    ensures
        pos_of(r) == chain_index(keys.deep_view(), i as int),
        r matches Some(j) ==> j < keys@.len(),
{
    let ghost kv = keys.deep_view();
    let me: &LinkKey = &keys[i];
    assert(kv[i as int] == me.deep_view());
    let n: usize = keys.len();
    assert(i < n);
    let mut j: usize = i + 1;
    while j < keys.len()
        invariant
            i < j <= keys.len(),
            kv == keys.deep_view(),
            kv[i as int] == me.deep_view(),
            chain_index(kv, i as int) == next_in_pipeline(kv, i as int, j as int),
        decreases keys.len() - j,
    {
        let other: &LinkKey = &keys[j];
        assert(kv[j as int] == other.deep_view());
        if me.fragment.is_some() && me.pipeline.is_some() && same_opt(&me.fragment, &other.fragment)
            && same_opt(&me.pipeline, &other.pipeline) {
            return Some(j);
        }
        j += 1;
    }
    None
}

/// The sink of node `i` in another pipeline of its fragment.
fn find_sink(keys: &Vec<LinkKey>, i: usize) -> (r: Option<usize>)
    requires
        i < keys@.len(),
        keys_wf(keys@),
    ensures
        pos_of(r) == sink_index(keys.deep_view(), i as int),
        r matches Some(j) ==> j < keys@.len(),
{
    let ghost kv = keys.deep_view();
    let me: &LinkKey = &keys[i];
    assert(kv[i as int] == me.deep_view());
    assert(me.wf());
    if me.sink {
        return None;
    }
    let mut j: usize = 0;
    while j < keys.len()
        invariant
            j <= keys.len(),
            kv == keys.deep_view(),
            i < keys@.len(),
            kv[i as int] == me.deep_view(),
            me.wf(),
            !me.sink,
            first_named_sink(kv, i as int, 0) == first_named_sink(kv, i as int, j as int),
        decreases keys.len() - j,
    {
        let other: &LinkKey = &keys[j];
        assert(kv[j as int] == other.deep_view());
        if j != i && me.fragment.is_some() && same_opt(&other.fragment, &me.fragment) && !same_opt(
            &other.pipeline,
            &me.pipeline,
        ) && other.name == me.sink_name && same_id(other.plan_id, me.plan_id) {
            return Some(j);
        }
        j += 1;
    }
    let mut j: usize = 0;
    while j < keys.len()
        invariant
            j <= keys.len(),
            kv == keys.deep_view(),
            i < keys@.len(),
            kv[i as int] == me.deep_view(),
            keys_wf(keys@),
            me.wf(),
            !me.sink,
            first_named_sink(kv, i as int, 0) is None,
            first_nereids_sink(kv, i as int, 0) == first_nereids_sink(kv, i as int, j as int),
        decreases keys.len() - j,
    {
        let other: &LinkKey = &keys[j];
        assert(kv[j as int] == other.deep_view());
        assert(other.wf());
        if j != i && me.fragment.is_some() && me.nereids_id.is_some() && other.inner_sink
            && same_opt(&other.fragment, &me.fragment) && same_id(other.nereids_id, me.nereids_id)
            && !same_opt(&other.pipeline, &me.pipeline) {
            return Some(j);
        }
        j += 1;
    }
    None
}

/// The last exchange with the plan id `id`.
fn find_last_exchange(keys: &Vec<LinkKey>, id: i32) -> (r: Option<usize>)
    requires
        keys_wf(keys@),
    ensures
        pos_of(r) == last_exchange(keys.deep_view(), id, keys@.len() as int),
        r matches Some(j) ==> j < keys@.len(),
{
    let ghost kv = keys.deep_view();
    let mut j: usize = keys.len();
    while j > 0
        invariant
            j <= keys.len(),
            kv == keys.deep_view(),
            keys_wf(keys@),
            last_exchange(kv, id, keys@.len() as int) == last_exchange(kv, id, j as int),
        decreases j,
    {
        let other: &LinkKey = &keys[j - 1];
        assert(kv[j - 1] == other.deep_view());
        assert(other.wf());
        if other.exchange && same_id(other.plan_id, Some(id)) {
            return Some(j - 1);
        }
        j -= 1;
    }
    None
}

/// The last data-stream sink with the destination `id`.
fn find_last_stream_sink(keys: &Vec<LinkKey>, id: i32) -> (r: Option<usize>)
    requires
        keys_wf(keys@),
    ensures
        pos_of(r) == last_stream_sink(keys.deep_view(), id, keys@.len() as int),
        r matches Some(j) ==> j < keys@.len(),
{
    let ghost kv = keys.deep_view();
    let mut j: usize = keys.len();
    while j > 0
        invariant
            j <= keys.len(),
            kv == keys.deep_view(),
            keys_wf(keys@),
            last_stream_sink(kv, id, keys@.len() as int) == last_stream_sink(kv, id, j as int),
        decreases j,
    {
        let other: &LinkKey = &keys[j - 1];
        assert(kv[j - 1] == other.deep_view());
        assert(other.wf());
        if other.stream_sink && same_id(other.dest_id, Some(id)) {
            return Some(j - 1);
        }
        j -= 1;
    }
    None
}

/// The data-stream sink that sends to the exchange `i`.
fn find_exchange_sink(keys: &Vec<LinkKey>, i: usize) -> (r: Option<usize>)
    requires
        i < keys@.len(),
        keys_wf(keys@),
    ensures
        pos_of(r) == exchange_index(keys.deep_view(), i as int),
        r matches Some(j) ==> j < keys@.len(),
{
    let me: &LinkKey = &keys[i];
    assert(keys.deep_view()[i as int] == me.deep_view());
    assert(me.wf());
    if !me.exchange {
        return None;
    }
    match me.plan_id {
        Some(id) => match find_last_exchange(keys, id) {
            Some(e) => if e == i {
                find_last_stream_sink(keys, id)
            } else {
                None
            },
            None => None,
        },
        None => None,
    }
}

/// The last local exchange, or local exchange sink, of the fragment
/// `fragment` with the plan id `id`.
fn find_last_local(keys: &Vec<LinkKey>, fragment: &Option<String>, id: i32, sink: bool) -> (r:
    Option<usize>)
    requires
        keys_wf(keys@),
    ensures
        pos_of(r) == if sink {
            last_local_sink(keys.deep_view(), fragment.deep_view(), id, keys@.len() as int)
        } else {
            last_local_exchange(keys.deep_view(), fragment.deep_view(), id, keys@.len() as int)
        },
        r matches Some(j) ==> j < keys@.len(),
{
    let ghost kv = keys.deep_view();
    let ghost f = fragment.deep_view();
    let mut j: usize = keys.len();
    while j > 0
        invariant
            j <= keys.len(),
            kv == keys.deep_view(),
            f == fragment.deep_view(),
            keys_wf(keys@),
            sink ==> last_local_sink(kv, f, id, keys@.len() as int) == last_local_sink(
                kv,
                f,
                id,
                j as int,
            ),
            !sink ==> last_local_exchange(kv, f, id, keys@.len() as int) == last_local_exchange(
                kv,
                f,
                id,
                j as int,
            ),
        decreases j,
    {
        let other: &LinkKey = &keys[j - 1];
        assert(kv[j - 1] == other.deep_view());
        assert(other.wf());
        let kind: bool = if sink {
            other.local_sink
        } else {
            other.local_exchange
        };
        if kind && same_opt(&other.fragment, fragment) && same_id(other.plan_id, Some(id)) {
            return Some(j - 1);
        }
        j -= 1;
    }
    None
}

/// The sink of the local exchange `i`.
fn find_local_sink(keys: &Vec<LinkKey>, i: usize) -> (r: Option<usize>)
    requires
        i < keys@.len(),
        keys_wf(keys@),
    ensures
        pos_of(r) == local_index(keys.deep_view(), i as int),
        r matches Some(j) ==> j < keys@.len(),
{
    let me: &LinkKey = &keys[i];
    assert(keys.deep_view()[i as int] == me.deep_view());
    assert(me.wf());
    if !me.local_exchange {
        return None;
    }
    match me.plan_id {
        Some(id) => match find_last_local(keys, &me.fragment, id, false) {
            Some(e) => if e == i {
                find_last_local(keys, &me.fragment, id, true)
            } else {
                None
            },
            None => None,
        },
        None => None,
    }
}

/// Whether `children` holds `id`.
pub fn has_child(children: &Vec<String>, id: &String) -> (r: bool)
    ensures
        r == children.deep_view().contains(id@),
{
    let mut k: usize = 0;
    while k < children.len()
        invariant
            k <= children.len(),
            forall|x: int| 0 <= x < k ==> children.deep_view()[x] != id@,
        decreases children.len() - k,
    {
        assert(children.deep_view()[k as int] == children@[k as int]@);
        if children[k] == *id {
            return true;
        }
        k += 1;
    }
    false
}

/// Appends the id of node `j` to `children`; where `unless_held` is set,
/// only if `children` does not hold it yet.
fn add_child(children: &mut Vec<String>, keys: &Vec<LinkKey>, j: Option<usize>, unless_held: bool)
    requires
        j matches Some(x) ==> x < keys@.len(),
    ensures
        final(children).deep_view() == if unless_held {
            added(old(children).deep_view(), keys.deep_view(), pos_of(j))
        } else {
            pushed(old(children).deep_view(), keys.deep_view(), pos_of(j))
        },
{
    match j {
        Some(x) => {
            let id: &String = &keys[x].id;
            assert(keys.deep_view()[x as int].id == id@);
            if !unless_held || !has_child(children, id) {
                children.push(id.clone());
                assert(children.deep_view() =~= old(children).deep_view().push(id@));
            }
        },
        None => {},
    }
}

/// Links the nodes: adds to each node's children what the four rules give.
pub fn link(nodes: &mut Vec<ExecutionTreeNode>)
    ensures
        final(nodes).deep_view() == linked(old(nodes).deep_view()),
{
    let keys = link_keys(nodes);
    let ghost before = nodes.deep_view();
    let ghost kv = keys.deep_view();
    assert(kv.len() == keys@.len());
    let mut i: usize = 0;
    while i < nodes.len()
        invariant
            i <= nodes.len(),
            nodes.len() == before.len(),
            keys@.len() == before.len(),
            keys_wf(keys@),
            kv == keys.deep_view(),
            kv == keys_of(before),
            forall|x: int| 0 <= x < i ==> nodes@[x].deep_view() == linked(before)[x],
            forall|x: int| i <= x < nodes.len() ==> nodes@[x].deep_view() == before[x],
        decreases nodes.len() - i,
    {
        let chain = find_chain(&keys, i);
        let sink = find_sink(&keys, i);
        let exchange = find_exchange_sink(&keys, i);
        let local = find_local_sink(&keys, i);
        let ghost had = nodes@[i as int].deep_view();
        let mut children: Vec<String> = Vec::new();
        std::mem::swap(&mut children, &mut nodes[i].children);
        add_child(&mut children, &keys, chain, false);
        add_child(&mut children, &keys, sink, true);
        add_child(&mut children, &keys, exchange, true);
        add_child(&mut children, &keys, local, true);
        nodes[i].children = children;
        proof {
            assert(nodes@[i as int].deep_view() == NodeView {
                children: children_of(kv, i as int, had.children),
                ..had
            });
        }
        i += 1;
    }
    assert(nodes.deep_view() =~= linked(before));
}

} // verus!
