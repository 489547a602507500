//! A pipeline written back as text that the operator segmenter reads.

use crate::models::{lookup, Entries, Operator, OperatorView, Pipeline, PipelineView, StringMap};
use crate::text::{chars_of, contains, contains_of};
use vstd::prelude::*;
use vstd::string::StringExecFns;

verus! {

/// Whether a key holds what the header of an operator says.
pub open spec fn is_header_key(k: Seq<char>) -> bool {
    k == "dest_id"@ || k == "nereids_id"@ || k == "exchange_type"@ || k == "table_name"@
}

/// The line of one entry behind `pad`.
pub open spec fn entry_line(e: (Seq<char>, Seq<char>), pad: Seq<char>) -> Seq<char> {
    pad + "- "@ + e.0 + ": "@ + e.1 + "\n"@
}

/// The lines of the first `n` entries of `m`, each behind `pad`; without
/// those of the header keys where `bare` is set.
pub open spec fn entry_lines(m: Entries, pad: Seq<char>, bare: bool, n: nat) -> Seq<char>
    decreases n,
{
    if n == 0 || n > m.len() {
        Seq::empty()
    } else if bare && is_header_key(m[n - 1].0) {
        entry_lines(m, pad, bare, (n - 1) as nat)
    } else {
        entry_lines(m, pad, bare, (n - 1) as nat) + entry_line(m[n - 1], pad)
    }
}

/// What stands between the name of an operator and the colon of its header
/// line.
pub open spec fn header_tail(op: OperatorView) -> Seq<char> {
    if contains_of(op.name, "DATA_STREAM_SINK"@) {
        match lookup(op.metrics, "dest_id"@) {
            Some(d) => "(dest_id="@ + d + ")"@,
            None => Seq::empty(),
        }
    } else if contains_of(op.name, "LOCAL_EXCHANGE"@) {
        match lookup(op.metrics, "exchange_type"@) {
            Some(t) => "("@ + t + ")(id="@ + op.id + ")"@,
            None => "(id="@ + op.id + ")"@,
        }
    } else {
        match lookup(op.metrics, "nereids_id"@) {
            Some(n) => match lookup(op.metrics, "table_name"@) {
                Some(t) => "(nereids_id="@ + n + ")(id="@ + op.id + ", table name = "@ + t + ")"@,
                None => "(nereids_id="@ + n + ")(id="@ + op.id + ")"@,
            },
            None => "(id="@ + op.id + ")"@,
        }
    }
}

/// The block of one operator: its header line, then every metric but those
/// of the header as a common counter.
pub open spec fn operator_text(op: OperatorView) -> Seq<char> {
    "   "@ + op.name + header_tail(op) + ":\n"@ + "     CommonCounters:\n"@ + entry_lines(
        op.metrics,
        "        "@,
        true,
        op.metrics.len(),
    )
}

/// The blocks of the first `n` operators.
pub open spec fn operators_text(ops: Seq<OperatorView>, n: nat) -> Seq<char>
    decreases n,
{
    if n == 0 || n > ops.len() {
        Seq::empty()
    } else {
        operators_text(ops, (n - 1) as nat) + operator_text(ops[n - 1])
    }
}

/// The pipeline as text: its id and a colon, its counters, and the blocks
/// of its operators.
pub open spec fn pipeline_text_of(p: PipelineView) -> Seq<char> {
    p.id + ":\n"@ + entry_lines(p.metrics, "   "@, false, p.metrics.len()) + operators_text(
        p.operators,
        p.operators.len(),
    )
}

fn header_key(k: &String) -> (r: bool)
    ensures
        r == is_header_key(k@),
{
    let a: String = "dest_id".to_owned();
    let b: String = "nereids_id".to_owned();
    let c: String = "exchange_type".to_owned();
    let d: String = "table_name".to_owned();
    *k == a || *k == b || *k == c || *k == d
}

fn push_entries(out: &mut String, map: &StringMap, pad: &str, bare: bool)
    ensures
        final(out)@ == old(out)@ + entry_lines(
            map.deep_view(),
            pad@,
            bare,
            map.deep_view().len(),
        ),
{
    let ghost m = map.deep_view();
    let mut n: usize = 0;
    proof {
        assert(out@ =~= old(out)@ + entry_lines(m, pad@, bare, 0));
    }
    while n < map.entries.len()
        invariant
            n <= map.entries.len(),
            m == map.deep_view(),
            out@ == old(out)@ + entry_lines(m, pad@, bare, n as nat),
        decreases map.entries.len() - n,
    {
        assert(m[n as int] == map.entries@[n as int].deep_view());
        if !(bare && header_key(&map.entries[n].0)) {
            let ghost before = out@;
            out.append(pad);
            out.append("- ");
            out.append(map.entries[n].0.as_str());
            out.append(": ");
            out.append(map.entries[n].1.as_str());
            out.append("\n");
            assert(out@ =~= before + entry_line(m[n as int], pad@));
            assert(out@ =~= old(out)@ + entry_lines(m, pad@, bare, (n + 1) as nat));
        }
        n += 1;
    }
}

fn push_header_tail(out: &mut String, op: &Operator)
    ensures
        final(out)@ == old(out)@ + header_tail(op.deep_view()),
{
    let cs = chars_of(op.name.as_str());
    let name = cs.as_slice();
    let ghost v = op.deep_view();
    if contains(name, chars_of("DATA_STREAM_SINK").as_slice()) {
        match op.metrics.get("dest_id") {
            Some(d) => {
                out.append("(dest_id=");
                out.append(d.as_str());
                out.append(")");
            },
            None => {},
        }
        assert(out@ =~= old(out)@ + header_tail(v));
    } else if contains(name, chars_of("LOCAL_EXCHANGE").as_slice()) {
        match op.metrics.get("exchange_type") {
            Some(t) => {
                out.append("(");
                out.append(t.as_str());
                out.append(")(id=");
            },
            None => {
                out.append("(id=");
            },
        }
        out.append(op.id.as_str());
        out.append(")");
        assert(out@ =~= old(out)@ + header_tail(v));
    } else {
        match op.metrics.get("nereids_id") {
            Some(n) => {
                out.append("(nereids_id=");
                out.append(n.as_str());
                out.append(")(id=");
                out.append(op.id.as_str());
                match op.metrics.get("table_name") {
                    Some(t) => {
                        out.append(", table name = ");
                        out.append(t.as_str());
                    },
                    None => {},
                }
                out.append(")");
            },
            None => {
                out.append("(id=");
                out.append(op.id.as_str());
                out.append(")");
            },
        }
        assert(out@ =~= old(out)@ + header_tail(v));
    }
}

fn push_operator(out: &mut String, op: &Operator)
    ensures
        final(out)@ == old(out)@ + operator_text(op.deep_view()),
{
    let ghost v = op.deep_view();
    let ghost s0 = out@;
    out.append("   ");
    out.append(op.name.as_str());
    let ghost t0 = "   "@ + v.name;
    assert(out@ =~= s0 + t0);
    push_header_tail(out, op);
    let ghost t1 = t0 + header_tail(v);
    assert(out@ =~= s0 + t1);
    out.append(":\n");
    out.append("     CommonCounters:\n");
    let ghost t2 = t1 + ":\n"@ + "     CommonCounters:\n"@;
    assert(out@ =~= s0 + t2);
    push_entries(out, &op.metrics, "        ", true);
    let ghost t3 = t2 + entry_lines(v.metrics, "        "@, true, v.metrics.len());
    assert(out@ =~= s0 + t3);
    assert(t3 == operator_text(v));
}

/// Writes a pipeline as text.
pub fn pipeline_text(pipeline: &Pipeline) -> (r: String)
    ensures
        r@ == pipeline_text_of(pipeline.deep_view()),
{
    let ghost p = pipeline.deep_view();
    let mut out: String = pipeline.id.clone();
    out.append(":\n");
    push_entries(&mut out, &pipeline.metrics, "   ", false);
    let ghost head = out@;
    assert(head =~= p.id + ":\n"@ + entry_lines(p.metrics, "   "@, false, p.metrics.len()));
    let mut n: usize = 0;
    proof {
        assert(out@ =~= head + operators_text(p.operators, 0));
    }
    while n < pipeline.operators.len()
        invariant
            n <= pipeline.operators.len(),
            p == pipeline.deep_view(),
            out@ == head + operators_text(p.operators, n as nat),
        decreases pipeline.operators.len() - n,
    {
        assert(p.operators[n as int] == pipeline.operators@[n as int].deep_view());
        push_operator(&mut out, &pipeline.operators[n]);
        assert(out@ =~= head + operators_text(p.operators, (n + 1) as nat));
        n += 1;
    }
    out
}

} // verus!
