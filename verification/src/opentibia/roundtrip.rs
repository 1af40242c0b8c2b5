//! The node format read backwards: how a tree is written, and that reading what was written
//! gives the tree back.

use super::binaryfile::{
    bare, spec_body, spec_node, spec_span, spec_stream, spec_tagged, stream_from, with_byte,
    with_child, NodeModel, Span, Step, END, ESCAPE, START,
};
use crate::helpers::{DecodeError, Parsed};
use vstd::prelude::*;

verus! {

/// The three byte values that the format gives a meaning.
pub open spec fn is_control(b: u8) -> bool {
    b == ESCAPE || b == START || b == END
}

/// One payload byte as it is written: a control byte behind an escape byte, any other as it is.
pub open spec fn escape_byte(b: u8) -> Seq<u8> {
    if is_control(b) {
        seq![ESCAPE, b]
    } else {
        seq![b]
    }
}

/// A payload as it is written.
pub open spec fn escape(data: Seq<u8>) -> Seq<u8>
    decreases data.len(),
{
    if data.len() == 0 {
        Seq::empty()
    } else {
        escape_byte(data[0]) + escape(data.skip(1))
    }
}

/// A node as it is written: start byte, tag, payload, children, end byte.
pub open spec fn encode(n: NodeModel) -> Seq<u8>
    decreases n, 1int,
{
    seq![START, n.kind] + escape(n.data) + encode_all(n.children) + seq![END]
}

/// Nodes written one behind the other.
pub open spec fn encode_all(ns: Seq<NodeModel>) -> Seq<u8>
    decreases ns, 0int,
{
    if ns.len() == 0 {
        Seq::empty()
    } else {
        encode_all(ns.drop_last()) + encode(ns.last())
    }
}

/// Reading a written payload adds it to the data of the node.
proof fn lemma_body_escape(data: Seq<u8>, tail: Seq<u8>, acc: NodeModel)
    ensures
        spec_body(escape(data) + tail, acc) == spec_body(
            tail,
            NodeModel { kind: acc.kind, data: acc.data + data, children: acc.children },
        ),
    decreases data.len(),
{
    if data.len() > 0 {
        let b = data[0];
        let rest = escape(data.skip(1)) + tail;
        let s = escape(data) + tail;
        if is_control(b) {
            assert(s.skip(2) =~= rest);
        } else {
            assert(s.skip(1) =~= rest);
        }
        lemma_body_escape(data.skip(1), tail, with_byte(acc, b));
        assert(with_byte(acc, b).data + data.skip(1) =~= acc.data + data);
    }
}

/// Reading a written node gives the node and leaves what was behind it.
proof fn lemma_tagged_encode(n: NodeModel, tail: Seq<u8>)
    ensures
        spec_tagged(encode(n).skip(1) + tail) == Ok::<(NodeModel, Seq<u8>), DecodeError>((n, tail)),
    decreases n, 1int,
{
    let s = encode(n).skip(1) + tail;
    let after_kids = seq![END] + tail;
    let after_data = encode_all(n.children) + after_kids;
    assert(s.skip(1) =~= escape(n.data) + after_data);
    lemma_body_escape(n.data, after_data, bare(n.kind));
    let with_data = NodeModel { kind: n.kind, data: n.data, children: Seq::empty() };
    lemma_body_children(n.children, after_kids, with_data);
    assert(after_kids.skip(1) =~= tail);
}

/// Reading written nodes inside a body adds them to the children of the node.
proof fn lemma_body_children(kids: Seq<NodeModel>, tail: Seq<u8>, acc: NodeModel)
    ensures
        spec_body(encode_all(kids) + tail, acc) == spec_body(
            tail,
            NodeModel { kind: acc.kind, data: acc.data, children: acc.children + kids },
        ),
    decreases kids, 0int,
{
    if kids.len() > 0 {
        let front = kids.drop_last();
        let last = kids.last();
        let behind = encode(last) + tail;
        assert(encode_all(kids) + tail =~= encode_all(front) + behind);
        lemma_body_children(front, behind, acc);
        let mid = NodeModel { kind: acc.kind, data: acc.data, children: acc.children + front };
        lemma_tagged_encode(last, tail);
        assert(behind.skip(1) =~= encode(last).skip(1) + tail);
        assert(with_child(mid, last).children =~= acc.children + kids);
    }
}

/// Decoding the bytes of a written tree gives the tree back, whatever follows it.
pub proof fn lemma_decode_encode(n: NodeModel, tail: Seq<u8>)
    ensures
        spec_node(encode(n) + tail, false) == Ok::<(NodeModel, Seq<u8>), DecodeError>((n, tail)),
{
    assert((encode(n) + tail).skip(1) =~= encode(n).skip(1) + tail);
    lemma_tagged_encode(n, tail);
}

/// Any byte behind an escape byte arrives in the data as it is, a control byte too.
pub proof fn lemma_escaped_byte(kind: u8, b: u8, tail: Seq<u8>)
    ensures
        spec_node(seq![START, kind, ESCAPE, b, END] + tail, false) == Ok::<
            (NodeModel, Seq<u8>),
            DecodeError,
        >((NodeModel { kind, data: seq![b], children: Seq::empty() }, tail)),
{
    let s = seq![START, kind, ESCAPE, b, END] + tail;
    let end = s.skip(4);
    assert(s.skip(1).skip(1).skip(2) =~= end);
    assert(end.skip(1) =~= tail);
    assert(spec_body(end, with_byte(bare(kind), b)) == Ok::<(NodeModel, Seq<u8>), DecodeError>(
        (with_byte(bare(kind), b), tail),
    ));
}

/// A payload with control bytes in it, written and decoded, is the payload.
pub proof fn lemma_escaped_payload(kind: u8, data: Seq<u8>, tail: Seq<u8>)
    ensures
        spec_node(seq![START, kind] + escape(data) + seq![END] + tail, false) == Ok::<
            (NodeModel, Seq<u8>),
            DecodeError,
        >((NodeModel { kind, data, children: Seq::empty() }, tail)),
{
    lemma_decode_encode(NodeModel { kind, data, children: Seq::empty() }, tail);
}

/// A leaf as it is written.
pub open spec fn encode_leaf(kind: u8, data: Seq<u8>) -> Seq<u8> {
    seq![START, kind] + escape(data) + seq![END]
}

/// Leaves written one behind the other, as siblings are.
pub open spec fn encode_siblings(nodes: Seq<(u8, Seq<u8>)>) -> Seq<u8>
    decreases nodes.len(),
{
    if nodes.len() == 0 {
        Seq::empty()
    } else {
        encode_leaf(nodes[0].0, nodes[0].1) + encode_siblings(nodes.skip(1))
    }
}

/// The handler applied to the nodes in turn. It stops at the first failure, and behind the
/// first node at which the handler answers `false`, unless that was the last: the answer to
/// the last node does not count.
pub open spec fn deliver<V>(step: Step<V>, v: V, nodes: Seq<(u8, Seq<u8>)>) -> Parsed<V>
    decreases nodes.len(),
{
    if nodes.len() == 0 {
        Ok((v, Seq::empty()))
    } else {
        match step(v, nodes[0].0, nodes[0].1) {
            Err(e) => Err(e),
            Ok((v2, go)) => if nodes.len() == 1 {
                Ok((v2, Seq::empty()))
            } else if !go {
                Ok((v2, encode_siblings(nodes.skip(1)).skip(1)))
            } else {
                deliver(step, v2, nodes.skip(1))
            },
        }
    }
}

/// Scanning a written payload adds it to the data of the span.
proof fn lemma_span_escape(data: Seq<u8>, tail: Seq<u8>, acc: Seq<u8>)
    ensures
        spec_span(escape(data) + tail, acc) == spec_span(tail, acc + data),
    decreases data.len(),
{
    if data.len() > 0 {
        let b = data[0];
        let rest = escape(data.skip(1)) + tail;
        let s = escape(data) + tail;
        if is_control(b) {
            assert(s.skip(2) =~= rest);
        } else {
            assert(s.skip(1) =~= rest);
        }
        lemma_span_escape(data.skip(1), tail, acc.push(b));
        assert(acc.push(b) + data.skip(1) =~= acc + data);
    }
}

/// The walk from the payload of the first of some written siblings on.
proof fn lemma_stream_from_siblings<V>(step: Step<V>, v: V, nodes: Seq<(u8, Seq<u8>)>)
    requires
        nodes.len() >= 1,
    ensures
        stream_from(step, v, nodes[0].0, encode_siblings(nodes).skip(2)) == deliver(
            step,
            v,
            nodes,
        ),
    decreases nodes.len(),
{
    let kind = nodes[0].0;
    let data = nodes[0].1;
    let others = encode_siblings(nodes.skip(1));
    let s = encode_siblings(nodes).skip(2);
    let behind = seq![END] + others;
    assert(s =~= escape(data) + behind);
    lemma_span_escape(data, behind, Seq::empty());
    assert(behind.skip(1) =~= others);
    assert(spec_span(behind, data) == spec_span(others, data));
    if nodes.len() > 1 {
        assert(others.skip(1).skip(1) =~= others.skip(2));
        if let Ok((v2, go)) = step(v, kind, data) {
            if go {
                lemma_stream_from_siblings(step, v2, nodes.skip(1));
            }
        }
    }
}

/// The flat walk over written siblings hands each of them to the handler, in order and once:
/// all but the last when the next one starts, the last when the input ends.
pub proof fn lemma_stream_siblings<V>(step: Step<V>, v: V, nodes: Seq<(u8, Seq<u8>)>)
    requires
        nodes.len() >= 1,
    ensures
        spec_stream(step, v, encode_siblings(nodes), false) == deliver(step, v, nodes),
{
    lemma_stream_from_siblings(step, v, nodes);
}

/// A handler that counts its calls and always goes on.
pub open spec fn counting() -> Step<nat> {
    |n: nat, kind: u8, data: Seq<u8>| Ok::<(nat, bool), DecodeError>(((n + 1) as nat, true))
}

/// Over `n` written siblings the handler is called `n` times.
pub proof fn lemma_stream_calls(nodes: Seq<(u8, Seq<u8>)>, calls: nat)
    requires
        nodes.len() >= 1,
    ensures
        spec_stream(counting(), calls, encode_siblings(nodes), false) == Ok::<
            (nat, Seq<u8>),
            DecodeError,
        >((calls + nodes.len(), Seq::empty())),
{
    lemma_stream_siblings(counting(), calls, nodes);
    lemma_deliver_counts(nodes, calls);
}

proof fn lemma_deliver_counts(nodes: Seq<(u8, Seq<u8>)>, calls: nat)
    requires
        nodes.len() >= 1,
    ensures
        deliver(counting(), calls, nodes) == Ok::<(nat, Seq<u8>), DecodeError>(
            (calls + nodes.len(), Seq::empty()),
        ),
    decreases nodes.len(),
{
    if nodes.len() > 1 {
        lemma_deliver_counts(nodes.skip(1), calls + 1);
    }
}

} // verus!
