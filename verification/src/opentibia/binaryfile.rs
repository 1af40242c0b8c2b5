//! The escaped tree-node format that the item-type table and the map file share.
//!
//! A node is a start byte, a tag, and a body that ends with an end byte. In the body an
//! escape byte makes the byte behind it plain data, a start byte opens a child, and every
//! other byte is data. [`Node::deserialize`] builds the whole tree; [`streaming_parser`]
//! walks the same bytes as one flat run of tagged payloads and hands each to a handler.

use crate::helpers::{decoded_view, DecodeError, Parsed, Reader};
use vstd::prelude::*;
use vstd::slice::slice_to_vec;

verus! {

/// Makes the byte behind it plain data.
pub const ESCAPE: u8 = 0xFD;

/// Opens a node.
pub const START: u8 = 0xFE;

/// Closes a node.
pub const END: u8 = 0xFF;

/// A decoded node with the nodes below it.
#[derive(Debug)]
pub struct Node {
    pub kind: u8,
    pub data: Vec<u8>,
    pub children: Vec<Node>,
}

/// What a [`Node`] stands for.
pub struct NodeModel {
    pub kind: u8,
    pub data: Seq<u8>,
    pub children: Seq<NodeModel>,
}

/// The models of a sequence of nodes, in order.
pub open spec fn models(nodes: Seq<Node>) -> Seq<NodeModel>
    decreases nodes, 0int,
{
    if nodes.len() == 0 {
        Seq::empty()
    } else {
        models(nodes.drop_last()).push(nodes.last().view())
    }
}

impl View for Node {
    type V = NodeModel;

    open spec fn view(&self) -> NodeModel
        decreases self, 1int,
    {
        NodeModel { kind: self.kind, data: self.data@, children: models(self.children@) }
    }
}

/// `models` goes element by element.
pub proof fn lemma_models(nodes: Seq<Node>)
    ensures
        models(nodes).len() == nodes.len(),
        forall|i: int| 0 <= i < nodes.len() ==> (#[trigger] models(nodes)[i]) == nodes[i]@,
    decreases nodes.len(),
{
    reveal_with_fuel(models, 2);
    if nodes.len() > 0 {
        lemma_models(nodes.drop_last());
    }
}

/// A leaf with no data yet.
pub open spec fn bare(kind: u8) -> NodeModel {
    NodeModel { kind, data: Seq::empty(), children: Seq::empty() }
}

/// `n` with one more byte of data.
pub open spec fn with_byte(n: NodeModel, b: u8) -> NodeModel {
    NodeModel { kind: n.kind, data: n.data.push(b), children: n.children }
}

/// `n` with one more child.
pub open spec fn with_child(n: NodeModel, c: NodeModel) -> NodeModel {
    NodeModel { kind: n.kind, data: n.data, children: n.children.push(c) }
}

/// A node from its tag on: the tag byte, then the body.
pub open spec fn spec_tagged(s: Seq<u8>) -> Parsed<NodeModel>
    decreases s.len(), 1int,
{
    if s.len() == 0 {
        Err(DecodeError::UnexpectedEnd)
    } else {
        spec_body(s.skip(1), bare(s[0]))
    }
}

/// The rest of a body, given what the node holds so far.
pub open spec fn spec_body(s: Seq<u8>, acc: NodeModel) -> Parsed<NodeModel>
    decreases s.len(), 0int,
{
    if s.len() == 0 {
        Err(DecodeError::UnexpectedEnd)
    } else if s[0] == END {
        Ok((acc, s.skip(1)))
    } else if s[0] == START {
        match spec_tagged(s.skip(1)) {
            Ok((child, rest)) => if rest.len() < s.len() {
                spec_body(rest, with_child(acc, child))
            } else {
                // never taken: a node consumes at least its tag
                Err(DecodeError::MalformedStream)
            },
            Err(e) => Err(e),
        }
    } else if s[0] == ESCAPE {
        if s.len() < 2 {
            Err(DecodeError::UnexpectedEnd)
        } else {
            spec_body(s.skip(2), with_byte(acc, s[1]))
        }
    } else {
        spec_body(s.skip(1), with_byte(acc, s[0]))
    }
}

/// A whole node. With `skip_start` the caller has consumed the start byte already.
pub open spec fn spec_node(s: Seq<u8>, skip_start: bool) -> Parsed<NodeModel> {
    if skip_start {
        spec_tagged(s)
    } else if s.len() == 0 {
        Err(DecodeError::UnexpectedEnd)
    } else if s[0] != START {
        Err(DecodeError::MalformedStream)
    } else {
        spec_tagged(s.skip(1))
    }
}

/// A decoded node leaves fewer bytes than it was given.
pub proof fn lemma_node_consumes(s: Seq<u8>)
    ensures
        spec_tagged(s) matches Ok((_, rest)) ==> rest.len() < s.len(),
    decreases s.len(), 1int,
{
    if s.len() > 0 {
        lemma_body_consumes(s.skip(1), bare(s[0]));
    }
}

/// A decoded body leaves fewer bytes than it was given.
pub proof fn lemma_body_consumes(s: Seq<u8>, acc: NodeModel)
    ensures
        spec_body(s, acc) matches Ok((_, rest)) ==> rest.len() < s.len(),
    decreases s.len(), 0int,
{
    if s.len() == 0 || s[0] == END {
    } else if s[0] == START {
        lemma_node_consumes(s.skip(1));
        if let Ok((child, rest)) = spec_tagged(s.skip(1)) {
            lemma_body_consumes(rest, with_child(acc, child));
        }
    } else if s[0] == ESCAPE {
        if s.len() >= 2 {
            lemma_body_consumes(s.skip(2), with_byte(acc, s[1]));
        }
    } else {
        lemma_body_consumes(s.skip(1), with_byte(acc, s[0]));
    }
}

impl Node {
    /// Decodes one node and everything below it.
    pub fn deserialize(r: &mut Reader, skip_start: bool) -> (res: Result<Node, DecodeError>)
        ensures
            decoded_view(spec_node(old(r)@, skip_start), res, final(r)@),
        decreases old(r)@.len(),
    {
        if !skip_start {
            let first = r.read_byte()?;
            if first != START {
                return Err(DecodeError::MalformedStream);
            }
        }
        let ghost tagged = r@;
        let kind = r.read_byte()?;
        let mut data: Vec<u8> = Vec::new();
        let mut children: Vec<Node> = Vec::new();
        let ghost goal = spec_body(r@, bare(kind));
        loop
            invariant
                r@.len() < tagged.len(),
                tagged.len() <= old(r)@.len(),
                goal == spec_node(old(r)@, skip_start),
                spec_body(
                    r@,
                    NodeModel { kind, data: data@, children: models(children@) },
                ) == goal,
            decreases r@.len(),
        {
            let ghost before = r@;
            let ghost kids = children@;
            let b = match r.read_byte() {
                Ok(b) => b,
                Err(e) => {
                    return Err(e);
                },
            };
            if b == START {
                proof {
                    lemma_node_consumes(before.skip(1));
                }
                let child = match Node::deserialize(r, true) {
                    Ok(child) => child,
                    Err(e) => {
                        return Err(e);
                    },
                };
                children.push(child);
                proof {
                    assert(children@.drop_last() =~= kids);
                }
            } else if b == END {
                return Ok(Node { kind, data, children });
            } else if b == ESCAPE {
                let lit = match r.read_byte() {
                    Ok(lit) => lit,
                    Err(e) => {
                        return Err(e);
                    },
                };
                data.push(lit);
                proof {
                    assert(before.skip(1).skip(1) == before.skip(2));
                }
            } else {
                data.push(b);
            }
        }
    }
}

/// The payload between a tag and the next start byte, as the flat walk sees it.
pub struct Span {
    /// The payload with escapes resolved and end bytes dropped.
    pub data: Seq<u8>,
    /// The bytes behind the next start byte, `None` where the input ends first.
    pub next: Option<Seq<u8>>,
}

/// Collects payload bytes up to the next start byte or the end of the input. An escape byte
/// with nothing behind it is an error.
pub open spec fn spec_span(s: Seq<u8>, acc: Seq<u8>) -> Result<Span, DecodeError>
    decreases s.len(),
{
    if s.len() == 0 {
        Ok(Span { data: acc, next: None })
    } else if s[0] == START {
        Ok(Span { data: acc, next: Some(s.skip(1)) })
    } else if s[0] == END {
        spec_span(s.skip(1), acc)
    } else if s[0] == ESCAPE {
        if s.len() < 2 {
            Err(DecodeError::UnexpectedEnd)
        } else {
            spec_span(s.skip(2), acc.push(s[1]))
        }
    } else {
        spec_span(s.skip(1), acc.push(s[0]))
    }
}

/// What follows a span is shorter than what the span was read from.
pub proof fn lemma_span_consumes(s: Seq<u8>, acc: Seq<u8>)
    ensures
        spec_span(s, acc) matches Ok(span) ==> (span.next matches Some(rest) ==> rest.len()
            < s.len()),
    decreases s.len(),
{
    if s.len() == 0 || s[0] == START {
    } else if s[0] == END {
        lemma_span_consumes(s.skip(1), acc);
    } else if s[0] == ESCAPE {
        if s.len() >= 2 {
            lemma_span_consumes(s.skip(2), acc.push(s[1]));
        }
    } else {
        lemma_span_consumes(s.skip(1), acc.push(s[0]));
    }
}

/// Reads the payload of the current node into `data`, up to and including the next start
/// byte. Returns whether a start byte was found; `false` means that the input is exhausted.
pub fn read_payload(r: &mut Reader, data: &mut Vec<u8>) -> (res: Result<bool, DecodeError>)
    ensures
        match spec_span(old(r)@, old(data)@) {
            Ok(span) => res == Ok::<bool, DecodeError>(span.next is Some) && final(data)@
                == span.data && final(r)@ == (match span.next {
                Some(rest) => rest,
                None => Seq::empty(),
            }),
            Err(e) => res == Err::<bool, DecodeError>(e),
        },
{
    let ghost goal = spec_span(r@, data@);
    loop
        invariant
            spec_span(r@, data@) == goal,
            goal == spec_span(old(r)@, old(data)@),
        decreases r@.len(),
    {
        let ghost before = r@;
        let b = match r.read_byte() {
            Ok(b) => b,
            Err(_) => {
                return Ok(false);
            },
        };
        if b == START {
            return Ok(true);
        } else if b == END {
        } else if b == ESCAPE {
            let lit = r.read_byte()?;
            data.push(lit);
            assert(before.skip(1).skip(1) == before.skip(2));
        } else {
            data.push(b);
        }
    }
}

/// How a handler answers one node: its next state and whether to go on, or a failure.
pub type Step<V> = spec_fn(V, u8, Seq<u8>) -> Result<(V, bool), DecodeError>;

/// The flat walk from the payload of a node with tag `kind` on. Each payload goes to `step`
/// when the next start byte is seen; the last one goes when the input ends, and its answer
/// counts only where it is an error. The walk ends without error when `step` answers `false`,
/// leaving the bytes behind that start byte.
pub open spec fn stream_from<V>(step: Step<V>, v: V, kind: u8, s: Seq<u8>) -> Parsed<V>
    decreases s.len(),
{
    match spec_span(s, Seq::empty()) {
        Err(e) => Err(e),
        Ok(span) => match step(v, kind, span.data) {
            Err(e) => Err(e),
            Ok((v2, go)) => match span.next {
                None => Ok((v2, Seq::empty())),
                Some(rest) => if !go {
                    Ok((v2, rest))
                } else if rest.len() == 0 {
                    Err(DecodeError::UnexpectedEnd)
                } else {
                    proof {
                        lemma_span_consumes(s, Seq::empty());
                    }
                    stream_from(step, v2, rest[0], rest.skip(1))
                },
            },
        },
    }
}

/// The whole flat walk. With `skip_start` the caller has consumed the start byte already.
pub open spec fn spec_stream<V>(step: Step<V>, v: V, s: Seq<u8>, skip_start: bool) -> Parsed<V> {
    if skip_start {
        if s.len() == 0 {
            Err(DecodeError::UnexpectedEnd)
        } else {
            stream_from(step, v, s[0], s.skip(1))
        }
    } else if s.len() == 0 {
        Err(DecodeError::UnexpectedEnd)
    } else if s[0] != START {
        Err(DecodeError::MalformedStream)
    } else if s.len() == 1 {
        Err(DecodeError::UnexpectedEnd)
    } else {
        stream_from(step, v, s[1], s.skip(2))
    }
}

/// What every step of a handler keeps, the walk keeps: a predicate that holds of the state
/// before the walk, and after each step that is taken from a state of which it holds, holds
/// of the state in which the walk ends.
pub proof fn lemma_stream_keeps<V>(
    step: Step<V>,
    kept: spec_fn(V) -> bool,
    v: V,
    s: Seq<u8>,
    skip_start: bool,
)
    requires
        kept(v),
        forall|w: V, kind: u8, data: Seq<u8>|
            kept(w) ==> ((#[trigger] step(w, kind, data)) matches Ok((w2, _)) ==> kept(w2)),
    ensures
        spec_stream(step, v, s, skip_start) matches Ok((w, _)) ==> kept(w),
{
    if skip_start {
        if s.len() > 0 {
            lemma_stream_from_keeps(step, kept, v, s[0], s.skip(1));
        }
    } else if s.len() > 1 {
        lemma_stream_from_keeps(step, kept, v, s[1], s.skip(2));
    }
}

proof fn lemma_stream_from_keeps<V>(
    step: Step<V>,
    kept: spec_fn(V) -> bool,
    v: V,
    kind: u8,
    s: Seq<u8>,
)
    requires
        kept(v),
        forall|w: V, kind: u8, data: Seq<u8>|
            kept(w) ==> ((#[trigger] step(w, kind, data)) matches Ok((w2, _)) ==> kept(w2)),
    ensures
        stream_from(step, v, kind, s) matches Ok((w, _)) ==> kept(w),
    decreases s.len(),
{
    if let Ok(span) = spec_span(s, Seq::empty()) {
        if let Ok((v2, go)) = step(v, kind, span.data) {
            if let Some(rest) = span.next {
                if go && rest.len() > 0 {
                    lemma_span_consumes(s, Seq::empty());
                    lemma_stream_from_keeps(step, kept, v2, rest[0], rest.skip(1));
                }
            }
        }
    }
}

/// A walk ended as `want` says: in the state and at the place it names, or with its error.
pub open spec fn streamed<V>(
    want: Parsed<V>,
    got: Result<(), DecodeError>,
    state: V,
    after: Seq<u8>,
) -> bool {
    match want {
        Ok((v, rest)) => got is Ok && state == v && after == rest,
        Err(e) => got == Err::<(), DecodeError>(e),
    }
}

/// A handler answered as `want` says: with its answer and in its state, or with its error.
pub open spec fn handled<V>(
    want: Result<(V, bool), DecodeError>,
    got: Result<bool, DecodeError>,
    state: V,
) -> bool {
    match want {
        Ok((v, go)) => got == Ok::<bool, DecodeError>(go) && state == v,
        Err(e) => got == Err::<bool, DecodeError>(e),
    }
}

/// Receives the nodes that [`streaming_parser`] finds. What a handler does is stated over a
/// model of its state, so that a walk can be stated as a fold over the nodes.
pub trait NodeHandler {
    type V;

    spec fn model(&self) -> Self::V;

    /// The state after one node and the answer, `true` to go on and `false` to stop; or the
    /// failure that ends the walk.
    spec fn step(v: Self::V, kind: u8, data: Seq<u8>) -> Result<(Self::V, bool), DecodeError>;

    fn handle(&mut self, kind: u8, data: &[u8]) -> (r: Result<bool, DecodeError>)
        ensures
            handled(Self::step(old(self).model(), kind, data@), r, final(self).model()),
    ;
}

/// The step function of a handler type.
pub open spec fn handler_step<H: NodeHandler>() -> Step<H::V> {
    |v: H::V, kind: u8, data: Seq<u8>| H::step(v, kind, data)
}

/// Walks the nodes of `r` as one flat run and hands each tag and payload to `handler`, one
/// node behind: a node is handed over when the next one starts, the last one when the input
/// ends.
pub fn streaming_parser<H: NodeHandler>(r: &mut Reader, skip_start: bool, handler: &mut H) -> (res:
    Result<(), DecodeError>)
    ensures
        streamed(
            spec_stream(handler_step::<H>(), old(handler).model(), old(r)@, skip_start),
            res,
            final(handler).model(),
            final(r)@,
        ),
{
    if !skip_start {
        let first = r.read_byte()?;
        if first != START {
            return Err(DecodeError::MalformedStream);
        }
    }
    let mut kind = r.read_byte()?;
    let mut data: Vec<u8> = Vec::new();
    let ghost step = handler_step::<H>();
    let ghost goal = stream_from(step, handler.model(), kind, r@);
    assert(!skip_start ==> old(r)@.skip(1).skip(1) == old(r)@.skip(2));
    loop
        invariant
            step == handler_step::<H>(),
            stream_from(step, handler.model(), kind, r@) == goal,
            goal == spec_stream(step, old(handler).model(), old(r)@, skip_start),
        decreases r@.len(),
    {
        let ghost before = r@;
        data.clear();
        let more = read_payload(r, &mut data)?;
        proof {
            lemma_span_consumes(before, Seq::empty());
        }
        let go = handler.handle(kind, data.as_slice())?;
        if !more || !go {
            return Ok(());
        }
        kind = r.read_byte()?;
    }
}

/// A handler that keeps every node it is given, and stops at a chosen tag.
#[derive(Debug)]
pub struct NodeLog {
    /// Tag and payload of each node received, in order.
    pub nodes: Vec<(u8, Vec<u8>)>,
    /// The tag at which the handler answers `false`, if any.
    pub stop_at: Option<u8>,
}

impl NodeLog {
    /// A log without nodes that stops at `stop_at`.
    pub fn new(stop_at: Option<u8>) -> (log: NodeLog)
        ensures
            log.model() == (Seq::<(u8, Seq<u8>)>::empty(), stop_at),
    {
        let log = NodeLog { nodes: Vec::new(), stop_at };
        log
    }
}

impl NodeHandler for NodeLog {
    type V = (Seq<(u8, Seq<u8>)>, Option<u8>);

    open spec fn model(&self) -> (Seq<(u8, Seq<u8>)>, Option<u8>) {
        (Seq::new(self.nodes@.len(), |i: int| (self.nodes@[i].0, self.nodes@[i].1@)), self.stop_at)
    }

    open spec fn step(v: (Seq<(u8, Seq<u8>)>, Option<u8>), kind: u8, data: Seq<u8>) -> Result<
        ((Seq<(u8, Seq<u8>)>, Option<u8>), bool),
        DecodeError,
    > {
        Ok(((v.0.push((kind, data)), v.1), v.1 != Some(kind)))
    }

    fn handle(&mut self, kind: u8, data: &[u8]) -> (r: Result<bool, DecodeError>) {
        self.nodes.push((kind, slice_to_vec(data)));
        assert(self.model().0 =~= old(self).model().0.push((kind, data@)));
        match self.stop_at {
            Some(k) => Ok(k != kind),
            None => Ok(true),
        }
    }
}

} // verus!
