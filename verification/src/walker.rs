//! Structural walker: consumes the flat event stream one event at a time,
//! reconstructs the node hierarchy with an explicit open-node stack, and
//! allocates every decoded attribute a global, strictly monotonic index in
//! the attribute store.
use vstd::prelude::*;
use crate::attribute::{decodes_to, Attribute, AttributeLoader, RawAttr};
use crate::diag::{CauseView, StreamError};
use crate::store::AttributeStore;

verus! {

/// One record of the reconstructed tree: a node name, the index of the
/// parent record (the node open on the stack when this one started), and
/// the attribute range `[attr_start, attr_start + count)` in the store.
/// Sentinel records (header, footer) carry no attribute count.
#[derive(Debug)]
pub struct FbxNode {
    /// Name of the node.
    pub name: String,
    /// Index of the parent record, when the node has one.
    pub parent: Option<usize>,
    /// Number of attributes, `None` for the header/footer sentinels.
    pub attr_count: Option<usize>,
    /// Index of the node's first attribute in the store.
    pub attr_start: usize,
}

/// State of the walk.
#[derive(Clone, Copy, Debug, PartialEq, Eq, Structural)]
pub enum WalkPhase {
    /// No event consumed yet; the header sentinel is still owed.
    AwaitingHeader,
    /// Events are being consumed.
    Walking,
    /// The walk ended, successfully or with the terminal error; no further
    /// event may be consumed.
    Finished,
}

/// One event of the external tokenizer, with every attribute payload
/// already classified, or the fault that its decoding hit.
#[derive(Debug)]
pub enum FbxEvent {
    /// A node opens: its name, and the outcome of draining each of its
    /// attributes from the attribute source, in order.
    StartNode {
        /// Name of the node.
        name: String,
        /// One entry per attribute: the classified payload, or the decode
        /// fault that aborts the walk.
        attrs: Vec<Result<RawAttr, StreamError>>,
    },
    /// The innermost open node closes.
    EndNode,
    /// The stream ends, successfully or with a terminal tokenizer error.
    EndStream {
        /// Terminal error carried by the stream end, if any.
        error: Option<StreamError>,
    },
}

/// Number of attributes a node record claims: zero for sentinels.
pub open spec fn count_of(n: FbxNode) -> nat {
    match n.attr_count {
        Some(c) => c as nat,
        None => 0,
    }
}

/// Sum of the attribute counts of the first `i` node records.
pub open spec fn prefix_attr_sum(nodes: Seq<FbxNode>, i: int) -> nat
    decreases i,
{
    if i <= 0 {
        0
    } else {
        prefix_attr_sum(nodes, i - 1) + count_of(nodes[i - 1])
    }
}

/// A sentinel record: the given name, no parent, no attribute count, start
/// index zero.
pub open spec fn is_sentinel(n: FbxNode, name: Seq<char>) -> bool {
    n.name@ == name && n.parent is None && n.attr_count is None && n.attr_start == 0
}

/// Name of the header sentinel.
pub open spec fn header_name() -> Seq<char> {
    "(FBX header)"@
}

/// Name of the footer sentinel.
pub open spec fn footer_name() -> Seq<char> {
    "(FBX footer)"@
}

/// Message of the structural error raised by a node end with no open node.
pub open spec fn end_node_error_text() -> Seq<char> {
    "end of node event with no open node"@
}

/// True when every attribute of the event decoded successfully.
pub open spec fn all_ok(attrs: Seq<Result<RawAttr, StreamError>>) -> bool {
    forall|k: int| 0 <= k < attrs.len() ==> attrs[k] is Ok
}

/// Index of the first failed attribute.
pub open spec fn first_err(attrs: Seq<Result<RawAttr, StreamError>>) -> int
    decreases attrs.len(),
{
    if attrs.len() == 0 {
        0
    } else if attrs[0] is Err {
        0
    } else {
        1 + first_err(attrs.drop_first())
    }
}

proof fn lemma_first_err_at(attrs: Seq<Result<RawAttr, StreamError>>, k: int)
    requires
        0 <= k < attrs.len(),
        attrs[k] is Err,
        forall|j: int| 0 <= j < k ==> attrs[j] is Ok,
    ensures
        first_err(attrs) == k,
    decreases k,
{
    if k > 0 {
        let rest = attrs.drop_first();
        assert forall|j: int| 0 <= j < k - 1 implies rest[j] is Ok by {
            assert(rest[j] == attrs[j + 1]);
        }
        assert(rest[k - 1] == attrs[k]);
        lemma_first_err_at(rest, k - 1);
    }
}

proof fn lemma_prefix_sum_push(nodes: Seq<FbxNode>, x: FbxNode, i: int)
    requires
        0 <= i <= nodes.len(),
    ensures
        prefix_attr_sum(nodes.push(x), i) == prefix_attr_sum(nodes, i),
    decreases i,
{
    if i > 0 {
        lemma_prefix_sum_push(nodes, x, i - 1);
        assert(nodes.push(x)[i - 1] == nodes[i - 1]);
    }
}

proof fn lemma_prefix_sum_monotonic(nodes: Seq<FbxNode>, i: int, j: int)
    requires
        0 <= i <= j <= nodes.len(),
    ensures
        prefix_attr_sum(nodes, i) <= prefix_attr_sum(nodes, j),
    decreases j - i,
{
    if i < j {
        lemma_prefix_sum_monotonic(nodes, i, j - 1);
    }
}

/// Label of the header sentinel.
fn header_label() -> (r: String)
    ensures
        r@ == header_name(),
{
    "(FBX header)".to_owned()
}

/// Label of the footer sentinel.
fn footer_label() -> (r: String)
    ensures
        r@ == footer_name(),
{
    "(FBX footer)".to_owned()
}

/// The walker. It owns the growing node arena, the open-node stack and the
/// attribute store of one decode.
#[derive(Debug)]
pub struct StructuralWalker {
    phase: WalkPhase,
    nodes: Vec<FbxNode>,
    open: Vec<usize>,
    store: AttributeStore,
}

impl StructuralWalker {
    /// Current phase of the walk.
    pub closed spec fn phase_of(self) -> WalkPhase {
        self.phase
    }

    /// Node records appended so far, in append order.
    pub closed spec fn nodes_of(self) -> Seq<FbxNode> {
        self.nodes@
    }

    /// Open-node stack, as indices into the node records, innermost last.
    pub closed spec fn open_of(self) -> Seq<usize> {
        self.open@
    }

    /// Attributes decoded so far, in global stream order.
    pub closed spec fn store_of(self) -> Seq<Attribute> {
        self.store@
    }

    /// Well-formedness: every node record with an attribute count starts
    /// exactly at the sum of the counts before it, the counts sum to the
    /// store length, the open stack points into the node records, and every
    /// parent link points backwards.
    pub open spec fn wf(self) -> bool {
        &&& forall|i: int|
            0 <= i < self.nodes_of().len() && (#[trigger] self.nodes_of()[i]).attr_count is Some
                ==> self.nodes_of()[i].attr_start == prefix_attr_sum(self.nodes_of(), i)
        &&& prefix_attr_sum(self.nodes_of(), self.nodes_of().len() as int)
            == self.store_of().len()
        &&& forall|i: int|
            0 <= i < self.open_of().len() ==> (#[trigger] self.open_of()[i])
                < self.nodes_of().len()
        &&& forall|i: int|
            0 <= i < self.nodes_of().len() && (#[trigger] self.nodes_of()[i]).parent is Some
                ==> self.nodes_of()[i].parent->0 < i
    }

    /// Creates a walker for one fresh decode.
    pub fn new() -> (w: Self)
        ensures
            w.wf(),
            w.phase_of() is AwaitingHeader,
            w.nodes_of().len() == 0,
            w.open_of().len() == 0,
            w.store_of().len() == 0,
    {
        StructuralWalker {
            phase: WalkPhase::AwaitingHeader,
            nodes: Vec::new(),
            open: Vec::new(),
            store: AttributeStore::new(),
        }
    }

    /// Borrows the node records.
    pub fn nodes(&self) -> (r: &Vec<FbxNode>)
        ensures
            r@ == self.nodes_of(),
    {
        &self.nodes
    }

    /// Borrows the attribute store.
    pub fn store(&self) -> (r: &AttributeStore)
        ensures
            r@ == self.store_of(),
    {
        &self.store
    }

    /// Depth of the open-node stack.
    pub fn open_depth(&self) -> (n: usize)
        ensures
            n == self.open_of().len(),
    {
        self.open.len()
    }

    /// Current phase of the walk.
    pub fn phase(&self) -> (p: WalkPhase)
        ensures
            p == self.phase_of(),
    {
        self.phase
    }

    /// True once the walk ended and no further event may be consumed.
    pub fn is_finished(&self) -> (b: bool)
        ensures
            b == (self.phase_of() is Finished),
    {
        self.phase == WalkPhase::Finished
    }

    /// Consumes one event.
    ///
    /// The header sentinel is appended once, before the first event takes
    /// effect. A node start drains its whole attribute source: on success
    /// the decoded attributes are committed to the store in order and the
    /// node record is appended with their contiguous range; the first
    /// decode fault aborts the walk with that fault, committing nothing of
    /// the failing node. A node end pops the open-node stack and is a
    /// structural error when no node is open. The stream end appends the
    /// footer sentinel, finishes the walk, and passes a terminal tokenizer
    /// error through.
    pub fn step(&mut self, event: FbxEvent) -> (r: Result<(), StreamError>)
        requires
            old(self).wf(),
            !(old(self).phase_of() is Finished),
        ensures
            final(self).wf(),
            final(self).nodes_of().subrange(0, old(self).nodes_of().len() as int) == old(
                self,
            ).nodes_of(),
            ({
                let h: int = if old(self).phase_of() is AwaitingHeader {
                    1
                } else {
                    0
                };
                let pre_len = old(self).nodes_of().len() as int;
                &&& (h == 1 ==> final(self).nodes_of().len() > pre_len && is_sentinel(
                    final(self).nodes_of()[pre_len],
                    header_name(),
                ))
                &&& match event {
                    FbxEvent::StartNode { name, attrs } => if all_ok(attrs@) {
                        &&& r is Ok
                        &&& final(self).phase_of() is Walking
                        &&& final(self).nodes_of().len() == pre_len + h + 1
                        &&& final(self).nodes_of().last().name@ == name@
                        &&& final(self).nodes_of().last().parent == (if old(
                            self,
                        ).open_of().len() == 0 {
                            Option::<usize>::None
                        } else {
                            Option::Some(old(self).open_of().last())
                        })
                        &&& final(self).nodes_of().last().attr_count == Option::Some(
                            attrs@.len() as usize,
                        )
                        &&& final(self).nodes_of().last().attr_start == old(
                            self,
                        ).store_of().len()
                        &&& final(self).open_of() == old(self).open_of().push(
                            (pre_len + h) as usize,
                        )
                        &&& final(self).store_of().len() == old(self).store_of().len()
                            + attrs@.len()
                        &&& final(self).store_of().subrange(
                            0,
                            old(self).store_of().len() as int,
                        ) == old(self).store_of()
                        &&& forall|k: int|
                            0 <= k < attrs@.len() ==> decodes_to(
                                attrs@[k]->Ok_0,
                                #[trigger] final(self).store_of()[old(self).store_of().len() + k],
                            )
                    } else {
                        &&& r is Err
                        &&& r->Err_0@ == attrs@[first_err(attrs@)]->Err_0@
                        &&& final(self).phase_of() is Finished
                        &&& final(self).nodes_of().len() == pre_len + h
                        &&& final(self).open_of() == old(self).open_of()
                        &&& final(self).store_of() == old(self).store_of()
                    },
                    FbxEvent::EndNode => if old(self).open_of().len() > 0 {
                        &&& r is Ok
                        &&& final(self).phase_of() is Walking
                        &&& final(self).open_of() == old(self).open_of().drop_last()
                        &&& final(self).nodes_of().len() == pre_len + h
                        &&& final(self).store_of() == old(self).store_of()
                    } else {
                        &&& r is Err
                        &&& r->Err_0@ == seq![
                            CauseView { message: end_node_error_text(), position: None },
                        ]
                        &&& final(self).phase_of() is Finished
                        &&& final(self).nodes_of().len() == pre_len + h
                        &&& final(self).open_of() == old(self).open_of()
                        &&& final(self).store_of() == old(self).store_of()
                    },
                    FbxEvent::EndStream { error } => {
                        &&& final(self).phase_of() is Finished
                        &&& final(self).nodes_of().len() == pre_len + h + 1
                        &&& is_sentinel(final(self).nodes_of().last(), footer_name())
                        &&& final(self).open_of() == old(self).open_of()
                        &&& final(self).store_of() == old(self).store_of()
                        &&& match error {
                            Option::Some(e) => r is Err && r->Err_0@ == e@,
                            Option::None => r is Ok,
                        }
                    },
                }
            }),
    {
        let ghost pre_len: int = self.nodes@.len() as int;
        if self.phase == WalkPhase::AwaitingHeader {
            let ghost before: Seq<FbxNode> = self.nodes@;
            self.nodes.push(
                FbxNode { name: header_label(), parent: None, attr_count: None, attr_start: 0 },
            );
            self.phase = WalkPhase::Walking;
            proof {
                assert forall|i: int|
                    0 <= i <= before.len() implies prefix_attr_sum(self.nodes@, i)
                    == prefix_attr_sum(before, i) by {
                    lemma_prefix_sum_push(before, self.nodes@.last(), i);
                }
                assert(count_of(self.nodes@.last()) == 0);
                assert(prefix_attr_sum(self.nodes@, self.nodes@.len() as int)
                    == prefix_attr_sum(before, before.len() as int));
                assert(self.wf());
            }
        }
        let ghost base_nodes: Seq<FbxNode> = self.nodes@;
        let ghost base_store: Seq<Attribute> = self.store@;
        match event {
            FbxEvent::StartNode { name, attrs } => {
                let ghost all: Seq<Result<RawAttr, StreamError>> = attrs@;
                let decoded = match decode_attrs(attrs) {
                    Ok(ds) => ds,
                    Err(fault) => {
                        self.phase = WalkPhase::Finished;
                        proof {
                            assert(self.nodes@.subrange(0, pre_len) =~= old(self).nodes@);
                        }
                        return Err(fault);
                    },
                };
                let start = self.store.len();
                let count = decoded.len();
                self.store.append_all(decoded);
                let parent: Option<usize> = if self.open.len() == 0 {
                    None
                } else {
                    Some(self.open[self.open.len() - 1])
                };
                let ix = self.nodes.len();
                self.nodes.push(
                    FbxNode { name, parent, attr_count: Some(count), attr_start: start },
                );
                self.open.push(ix);
                proof {
                    assert forall|i: int|
                        0 <= i <= base_nodes.len() implies prefix_attr_sum(self.nodes@, i)
                        == prefix_attr_sum(base_nodes, i) by {
                        lemma_prefix_sum_push(base_nodes, self.nodes@.last(), i);
                    }
                    assert(prefix_attr_sum(self.nodes@, self.nodes@.len() as int)
                        == prefix_attr_sum(base_nodes, base_nodes.len() as int) + count);
                    assert(self.store@.subrange(0, base_store.len() as int) =~= base_store);
                    assert forall|k: int|
                        0 <= k < all.len() implies decodes_to(
                            all[k]->Ok_0,
                            #[trigger] self.store@[base_store.len() + k],
                        ) by {
                        assert(self.store@[base_store.len() + k] == self.store@.skip(
                            base_store.len() as int,
                        )[k]);
                    }
                    assert(self.wf());
                    assert(self.nodes@.subrange(0, pre_len) =~= old(self).nodes@);
                }
                Ok(())
            },
            FbxEvent::EndNode => {
                if self.open.len() > 0 {
                    self.open.pop();
                    proof {
                        assert(self.nodes@.subrange(0, pre_len) =~= old(self).nodes@);
                        assert(self.wf());
                    }
                    Ok(())
                } else {
                    self.phase = WalkPhase::Finished;
                    let fault = StreamError::new(end_node_message(), None);
                    proof {
                        assert(self.nodes@.subrange(0, pre_len) =~= old(self).nodes@);
                    }
                    Err(fault)
                }
            },
            FbxEvent::EndStream { error } => {
                self.nodes.push(
                    FbxNode {
                        name: footer_label(),
                        parent: None,
                        attr_count: None,
                        attr_start: 0,
                    },
                );
                self.phase = WalkPhase::Finished;
                proof {
                    assert forall|i: int|
                        0 <= i <= base_nodes.len() implies prefix_attr_sum(self.nodes@, i)
                        == prefix_attr_sum(base_nodes, i) by {
                        lemma_prefix_sum_push(base_nodes, self.nodes@.last(), i);
                    }
                    assert(count_of(self.nodes@.last()) == 0);
                    assert(prefix_attr_sum(self.nodes@, self.nodes@.len() as int)
                        == prefix_attr_sum(base_nodes, base_nodes.len() as int));
                    assert(self.wf());
                    assert(self.nodes@.subrange(0, pre_len) =~= old(self).nodes@);
                }
                match error {
                    Some(e) => Err(e),
                    None => Ok(()),
                }
            },
        }
    }
}

/// Drains one node's attribute source to completion: decodes every
/// successfully yielded payload in order, and stops at the first decode
/// fault, which aborts the whole node.
#[verifier::loop_isolation(false)]
fn decode_attrs(attrs: Vec<Result<RawAttr, StreamError>>) -> (r: Result<
    Vec<Attribute>,
    StreamError,
>)
    ensures
        match r {
            Ok(ds) => all_ok(attrs@) && ds@.len() == attrs@.len() && forall|k: int|
                0 <= k < attrs@.len() ==> decodes_to(attrs@[k]->Ok_0, #[trigger] ds@[k]),
            Err(e) => !all_ok(attrs@) && e@ == attrs@[first_err(attrs@)]->Err_0@,
        },
{
    let ghost all: Seq<Result<RawAttr, StreamError>> = attrs@;
    let loader = AttributeLoader;
    let mut rest = attrs;
    let mut decoded: Vec<Attribute> = Vec::new();
    while rest.len() > 0
        invariant
            decoded@.len() + rest@.len() == all.len(),
            rest@ == all.skip(decoded@.len() as int),
            forall|k: int| 0 <= k < decoded@.len() ==> (#[trigger] all[k]) is Ok,
            forall|k: int|
                0 <= k < decoded@.len() ==> decodes_to(all[k]->Ok_0, #[trigger] decoded@[k]),
        decreases rest@.len(),
    {
        let ghost done: int = decoded@.len() as int;
        let item = rest.remove(0);
        proof {
            assert(item == all[done]);
            assert(rest@ =~= all.skip(done + 1));
        }
        match item {
            Ok(raw) => {
                let a = loader.load(raw);
                decoded.push(a);
            },
            Err(fault) => {
                proof {
                    assert(all[done] is Err);
                    assert(!all_ok(all));
                    lemma_first_err_at(all, done);
                    assert(fault == all[done]->Err_0);
                }
                return Err(fault);
            },
        }
    }
    Ok(decoded)
}

/// True when store index `k` falls inside the attribute range of some node
/// record.
pub open spec fn covered_by_some_node(nodes: Seq<FbxNode>, k: int) -> bool {
    exists|i: int|
        0 <= i < nodes.len() && (#[trigger] nodes[i]).attr_count is Some && nodes[i].attr_start
            <= k < nodes[i].attr_start + count_of(nodes[i])
}

proof fn lemma_coverage_upto(nodes: Seq<FbxNode>, m: int, k: int)
    requires
        forall|i: int|
            0 <= i < nodes.len() && (#[trigger] nodes[i]).attr_count is Some ==> nodes[i].attr_start
                == prefix_attr_sum(nodes, i),
        0 <= m <= nodes.len(),
        0 <= k < prefix_attr_sum(nodes, m),
    ensures
        exists|i: int|
            0 <= i < m && (#[trigger] nodes[i]).attr_count is Some && nodes[i].attr_start <= k
                < nodes[i].attr_start + count_of(nodes[i]),
    decreases m,
{
    if k < prefix_attr_sum(nodes, m - 1) {
        lemma_coverage_upto(nodes, m - 1, k);
    } else {
        assert(count_of(nodes[m - 1]) > 0);
        assert(nodes[m - 1].attr_count is Some);
        assert(nodes[m - 1].attr_start == prefix_attr_sum(nodes, m - 1));
        assert(0 <= m - 1 < m && nodes[m - 1].attr_count is Some && nodes[m - 1].attr_start <= k
            < nodes[m - 1].attr_start + count_of(nodes[m - 1]));
    }
}

/// Law: in every well-formed walker state — so in every state a decode can
/// reach — the attribute ranges `[attr_start, attr_start + count)` of the
/// node records are pairwise disjoint (in record order they even lie one
/// after the other), they all lie inside the store, and together they cover
/// every store index: each decoded attribute belongs to exactly one node.
pub proof fn lemma_monotonic_ranges(w: StructuralWalker)
    requires
        w.wf(),
    ensures
        forall|i: int, j: int|
            0 <= i < j < w.nodes_of().len() && (#[trigger] w.nodes_of()[i]).attr_count is Some && (
            #[trigger] w.nodes_of()[j]).attr_count is Some ==> w.nodes_of()[i].attr_start
                + count_of(w.nodes_of()[i]) <= w.nodes_of()[j].attr_start,
        forall|i: int|
            0 <= i < w.nodes_of().len() && (#[trigger] w.nodes_of()[i]).attr_count is Some
                ==> w.nodes_of()[i].attr_start + count_of(w.nodes_of()[i])
                <= w.store_of().len(),
        forall|k: int|
            0 <= k < w.store_of().len() ==> #[trigger] covered_by_some_node(w.nodes_of(), k),
{
    let nodes = w.nodes_of();
    let n = nodes.len() as int;
    assert forall|i: int, j: int|
        0 <= i < j < n && (#[trigger] nodes[i]).attr_count is Some && (
        #[trigger] nodes[j]).attr_count is Some implies nodes[i].attr_start + count_of(nodes[i])
        <= nodes[j].attr_start by {
        assert(prefix_attr_sum(nodes, i + 1) == prefix_attr_sum(nodes, i) + count_of(nodes[i]));
        lemma_prefix_sum_monotonic(nodes, i + 1, j);
    }
    assert forall|i: int|
        0 <= i < n && (#[trigger] nodes[i]).attr_count is Some implies nodes[i].attr_start
        + count_of(nodes[i]) <= w.store_of().len() by {
        assert(prefix_attr_sum(nodes, i + 1) == prefix_attr_sum(nodes, i) + count_of(nodes[i]));
        lemma_prefix_sum_monotonic(nodes, i + 1, n);
    }
    assert forall|k: int|
        0 <= k < w.store_of().len() implies #[trigger] covered_by_some_node(nodes, k) by {
        lemma_coverage_upto(nodes, n, k);
    }
}

/// Message of the structural error raised by a node end with no open node.
fn end_node_message() -> (r: String)
    ensures
        r@ == end_node_error_text(),
{
    "end of node event with no open node".to_owned()
}

} // verus!
