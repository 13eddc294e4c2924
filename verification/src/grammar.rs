//! Grammars as data: the rules of a grammar stand in one table and refer to
//! one another by index.
//!
//! A rule refers only to rules that were added before it. The one exception
//! is the recursive reference: it is added unbound, may be referred to at
//! once, and is bound later to any rule of the table. This is how a grammar
//! comes to hold cycles.

use crate::tokens::{TokenType, TokenTypeView};
use crate::transform::Transform;
use vstd::prelude::*;

verus! {

/// What a list does with a separator that no item follows.
#[derive(Clone, Copy, Debug, PartialEq, Eq, Structural)]
pub enum Trail {
    /// A separator is always followed by another item.
    Never,
    /// The last item may be followed by a separator.
    Optional,
    /// Every item is followed by a separator, the last one too.
    Always,
}

/// The rules that a list is made of, and its policy.
#[derive(Clone, Copy, Debug, PartialEq, Eq, Structural)]
pub struct ListRule {
    /// Looks ahead to tell whether an item follows.
    pub item_pred: usize,
    pub item: usize,
    /// Looks ahead to tell whether a separator follows.
    pub delim_pred: usize,
    pub delim: usize,
    pub trail: Trail,
    /// Whether the list must hold at least one item.
    pub non_empty: bool,
}

/// A rule of a grammar.
#[derive(Debug, PartialEq)]
pub enum Node {
    /// Any identifier.
    GetIdent,
    /// Any literal.
    GetLiteral,
    /// Any punctuation character.
    GetParticle,
    /// Any punctuation character that directly follows the previous token.
    GetGluedParticle,
    /// This punctuation character, glued or not.
    Particle(char),
    /// One of these punctuation characters, glued or not.
    ParticleIn(Vec<char>),
    /// A token of exactly this kind.
    Token(TokenType),
    /// Nothing: succeeds without reading a token.
    Dummy,
    /// The steps in order, then the transform on their values. With a label
    /// the rule is named, and an error from inside it is marked with the
    /// label.
    Pattern { label: Option<String>, steps: Vec<usize>, transform: Transform },
    /// Succeeds, without reading a token, where the rule fails.
    Not(usize),
    /// The pattern, where the predicate matches ahead; nothing otherwise.
    Conditional { predicate: usize, pattern: usize },
    /// One rule where the condition matches ahead, another where it does
    /// not.
    BranchIfElse { condition: usize, taken: usize, otherwise: usize },
    /// The pattern of the first pair whose predicate matches ahead.
    Match(Vec<(usize, usize)>),
    /// Items with separators between them.
    List(ListRule),
    /// A reference to another rule, bound or not yet bound.
    RefLoop(Option<usize>),
}

pub ghost enum NodeView {
    GetIdent,
    GetLiteral,
    GetParticle,
    GetGluedParticle,
    Particle(char),
    ParticleIn(Seq<char>),
    Token(TokenTypeView),
    Dummy,
    Pattern { label: Option<Seq<char>>, steps: Seq<usize>, transform: Transform },
    Not(usize),
    Conditional { predicate: usize, pattern: usize },
    BranchIfElse { condition: usize, taken: usize, otherwise: usize },
    Match(Seq<(usize, usize)>),
    List(ListRule),
    RefLoop(Option<usize>),
}

/// The view of a label that may be absent.
pub open spec fn label_view(label: Option<String>) -> Option<Seq<char>> {
    match label {
        Some(text) => Some(text@),
        None => None,
    }
}

impl View for Node {
    type V = NodeView;

    open spec fn view(&self) -> NodeView {
        match self {
            Node::GetIdent => NodeView::GetIdent,
            Node::GetLiteral => NodeView::GetLiteral,
            Node::GetParticle => NodeView::GetParticle,
            Node::GetGluedParticle => NodeView::GetGluedParticle,
            Node::Particle(c) => NodeView::Particle(*c),
            Node::ParticleIn(set) => NodeView::ParticleIn(set@),
            Node::Token(tt) => NodeView::Token(tt@),
            Node::Dummy => NodeView::Dummy,
            Node::Pattern { label, steps, transform } => NodeView::Pattern {
                label: label_view(*label),
                steps: steps@,
                transform: *transform,
            },
            Node::Not(inner) => NodeView::Not(*inner),
            Node::Conditional { predicate, pattern } => NodeView::Conditional {
                predicate: *predicate,
                pattern: *pattern,
            },
            Node::BranchIfElse { condition, taken, otherwise } => NodeView::BranchIfElse {
                condition: *condition,
                taken: *taken,
                otherwise: *otherwise,
            },
            Node::Match(arms) => NodeView::Match(arms@),
            Node::List(list) => NodeView::List(*list),
            Node::RefLoop(target) => NodeView::RefLoop(*target),
        }
    }
}

/// Whether `node`, standing at index `id` of a table of `len` rules, refers
/// only to rules before it; a bound reference may refer to any rule of the
/// table.
pub open spec fn node_structured(node: NodeView, id: nat, len: nat) -> bool {
    match node {
        NodeView::Pattern { steps, .. } => forall|i: int|
            0 <= i < steps.len() ==> (#[trigger] steps[i]) < id,
        NodeView::Not(inner) => inner < id,
        NodeView::Conditional { predicate, pattern } => predicate < id && pattern < id,
        NodeView::BranchIfElse { condition, taken, otherwise } => condition < id && taken < id
            && otherwise < id,
        NodeView::Match(arms) => forall|i: int|
            0 <= i < arms.len() ==> (#[trigger] arms[i]).0 < id && arms[i].1 < id,
        NodeView::List(list) => list.item_pred < id && list.item < id && list.delim_pred < id
            && list.delim < id,
        NodeView::RefLoop(Some(target)) => target < len,
        _ => true,
    }
}

/// Whether every rule of the table refers only to rules before it, bound
/// references aside.
pub open spec fn structured(nodes: Seq<NodeView>) -> bool {
    forall|id: int|
        0 <= id < nodes.len() ==> node_structured(#[trigger] nodes[id], id as nat, nodes.len())
}

/// Whether every recursive reference of the table is bound.
pub open spec fn bound(nodes: Seq<NodeView>) -> bool {
    forall|id: int| 0 <= id < nodes.len() ==> #[trigger] nodes[id] != NodeView::RefLoop(None)
}

/// The views of a sequence of rules, one by one.
pub open spec fn node_views(nodes: Seq<Node>) -> Seq<NodeView> {
    Seq::new(nodes.len(), |i: int| nodes[i]@)
}

/// A table of rules.
pub struct Grammar {
    nodes: Vec<Node>,
}

impl View for Grammar {
    type V = Seq<NodeView>;

    closed spec fn view(&self) -> Seq<NodeView> {
        node_views(self.nodes@)
    }
}

impl Grammar {
    /// The empty table.
    pub fn new() -> (grammar: Grammar)
        ensures
            grammar@ == Seq::<NodeView>::empty(),
            structured(grammar@),
    {
        let nodes: Vec<Node> = Vec::new();
        assert(node_views(nodes@) =~= Seq::empty());
        Grammar { nodes }
    }

    /// The number of rules.
    pub fn len(&self) -> (n: usize)
        ensures
            n == self@.len(),
    {
        self.nodes.len()
    }

    /// The rule at index `id`.
    pub fn node(&self, id: usize) -> (node: &Node)
        requires
            id < self@.len(),
        ensures
            node@ == self@[id as int],
    {
        &self.nodes[id]
    }

    /// Whether every recursive reference is bound.
    pub fn is_bound(&self) -> (all: bool)
        ensures
            all == bound(self@),
    {
        let mut i: usize = 0;
        while i < self.nodes.len()
            invariant
                i <= self.nodes@.len(),
                forall|id: int| 0 <= id < i ==> #[trigger] self@[id] != NodeView::RefLoop(None),
            decreases self.nodes@.len() - i,
        {
            if let Node::RefLoop(None) = &self.nodes[i] {
                assert(self@[i as int] == NodeView::RefLoop(None));
                return false;
            }
            i += 1;
        }
        true
    }

    /// Adds `node` to the table and gives its index.
    pub fn add(&mut self, node: Node) -> (id: usize)
        requires
            structured(old(self)@),
            node_structured(node@, old(self)@.len(), old(self)@.len() + 1),
        ensures
            id == old(self)@.len(),
            final(self)@ == old(self)@.push(node@),
            structured(final(self)@),
    {
        let id = self.nodes.len();
        let ghost before = node_views(self.nodes@);
        self.nodes.push(node);
        proof {
            let after = node_views(self.nodes@);
            assert(after =~= before.push(node@));
            assert forall|k: int| 0 <= k < after.len() implies node_structured(
                #[trigger] after[k],
                k as nat,
                after.len(),
            ) by {
                if k < before.len() {
                    assert(node_structured(before[k], k as nat, before.len()));
                }
            }
        }
        id
    }

    /// Adds an unbound recursive reference and gives its index. Rules added
    /// later may refer to it; `finalize` binds it.
    pub fn create(&mut self) -> (handle: usize)
        requires
            structured(old(self)@),
        ensures
            handle == old(self)@.len(),
            final(self)@ == old(self)@.push(NodeView::RefLoop(None)),
            structured(final(self)@),
    {
        self.add(Node::RefLoop(None))
    }

    /// Binds the recursive reference `handle` to the rule `target`: from now
    /// on the reference does what `target` does.
    pub fn finalize(&mut self, handle: usize, target: usize)
        requires
            structured(old(self)@),
            handle < old(self)@.len(),
            target < old(self)@.len(),
            old(self)@[handle as int] == NodeView::RefLoop(None),
        ensures
            final(self)@ == old(self)@.update(handle as int, NodeView::RefLoop(Some(target))),
            structured(final(self)@),
    {
        let ghost before = node_views(self.nodes@);
        self.nodes.set(handle, Node::RefLoop(Some(target)));
        proof {
            let after = node_views(self.nodes@);
            assert(after =~= before.update(handle as int, NodeView::RefLoop(Some(target))));
            assert forall|k: int| 0 <= k < after.len() implies node_structured(
                #[trigger] after[k],
                k as nat,
                after.len(),
            ) by {
                if k != handle {
                    assert(node_structured(before[k], k as nat, before.len()));
                }
            }
        }
    }
}


/// Whether `after` is `before` with `node` added at its end, at the index
/// `id`.
pub open spec fn added(before: Seq<NodeView>, after: Seq<NodeView>, id: usize, node: NodeView)
    -> bool {
    &&& id == before.len()
    &&& after == before.push(node)
    &&& structured(after)
}

impl Grammar {
    /// Adds a named pattern: the steps in order, then the transform; an
    /// error from inside it is marked with `label`.
    pub fn named(&mut self, label: &str, steps: Vec<usize>, transform: Transform) -> (id: usize)
        requires
            structured(old(self)@),
            forall|i: int| 0 <= i < steps@.len() ==> (#[trigger] steps@[i]) < old(self)@.len(),
        ensures
            added(
                old(self)@,
                final(self)@,
                id,
                NodeView::Pattern { label: Some(label@), steps: steps@, transform },
            ),
    {
        self.add(Node::Pattern { label: Some(String::from_str(label)), steps, transform })
    }

    /// Adds a pattern without a name: the steps in order, then the
    /// transform.
    pub fn inline(&mut self, steps: Vec<usize>, transform: Transform) -> (id: usize)
        requires
            structured(old(self)@),
            forall|i: int| 0 <= i < steps@.len() ==> (#[trigger] steps@[i]) < old(self)@.len(),
        ensures
            added(
                old(self)@,
                final(self)@,
                id,
                NodeView::Pattern { label: None, steps: steps@, transform },
            ),
    {
        self.add(Node::Pattern { label: None, steps, transform })
    }

    /// Adds the rule that runs `pattern` where it matches ahead and yields
    /// nothing where it does not.
    pub fn maybe(&mut self, pattern: usize) -> (id: usize)
        requires
            structured(old(self)@),
            pattern < old(self)@.len(),
        ensures
            added(
                old(self)@,
                final(self)@,
                id,
                NodeView::Conditional { predicate: pattern, pattern },
            ),
    {
        self.add(Node::Conditional { predicate: pattern, pattern })
    }

    /// Adds a list of one or more items, each behind its predicate.
    pub fn non_empty_pred(
        &mut self,
        item_pred: usize,
        item: usize,
        delim_pred: usize,
        delim: usize,
        trail: Trail,
    ) -> (id: usize)
        requires
            structured(old(self)@),
            item_pred < old(self)@.len(),
            item < old(self)@.len(),
            delim_pred < old(self)@.len(),
            delim < old(self)@.len(),
        ensures
            added(
                old(self)@,
                final(self)@,
                id,
                NodeView::List(
                    ListRule { item_pred, item, delim_pred, delim, trail, non_empty: true },
                ),
            ),
    {
        self.add(
            Node::List(ListRule { item_pred, item, delim_pred, delim, trail, non_empty: true }),
        )
    }

    /// Adds a list of zero or more items, each behind its predicate.
    pub fn maybe_empty_pred(
        &mut self,
        item_pred: usize,
        item: usize,
        delim_pred: usize,
        delim: usize,
        trail: Trail,
    ) -> (id: usize)
        requires
            structured(old(self)@),
            item_pred < old(self)@.len(),
            item < old(self)@.len(),
            delim_pred < old(self)@.len(),
            delim < old(self)@.len(),
        ensures
            added(
                old(self)@,
                final(self)@,
                id,
                NodeView::List(
                    ListRule { item_pred, item, delim_pred, delim, trail, non_empty: false },
                ),
            ),
    {
        self.add(
            Node::List(ListRule { item_pred, item, delim_pred, delim, trail, non_empty: false }),
        )
    }

    /// Adds a list of one or more items, in which an item follows where the
    /// item rule matches ahead, and a separator where the separator rule
    /// does.
    pub fn non_empty(&mut self, item: usize, delim: usize, trail: Trail) -> (id: usize)
        requires
            structured(old(self)@),
            item < old(self)@.len(),
            delim < old(self)@.len(),
        ensures
            added(
                old(self)@,
                final(self)@,
                id,
                NodeView::List(
                    ListRule {
                        item_pred: item,
                        item,
                        delim_pred: delim,
                        delim,
                        trail,
                        non_empty: true,
                    },
                ),
            ),
    {
        self.non_empty_pred(item, item, delim, delim, trail)
    }

    /// Adds a list of zero or more items, in which an item follows where
    /// the item rule matches ahead, and a separator where the separator
    /// rule does.
    pub fn maybe_empty(&mut self, item: usize, delim: usize, trail: Trail) -> (id: usize)
        requires
            structured(old(self)@),
            item < old(self)@.len(),
            delim < old(self)@.len(),
        ensures
            added(
                old(self)@,
                final(self)@,
                id,
                NodeView::List(
                    ListRule {
                        item_pred: item,
                        item,
                        delim_pred: delim,
                        delim,
                        trail,
                        non_empty: false,
                    },
                ),
            ),
    {
        self.maybe_empty_pred(item, item, delim, delim, trail)
    }
}

} // verus!
