//! The mathematical model of the tree: what each node is, stripped of how
//! it is stored. The contracts of the executable nodes speak of these values.

use crate::ast::AstNodeKind;
use crate::ids::all_open;
use vstd::prelude::*;

verus! {

/// What a bracket token is.
pub struct BracketView {
    pub length: nat,
    pub bracket_type: char,
    pub position: nat,
    pub metadata: Option<Seq<char>>,
}

/// What an unmatched closing bracket is.
pub struct InvalidBracketView {
    pub length: nat,
    pub bracket_type: char,
    pub position: nat,
    pub expected_bracket_type: Option<char>,
    pub metadata: Option<Seq<char>>,
}

/// What a run of text is.
pub struct TextView {
    pub length: nat,
    pub text: Seq<char>,
}

/// What a bracket pair is.
pub struct PairView {
    pub length: nat,
    pub opening_bracket: BracketView,
    pub child: Option<Box<NodeView>>,
    pub closing_bracket: Option<BracketView>,
    pub missing_opening_bracket_ids: Seq<usize>,
}

/// What a list of siblings is.
pub struct ListView {
    pub length: nat,
    pub list_height: nat,
    pub missing_opening_bracket_ids: Seq<usize>,
    pub children: Seq<NodeView>,
}

/// What a node is.
pub enum NodeView {
    Pair(PairView),
    List(ListView),
    Bracket(BracketView),
    InvalidBracket(InvalidBracketView),
    Text(TextView),
}

/// The sum of the lengths of `nodes`.
pub open spec fn total_length(nodes: Seq<NodeView>) -> nat
    decreases nodes.len(),
{
    if nodes.len() == 0 {
        0
    } else {
        total_length(nodes.drop_last()) + nodes.last().length()
    }
}

/// The height that the balancing rule gives a list of `children`: 0 over
/// children that are no lists, `h + 1` over lists that all have height `h`.
/// Children of any other shape make no list.
pub open spec fn balanced_height(children: Seq<NodeView>) -> Option<nat> {
    if forall|i: int| #![trigger children[i]] 0 <= i < children.len() ==> !(children[i] is List) {
        Some(0)
    } else if forall|i: int|
        #![trigger children[i]]
        0 <= i < children.len() ==> children[i] is List && children[i].list_height()
            == children[0].list_height() {
        Some(children[0].list_height() + 1)
    } else {
        None
    }
}

/// The span of the list whose text decides the indentation of `node`, where
/// `node` starts at `offset`: that of a list is its own span, that of a pair
/// is the one of its interior, which starts behind the opening bracket, and
/// a leaf has none.
pub open spec fn scanned_span(node: NodeView, offset: nat) -> Option<(nat, nat)>
    decreases node,
{
    match node {
        NodeView::Pair(pair) => match pair.child {
            Some(child) => scanned_span(*child, offset + pair.opening_bracket.length),
            None => None,
        },
        NodeView::List(list) => Some((offset, offset + list.length)),
        _ => None,
    }
}

/// The pair that is built from its parts: it spans exactly them.
pub open spec fn pair_of(
    opening_bracket: BracketView,
    child: Option<NodeView>,
    closing_bracket: Option<BracketView>,
    missing_opening_bracket_ids: Seq<usize>,
) -> PairView {
    PairView {
        length: opening_bracket.length + match child {
            Some(child) => child.length(),
            None => 0,
        } + match closing_bracket {
            Some(bracket) => bracket.length,
            None => 0,
        },
        opening_bracket,
        child: match child {
            Some(child) => Some(Box::new(child)),
            None => None,
        },
        closing_bracket,
        missing_opening_bracket_ids,
    }
}

/// The list that is built from its children: it spans exactly them.
pub open spec fn list_of(
    children: Seq<NodeView>,
    list_height: nat,
    missing_opening_bracket_ids: Seq<usize>,
) -> ListView {
    ListView {
        length: total_length(children),
        list_height,
        missing_opening_bracket_ids,
        children,
    }
}

impl PairView {
    /// The children that are present, in document order.
    pub open spec fn children(self) -> Seq<NodeView> {
        seq![NodeView::Bracket(self.opening_bracket)] + match self.child {
            Some(child) => seq![*child],
            None => seq![],
        } + match self.closing_bracket {
            Some(bracket) => seq![NodeView::Bracket(bracket)],
            None => seq![],
        }
    }

    /// The child in slot `idx`: the opening bracket, the interior, the
    /// closing bracket.
    pub open spec fn get_child(self, idx: int) -> Option<NodeView> {
        if idx == 0 {
            Some(NodeView::Bracket(self.opening_bracket))
        } else if idx == 1 {
            match self.child {
                Some(child) => Some(*child),
                None => None,
            }
        } else if idx == 2 {
            match self.closing_bracket {
                Some(bracket) => Some(NodeView::Bracket(bracket)),
                None => None,
            }
        } else {
            None
        }
    }

    /// The length of the interior, 0 where there is none.
    pub open spec fn child_length(self) -> nat {
        match self.child {
            Some(child) => child.length(),
            None => 0,
        }
    }

    /// The length of the closing bracket, 0 where there is none.
    pub open spec fn closing_length(self) -> nat {
        match self.closing_bracket {
            Some(bracket) => bracket.length,
            None => 0,
        }
    }

    /// The pair spans its brackets and its interior, and nothing else, and
    /// the interior meets its own invariants, all the way down.
    pub open spec fn wf(self) -> bool
        decreases self,
    {
        &&& self.length == self.opening_bracket.length + self.child_length()
            + self.closing_length()
        &&& self.child matches Some(child) ==> child.wf()
    }
}

impl ListView {
    /// The child at `idx`, if there is one.
    pub open spec fn get_child(self, idx: int) -> Option<NodeView> {
        if 0 <= idx < self.children.len() {
            Some(self.children[idx])
        } else {
            None
        }
    }

    /// The list spans its children, its height is the one that the
    /// balancing rule gives them, and each child meets its own invariants,
    /// all the way down.
    pub open spec fn wf(self) -> bool
        decreases self,
    {
        &&& self.length == total_length(self.children)
        &&& balanced_height(self.children) == Some(self.list_height)
        &&& forall|i: int| 0 <= i < self.children.len() ==> (#[trigger] self.children[i]).wf()
    }
}

impl NodeView {
    pub open spec fn kind(self) -> AstNodeKind {
        match self {
            NodeView::Pair(_) => AstNodeKind::Pair,
            NodeView::List(_) => AstNodeKind::List,
            NodeView::Bracket(_) => AstNodeKind::Bracket,
            NodeView::InvalidBracket(_) => AstNodeKind::UnexpectedClosingBracket,
            NodeView::Text(_) => AstNodeKind::Text,
        }
    }

    /// The span of the node.
    pub open spec fn length(self) -> nat {
        match self {
            NodeView::Pair(pair) => pair.length,
            NodeView::List(list) => list.length,
            NodeView::Bracket(bracket) => bracket.length,
            NodeView::InvalidBracket(bracket) => bracket.length,
            NodeView::Text(text) => text.length,
        }
    }

    /// The balancing level: that of a list, 0 for every other node.
    pub open spec fn list_height(self) -> nat {
        match self {
            NodeView::List(list) => list.list_height,
            _ => 0,
        }
    }

    /// The ids of the openers that the node refers to and does not hold.
    pub open spec fn missing_opening_bracket_ids(self) -> Seq<usize> {
        match self {
            NodeView::Pair(pair) => pair.missing_opening_bracket_ids,
            NodeView::List(list) => list.missing_opening_bracket_ids,
            _ => Seq::empty(),
        }
    }

    /// The number of child slots: 3 for a pair, the number of children for
    /// a list, 0 for a leaf.
    pub open spec fn children_length(self) -> nat {
        match self {
            NodeView::Pair(_) => 3,
            NodeView::List(list) => list.children.len(),
            _ => 0,
        }
    }

    /// The child in slot `idx`, if the slot exists and is filled.
    pub open spec fn get_child(self, idx: int) -> Option<NodeView> {
        match self {
            NodeView::Pair(pair) => pair.get_child(idx),
            NodeView::List(list) => list.get_child(idx),
            _ => None,
        }
    }

    /// The children that are present, in document order.
    pub open spec fn children(self) -> Seq<NodeView> {
        match self {
            NodeView::Pair(pair) => pair.children(),
            NodeView::List(list) => list.children,
            _ => Seq::empty(),
        }
    }

    /// Whether the node is a pair or a list.
    pub open spec fn is_composite(self) -> bool {
        self is Pair || self is List
    }

    /// Whether the node may be spliced in where the ids `open` are open: it
    /// is a pair or a list, and every opener it misses is open there.
    pub open spec fn can_be_reused(self, open: Seq<usize>) -> bool {
        self.is_composite() && all_open(self.missing_opening_bracket_ids(), open)
    }

    /// The invariants of the node and of every node below it: those of
    /// the pairs and the lists.
    pub open spec fn wf(self) -> bool
        decreases self,
    {
        match self {
            NodeView::Pair(pair) => pair.wf(),
            NodeView::List(list) => list.wf(),
            _ => true,
        }
    }
}

/// A longer sequence of nodes spans as much as the shorter one and the
/// node that was added.
pub proof fn lemma_total_length_push(nodes: Seq<NodeView>, node: NodeView)
    ensures
        total_length(nodes.push(node)) == total_length(nodes) + node.length(),
{
    assert(nodes.push(node).drop_last() =~= nodes);
}

/// A prefix of a sequence of nodes spans no more than the sequence.
pub proof fn lemma_total_length_prefix(nodes: Seq<NodeView>, n: int)
    requires
        0 <= n <= nodes.len(),
    ensures
        total_length(nodes.take(n)) <= total_length(nodes),
    decreases nodes.len(),
{
    if n < nodes.len() {
        lemma_total_length_prefix(nodes.drop_last(), n);
        assert(nodes.drop_last().take(n) =~= nodes.take(n));
    } else {
        assert(nodes.take(n) =~= nodes);
    }
}

/// The present children of a pair span what its three slots span.
pub proof fn lemma_pair_children_length(pair: PairView)
    ensures
        total_length(pair.children()) == pair.opening_bracket.length + pair.child_length()
            + pair.closing_length(),
{
    let opening = seq![NodeView::Bracket(pair.opening_bracket)];
    assert(total_length(opening) == pair.opening_bracket.length) by {
        assert(opening =~= Seq::<NodeView>::empty().push(NodeView::Bracket(pair.opening_bracket)));
        lemma_total_length_push(Seq::empty(), NodeView::Bracket(pair.opening_bracket));
    }
    let with_child = match pair.child {
        Some(child) => opening.push(*child),
        None => opening,
    };
    if let Some(child) = pair.child {
        lemma_total_length_push(opening, *child);
    }
    assert(total_length(with_child) == pair.opening_bracket.length + pair.child_length());
    if let Some(bracket) = pair.closing_bracket {
        lemma_total_length_push(with_child, NodeView::Bracket(bracket));
        assert(pair.children() =~= with_child.push(NodeView::Bracket(bracket)));
    } else {
        assert(pair.children() =~= with_child);
    }
}

/// A child of a node that meets its invariants meets its own.
pub proof fn lemma_child_wf(node: NodeView, idx: int)
    requires
        node.wf(),
    ensures
        node.get_child(idx) matches Some(child) ==> child.wf(),
{
}

/// A span that is scanned under a node begins no earlier than the node.
pub proof fn lemma_scanned_span_bounds(node: NodeView, offset: nat)
    ensures
        scanned_span(node, offset) matches Some((start, end)) ==> offset <= start <= end,
    decreases node,
{
    if let NodeView::Pair(pair) = node {
        if let Some(child) = pair.child {
            lemma_scanned_span_bounds(*child, offset + pair.opening_bracket.length);
        }
    }
}

/// A pair or a list that meets its invariants spans exactly the sum of the
/// lengths of its present children.
pub proof fn lemma_length_additive(node: NodeView)
    requires
        node.wf(),
    ensures
        node.is_composite() ==> node.length() == total_length(node.children()),
{
    if let NodeView::Pair(pair) = node {
        lemma_pair_children_length(pair);
    }
}

/// A node that can be reused where `open` is open misses no opener outside
/// `open`; a node that misses one outside `open` cannot be reused there.
pub proof fn lemma_reuse_sound(node: NodeView, open: Seq<usize>)
    ensures
        node.can_be_reused(open) ==> forall|id: usize|
            node.missing_opening_bracket_ids().contains(id) ==> open.contains(id),
        (exists|id: usize| node.missing_opening_bracket_ids().contains(id) && !open.contains(id))
            ==> !node.can_be_reused(open),
{
}

/// A list that meets its invariants and holds no list has height 0; one
/// that holds lists of height `h`, and nothing else, has height `h + 1`.
pub proof fn lemma_list_height(list: ListView, h: nat)
    requires
        list.wf(),
    ensures
        (forall|i: int| 0 <= i < list.children.len() ==> !(#[trigger] list.children[i] is List))
            ==> list.list_height == 0,
        list.children.len() > 0 && (forall|i: int|
            0 <= i < list.children.len() ==> (#[trigger] list.children[i]) is List
                && list.children[i].list_height() == h) ==> list.list_height == h + 1,
{
    if list.children.len() > 0 && (forall|i: int|
        0 <= i < list.children.len() ==> (#[trigger] list.children[i]) is List
            && list.children[i].list_height() == h) {
        assert(list.children[0] is List);
    }
}

} // verus!
