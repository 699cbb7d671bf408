//! The nodes of the bracket tree.

use crate::ids::{all_open, BracketIds};
use crate::indent::{min_indentation, min_indentation_of, TextModel};
use crate::model::{
    balanced_height, lemma_length_additive, lemma_pair_children_length,
    lemma_scanned_span_bounds, lemma_total_length_prefix, lemma_total_length_push, list_of,
    pair_of, scanned_span, total_length, BracketView, InvalidBracketView, ListView, NodeView,
    PairView, TextView,
};
use std::ops::Range;
use vstd::pervasive::unreached;
use vstd::prelude::*;

verus! {

/// The variant of a node.
#[derive(Clone, Copy, Debug, PartialEq, Eq, Structural)]
pub enum AstNodeKind {
    Text,
    Bracket,
    Pair,
    UnexpectedClosingBracket,
    List,
}

/// A bracket token.
#[derive(Debug)]
pub struct BracketAstNode {
    pub length: u64,
    pub bracket_type: char,
    pub position: usize,
    pub metadata: Option<String>,
}

/// A closing bracket that no open bracket matches.
#[derive(Debug)]
pub struct InvalidBracketAstNode {
    pub length: u64,
    pub bracket_type: char,
    pub position: usize,
    pub expected_bracket_type: Option<char>,
    pub metadata: Option<String>,
}

/// A run of text without brackets.
#[derive(Debug)]
pub struct TextAstNode {
    pub length: u64,
    pub text: String,
}

/// An opening bracket, the content behind it and the bracket that closes
/// it, as far as they are there. The pair spans exactly these parts.
///
/// The two brackets are stored as nodes, so that each child can be handed
/// out as a reference to a node; both are of the variant `Bracket`.
#[derive(Debug)]
pub struct PairAstNode {
    length: u64,
    opening_bracket: Box<AstNode>,
    child: Option<Box<AstNode>>,
    closing_bracket: Option<Box<AstNode>>,
    missing_opening_bracket_ids: BracketIds,
}

/// A run of siblings in document order. The list spans exactly its
/// children, and it is balanced: its children are either no lists, and its
/// height is 0, or lists of one height, and its height is theirs plus 1.
#[derive(Debug)]
pub struct ListAstNode {
    length: u64,
    list_height: usize,
    missing_opening_bracket_ids: BracketIds,
    children: Vec<Box<AstNode>>,
}

/// A node of the tree.
#[derive(Debug)]
pub enum AstNode {
    Pair(PairAstNode),
    List(ListAstNode),
    Bracket(BracketAstNode),
    InvalidBracket(InvalidBracketAstNode),
    Text(TextAstNode),
}

/// The view of optional metadata.
pub open spec fn metadata_view(metadata: Option<String>) -> Option<Seq<char>> {
    match metadata {
        Some(tag) => Some(tag@),
        None => None,
    }
}

impl View for BracketAstNode {
    type V = BracketView;

    open spec fn view(&self) -> BracketView {
        BracketView {
            length: self.length as nat,
            bracket_type: self.bracket_type,
            position: self.position as nat,
            metadata: metadata_view(self.metadata),
        }
    }
}

impl View for InvalidBracketAstNode {
    type V = InvalidBracketView;

    open spec fn view(&self) -> InvalidBracketView {
        InvalidBracketView {
            length: self.length as nat,
            bracket_type: self.bracket_type,
            position: self.position as nat,
            expected_bracket_type: self.expected_bracket_type,
            metadata: metadata_view(self.metadata),
        }
    }
}

impl View for TextAstNode {
    type V = TextView;

    open spec fn view(&self) -> TextView {
        TextView { length: self.length as nat, text: self.text@ }
    }
}

/// The bracket that a stored bracket node stands for.
spec fn stored_bracket(node: AstNode) -> BracketView {
    match node {
        AstNode::Bracket(bracket) => bracket@,
        _ => arbitrary(),
    }
}

impl AstNode {
    /// The node as a value of the model: each variant stands for the model
    /// of what it holds.
    pub open spec fn model(&self) -> NodeView
        decreases self,
    {
        match self {
            AstNode::Pair(pair) => NodeView::Pair(pair.model()),
            AstNode::List(list) => NodeView::List(list.model()),
            AstNode::Bracket(bracket) => NodeView::Bracket(bracket@),
            AstNode::InvalidBracket(bracket) => NodeView::InvalidBracket(bracket@),
            AstNode::Text(text) => NodeView::Text(text@),
        }
    }
}

impl PairAstNode {
    /// The pair as a value of the model.
    pub closed spec fn model(&self) -> PairView
        decreases self,
    {
        PairView {
            length: self.length as nat,
            opening_bracket: stored_bracket(*self.opening_bracket),
            child: match self.child {
                Some(child) => Some(Box::new(child.model())),
                None => None,
            },
            closing_bracket: match self.closing_bracket {
                Some(bracket) => Some(stored_bracket(*bracket)),
                None => None,
            },
            missing_opening_bracket_ids: self.missing_opening_bracket_ids@,
        }
    }
}

impl ListAstNode {
    /// The list as a value of the model.
    pub closed spec fn model(&self) -> ListView
        decreases self,
    {
        ListView {
            length: self.length as nat,
            list_height: self.list_height as nat,
            missing_opening_bracket_ids: self.missing_opening_bracket_ids@,
            children: Seq::new(
                self.children.len() as nat,
                |i: int|
                    if 0 <= i < self.children.len() {
                        self.children[i].model()
                    } else {
                        arbitrary()
                    },
            ),
        }
    }
}

impl View for AstNode {
    type V = NodeView;

    open spec fn view(&self) -> NodeView {
        self.model()
    }
}

impl View for PairAstNode {
    type V = PairView;

    open spec fn view(&self) -> PairView {
        self.model()
    }
}

impl View for ListAstNode {
    type V = ListView;

    open spec fn view(&self) -> ListView {
        self.model()
    }
}

/// The views of borrowed nodes.
pub open spec fn node_views(nodes: Seq<&AstNode>) -> Seq<NodeView> {
    Seq::new(nodes.len(), |i: int| nodes[i]@)
}

/// The views of owned children.
pub open spec fn child_views(children: Seq<Box<AstNode>>) -> Seq<NodeView> {
    Seq::new(children.len(), |i: int| children[i]@)
}

/// The view of a node that may be absent.
pub open spec fn option_view(node: Option<&AstNode>) -> Option<NodeView> {
    match node {
        Some(node) => Some(node@),
        None => None,
    }
}

/// The view of a bracket that may be absent.
pub open spec fn option_bracket_view(bracket: Option<BracketAstNode>) -> Option<BracketView> {
    match bracket {
        Some(bracket) => Some(bracket@),
        None => None,
    }
}

/// The view of an owned node that may be absent.
pub open spec fn owned_option_view(node: Option<AstNode>) -> Option<NodeView> {
    match node {
        Some(node) => Some(node@),
        None => None,
    }
}

/// Whether `answer` may be the least indentation under `node`, which starts
/// at `offset`: `usize::MAX` where no list is scanned, else the least
/// indentation of a text that `text_model` may return for the scanned span.
pub open spec fn is_min_indentation<T: TextModel>(
    node: NodeView,
    offset: nat,
    text_model: &T,
    answer: usize,
) -> bool {
    match scanned_span(node, offset) {
        Some((start, end)) => exists|text: &str|
            call_ensures(
                T::get_text_range,
                (text_model, Range { start: start as usize, end: end as usize }),
                text,
            ) && answer == min_indentation(text@),
        None => answer == usize::MAX,
    }
}

fn clone_metadata(metadata: &Option<String>) -> (copy: Option<String>)
    ensures
        copy == *metadata,
{
    match metadata {
        Some(tag) => Some(tag.clone()),
        None => None,
    }
}

impl Clone for BracketAstNode {
    fn clone(&self) -> (copy: BracketAstNode)
        ensures
            copy == *self,
    {
        BracketAstNode {
            length: self.length,
            bracket_type: self.bracket_type,
            position: self.position,
            metadata: clone_metadata(&self.metadata),
        }
    }
}

impl Clone for InvalidBracketAstNode {
    fn clone(&self) -> (copy: InvalidBracketAstNode)
        ensures
            copy == *self,
    {
        InvalidBracketAstNode {
            length: self.length,
            bracket_type: self.bracket_type,
            position: self.position,
            expected_bracket_type: self.expected_bracket_type,
            metadata: clone_metadata(&self.metadata),
        }
    }
}

impl Clone for TextAstNode {
    fn clone(&self) -> (copy: TextAstNode)
        ensures
            copy == *self,
    {
        TextAstNode { length: self.length, text: self.text.clone() }
    }
}

impl PairAstNode {
    #[verifier::type_invariant]
    spec fn inv(&self) -> bool {
        &&& *self.opening_bracket is Bracket
        &&& self.closing_bracket matches Some(bracket) ==> *bracket is Bracket
        &&& self@.wf()
    }

    /// Builds a pair from its opening bracket, its interior and its closing
    /// bracket, as far as they are there, and the ids of the openers that
    /// the interior misses. The pair spans its parts; where their lengths
    /// add up to more than a `u64` holds, no pair is built.
    pub fn new(
        opening_bracket: BracketAstNode,
        child: Option<AstNode>,
        closing_bracket: Option<BracketAstNode>,
        missing_opening_bracket_ids: BracketIds,
    ) -> (pair: Option<PairAstNode>)
        ensures
            pair is Some <==> pair_of(
                opening_bracket@,
                owned_option_view(child),
                option_bracket_view(closing_bracket),
                missing_opening_bracket_ids@,
            ).length <= u64::MAX,
            pair matches Some(pair) ==> pair@ == pair_of(
                opening_bracket@,
                owned_option_view(child),
                option_bracket_view(closing_bracket),
                missing_opening_bracket_ids@,
            ) && pair@.wf(),
    {
        let child_length: u64 = match &child {
            Some(child) => child.length(),
            None => 0,
        };
        let closing_length: u64 = match &closing_bracket {
            Some(closing_bracket) => closing_bracket.length,
            None => 0,
        };
        let inner_length: u64 = match opening_bracket.length.checked_add(child_length) {
            Some(length) => length,
            None => {
                return None;
            },
        };
        let length: u64 = match inner_length.checked_add(closing_length) {
            Some(length) => length,
            None => {
                return None;
            },
        };
        let child = match child {
            Some(child) => Some(Box::new(child)),
            None => None,
        };
        let closing_bracket = match closing_bracket {
            Some(closing_bracket) => Some(Box::new(AstNode::Bracket(closing_bracket))),
            None => None,
        };
        Some(
            PairAstNode {
                length,
                opening_bracket: Box::new(AstNode::Bracket(opening_bracket)),
                child,
                closing_bracket,
                missing_opening_bracket_ids,
            },
        )
    }

    /// The opening bracket.
    pub fn opening_bracket(&self) -> (bracket: &BracketAstNode)
        ensures
            bracket@ == self@.opening_bracket,
    {
        proof {
            use_type_invariant(self);
        }
        match &*self.opening_bracket {
            AstNode::Bracket(bracket) => bracket,
            _ => unreached(),
        }
    }

    /// The interior, where the pair has one.
    pub fn child(&self) -> (child: Option<&AstNode>)
        ensures
            option_view(child) == self@.get_child(1),
    {
        match &self.child {
            Some(child) => Some(&**child),
            None => None,
        }
    }

    /// The closing bracket, where the pair has one.
    pub fn closing_bracket(&self) -> (bracket: Option<&BracketAstNode>)
        ensures
            bracket matches Some(bracket) ==> self@.closing_bracket == Some(bracket@),
            bracket is None ==> self@.closing_bracket is None,
    {
        proof {
            use_type_invariant(self);
        }
        match &self.closing_bracket {
            Some(closing_bracket) => match &**closing_bracket {
                AstNode::Bracket(bracket) => Some(bracket),
                _ => unreached(),
            },
            None => None,
        }
    }

    /// The ids of the openers that the pair refers to and does not hold.
    pub fn missing_opening_bracket_ids(&self) -> (ids: &BracketIds)
        ensures
            ids@ == self@.missing_opening_bracket_ids,
    {
        &self.missing_opening_bracket_ids
    }

    /// The present children in document order: the opening bracket, the
    /// interior and the closing bracket, as far as they are there.
    pub fn children(&self) -> (children: Vec<&AstNode>)
        ensures
            node_views(children@) == self@.children(),
            self@.wf(),
    {
        proof {
            use_type_invariant(self);
        }
        let mut result: Vec<&AstNode> = Vec::new();
        result.push(&*self.opening_bracket);
        if let Some(child) = &self.child {
            result.push(&**child);
        }
        if let Some(closing_bracket) = &self.closing_bracket {
            result.push(&**closing_bracket);
        }
        assert(node_views(result@) =~= self@.children());
        result
    }

    /// The child in slot `idx`: 0 is the opening bracket, 1 the interior,
    /// 2 the closing bracket. An empty slot, and any other index, gives
    /// `None`.
    pub fn get_child(&self, idx: usize) -> (child: Option<&AstNode>)
        ensures
            option_view(child) == self@.get_child(idx as int),
            self@.wf(),
    {
        proof {
            use_type_invariant(self);
        }
        if idx == 0 {
            Some(&*self.opening_bracket)
        } else if idx == 1 {
            match &self.child {
                Some(child) => Some(&**child),
                None => None,
            }
        } else if idx == 2 {
            match &self.closing_bracket {
                Some(closing_bracket) => Some(&**closing_bracket),
                None => None,
            }
        } else {
            None
        }
    }

    /// A copy that shares nothing with `self`.
    pub fn deep_clone(&self) -> (copy: PairAstNode)
        ensures
            copy@ == self@,
        decreases self,
    {
        proof {
            use_type_invariant(self);
        }
        let child = match &self.child {
            Some(child) => Some(Box::new(child.deep_clone())),
            None => None,
        };
        let closing_bracket = match &self.closing_bracket {
            Some(closing_bracket) => Some(Box::new(closing_bracket.deep_clone())),
            None => None,
        };
        PairAstNode {
            length: self.length,
            opening_bracket: Box::new(self.opening_bracket.deep_clone()),
            child,
            closing_bracket,
            missing_opening_bracket_ids: self.missing_opening_bracket_ids.clone(),
        }
    }

    /// The least indentation among the lines under the interior, which
    /// starts behind the opening bracket; `usize::MAX` for a pair without
    /// interior. `offset` is where the pair starts in the document. The
    /// span that is scanned, if any, has to end within `usize`.
    pub fn compute_min_indentation<T: TextModel>(
        &self,
        offset: u64,
        text_model: &T,
    ) -> (indentation: usize)
        requires
            scanned_span(NodeView::Pair(self@), offset as nat) matches Some((_, end)) ==> end
                <= usize::MAX,
        ensures
            is_min_indentation(NodeView::Pair(self@), offset as nat, text_model, indentation),
        decreases self,
    {
        proof {
            use_type_invariant(self);
        }
        match &self.child {
            Some(child) => {
                let opening_length = self.opening_bracket.length();
                match offset.checked_add(opening_length) {
                    Some(start) => child.compute_min_indentation(start, text_model),
                    None => {
                        // No list lies below: its span would end beyond
                        // what was asked of the scanned span.
                        proof {
                            lemma_scanned_span_bounds(
                                child@,
                                offset as nat + opening_length as nat,
                            );
                        }
                        usize::MAX
                    },
                }
            },
            None => usize::MAX,
        }
    }

    /// The number of child slots of a pair.
    pub fn children_length(&self) -> (slots: usize)
        ensures
            slots == 3,
    {
        3
    }

    /// The pair itself: there is nothing to flatten in it.
    pub fn flatten_lists(&self) -> (flat: &PairAstNode)
        ensures
            *flat == *self,
    {
        self
    }

    /// Whether the pair may be spliced in where the ids `open_bracket_ids`
    /// are open: whether each opener it misses is among them.
    pub fn can_be_reused(&self, open_bracket_ids: BracketIds) -> (reusable: bool)
        ensures
            reusable == all_open(self@.missing_opening_bracket_ids, open_bracket_ids@),
    {
        self.missing_opening_bracket_ids.all_in(&open_bracket_ids)
    }

    /// The balancing level of a pair.
    pub fn list_height(&self) -> (height: usize)
        ensures
            height == 0,
            self@.wf(),
    {
        proof {
            use_type_invariant(self);
        }
        0
    }

    /// The span of the pair: the sum of the lengths of its children.
    pub fn length(&self) -> (length: u64)
        ensures
            length == self@.length,
            length == total_length(self@.children()),
            self@.wf(),
    {
        proof {
            use_type_invariant(self);
            lemma_pair_children_length(self@);
        }
        self.length
    }
}

impl ListAstNode {
    #[verifier::type_invariant]
    spec fn inv(&self) -> bool {
        self@.wf()
    }

    /// Builds a list from its children in document order, its height and
    /// the ids of the openers that the children miss. The list spans its
    /// children. No list is built where their lengths add up to more than
    /// a `u64` holds, nor where `list_height` is not the height that the
    /// balancing rule gives the children: 0 over children that are no
    /// lists, `h + 1` over lists of height `h`.
    pub fn new(
        children: Vec<Box<AstNode>>,
        list_height: usize,
        missing_opening_bracket_ids: BracketIds,
    ) -> (list: Option<ListAstNode>)
        ensures
            list is Some <==> total_length(child_views(children@)) <= u64::MAX && balanced_height(
                child_views(children@),
            ) == Some(list_height as nat),
            list matches Some(list) ==> list@ == list_of(
                child_views(children@),
                list_height as nat,
                missing_opening_bracket_ids@,
            ) && list@.wf(),
    {
        let ghost views = child_views(children@);
        let mut length: u64 = 0;
        let mut no_lists = true;
        let mut only_lists = true;
        let mut first_height: usize = 0;
        let mut i: usize = 0;
        proof {
            assert(views.take(0) =~= Seq::<NodeView>::empty());
        }
        while i < children.len()
            invariant
                views == child_views(children@),
                i <= children.len(),
                length == total_length(views.take(i as int)),
                no_lists == forall|j: int| #![trigger views[j]] 0 <= j < i ==> !(views[j] is List),
                only_lists == forall|j: int|
                    #![trigger views[j]]
                    0 <= j < i ==> views[j] is List && views[j].list_height()
                        == views[0].list_height(),
                forall|j: int| 0 <= j < i ==> (#[trigger] views[j]).wf(),
                i > 0 && views[0] is List ==> first_height == views[0].list_height(),
            decreases children.len() - i,
        {
            let child = &*children[i];
            assert(child@ == views[i as int]);
            proof {
                assert(views.take(i + 1) =~= views.take(i as int).push(views[i as int]));
                lemma_total_length_push(views.take(i as int), views[i as int]);
                lemma_total_length_prefix(views, i + 1);
            }
            length = match length.checked_add(child.length()) {
                Some(length) => length,
                None => {
                    return None;
                },
            };
            match child {
                AstNode::List(list) => {
                    no_lists = false;
                    let height = list.list_height();
                    if i == 0 {
                        first_height = height;
                    } else if height != first_height {
                        only_lists = false;
                    }
                },
                _ => {
                    only_lists = false;
                },
            }
            i += 1;
        }
        proof {
            assert(views.take(i as int) =~= views);
        }
        let balanced = if no_lists {
            list_height == 0
        } else if only_lists {
            first_height < usize::MAX && list_height == first_height + 1
        } else {
            false
        };
        if !balanced {
            return None;
        }
        proof {
            let list = ListAstNode { length, list_height, missing_opening_bracket_ids, children };
            assert(list@.children =~= views);
        }
        Some(ListAstNode { length, list_height, missing_opening_bracket_ids, children })
    }

    /// The ids of the openers that the list refers to and does not hold.
    pub fn missing_opening_bracket_ids(&self) -> (ids: &BracketIds)
        ensures
            ids@ == self@.missing_opening_bracket_ids,
    {
        &self.missing_opening_bracket_ids
    }

    /// A copy that shares nothing with `self`.
    pub fn deep_clone(&self) -> (copy: ListAstNode)
        ensures
            copy@ == self@,
        decreases self,
    {
        proof {
            use_type_invariant(self);
        }
        let mut children: Vec<Box<AstNode>> = Vec::new();
        let mut i: usize = 0;
        while i < self.children.len()
            invariant
                i <= self.children.len(),
                children.len() == i,
                forall|j: int| 0 <= j < i ==> children[j]@ == self.children[j]@,
            decreases self.children.len() - i,
        {
            let child = self.children[i].deep_clone();
            children.push(Box::new(child));
            i += 1;
        }
        let missing_opening_bracket_ids = self.missing_opening_bracket_ids.clone();
        proof {
            let copy = ListAstNode {
                length: self.length,
                list_height: self.list_height,
                missing_opening_bracket_ids,
                children,
            };
            assert(copy@.children =~= self@.children);
        }
        ListAstNode {
            length: self.length,
            list_height: self.list_height,
            missing_opening_bracket_ids,
            children,
        }
    }

    /// The least indentation among the lines of the text that the list
    /// spans: the text of `offset..offset + length` is read from
    /// `text_model` and scanned, the children are not visited. The span has
    /// to end within `usize`.
    pub fn compute_min_indentation<T: TextModel>(
        &self,
        offset: u64,
        text_model: &T,
    ) -> (indentation: usize)
        requires
            offset + self@.length <= usize::MAX,
        ensures
            is_min_indentation(NodeView::List(self@), offset as nat, text_model, indentation),
    {
        let start = offset as usize;
        let end = (offset + self.length) as usize;
        let text = text_model.get_text_range(start..end);
        min_indentation_of(text)
    }

    /// The number of children.
    pub fn children_length(&self) -> (slots: usize)
        ensures
            slots == self@.children.len(),
    {
        self.children.len()
    }

    /// The child at `idx`, or `None` where the list has no child there.
    pub fn get_child(&self, idx: usize) -> (child: Option<&AstNode>)
        ensures
            option_view(child) == self@.get_child(idx as int),
            self@.wf(),
    {
        proof {
            use_type_invariant(self);
        }
        if idx < self.children.len() {
            Some(&*self.children[idx])
        } else {
            None
        }
    }

    /// The children in document order.
    pub fn children(&self) -> (children: Vec<&AstNode>)
        ensures
            node_views(children@) == self@.children,
            self@.wf(),
    {
        proof {
            use_type_invariant(self);
        }
        let mut result: Vec<&AstNode> = Vec::new();
        let mut i: usize = 0;
        while i < self.children.len()
            invariant
                i <= self.children.len(),
                result.len() == i,
                forall|j: int| 0 <= j < i ==> result[j]@ == self.children[j]@,
            decreases self.children.len() - i,
        {
            result.push(&*self.children[i]);
            i += 1;
        }
        assert(node_views(result@) =~= self@.children);
        result
    }

    /// The list itself: nested lists stay as they are.
    pub fn flatten_lists(&self) -> (flat: &ListAstNode)
        ensures
            *flat == *self,
    {
        self
    }

    /// Whether the list may be spliced in where the ids `open_bracket_ids`
    /// are open: whether each opener it misses is among them.
    pub fn can_be_reused(&self, open_bracket_ids: BracketIds) -> (reusable: bool)
        ensures
            reusable == all_open(self@.missing_opening_bracket_ids, open_bracket_ids@),
    {
        self.missing_opening_bracket_ids.all_in(&open_bracket_ids)
    }

    /// The balancing level of the list.
    pub fn list_height(&self) -> (height: usize)
        ensures
            height == self@.list_height,
            self@.wf(),
    {
        proof {
            use_type_invariant(self);
        }
        self.list_height
    }

    /// The span of the list: the sum of the lengths of its children.
    pub fn length(&self) -> (length: u64)
        ensures
            length == self@.length,
            length == total_length(self@.children),
            self@.wf(),
    {
        proof {
            use_type_invariant(self);
        }
        self.length
    }
}

impl AstNode {
    /// The variant of the node.
    pub fn kind(&self) -> (kind: AstNodeKind)
        ensures
            kind == self@.kind(),
    {
        match self {
            AstNode::Pair(_) => AstNodeKind::Pair,
            AstNode::List(_) => AstNodeKind::List,
            AstNode::Bracket(_) => AstNodeKind::Bracket,
            AstNode::InvalidBracket(_) => AstNodeKind::UnexpectedClosingBracket,
            AstNode::Text(_) => AstNodeKind::Text,
        }
    }

    /// The number of child slots: 3 for a pair, the number of children for
    /// a list, 0 for a leaf.
    pub fn children_length(&self) -> (slots: usize)
        ensures
            slots == self@.children_length(),
    {
        match self {
            AstNode::Pair(node) => node.children_length(),
            AstNode::List(node) => node.children_length(),
            _ => 0,
        }
    }

    /// The child in slot `idx`, or `None` where the slot is empty or the
    /// node has no such slot.
    pub fn get_child(&self, idx: usize) -> (child: Option<&AstNode>)
        ensures
            option_view(child) == self@.get_child(idx as int),
            self@.wf(),
    {
        match self {
            AstNode::Pair(node) => node.get_child(idx),
            AstNode::List(node) => node.get_child(idx),
            _ => None,
        }
    }

    /// The present children in document order.
    pub fn children(&self) -> (children: Vec<&AstNode>)
        ensures
            node_views(children@) == self@.children(),
            self@.wf(),
    {
        match self {
            AstNode::Pair(node) => node.children(),
            AstNode::List(node) => node.children(),
            _ => {
                let none: Vec<&AstNode> = Vec::new();
                assert(node_views(none@) =~= self@.children());
                none
            },
        }
    }

    /// The ids of the openers that the node refers to and does not hold:
    /// those stored in a pair or a list, none for a leaf.
    pub fn missing_opening_bracket_ids(&self) -> (ids: BracketIds)
        ensures
            ids@ == self@.missing_opening_bracket_ids(),
    {
        match self {
            AstNode::Pair(node) => node.missing_opening_bracket_ids().clone(),
            AstNode::List(node) => node.missing_opening_bracket_ids().clone(),
            _ => BracketIds::new(),
        }
    }

    /// The balancing level: that of a list, 0 for every other node.
    pub fn list_height(&self) -> (height: usize)
        ensures
            height == self@.list_height(),
            self@.wf(),
    {
        match self {
            AstNode::Pair(node) => node.list_height(),
            AstNode::List(node) => node.list_height(),
            _ => 0,
        }
    }

    /// The span of the node. That of a pair or a list is the sum of the
    /// lengths of its children.
    pub fn length(&self) -> (length: u64)
        ensures
            length == self@.length(),
            self@.wf(),
            self@.is_composite() ==> length == total_length(self@.children()),
    {
        let length = match self {
            AstNode::Pair(node) => node.length(),
            AstNode::List(node) => node.length(),
            AstNode::Bracket(node) => node.length,
            AstNode::InvalidBracket(node) => node.length,
            AstNode::Text(node) => node.length,
        };
        proof {
            lemma_length_additive(self@);
        }
        length
    }

    /// Whether the node may be spliced in where the ids `open_bracket_ids`
    /// are open. A leaf is never reused; a pair or a list is if each opener
    /// it misses is among `open_bracket_ids`.
    pub fn can_be_reused(&self, open_bracket_ids: BracketIds) -> (reusable: bool)
        ensures
            reusable == self@.can_be_reused(open_bracket_ids@),
    {
        match self {
            AstNode::Pair(node) => node.can_be_reused(open_bracket_ids),
            AstNode::List(node) => node.can_be_reused(open_bracket_ids),
            _ => false,
        }
    }

    /// The least indentation among the lines under the node, which starts
    /// at `offset` in the document: that of the text a list spans, that of
    /// the interior of a pair, `usize::MAX` for a leaf and wherever no line
    /// holds anything but whitespace. The span that is scanned, if any, has
    /// to end within `usize`; a node under which nothing is scanned may
    /// start anywhere.
    pub fn compute_min_indentation<T: TextModel>(
        &self,
        offset: u64,
        text_model: &T,
    ) -> (indentation: usize)
        requires
            scanned_span(self@, offset as nat) matches Some((_, end)) ==> end <= usize::MAX,
        ensures
            is_min_indentation(self@, offset as nat, text_model, indentation),
        decreases self,
    {
        match self {
            AstNode::Pair(node) => node.compute_min_indentation(offset, text_model),
            AstNode::List(node) => node.compute_min_indentation(offset, text_model),
            _ => usize::MAX,
        }
    }

    /// The node itself: nested lists stay as they are.
    pub fn flatten_lists(&self) -> (flat: &AstNode)
        ensures
            *flat == *self,
    {
        self
    }

    /// A copy that shares nothing with `self`.
    pub fn deep_clone(&self) -> (copy: AstNode)
        ensures
            copy@ == self@,
        decreases self,
    {
        match self {
            AstNode::Pair(node) => AstNode::Pair(node.deep_clone()),
            AstNode::List(node) => AstNode::List(node.deep_clone()),
            AstNode::Bracket(node) => AstNode::Bracket(node.clone()),
            AstNode::InvalidBracket(node) => AstNode::InvalidBracket(node.clone()),
            AstNode::Text(node) => AstNode::Text(node.clone()),
        }
    }
}

impl Clone for PairAstNode {
    fn clone(&self) -> (copy: PairAstNode)
        ensures
            copy@ == self@,
    {
        self.deep_clone()
    }
}

impl Clone for ListAstNode {
    fn clone(&self) -> (copy: ListAstNode)
        ensures
            copy@ == self@,
    {
        self.deep_clone()
    }
}

impl Clone for AstNode {
    fn clone(&self) -> (copy: AstNode)
        ensures
            copy@ == self@,
    {
        self.deep_clone()
    }
}

} // verus!
