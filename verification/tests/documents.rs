use bracket_ast::ast::{
    AstNode, AstNodeKind, BracketAstNode, InvalidBracketAstNode, PairAstNode, TextAstNode,
};
use bracket_ast::ids::BracketIds;

fn bracket(bracket_type: char, position: usize) -> BracketAstNode {
    BracketAstNode { length: 1, bracket_type, position, metadata: None }
}

fn text(content: &str) -> AstNode {
    AstNode::Text(TextAstNode { length: content.len() as u64, text: String::from(content) })
}

#[test]
fn closed_pair_around_text() {
    let pair = PairAstNode::new(
        bracket('(', 0),
        Some(text("foo")),
        Some(bracket(')', 4)),
        BracketIds::new(),
    )
    .unwrap();
    assert_eq!(pair.opening_bracket().bracket_type, '(');
    assert_eq!(pair.opening_bracket().position, 0);
    assert_eq!(pair.opening_bracket().length, 1);
    match pair.child().unwrap() {
        AstNode::Text(interior) => {
            assert_eq!(interior.text, "foo");
            assert_eq!(interior.length, 3);
        },
        _ => panic!("the interior is text"),
    }
    assert_eq!(pair.closing_bracket().unwrap().bracket_type, ')');
    assert_eq!(pair.closing_bracket().unwrap().length, 1);
    assert_eq!(pair.length(), 5);
    assert!(pair.missing_opening_bracket_ids().as_slice().is_empty());
    let node = AstNode::Pair(pair);
    assert_eq!(node.kind(), AstNodeKind::Pair);
    assert_eq!(node.length(), 5);
    assert!(node.missing_opening_bracket_ids().as_slice().is_empty());
}

#[test]
fn unterminated_pair() {
    let pair =
        PairAstNode::new(bracket('(', 0), Some(text("foo")), None, BracketIds::new()).unwrap();
    assert_eq!(pair.opening_bracket().bracket_type, '(');
    match pair.child().unwrap() {
        AstNode::Text(interior) => assert_eq!(interior.text, "foo"),
        _ => panic!("the interior is text"),
    }
    assert!(pair.closing_bracket().is_none());
    assert_eq!(pair.length(), 4);
    let node = AstNode::Pair(pair);
    assert_eq!(node.children_length(), 3);
    assert!(node.get_child(2).is_none());
    assert_eq!(node.children().len(), 2);
}

#[test]
fn lone_closing_bracket() {
    let node = AstNode::InvalidBracket(InvalidBracketAstNode {
        length: 1,
        bracket_type: ')',
        position: 0,
        expected_bracket_type: None,
        metadata: None,
    });
    assert_eq!(node.kind(), AstNodeKind::UnexpectedClosingBracket);
    match &node {
        AstNode::InvalidBracket(invalid) => {
            assert_eq!(invalid.expected_bracket_type, None);
            assert_eq!(invalid.bracket_type, ')');
        },
        _ => panic!("the node is an unmatched bracket"),
    }
    assert_eq!(node.length(), 1);
    assert_eq!(node.children_length(), 0);
}

#[test]
fn brackets_are_kept_when_the_interior_grows() {
    let before = PairAstNode::new(
        bracket('(', 0),
        Some(text("foo")),
        Some(bracket(')', 4)),
        BracketIds::new(),
    )
    .unwrap();
    let opening = before.get_child(0).unwrap();
    let closing = before.get_child(2).unwrap();
    assert!(opening.missing_opening_bracket_ids().as_slice().is_empty());
    assert!(closing.missing_opening_bracket_ids().as_slice().is_empty());
    assert!(!opening.can_be_reused(BracketIds::new()));
    assert!(!closing.can_be_reused(BracketIds::new()));
    let after = PairAstNode::new(
        before.opening_bracket().clone(),
        Some(text("foobar")),
        Some(before.closing_bracket().unwrap().clone()),
        BracketIds::new(),
    )
    .unwrap();
    assert_eq!(after.length(), 8);
    assert_eq!(after.opening_bracket().bracket_type, '(');
    assert_eq!(after.opening_bracket().position, before.opening_bracket().position);
    assert_eq!(after.closing_bracket().unwrap().bracket_type, ')');
    assert_eq!(
        after.closing_bracket().unwrap().position,
        before.closing_bracket().unwrap().position
    );
    match after.child().unwrap() {
        AstNode::Text(interior) => {
            assert_eq!(interior.text, "foobar");
            assert_eq!(interior.length, 6);
        },
        _ => panic!("the interior is text"),
    }
    assert_eq!(before.length(), 5);
    match before.child().unwrap() {
        AstNode::Text(interior) => assert_eq!(interior.text, "foo"),
        _ => panic!("the interior is text"),
    }
}
