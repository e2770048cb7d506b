use std::rc::Rc;
use syntax_tree::arc::Arc;
use syntax_tree::green::{GreenElement, GreenNode, GreenNodeData, GreenToken};
use syntax_tree::kinds;
use syntax_tree::red::{RedElement, RedNode, RedNodeData};
use syntax_tree::NodeOrToken;

fn tok(kind: u16, text: &str) -> GreenElement {
    GreenToken::new(kind, text).into()
}

fn tree(kind: u16, children: Vec<GreenElement>) -> GreenNode {
    Arc::new(GreenNodeData::new(kind, children))
}

fn mul() -> GreenNode {
    tree(
        kinds::BIN_EXPR,
        vec![
            tok(kinds::INT, "1"),
            tok(kinds::WHITESPACE, " "),
            tok(kinds::STAR, "*"),
            tok(kinds::WHITESPACE, " "),
            tok(kinds::INT, "2"),
        ],
    )
}

fn add(a: &GreenNode) -> GreenNode {
    tree(
        kinds::BIN_EXPR,
        vec![
            a.clone().into(),
            tok(kinds::WHITESPACE, " "),
            tok(kinds::PLUS, "+"),
            tok(kinds::WHITESPACE, " "),
            a.clone().into(),
        ],
    )
}

fn green_node(e: &GreenElement) -> &GreenNode {
    match e {
        NodeOrToken::Node(n) => n,
        NodeOrToken::Token(_) => panic!("a node was expected"),
    }
}

fn green_token(e: &GreenElement) -> &GreenToken {
    match e {
        NodeOrToken::Token(t) => t,
        NodeOrToken::Node(_) => panic!("a token was expected"),
    }
}

fn red_node(e: RedElement) -> RedNode {
    e.into_node().expect("a node was expected")
}

#[test]
fn root_starts_at_zero_and_has_no_parent() {
    let a = mul();
    let root = RedNodeData::new_root(add(&a));
    assert_eq!(root.text_offset(), 0);
    assert!(root.parent().is_none());
    assert_eq!(root.kind(), kinds::BIN_EXPR);
    assert_eq!(root.text_len(), 13);
    assert_eq!(root.to_string(), "1 * 2 + 1 * 2");
}

#[test]
fn children_carry_offsets_indices_and_parent() {
    let a = mul();
    let root = RedNodeData::new_root(add(&a));
    let children = root.children();
    assert_eq!(children.len(), 5);
    let offsets: Vec<usize> = children.iter().map(|c| c.text_offset()).collect();
    assert_eq!(offsets, vec![0, 5, 6, 7, 8]);
    let lens: Vec<usize> = children.iter().map(|c| c.text_len()).collect();
    assert_eq!(lens, vec![5, 1, 1, 1, 5]);
    let kinds_seen: Vec<u16> = children.iter().map(|c| c.kind()).collect();
    assert_eq!(
        kinds_seen,
        vec![kinds::BIN_EXPR, kinds::WHITESPACE, kinds::PLUS, kinds::WHITESPACE, kinds::BIN_EXPR]
    );
    for child in &children {
        let parent = child.parent().expect("a child has a parent");
        assert!(Rc::ptr_eq(parent, &root));
    }
    let texts: Vec<String> = children.iter().map(|c| c.to_string()).collect();
    assert_eq!(texts, vec!["1 * 2", " ", "+", " ", "1 * 2"]);
}

#[test]
fn offsets_add_up_below_the_root() {
    let a = mul();
    let root = RedNodeData::new_root(add(&a));
    let second = red_node(root.children().into_iter().nth(4).unwrap());
    assert_eq!(second.text_offset(), 8);
    assert!(Rc::ptr_eq(second.parent().unwrap(), &root));
    let inner = second.children();
    let offsets: Vec<usize> = inner.iter().map(|c| c.text_offset()).collect();
    assert_eq!(offsets, vec![8, 9, 10, 11, 12]);
    for child in &inner {
        assert!(Rc::ptr_eq(child.parent().unwrap(), &second));
    }
    let mut expected = second.text_offset();
    for child in &inner {
        assert_eq!(child.text_offset(), expected);
        expected += child.text_len();
    }
    assert_eq!(expected, second.text_offset() + second.text_len());
}

#[test]
fn offsets_count_bytes() {
    let root = RedNodeData::new_root(tree(
        kinds::BIN_EXPR,
        vec![tok(kinds::IDENT, "é"), tok(kinds::IDENT, "🦀"), tok(kinds::IDENT, "x")],
    ));
    let offsets: Vec<usize> = root.children().iter().map(|c| c.text_offset()).collect();
    assert_eq!(offsets, vec![0, 2, 6]);
    let text = root.to_string();
    for child in root.children() {
        let start = child.text_offset();
        let end = start + child.text_len();
        assert_eq!(&text[start..end], child.to_string());
    }
}

#[test]
fn offset_is_the_length_of_the_text_before() {
    let a = mul();
    let root = RedNodeData::new_root(add(&a));
    let text = root.to_string();
    for child in root.children() {
        let start = child.text_offset();
        assert_eq!(&text[start..start + child.text_len()], child.to_string());
        if let NodeOrToken::Node(n) = child {
            for grandchild in n.children() {
                let start = grandchild.text_offset();
                assert_eq!(&text[start..start + grandchild.text_len()], grandchild.to_string());
            }
        }
    }
}

#[test]
fn every_call_makes_new_red_children_over_the_same_green() {
    let a = mul();
    let root = RedNodeData::new_root(add(&a));
    let first = root.children();
    let second = root.children();
    match (&first[0], &second[0]) {
        (NodeOrToken::Node(x), NodeOrToken::Node(y)) => {
            assert!(!Rc::ptr_eq(x, y));
            assert!(Arc::ptr_eq(x.green(), y.green()));
            assert!(Arc::ptr_eq(x.green(), &a));
        }
        _ => panic!("a node was expected"),
    }
    match (&first[1], &second[1]) {
        (NodeOrToken::Token(x), NodeOrToken::Token(y)) => {
            assert!(!Rc::ptr_eq(x, y));
            assert!(GreenToken::ptr_eq(x.green(), y.green()));
        }
        _ => panic!("a token was expected"),
    }
}

#[test]
fn red_token_reads() {
    let root = RedNodeData::new_root(mul());
    let children = root.children();
    let star = children[2].clone().into_token().expect("a token was expected");
    assert_eq!(star.kind(), kinds::STAR);
    assert_eq!(star.text_offset(), 2);
    assert_eq!(star.text_len(), 1);
    assert_eq!(star.to_string(), "*");
    assert!(Rc::ptr_eq(star.parent().unwrap(), &root));
    assert_eq!(star.green().text(), "*");
    let copy = (*star).clone();
    assert_eq!(copy.text_offset(), 2);
    assert_eq!(copy.kind(), kinds::STAR);
    assert!(Rc::ptr_eq(copy.parent().unwrap(), &root));
}

#[test]
fn red_node_clone_is_the_same_view() {
    let a = mul();
    let root = RedNodeData::new_root(add(&a));
    let second = red_node(root.children().into_iter().nth(4).unwrap());
    let copy = (*second).clone();
    assert_eq!(copy.text_offset(), 8);
    assert_eq!(copy.text_len(), 5);
    assert!(Rc::ptr_eq(copy.parent().unwrap(), &root));
    assert!(Arc::ptr_eq(copy.green(), &a));
}

#[test]
fn red_element_from_node_and_token() {
    let root = RedNodeData::new_root(mul());
    let as_element: RedElement = root.clone().into();
    assert!(matches!(as_element, NodeOrToken::Node(_)));
    assert!(as_element.parent().is_none());
    assert_eq!(as_element.text_offset(), 0);
    let star = root.children().into_iter().nth(2).unwrap().into_token().unwrap();
    let as_element: RedElement = star.into();
    assert!(matches!(as_element, NodeOrToken::Token(_)));
    assert_eq!(as_element.text_offset(), 2);
}

#[test]
fn replace_child_at_the_root() {
    let root = RedNodeData::new_root(mul());
    let new_root = root.replace_child(4, tok(kinds::INT, "20"));
    assert_eq!(new_root.to_string(), "1 * 20");
    assert_eq!(new_root.text_len(), 6);
    assert_eq!(new_root.text_offset(), 0);
    assert!(new_root.parent().is_none());
    assert_eq!(root.to_string(), "1 * 2");
    assert!(!Rc::ptr_eq(&root, &new_root));
    assert!(!Arc::ptr_eq(root.green(), new_root.green()));
}

#[test]
fn replace_child_scenario() {
    let a = mul();
    let b = add(&a);
    assert_eq!(a.to_string(), "1 * 2");
    assert_eq!(b.to_string(), "1 * 2 + 1 * 2");

    let red_b = RedNodeData::new_root(b.clone());
    let second_a = red_node(red_b.children().into_iter().nth(4).unwrap());
    let c = second_a.replace_child(0, tok(kinds::INT, "3"));

    assert_eq!(c.to_string(), "1 * 2 + 3 * 2");
    assert_eq!(b.to_string(), "1 * 2 + 1 * 2");
    assert_eq!(red_b.to_string(), "1 * 2 + 1 * 2");
    assert!(c.parent().is_none());
    assert_eq!(c.text_offset(), 0);
    assert_eq!(c.kind(), kinds::BIN_EXPR);

    let in_b = b.children();
    let in_c = c.green().children();
    assert!(Arc::ptr_eq(green_node(&in_b[0]), green_node(&in_c[0])));
    assert!(Arc::ptr_eq(green_node(&in_c[0]), &a));
}

#[test]
fn replace_child_shares_every_subtree_beside_the_path() {
    let a = mul();
    let b = add(&a);
    let top = tree(kinds::FN, vec![tok(kinds::FN_KW, "fn"), b.clone().into(), tok(kinds::R_CURLY, "}")]);
    assert_eq!(top.to_string(), "fn1 * 2 + 1 * 2}");

    let red_top = RedNodeData::new_root(top.clone());
    let red_b = red_node(red_top.children().into_iter().nth(1).unwrap());
    let red_a = red_node(red_b.children().into_iter().nth(4).unwrap());
    assert_eq!(red_a.text_offset(), 10);
    let new_top = red_a.replace_child(2, tok(kinds::PLUS, "+"));

    assert_eq!(new_top.to_string(), "fn1 * 2 + 1 + 2}");
    assert_eq!(top.to_string(), "fn1 * 2 + 1 * 2}");
    assert_eq!(new_top.text_len(), top.text_len());

    // level 0: the root is new, its other children are shared
    assert!(!Arc::ptr_eq(new_top.green(), &top));
    let old0 = top.children();
    let new0 = new_top.green().children();
    assert_eq!(new0.len(), 3);
    assert!(GreenToken::ptr_eq(green_token(&old0[0]), green_token(&new0[0])));
    assert!(GreenToken::ptr_eq(green_token(&old0[2]), green_token(&new0[2])));
    assert!(!Arc::ptr_eq(green_node(&old0[1]), green_node(&new0[1])));

    // level 1
    let old1 = green_node(&old0[1]).children();
    let new1 = green_node(&new0[1]).children();
    assert_eq!(new1.len(), 5);
    assert!(Arc::ptr_eq(green_node(&old1[0]), green_node(&new1[0])));
    assert!(Arc::ptr_eq(green_node(&new1[0]), &a));
    for i in 1..4 {
        assert!(GreenToken::ptr_eq(green_token(&old1[i]), green_token(&new1[i])));
    }
    assert!(!Arc::ptr_eq(green_node(&old1[4]), green_node(&new1[4])));

    // level 2: the edited node
    let old2 = green_node(&old1[4]).children();
    let new2 = green_node(&new1[4]).children();
    assert_eq!(new2.len(), 5);
    for i in [0usize, 1, 3, 4] {
        assert!(GreenToken::ptr_eq(green_token(&old2[i]), green_token(&new2[i])));
    }
    assert!(!GreenToken::ptr_eq(green_token(&old2[2]), green_token(&new2[2])));
    assert_eq!(green_token(&new2[2]).text(), "+");

    // kinds along the path are kept
    assert_eq!(new_top.kind(), kinds::FN);
    assert_eq!(green_node(&new0[1]).kind(), kinds::BIN_EXPR);
    assert_eq!(green_node(&new1[4]).kind(), kinds::BIN_EXPR);
}

#[test]
fn lengths_and_offsets_hold_in_the_new_tree() {
    let a = mul();
    let red_b = RedNodeData::new_root(add(&a));
    let first_a = red_node(red_b.children().into_iter().next().unwrap());
    let c = first_a.replace_child(0, tok(kinds::INT, "1000"));
    assert_eq!(c.to_string(), "1000 * 2 + 1 * 2");
    assert_eq!(c.text_len(), 16);
    let children = c.children();
    let offsets: Vec<usize> = children.iter().map(|e| e.text_offset()).collect();
    assert_eq!(offsets, vec![0, 8, 9, 10, 11]);
    let total: usize = children.iter().map(|e| e.text_len()).sum();
    assert_eq!(c.text_len(), total);
    let inner = red_node(children.into_iter().next().unwrap());
    assert_eq!(inner.text_len(), 8);
    let total: usize = inner.children().iter().map(|e| e.text_len()).sum();
    assert_eq!(inner.text_len(), total);
}

#[test]
fn replace_a_node_with_a_token_and_back() {
    let a = mul();
    let red_b = RedNodeData::new_root(add(&a));
    let c = red_b.replace_child(0, tok(kinds::INT, "7"));
    assert_eq!(c.to_string(), "7 + 1 * 2");
    let d = c.replace_child(0, a.clone().into());
    assert_eq!(d.to_string(), "1 * 2 + 1 * 2");
    assert!(Arc::ptr_eq(green_node(&d.green().children()[0]), &a));
    assert!(**d.green() == **red_b.green());
    assert!(!Arc::ptr_eq(d.green(), red_b.green()));
}
