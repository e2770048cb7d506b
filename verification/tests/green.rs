use syntax_tree::arc::Arc;
use syntax_tree::green::{GreenElement, GreenNode, GreenNodeData, GreenToken, GreenTokenData};
use syntax_tree::kinds;
use syntax_tree::NodeOrToken;

fn token(kind: u16, text: &str) -> GreenElement {
    GreenToken::new(kind, text).into()
}

fn node(kind: u16, children: Vec<GreenElement>) -> GreenNode {
    Arc::new(GreenNodeData::new(kind, children))
}

fn product() -> GreenNode {
    node(
        kinds::BIN_EXPR,
        vec![
            token(kinds::INT, "1"),
            token(kinds::WHITESPACE, " "),
            token(kinds::STAR, "*"),
            token(kinds::WHITESPACE, " "),
            token(kinds::INT, "2"),
        ],
    )
}

fn sum_of_products() -> GreenNode {
    let a = product();
    node(
        kinds::BIN_EXPR,
        vec![
            a.clone().into(),
            token(kinds::WHITESPACE, " "),
            token(kinds::PLUS, "+"),
            token(kinds::WHITESPACE, " "),
            a.into(),
        ],
    )
}

#[test]
fn token_keeps_kind_and_text() {
    let t = GreenTokenData::new(kinds::IDENT, "name".to_string());
    assert_eq!(t.kind(), kinds::IDENT);
    assert_eq!(t.kind(), 100);
    assert_eq!(t.text(), "name");
    assert_eq!(t.text_len(), 4);
    assert_eq!(t.to_string(), "name");
}

#[test]
fn token_length_is_in_bytes() {
    assert_eq!(GreenTokenData::new(kinds::IDENT, "é".to_string()).text_len(), 2);
    assert_eq!(GreenTokenData::new(kinds::IDENT, "日本".to_string()).text_len(), 6);
    assert_eq!(GreenTokenData::new(kinds::IDENT, "🦀".to_string()).text_len(), 4);
    assert_eq!(GreenTokenData::new(kinds::IDENT, "a🦀b".to_string()).text_len(), 6);
}

#[test]
fn empty_token_has_no_length() {
    let t = GreenTokenData::new(kinds::WHITESPACE, String::new());
    assert_eq!(t.text_len(), 0);
    assert_eq!(t.text(), "");
}

#[test]
fn token_handle_from_str() {
    let t = GreenToken::new(kinds::INT, "42");
    assert_eq!(t.kind(), kinds::INT);
    assert_eq!(t.text(), "42");
    assert_eq!(t.text_len(), 2);
}

#[test]
fn token_handle_from_shared_data() {
    let data = Arc::new(GreenTokenData::new(kinds::COMMA, ",".to_string()));
    let t = GreenToken::from(data.clone());
    assert_eq!(t.kind(), kinds::COMMA);
    assert_eq!(t.text(), ",");
    assert!(!data.is_unique());
}

#[test]
fn token_clone_is_the_same_allocation() {
    let t = GreenToken::new(kinds::INT, "7");
    let u = t.clone();
    assert!(GreenToken::ptr_eq(&t, &u));
    assert!(t == u);
}

#[test]
fn tokens_compare_by_kind_and_text() {
    let a = GreenToken::new(kinds::INT, "7");
    let b = GreenToken::new(kinds::INT, "7");
    let other_text = GreenToken::new(kinds::INT, "8");
    let other_kind = GreenToken::new(kinds::IDENT, "7");
    assert!(!GreenToken::ptr_eq(&a, &b));
    assert!(a == b);
    assert!(a != other_text);
    assert!(a != other_kind);
    assert!(GreenTokenData::new(1, "x".to_string()) == GreenTokenData::new(1, "x".to_string()));
    assert!(GreenTokenData::new(1, "x".to_string()) != GreenTokenData::new(2, "x".to_string()));
    assert!(GreenTokenData::new(1, "x".to_string()).same(&GreenTokenData::new(1, "x".to_string())));
    assert!(!GreenTokenData::new(1, "x".to_string()).same(&GreenTokenData::new(1, "y".to_string())));
}

#[test]
fn token_data_clone_keeps_content() {
    let t = GreenTokenData::new(kinds::NAME, "abc".to_string());
    let u = t.clone();
    assert_eq!(u.kind(), kinds::NAME);
    assert_eq!(u.text(), "abc");
}

#[test]
fn node_renders_its_tokens_in_order() {
    let a = product();
    assert_eq!(a.kind(), kinds::BIN_EXPR);
    assert_eq!(a.to_string(), "1 * 2");
    let b = sum_of_products();
    assert_eq!(b.to_string(), "1 * 2 + 1 * 2");
}

#[test]
fn rendering_is_the_concatenation_of_the_leaves() {
    let source = ["fn", " ", "main", "(", ")", " ", "{", "\n", "}", "\n"];
    let leaves: Vec<GreenElement> = source.iter().map(|s| token(kinds::IDENT, s)).collect();
    let flat = node(kinds::FN, leaves);
    assert_eq!(flat.to_string(), source.concat());
    assert_eq!(flat.to_string(), "fn main() {\n}\n");

    let head = node(kinds::FN_KW, vec![token(kinds::IDENT, "fn"), token(kinds::WHITESPACE, " ")]);
    let params = node(kinds::PARAM_LIST, vec![token(kinds::IDENT, "("), token(kinds::IDENT, ")")]);
    let body = node(
        kinds::STRUCT,
        vec![token(kinds::L_CURLY, "{"), token(kinds::WHITESPACE, "\n"), token(kinds::R_CURLY, "}")],
    );
    let nested = node(
        kinds::FN,
        vec![
            head.into(),
            token(kinds::NAME, "main"),
            params.into(),
            token(kinds::WHITESPACE, " "),
            body.into(),
            token(kinds::WHITESPACE, "\n"),
        ],
    );
    assert_eq!(nested.to_string(), source.concat());
}

#[test]
fn write_text_appends() {
    let mut out = String::from(">> ");
    product().write_text(&mut out);
    assert_eq!(out, ">> 1 * 2");
}

#[test]
fn node_length_is_the_sum_of_its_children() {
    let a = product();
    assert_eq!(a.text_len(), 5);
    let b = sum_of_products();
    assert_eq!(b.text_len(), 13);
    let total: usize = b.children().iter().map(|c| c.text_len()).sum();
    assert_eq!(b.text_len(), total);
    for child in b.children() {
        if let NodeOrToken::Node(n) = child {
            let inner: usize = n.children().iter().map(|c| c.text_len()).sum();
            assert_eq!(n.text_len(), inner);
        }
    }
    assert_eq!(b.text_len(), b.to_string().len());
}

#[test]
fn node_length_counts_bytes() {
    let n = node(kinds::BIN_EXPR, vec![token(kinds::IDENT, "é"), token(kinds::IDENT, "🦀")]);
    assert_eq!(n.text_len(), 6);
    assert_eq!(n.to_string(), "é🦀");
}

#[test]
fn empty_node() {
    let n = GreenNodeData::new(kinds::PARAM_LIST, Vec::new());
    assert_eq!(n.kind(), kinds::PARAM_LIST);
    assert_eq!(n.text_len(), 0);
    assert_eq!(n.children().len(), 0);
    assert_eq!(n.to_string(), "");
}

#[test]
fn children_are_handles_to_the_children() {
    let a = product();
    let b = node(kinds::BIN_EXPR, vec![a.clone().into(), token(kinds::PLUS, "+")]);
    let first = b.children();
    let second = b.children();
    assert_eq!(first.len(), 2);
    assert_eq!(second.len(), 2);
    match (&first[0], &second[0]) {
        (NodeOrToken::Node(x), NodeOrToken::Node(y)) => {
            assert!(Arc::ptr_eq(x, y));
            assert!(Arc::ptr_eq(x, &a));
        }
        _ => panic!("the first child is a node"),
    }
    match (&first[1], &second[1]) {
        (NodeOrToken::Token(x), NodeOrToken::Token(y)) => {
            assert!(GreenToken::ptr_eq(x, y));
            assert_eq!(x.text(), "+");
        }
        _ => panic!("the second child is a token"),
    }
}

#[test]
fn replace_child_builds_a_new_node() {
    let a = product();
    let edited = a.replace_child(0, token(kinds::INT, "30"));
    assert_eq!(edited.kind(), kinds::BIN_EXPR);
    assert_eq!(edited.to_string(), "30 * 2");
    assert_eq!(edited.text_len(), 6);
    assert_eq!(a.to_string(), "1 * 2");
    assert_eq!(a.text_len(), 5);
    assert_eq!(edited.children().len(), 5);
}

#[test]
fn replace_child_shares_the_other_children() {
    let b = sum_of_products();
    let edited = b.replace_child(2, token(kinds::STAR, "*"));
    assert_eq!(edited.to_string(), "1 * 2 * 1 * 2");
    let before = b.children();
    let after = edited.children();
    for i in [0usize, 4] {
        match (&before[i], &after[i]) {
            (NodeOrToken::Node(x), NodeOrToken::Node(y)) => assert!(Arc::ptr_eq(x, y)),
            _ => panic!("a node was expected"),
        }
    }
    for i in [1usize, 3] {
        match (&before[i], &after[i]) {
            (NodeOrToken::Token(x), NodeOrToken::Token(y)) => assert!(GreenToken::ptr_eq(x, y)),
            _ => panic!("a token was expected"),
        }
    }
    match (&before[2], &after[2]) {
        (NodeOrToken::Token(x), NodeOrToken::Token(y)) => assert!(!GreenToken::ptr_eq(x, y)),
        _ => panic!("a token was expected"),
    }
}

#[test]
fn replace_child_at_the_ends() {
    let a = product();
    assert_eq!(a.replace_child(4, token(kinds::INT, "")).to_string(), "1 * ");
    assert_eq!(a.replace_child(4, token(kinds::INT, "")).text_len(), 4);
    assert_eq!(a.replace_child(0, product().into()).to_string(), "1 * 2 * 2");
    assert_eq!(a.replace_child(0, product().into()).text_len(), 9);
    let single = node(kinds::TYPE, vec![token(kinds::IDENT, "u8")]);
    assert_eq!(single.replace_child(0, token(kinds::IDENT, "u16")).to_string(), "u16");
}

#[test]
fn length_holds_after_replace_child() {
    let b = sum_of_products();
    let edited = b.replace_child(0, token(kinds::INT, "10"));
    let total: usize = edited.children().iter().map(|c| c.text_len()).sum();
    assert_eq!(edited.text_len(), total);
    assert_eq!(edited.text_len(), 10);
    assert_eq!(edited.text_len(), b.text_len() - 5 + 2);
}

#[test]
fn node_data_clone_shares_children() {
    let b = sum_of_products();
    let copy = GreenNodeData::clone(&b);
    assert_eq!(copy.kind(), b.kind());
    assert_eq!(copy.text_len(), b.text_len());
    assert_eq!(copy.to_string(), b.to_string());
    match (&copy.children()[0], &b.children()[0]) {
        (NodeOrToken::Node(x), NodeOrToken::Node(y)) => assert!(Arc::ptr_eq(x, y)),
        _ => panic!("a node was expected"),
    }
}

#[test]
fn equal_trees_need_not_be_one_allocation() {
    let x = sum_of_products();
    let y = sum_of_products();
    assert!(!Arc::ptr_eq(&x, &y));
    assert!(x == y);
    assert!(x.same(&y));
    assert!(*x == *y);
}

#[test]
fn a_handle_and_its_clone_are_identical_and_equal() {
    let x = sum_of_products();
    let y = x.clone();
    assert!(Arc::ptr_eq(&x, &y));
    assert!(x == y);
}

#[test]
fn trees_differ_by_kind_text_or_shape() {
    let x = product();
    let other_kind = node(
        kinds::FIELD,
        vec![
            token(kinds::INT, "1"),
            token(kinds::WHITESPACE, " "),
            token(kinds::STAR, "*"),
            token(kinds::WHITESPACE, " "),
            token(kinds::INT, "2"),
        ],
    );
    assert!(x != other_kind);
    let other_text = x.replace_child(4, token(kinds::INT, "3"));
    assert!(*x != other_text);
    let other_token_kind = x.replace_child(4, token(kinds::IDENT, "2"));
    assert!(*x != other_token_kind);
    let shorter = node(kinds::BIN_EXPR, vec![token(kinds::INT, "1 * 2")]);
    assert_eq!(shorter.to_string(), x.to_string());
    assert!(x != shorter);
    let node_for_token = x.replace_child(4, node(kinds::BIN_EXPR, vec![token(kinds::INT, "2")]).into());
    assert_eq!(node_for_token.to_string(), "1 * 2");
    assert!(*x != node_for_token);
    let deep_a = node(kinds::BIN_EXPR, vec![product().into(), token(kinds::INT, "1")]);
    let deep_b = node(kinds::BIN_EXPR, vec![product().into(), token(kinds::INT, "1")]);
    let deep_c = node(kinds::BIN_EXPR, vec![other_kind.into(), token(kinds::INT, "1")]);
    assert!(deep_a == deep_b);
    assert!(deep_a != deep_c);
}

#[test]
fn element_dispatches_to_node_or_token() {
    let n: GreenElement = product().into();
    let t: GreenElement = token(kinds::PLUS, "+");
    assert_eq!(n.kind(), kinds::BIN_EXPR);
    assert_eq!(n.text_len(), 5);
    assert_eq!(n.to_string(), "1 * 2");
    assert_eq!(t.kind(), kinds::PLUS);
    assert_eq!(t.text_len(), 1);
    assert_eq!(t.to_string(), "+");
}

#[test]
fn element_from_node_and_token() {
    let n: GreenElement = GreenElement::from(product());
    assert!(matches!(n, NodeOrToken::Node(_)));
    let t: GreenElement = GreenElement::from(GreenToken::new(kinds::PLUS, "+"));
    assert!(matches!(t, NodeOrToken::Token(_)));
    let d: GreenElement = Arc::new(GreenTokenData::new(kinds::PLUS, "+".to_string())).into();
    assert!(matches!(d, NodeOrToken::Token(_)));
    assert_eq!(d.to_string(), "+");
}

#[test]
fn into_node_and_into_token() {
    let n: GreenElement = product().into();
    let t: GreenElement = token(kinds::PLUS, "+");
    assert!(n.clone().into_node().is_some());
    assert!(n.into_token().is_none());
    assert!(t.clone().into_node().is_none());
    assert_eq!(t.into_token().unwrap().text(), "+");
    let a: NodeOrToken<u8, &str> = NodeOrToken::Node(3);
    let b: NodeOrToken<u8, &str> = NodeOrToken::Token("x");
    assert_eq!(a.clone().into_node(), Some(3));
    assert_eq!(a.into_token(), None);
    assert_eq!(b.clone().into_node(), None);
    assert_eq!(b.into_token(), Some("x"));
}

#[test]
fn kinds_keep_their_numbers() {
    assert_eq!(kinds::FN, 1);
    assert_eq!(kinds::FN_KW, 2);
    assert_eq!(kinds::BIN_EXPR, 4);
    assert_eq!(kinds::PARAM_LIST, 5);
    assert_eq!(kinds::FIELD, 6);
    assert_eq!(kinds::TYPE, 7);
    assert_eq!(kinds::STRUCT_KW, 8);
    assert_eq!(kinds::STRUCT, 9);
    assert_eq!(kinds::WHITESPACE, 99);
    assert_eq!(kinds::IDENT, 100);
    assert_eq!(kinds::NAME, 101);
    assert_eq!(kinds::INT, 102);
    assert_eq!(kinds::PLUS, 103);
    assert_eq!(kinds::STAR, 104);
    assert_eq!(kinds::COLON, 105);
    assert_eq!(kinds::COMMA, 106);
    assert_eq!(kinds::L_CURLY, 107);
    assert_eq!(kinds::R_CURLY, 108);
}
