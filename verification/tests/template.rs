use rust_react::Token;
use rust_react::TemplateError;
use rust_react::ast::ElementNode;
use rust_react::ast::ElementType;
use rust_react::ast::Node;
use rust_react::component::Component;
use rust_react::component::PropsType;
use rust_react::component::TextProps;
use rust_react::component::empty_props;
use rust_react::component::try_render_untyped;
use rust_react::emit::emit_node;
use rust_react::node::ReactElement;
use rust_react::node::ReactElementType;
use rust_react::node::ReactNode;
use rust_react::node::render_element;
use rust_react::parse::Cursor;
use rust_react::parse::parse_element_type;
use rust_react::sample::Main;
use rust_react::sample::MainComponent;
use rust_react::sample::MainProps;
use rust_react::template;

fn ident(s: &str) -> Token {
    Token::Ident(s.to_string())
}

fn punct(s: &str) -> Token {
    Token::Punct(s.to_string())
}

fn group(s: &str) -> Token {
    Token::Group(s.to_string())
}

fn lit(s: &str) -> Token {
    Token::Literal(s.to_string())
}

fn parse(tokens: Vec<Token>) -> Result<Node, TemplateError> {
    let mut cursor = Cursor::new(tokens);
    rust_react::parse::parse_element(&mut cursor)
}

fn resolve(tokens: Vec<Token>) -> Result<ElementType, TemplateError> {
    let mut cursor = Cursor::new(tokens);
    parse_element_type(&mut cursor)
}

fn element(node: Node) -> ElementNode {
    match node {
        Node::Element(e) => e,
        other => panic!("expected an element, got {:?}", other),
    }
}

#[test]
fn resolves_lowercase_ident_to_tag_name() {
    assert_eq!(
        resolve(vec![ident("span")]).unwrap(),
        ElementType::TagName("span".to_string())
    );
}

#[test]
fn resolves_uppercase_ident_to_component() {
    assert_eq!(
        resolve(vec![ident("Main")]).unwrap(),
        ElementType::Component("Main".to_string())
    );
}

#[test]
fn resolves_qualified_path_to_component() {
    assert_eq!(
        resolve(vec![ident("mod"), punct("::"), ident("Main"), punct(">")]).unwrap(),
        ElementType::Component("mod::Main".to_string())
    );
}

#[test]
fn resolves_digit_bearing_ident_to_component() {
    assert_eq!(
        resolve(vec![ident("h1")]).unwrap(),
        ElementType::Component("h1".to_string())
    );
}

#[test]
fn resolves_empty_path_to_fragment() {
    assert_eq!(resolve(vec![]).unwrap(), ElementType::Fragment);
    assert_eq!(resolve(vec![punct(">")]).unwrap(), ElementType::Fragment);
}

#[test]
fn rejects_trailing_path_separator() {
    let r = template(vec![punct("<"), ident("a"), punct("::"), punct(">")]);
    match r {
        Err(TemplateError::MalformedPath(at)) => assert_eq!(at, 2),
        other => panic!("expected a malformed path, got {:?}", other),
    }
}

#[test]
fn mismatched_end_tag_fails_at_closing_tag() {
    let r = parse(vec![
        punct("<"),
        ident("a"),
        punct(">"),
        ident("x"),
        punct("<"),
        punct("/"),
        ident("b"),
        punct(">"),
    ]);
    match r {
        Err(TemplateError::EndTagMismatch { at, expected }) => {
            assert_eq!(at, Some(6));
            assert_eq!(expected, ElementType::TagName("a".to_string()));
        }
        other => panic!("expected an end-tag mismatch, got {:?}", other),
    }
}

#[test]
fn mismatch_message_carries_canonical_type() {
    let r = parse(vec![
        punct("<"),
        ident("a"),
        punct(">"),
        punct("<"),
        punct("/"),
        ident("b"),
        punct(">"),
    ]);
    let e = r.unwrap_err();
    assert_eq!(e.message(), "Expected '</a>'".to_string());
    assert_eq!(e.position(), Some(5));
}

#[test]
fn missing_end_tag_fails_at_invocation_site() {
    let r = parse(vec![punct("<"), ident("a"), punct(">")]);
    match r {
        Err(TemplateError::EndTagMismatch { at, expected }) => {
            assert_eq!(at, None);
            assert_eq!(expected.canonical(), "a".to_string());
        }
        other => panic!("expected an end-tag mismatch, got {:?}", other),
    }
}

#[test]
fn empty_stream_is_not_a_template_node() {
    let e = template(vec![]).unwrap_err();
    assert!(matches!(e, TemplateError::ExpectedNode(None)));
    assert_eq!(e.message(), "Expected template node".to_string());
    assert_eq!(e.position(), None);
}

#[test]
fn non_bracket_head_is_not_a_template_node() {
    let e = template(vec![ident("a")]).unwrap_err();
    assert!(matches!(e, TemplateError::ExpectedNode(Some(0))));
}

#[test]
fn attribute_syntax_is_refused() {
    let e = template(vec![punct("<"), ident("a"), ident("b"), punct(">")]).unwrap_err();
    assert!(matches!(e, TemplateError::ExpectedClose(Some(2))));
    assert_eq!(e.message(), "Expected '>'".to_string());
}

#[test]
fn missing_close_bracket_at_end_of_stream() {
    let e = template(vec![punct("<"), ident("a")]).unwrap_err();
    assert!(matches!(e, TemplateError::ExpectedClose(None)));
    assert_eq!(e.message(), "Expected '>'".to_string());
}

#[test]
fn wrong_token_after_closing_path() {
    let e = parse(vec![
        punct("<"),
        ident("a"),
        punct(">"),
        punct("<"),
        punct("/"),
        ident("a"),
        punct(")"),
    ])
    .unwrap_err();
    assert!(matches!(e, TemplateError::ExpectedClose(Some(6))));
}

#[test]
fn fragment_parses_to_fragment_element() {
    let node = parse(vec![
        punct("<"),
        punct(">"),
        ident("hi"),
        punct("<"),
        punct("/"),
        punct(">"),
    ])
    .unwrap();
    let e = element(node);
    assert_eq!(e.ty, ElementType::Fragment);
    assert_eq!(e.props.len(), 0);
    assert_eq!(e.children.len(), 1);
    assert!(matches!(&e.children[0], Node::Text(t) if t == "hi"));
}

#[test]
fn fragment_emits_bare_list_never_tagged_element() {
    let code = template(vec![
        punct("<"),
        punct(">"),
        ident("hi"),
        punct("<"),
        punct("/"),
        punct(">"),
    ])
    .unwrap();
    assert_eq!(
        code,
        "::rust_react::ReactNode::List(vec![::rust_react::ReactNode::Text(\"hi\".to_string())])"
            .to_string()
    );
    assert!(!code.contains("ReactElement"));
}

#[test]
fn sibling_elements_keep_source_order() {
    let node = parse(vec![
        punct("<"),
        ident("a"),
        punct(">"),
        punct("<"),
        ident("b"),
        punct(">"),
        lit("1"),
        punct("<"),
        punct("/"),
        ident("b"),
        punct(">"),
        punct("<"),
        ident("c"),
        punct(">"),
        lit("2"),
        punct("<"),
        punct("/"),
        ident("c"),
        punct(">"),
        punct("<"),
        punct("/"),
        ident("a"),
        punct(">"),
    ])
    .unwrap();
    let a = element(node);
    assert_eq!(a.ty, ElementType::TagName("a".to_string()));
    assert_eq!(a.children.len(), 2, "no spurious text nodes between siblings");
    let b = match &a.children[0] {
        Node::Element(e) => e,
        other => panic!("expected element b, got {:?}", other),
    };
    let c = match &a.children[1] {
        Node::Element(e) => e,
        other => panic!("expected element c, got {:?}", other),
    };
    assert_eq!(b.ty, ElementType::TagName("b".to_string()));
    assert_eq!(c.ty, ElementType::TagName("c".to_string()));
    assert_eq!(b.children.len(), 1);
    assert_eq!(c.children.len(), 1);
    assert!(matches!(&b.children[0], Node::Text(t) if t == "1"));
    assert!(matches!(&c.children[0], Node::Text(t) if t == "2"));
}

#[test]
fn free_token_run_merges_into_one_text_node() {
    let node = parse(vec![
        punct("<"),
        ident("a"),
        punct(">"),
        ident("x"),
        ident("y"),
        lit("3"),
        punct("<"),
        punct("/"),
        ident("a"),
        punct(">"),
    ])
    .unwrap();
    let a = element(node);
    assert_eq!(a.children.len(), 1);
    assert!(matches!(&a.children[0], Node::Text(t) if t == "x y 3"));
}

#[test]
fn empty_content_yields_no_children() {
    let node = parse(vec![
        punct("<"),
        ident("a"),
        punct(">"),
        punct("<"),
        punct("/"),
        ident("a"),
        punct(">"),
    ])
    .unwrap();
    assert_eq!(element(node).children.len(), 0);
}

#[test]
fn end_to_end_span_template() {
    let tokens = vec![
        punct("<"),
        ident("span"),
        punct(">"),
        ident("Test"),
        group("{a}"),
        group("[a]"),
        group("(a)"),
        punct("<"),
        punct("/"),
        ident("span"),
        punct(">"),
    ];
    let node = parse(tokens.clone()).unwrap();
    let e = element(node);
    assert_eq!(e.ty, ElementType::TagName("span".to_string()));
    assert_eq!(e.children.len(), 1);
    assert!(matches!(&e.children[0], Node::Text(t) if t == "Test {a} [a] (a)"));

    let code = template(tokens).unwrap();
    assert_eq!(
        code,
        "::rust_react::ReactNode::Element(::rust_react::ReactElement { \
         ty: ::rust_react::ReactElementType::TagName(\"span\".to_string()), \
         props: ::rust_react::empty_props(), \
         children: vec![::rust_react::ReactNode::Text(\"Test {a} [a] (a)\".to_string())] })"
            .to_string()
    );
}

#[test]
fn component_path_is_emitted_verbatim() {
    let code = template(vec![
        punct("<"),
        ident("mod"),
        punct("::"),
        ident("Main"),
        punct(">"),
        punct("<"),
        punct("/"),
        ident("mod"),
        punct("::"),
        ident("Main"),
        punct(">"),
    ])
    .unwrap();
    assert_eq!(
        code,
        "::rust_react::ReactNode::Element(::rust_react::ReactElement { \
         ty: ::rust_react::ReactElementType::Component(mod::Main), \
         props: ::rust_react::empty_props(), \
         children: vec![] })"
            .to_string()
    );
}

#[test]
fn component_inside_fragment_emits_nested_construction() {
    let code = template(vec![
        punct("<"),
        punct(">"),
        punct("<"),
        ident("Main"),
        punct(">"),
        ident("hi"),
        punct("<"),
        punct("/"),
        ident("Main"),
        punct(">"),
        punct("<"),
        punct("/"),
        punct(">"),
    ])
    .unwrap();
    assert_eq!(
        code,
        "::rust_react::ReactNode::List(vec![::rust_react::ReactNode::Element(\
         ::rust_react::ReactElement { ty: ::rust_react::ReactElementType::Component(Main), \
         props: ::rust_react::empty_props(), \
         children: vec![::rust_react::ReactNode::Text(\"hi\".to_string())] })])"
            .to_string()
    );
}

#[test]
fn text_element_text_keeps_interleaving_order() {
    let node = parse(vec![
        punct("<"),
        ident("a"),
        punct(">"),
        ident("x"),
        punct("<"),
        ident("b"),
        punct(">"),
        punct("<"),
        punct("/"),
        ident("b"),
        punct(">"),
        ident("y"),
        punct("<"),
        punct("/"),
        ident("a"),
        punct(">"),
    ])
    .unwrap();
    let a = element(node);
    assert_eq!(a.children.len(), 3);
    assert!(matches!(&a.children[0], Node::Text(t) if t == "x"));
    assert!(matches!(&a.children[1], Node::Element(e) if e.ty == ElementType::TagName("b".to_string())));
    assert!(matches!(&a.children[2], Node::Text(t) if t == "y"));
}

#[test]
fn emitted_text_literal_is_escaped() {
    let code = emit_node(&Node::Text("a\"b\\c".to_string()));
    assert_eq!(
        code,
        "::rust_react::ReactNode::Text(\"a\\\"b\\\\c\".to_string())".to_string()
    );
}

#[test]
fn expression_nodes_are_emitted_verbatim() {
    assert_eq!(emit_node(&Node::Expr("1 + 2".to_string())), "1 + 2".to_string());
}

#[test]
fn fragment_canonical_rendering() {
    assert_eq!(ElementType::Fragment.canonical(), "Fragment".to_string());
}

#[test]
fn main_builds_the_span_element() {
    let e = Main(MainProps {});
    assert!(matches!(&e.ty, ReactElementType::TagName(n) if n == "span"));
    assert_eq!(e.props.tag, 0);
    assert_eq!(e.children.len(), 1);
    assert!(matches!(&e.children[0], ReactNode::Text(t) if t == "Test {a} [a] (a)"));
}

#[test]
fn typed_props_render_through_erased_dispatch() {
    let erased = MainProps {}.erase();
    let rendered = try_render_untyped(&MainComponent, &erased);
    match rendered {
        Some(ReactNode::Element(e)) => {
            assert!(matches!(&e.ty, ReactElementType::TagName(n) if n == "span"));
        }
        other => panic!("expected the rendered span element, got {:?}", other.is_some()),
    }
}

#[test]
fn mismatched_erased_type_is_refused_not_coerced() {
    let wrong = TextProps { value: "x".to_string() }.erase();
    assert!(try_render_untyped(&MainComponent, &wrong).is_none());
    let also_wrong = empty_props();
    assert!(try_render_untyped(&MainComponent, &also_wrong).is_none());
}

#[test]
fn element_dispatch_pairs_props_with_declared_type() {
    let good = ReactElement {
        ty: ReactElementType::Component(MainComponent.type_id()),
        props: MainProps {}.erase(),
        children: vec![],
    };
    assert!(render_element(&MainComponent, &good).is_some());
    let bad = ReactElement {
        ty: ReactElementType::Component(MainComponent.type_id()),
        props: empty_props(),
        children: vec![],
    };
    assert!(render_element(&MainComponent, &bad).is_none());
}

#[test]
fn component_identity_is_its_own() {
    assert_eq!(MainComponent.type_id(), 3);
    assert_eq!(MainProps::tag(), 2);
}

#[test]
fn resolves_generic_path_to_component() {
    assert_eq!(
        resolve(vec![ident("List"), punct("<"), ident("T"), punct(">"), punct(">")]).unwrap(),
        ElementType::Component("List<T>".to_string())
    );
}

#[test]
fn rejects_unclosed_generic_arguments() {
    let r = resolve(vec![ident("List"), punct("<"), ident("T")]);
    match r {
        Err(TemplateError::MalformedPath(at)) => assert_eq!(at, 2),
        other => panic!("expected a malformed path, got {:?}", other),
    }
}

#[test]
fn rejects_tokens_after_generic_arguments() {
    let r = resolve(vec![
        ident("Foo"),
        punct("<"),
        ident("T"),
        punct(">"),
        ident("x"),
    ]);
    match r {
        Err(TemplateError::MalformedPath(at)) => assert_eq!(at, 4),
        other => panic!("expected a malformed path, got {:?}", other),
    }
}

#[test]
fn generic_component_round_trips_through_template() {
    let code = template(vec![
        punct("<"),
        ident("List"),
        punct("<"),
        ident("T"),
        punct(">"),
        punct(">"),
        punct("<"),
        punct("/"),
        ident("List"),
        punct("<"),
        ident("T"),
        punct(">"),
        punct(">"),
    ])
    .unwrap();
    assert_eq!(
        code,
        "::rust_react::ReactNode::Element(::rust_react::ReactElement { \
         ty: ::rust_react::ReactElementType::Component(List<T>), \
         props: ::rust_react::empty_props(), \
         children: vec![] })"
            .to_string()
    );
}

#[test]
fn emitted_literal_escapes_control_characters() {
    let code = emit_node(&Node::Text("a\nb\tc\rd".to_string()));
    assert_eq!(
        code,
        "::rust_react::ReactNode::Text(\"a\\nb\\tc\\rd\".to_string())".to_string()
    );
}
