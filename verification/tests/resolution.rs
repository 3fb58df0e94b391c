use macro_resolver::built_in;
use macro_resolver::definition::BodyBuilder;
use macro_resolver::definition::Definition;
use macro_resolver::definition::SegmentDefinition;
use macro_resolver::pattern;
use macro_resolver::resolver::Resolver;
use macro_resolver::resolver::SegmentMap;
use macro_resolver::syntax::Item;
use macro_resolver::syntax::Tree;
use macro_resolver::syntax::TreeVariant;
use macro_resolver::token::Token;

fn ident(code: &str) -> Item {
    Item::Token(Token::ident(String::new(), code.to_owned()))
}

fn sym(code: &str) -> Item {
    Item::Token(Token::symbol(String::new(), code.to_owned()))
}

fn comma() -> Item {
    Item::Token(Token::operator(String::new(), ",".to_owned(), true))
}

fn newline() -> Item {
    Item::Token(Token::newline())
}

fn run(map: &SegmentMap, items: Vec<Item>) -> Tree {
    Resolver::new_root().run(map, items)
}

fn ident_code(t: &Tree) -> &str {
    match &t.variant {
        TreeVariant::Ident { token } => token.code.as_str(),
        _ => panic!("expected an identifier leaf"),
    }
}

#[test]
fn plain_run_is_one_root_segment() {
    // No registered header occurs: the whole input reaches operator
    // resolution as one run, becoming an application chain.
    let map = built_in::all();
    let tree = run(&map, vec![ident("a"), ident("b")]);
    match &tree.variant {
        TreeVariant::App { func, arg } => {
            assert_eq!(ident_code(func), "a");
            assert_eq!(ident_code(arg), "b");
        },
        other => panic!("expected an application, got {:?}", other),
    }
}

#[test]
fn newline_terminates_resolution() {
    let map = built_in::all();
    let tree = run(&map, vec![ident("a"), newline(), ident("b")]);
    assert_eq!(ident_code(&tree), "a");
}

#[test]
fn nested_groups_resolve_innermost_last() {
    let map = built_in::all();
    let tree = run(&map, vec![sym("("), sym("("), ident("a"), sym(")"), sym(")")]);
    match &tree.variant {
        TreeVariant::Group { open, body, close } => {
            assert_eq!(open.code, "(");
            assert_eq!(close.code, ")");
            match &body.as_ref().expect("outer group body").variant {
                TreeVariant::Group { body: inner, .. } => {
                    let inner = inner.as_ref().expect("inner group body");
                    assert_eq!(ident_code(inner), "a");
                },
                other => panic!("expected the inner group, got {:?}", other),
            }
        },
        other => panic!("expected a group, got {:?}", other),
    }
}

#[test]
fn if_then_matches_two_segments() {
    let map = built_in::all();
    let tree = run(&map, vec![ident("if"), ident("a"), ident("then"), ident("b")]);
    match &tree.variant {
        TreeVariant::MultiSegmentApp { segments } => {
            assert_eq!(segments.len(), 2);
            assert_eq!(segments[0].header.code, "if");
            assert_eq!(segments[1].header.code, "then");
            let b = segments[1].body.as_ref().expect("then body");
            assert_eq!(ident_code(b), "b");
        },
        other => panic!("expected a two-segment match, got {:?}", other),
    }
}

#[test]
fn if_then_else_promotes_to_three_segments() {
    let map = built_in::all();
    let tree = run(
        &map,
        vec![
            ident("if"),
            ident("a"),
            ident("then"),
            ident("b"),
            ident("else"),
            ident("c"),
        ],
    );
    match &tree.variant {
        TreeVariant::MultiSegmentApp { segments } => {
            assert_eq!(segments.len(), 3);
            assert_eq!(segments[2].header.code, "else");
        },
        other => panic!("expected a three-segment match, got {:?}", other),
    }
}

#[test]
fn inner_if_closes_before_outer_then() {
    let map = built_in::all();
    let tree = run(
        &map,
        vec![
            ident("if"),
            ident("a"),
            ident("if"),
            ident("b"),
            ident("then"),
            ident("c"),
            ident("then"),
            ident("d"),
        ],
    );
    match &tree.variant {
        TreeVariant::MultiSegmentApp { segments } => {
            assert_eq!(segments.len(), 2);
            assert_eq!(segments[1].header.code, "then");
            let d = segments[1].body.as_ref().expect("outer then body");
            assert_eq!(ident_code(d), "d");
            // The outer if-segment holds `a` applied to the completed inner
            // if/then.
            match &segments[0].body.as_ref().expect("outer if body").variant {
                TreeVariant::App { func, arg } => {
                    assert_eq!(ident_code(func), "a");
                    match &arg.variant {
                        TreeVariant::MultiSegmentApp { segments: inner } => {
                            assert_eq!(inner.len(), 2);
                            let c = inner[1].body.as_ref().expect("inner then body");
                            assert_eq!(ident_code(c), "c");
                        },
                        other => panic!("expected the inner if/then, got {:?}", other),
                    }
                },
                other => panic!("expected an application, got {:?}", other),
            }
        },
        other => panic!("expected the outer if/then, got {:?}", other),
    }
}

#[test]
fn group_leftover_returns_to_enclosing_context() {
    let map = built_in::all();
    let tree = run(
        &map,
        vec![sym("("), ident("a"), sym(")"), ident("x"), sym("("), ident("b"), sym(")")],
    );
    // `(a)` resolves first; `x` and `(b)` are its leftover, rebuilt in order
    // into the enclosing application chain.
    match &tree.variant {
        TreeVariant::App { func, arg } => {
            match &arg.variant {
                TreeVariant::Group { body, .. } => {
                    let b = body.as_ref().expect("second group body");
                    assert_eq!(ident_code(b), "b");
                },
                other => panic!("expected the second group, got {:?}", other),
            }
            match &func.variant {
                TreeVariant::App { func: f2, arg: x } => {
                    assert_eq!(ident_code(x), "x");
                    assert!(matches!(&f2.variant, TreeVariant::Group { .. }));
                },
                other => panic!("expected the first group applied to x, got {:?}", other),
            }
        },
        other => panic!("expected an application chain, got {:?}", other),
    }
}

#[test]
fn duplicate_registration_keeps_the_outcome() {
    let map = built_in::all();
    let mut twice = built_in::all();
    twice.register(built_in::if_then());
    let input = || vec![ident("if"), ident("a"), ident("then"), ident("b")];
    let t1 = run(&map, input());
    let t2 = run(&twice, input());
    match (&t1.variant, &t2.variant) {
        (
            TreeVariant::MultiSegmentApp { segments: s1 },
            TreeVariant::MultiSegmentApp { segments: s2 },
        ) => {
            assert_eq!(s1.len(), s2.len());
            assert_eq!(s1[0].header.code, s2[0].header.code);
            assert_eq!(s1[1].header.code, s2[1].header.code);
            let b1 = s1[1].body.as_ref().expect("body");
            let b2 = s2[1].body.as_ref().expect("body");
            assert_eq!(ident_code(b1), ident_code(b2));
        },
        other => panic!("expected matching two-segment matches, got {:?}", other),
    }
}

#[test]
fn array_splits_sequence_left_to_right() {
    let map = built_in::all();
    let tree = run(
        &map,
        vec![sym("["), ident("e1"), comma(), ident("e2"), comma(), ident("e3"), sym("]")],
    );
    match &tree.variant {
        TreeVariant::Array { left, first, rest, right } => {
            assert_eq!(left.code, "[");
            assert_eq!(right.code, "]");
            let first = first.as_ref().expect("first element");
            assert_eq!(ident_code(first), "e1");
            assert_eq!(rest.len(), 2);
            assert_eq!(rest[0].operator.code, ",");
            assert_eq!(ident_code(&rest[0].body), "e2");
            assert_eq!(rest[1].operator.code, ",");
            assert_eq!(ident_code(&rest[1].body), "e3");
        },
        other => panic!("expected an array literal, got {:?}", other),
    }
}

#[test]
fn tuple_splits_like_an_array() {
    let map = built_in::all();
    let tree = run(&map, vec![sym("{"), ident("e1"), comma(), ident("e2"), sym("}")]);
    match &tree.variant {
        TreeVariant::Tuple { first, rest, .. } => {
            assert_eq!(ident_code(first.as_ref().expect("first")), "e1");
            assert_eq!(rest.len(), 1);
            assert_eq!(ident_code(&rest[0].body), "e2");
        },
        other => panic!("expected a tuple literal, got {:?}", other),
    }
}

#[test]
fn lambda_consumes_everything_after_the_backslash() {
    let map = built_in::all();
    let tree = run(&map, vec![sym("\\"), ident("x")]);
    match &tree.variant {
        TreeVariant::Lambda { operator, arrow } => {
            assert_eq!(operator.code, "\\");
            assert_eq!(ident_code(arrow.as_ref().expect("arrow")), "x");
        },
        other => panic!("expected a lambda, got {:?}", other),
    }
}

#[test]
fn import_segments_fill_named_slots() {
    let map = built_in::all();
    let tree = run(&map, vec![ident("from"), ident("x"), ident("import"), ident("y")]);
    match &tree.variant {
        TreeVariant::Import { polyglot, from, import, hiding, .. } => {
            assert!(polyglot.is_none());
            assert!(hiding.is_none());
            let from = from.as_ref().expect("from slot");
            assert_eq!(from.header.code, "from");
            assert_eq!(import.header.code, "import");
            let y = import.body.as_ref().expect("import body");
            assert_eq!(ident_code(y), "y");
        },
        other => panic!("expected an import, got {:?}", other),
    }
}

#[test]
fn export_segments_fill_named_slots() {
    let map = built_in::all();
    let tree = run(&map, vec![ident("export"), ident("y"), ident("as"), ident("z")]);
    match &tree.variant {
        TreeVariant::Export { export, export_as, .. } => {
            assert_eq!(export.header.code, "export");
            let alias = export_as.as_ref().expect("export alias");
            assert_eq!(ident_code(alias.body.as_ref().expect("alias body")), "z");
        },
        other => panic!("expected an export, got {:?}", other),
    }
}

#[test]
fn case_block_lines_become_case_lines() {
    let map = built_in::all();
    let block = Item::Block(vec![newline(), ident("x"), newline(), ident("y")]);
    let tree = run(&map, vec![ident("case"), ident("s"), ident("of"), block]);
    match &tree.variant {
        TreeVariant::CaseOf { case, expression, of, initial, lines } => {
            assert_eq!(case.code, "case");
            assert_eq!(of.code, "of");
            assert_eq!(ident_code(expression.as_ref().expect("scrutinee")), "s");
            assert!(initial.is_none());
            assert_eq!(lines.len(), 2);
            assert_eq!(ident_code(lines[0].expression.as_ref().expect("line")), "x");
            assert_eq!(ident_code(lines[1].expression.as_ref().expect("line")), "y");
        },
        other => panic!("expected a case expression, got {:?}", other),
    }
}

#[test]
fn type_definition_splits_constructors_from_body() {
    let map = built_in::all();
    let block = Item::Block(vec![
        newline(),
        ident("Bar"),
        ident("x"),
        newline(),
        Item::Token(Token::operator(String::new(), "=".to_owned(), false)),
        ident("q"),
    ]);
    let tree = run(&map, vec![ident("type"), ident("Foo"), ident("a"), block]);
    match &tree.variant {
        TreeVariant::TypeDef { keyword, name, params, constructors, body } => {
            assert_eq!(keyword.code, "type");
            assert_eq!(ident_code(name), "Foo");
            assert_eq!(params.len(), 1);
            assert_eq!(ident_code(&params[0]), "a");
            assert_eq!(constructors.len(), 1);
            let ctor = constructors[0].expression.as_ref().expect("constructor");
            assert_eq!(ctor.constructor.code, "Bar");
            assert_eq!(ctor.arguments.len(), 1);
            // The operator-led line is no constructor: it switches the rest
            // of the block into body mode.
            assert_eq!(body.len(), 1);
        },
        other => panic!("expected a type definition, got {:?}", other),
    }
    assert!(tree.error.is_none());
}

#[test]
fn type_without_name_carries_an_error() {
    let map = built_in::all();
    let tree = run(&map, vec![ident("type")]);
    assert!(tree.error.is_some());
    assert!(matches!(&tree.variant, TreeVariant::TypeDef { .. }));
}

#[test]
fn header_sequences_alone_match_their_definitions() {
    // Feeding exactly a definition's headers yields as many matched segments
    // as the definition has.
    let map = built_in::all();
    match &run(&map, vec![ident("if"), ident("then")]).variant {
        TreeVariant::MultiSegmentApp { segments } => assert_eq!(segments.len(), 2),
        other => panic!("expected two segments, got {:?}", other),
    }
    match &run(&map, vec![ident("if"), ident("then"), ident("else")]).variant {
        TreeVariant::MultiSegmentApp { segments } => assert_eq!(segments.len(), 3),
        other => panic!("expected three segments, got {:?}", other),
    }
    assert!(matches!(
        &run(&map, vec![sym("("), sym(")")]).variant,
        TreeVariant::Group { .. }
    ));
    assert!(matches!(
        &run(&map, vec![sym("["), sym("]")]).variant,
        TreeVariant::Array { .. }
    ));
    assert!(matches!(
        &run(&map, vec![ident("case"), ident("of")]).variant,
        TreeVariant::CaseOf { .. }
    ));
    assert!(matches!(&run(&map, vec![sym("\\")]).variant, TreeVariant::Lambda { .. }));
}

#[test]
fn unclosed_group_is_an_unmatched_node() {
    let map = built_in::all();
    let tree = run(&map, vec![sym("("), ident("a")]);
    // The group never saw `)`, so no definition fully matched: the instance
    // becomes an unmatched node inside the root expression.
    match &tree.variant {
        TreeVariant::Unmatched { segments } => {
            assert_eq!(segments.len(), 1);
            assert_eq!(segments[0].header.code, "(");
        },
        other => panic!("expected an unmatched node, got {:?}", other),
    }
    assert!(tree.error.is_some());
}

#[test]
fn non_final_leftover_is_an_error_node() {
    // A definition whose first segment requires an empty body: items before
    // `end` are leftover in a non-final segment, an unresolved-syntax
    // condition.
    let mut map = built_in::all();
    map.register(Definition::new(
        vec![
            SegmentDefinition::new("begin", pattern::nothing()),
            SegmentDefinition::new("end", pattern::everything()),
        ],
        BodyBuilder::MultiSegmentApp,
    ));
    let tree = run(&map, vec![ident("begin"), ident("x"), ident("end")]);
    match &tree.variant {
        TreeVariant::Unmatched { segments } => {
            assert_eq!(segments.len(), 2);
            assert_eq!(segments[0].header.code, "begin");
            assert_eq!(segments[1].header.code, "end");
            assert_eq!(segments[0].body.len(), 1);
        },
        other => panic!("expected an unmatched node, got {:?}", other),
    }
    assert_eq!(tree.error.as_deref(), Some("Unexpected tokens in macro segment."));
}
