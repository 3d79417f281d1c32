use pbrs::lexer::identifier::{
    Block, Field, GrammarError, Identifier, Kind, Property, Rpc, Scalar,
};
use pbrs::lexer::{group_tokens, into_blocks, translate, TokenGroup};

fn strings(words: &[&str]) -> Vec<String> {
    words.iter().map(|w| w.to_string()).collect()
}

#[test]
fn identify_kind() {
    let tokens = vec!["message", "Foo", "{", "}"];
    let result = Identifier::identify::<(Option<&str>, Kind)>(tokens, None);

    assert_eq!(result, Ok((Some("Foo"), Kind::Message(Vec::new()))));
}

#[test]
fn identify_field() {
    let tokens = vec!["int32", "foo", "=", "1", ";"];
    let result = Identifier::identify::<Field>(tokens, None);

    assert_eq!(
        result,
        Ok(Field::Property(Property {
            scalar: Scalar::Int32,
            name: "foo",
            value: 1
        }))
    );
}

#[test]
fn group_empty_message() {
    let tokens = strings(&["message", "Foo", "{", "}"]);
    let groups = group_tokens(&tokens);

    assert_eq!(groups, vec![TokenGroup(vec!["message", "Foo"], Some(vec![]))]);
}

#[test]
fn group_statement_is_leaf() {
    let tokens = strings(&["package", "foobar", ";"]);
    let groups = group_tokens(&tokens);

    assert_eq!(groups, vec![TokenGroup(vec!["package", "foobar"], None)]);
}

#[test]
fn group_nested_levels() {
    let tokens = strings(&[
        "message", "A", "{", "int32", "x", "=", "1", ";", "message", "B", "{", "bool", "y", "=",
        "2", ";", "}", "}", "package", "p", ";",
    ]);
    let groups = group_tokens(&tokens);

    assert_eq!(
        groups,
        vec![
            TokenGroup(
                vec!["message", "A"],
                Some(vec![
                    TokenGroup(vec!["int32", "x", "=", "1"], None),
                    TokenGroup(
                        vec!["message", "B"],
                        Some(vec![TokenGroup(vec!["bool", "y", "=", "2"], None)])
                    ),
                ])
            ),
            TokenGroup(vec!["package", "p"], None),
        ]
    );
}

#[test]
fn group_drops_trailing_tokens() {
    let tokens = strings(&["package", "a", ";", "message", "Foo"]);
    let groups = group_tokens(&tokens);

    assert_eq!(groups, vec![TokenGroup(vec!["package", "a"], None)]);
}

#[test]
fn group_stops_at_excess_closing_brace() {
    let tokens = strings(&["package", "a", ";", "}", "package", "b", ";"]);
    let groups = group_tokens(&tokens);

    assert_eq!(groups, vec![TokenGroup(vec!["package", "a"], None)]);
}

#[test]
fn group_unclosed_level_runs_to_the_end() {
    let tokens = strings(&["message", "Foo", "{", "int32", "a", "=", "1", ";"]);
    let groups = group_tokens(&tokens);

    assert_eq!(
        groups,
        vec![TokenGroup(
            vec!["message", "Foo"],
            Some(vec![TokenGroup(vec!["int32", "a", "=", "1"], None)])
        )]
    );
}

#[test]
fn group_of_nothing() {
    let tokens: Vec<String> = Vec::new();

    assert_eq!(group_tokens(&tokens), Vec::<TokenGroup>::new());
}

#[test]
fn group_empty_statement_has_empty_head() {
    let tokens = strings(&[";"]);

    assert_eq!(group_tokens(&tokens), vec![TokenGroup(vec![], None)]);
}

#[test]
fn classify_empty_message() {
    let tokens = strings(&["message", "Foo", "{", "}"]);
    let blocks = translate(&tokens);

    assert_eq!(
        blocks,
        Ok(vec![Block {
            identifier: Some("Foo"),
            kind: Kind::Message(vec![])
        }])
    );
}

#[test]
fn classify_service_with_rpc() {
    let tokens = strings(&[
        "service", "Bar", "{", "rpc", "Foo", "(", "Request", ")", "returns", "(", "Response", ")",
        "{", "}", "}",
    ]);
    let blocks = translate(&tokens);

    assert_eq!(
        blocks,
        Ok(vec![Block {
            identifier: Some("Bar"),
            kind: Kind::Service(vec![Field::Rpc(Rpc {
                name: "Foo",
                params: ("Request", "Response")
            })])
        }])
    );
}

#[test]
fn classify_directives() {
    let tokens = strings(&[
        "syntax", "=", "\"", "proto3", "\"", ";", "package", "foobar", ";",
    ]);
    let blocks = translate(&tokens);

    assert_eq!(
        blocks,
        Ok(vec![
            Block {
                identifier: None,
                kind: Kind::Syntax("proto3")
            },
            Block {
                identifier: None,
                kind: Kind::Package("foobar")
            },
        ])
    );
}

#[test]
fn classify_unknown_keyword_at_top_level() {
    let tokens = strings(&["import", "x", ";", "int32", "a", "=", "1", ";"]);
    let blocks = translate(&tokens);

    assert_eq!(
        blocks,
        Ok(vec![
            Block {
                identifier: None,
                kind: Kind::Unknown
            },
            Block {
                identifier: None,
                kind: Kind::Unknown
            },
        ])
    );
}

#[test]
fn classify_nested_message_as_block_field() {
    let tokens = strings(&[
        "message", "A", "{", "message", "B", "{", "string", "s", "=", "7", ";", "}", "}",
    ]);
    let blocks = translate(&tokens);

    assert_eq!(
        blocks,
        Ok(vec![Block {
            identifier: Some("A"),
            kind: Kind::Message(vec![Field::Block(Block {
                identifier: Some("B"),
                kind: Kind::Message(vec![Field::Property(Property {
                    scalar: Scalar::String,
                    name: "s",
                    value: 7
                })])
            })])
        }])
    );
}

#[test]
fn classify_all_scalars() {
    let int = Identifier::identify::<Field>(vec!["int32", "a", "=", "1"], None);
    let text = Identifier::identify::<Field>(vec!["string", "b", "=", "2"], None);
    let flag = Identifier::identify::<Field>(vec!["bool", "c", "=", "3"], None);

    assert_eq!(
        int,
        Ok(Field::Property(Property { scalar: Scalar::Int32, name: "a", value: 1 }))
    );
    assert_eq!(
        text,
        Ok(Field::Property(Property { scalar: Scalar::String, name: "b", value: 2 }))
    );
    assert_eq!(
        flag,
        Ok(Field::Property(Property { scalar: Scalar::Bool, name: "c", value: 3 }))
    );
}

#[test]
fn scalar_keywords() {
    let this = Identifier { tokens: vec![], children: None };

    assert_eq!(this.scalar("int32"), Some(Scalar::Int32));
    assert_eq!(this.scalar("string"), Some(Scalar::String));
    assert_eq!(this.scalar("bool"), Some(Scalar::Bool));
    assert_eq!(this.scalar("float"), None);
    assert_eq!(this.scalar("Int32"), None);
    assert_eq!(this.scalar(""), None);
}

#[test]
fn missing_identifier_is_malformed() {
    let tokens = strings(&["message", "{", "}"]);

    assert_eq!(translate(&tokens), Err(GrammarError::MissingToken));
}

#[test]
fn empty_head_is_malformed() {
    let tokens = strings(&[";"]);

    assert_eq!(translate(&tokens), Err(GrammarError::MissingToken));
    assert_eq!(
        Identifier::identify::<Field>(vec![], None),
        Err(GrammarError::MissingToken)
    );
}

#[test]
fn short_directives_are_malformed() {
    assert_eq!(
        Identifier::identify::<(Option<&str>, Kind)>(vec!["package"], None),
        Err(GrammarError::MissingToken)
    );
    assert_eq!(
        Identifier::identify::<(Option<&str>, Kind)>(vec!["syntax", "=", "\""], None),
        Err(GrammarError::MissingToken)
    );
}

#[test]
fn short_rpc_is_malformed() {
    let result = Identifier::identify::<Field>(
        vec!["rpc", "Foo", "(", "Request", ")", "returns", "("],
        Some(vec![]),
    );

    assert_eq!(result, Err(GrammarError::MissingToken));
}

#[test]
fn short_property_is_malformed() {
    let result = Identifier::identify::<Field>(vec!["int32", "a", "="], None);

    assert_eq!(result, Err(GrammarError::MissingToken));
}

#[test]
fn unknown_scalar_is_malformed() {
    let result = Identifier::identify::<Field>(vec!["float", "a", "=", "1"], None);

    assert_eq!(result, Err(GrammarError::UnknownScalar));
}

#[test]
fn unknown_scalar_is_found_before_missing_tokens() {
    let result = Identifier::identify::<Field>(vec!["package"], None);

    assert_eq!(result, Err(GrammarError::UnknownScalar));
}

#[test]
fn invalid_tag_is_malformed() {
    let word = Identifier::identify::<Field>(vec!["int32", "a", "=", "one"], None);
    let mixed = Identifier::identify::<Field>(vec!["int32", "a", "=", "1a"], None);
    let large = Identifier::identify::<Field>(vec!["int32", "a", "=", "2147483648"], None);

    assert_eq!(word, Err(GrammarError::InvalidTag));
    assert_eq!(mixed, Err(GrammarError::InvalidTag));
    assert_eq!(large, Err(GrammarError::InvalidTag));
}

#[test]
fn largest_tag_is_read() {
    let result = Identifier::identify::<Field>(vec!["int32", "a", "=", "2147483647"], None);

    assert_eq!(
        result,
        Ok(Field::Property(Property { scalar: Scalar::Int32, name: "a", value: 2147483647 }))
    );
}

#[test]
fn first_malformed_field_gives_the_error() {
    let tokens = strings(&[
        "message", "A", "{", "int32", "a", "=", "x", ";", "float", "b", "=", "2", ";", "}",
    ]);

    assert_eq!(translate(&tokens), Err(GrammarError::InvalidTag));
}

#[test]
fn first_malformed_group_gives_the_error() {
    let groups = vec![
        TokenGroup(vec!["package", "a"], None),
        TokenGroup(vec!["message"], Some(vec![])),
        TokenGroup(vec![], None),
    ];

    assert_eq!(into_blocks(groups), Err(GrammarError::MissingToken));
}

#[test]
fn error_inside_nested_block_is_reported() {
    let tokens = strings(&[
        "message", "A", "{", "message", "B", "{", "double", "d", "=", "1", ";", "}", "}",
    ]);

    assert_eq!(translate(&tokens), Err(GrammarError::UnknownScalar));
}

#[test]
fn kind_and_field_of_an_identifier() {
    let as_kind = Identifier { tokens: vec!["service", "S"], children: Some(vec![]) }.kind();
    let as_field = Identifier { tokens: vec!["service", "S"], children: Some(vec![]) }.field();

    assert_eq!(as_kind, Ok((Some("S"), Kind::Service(vec![]))));
    assert_eq!(
        as_field,
        Ok(Field::Block(Block { identifier: Some("S"), kind: Kind::Service(vec![]) }))
    );
}

#[test]
fn node_collects_heads_into_groups() {
    let mut node = pbrs::lexer::Node::default();
    node.tokens.push("package");
    node.tokens.push("a");
    node.push(None);
    node.tokens.push("message");
    assert_eq!(node.drain(), vec!["message"]);
    assert_eq!(node.drain(), Vec::<&str>::new());
    node.push(Some(vec![]));

    assert_eq!(
        node.groups,
        vec![TokenGroup(vec!["package", "a"], None), TokenGroup(vec![], Some(vec![]))]
    );
}

#[test]
fn graph_holds_blocks_and_package() {
    let graph = pbrs::lexer::Graph {
        blocks: vec![Block { identifier: Some("Foo"), kind: Kind::Message(vec![]) }],
        package: Some("foobar".to_string()),
    };

    assert_eq!(graph.blocks.len(), 1);
    assert_eq!(graph.package, Some("foobar".to_string()));
    assert_eq!(
        graph,
        pbrs::lexer::Graph {
            blocks: vec![Block { identifier: Some("Foo"), kind: Kind::Message(vec![]) }],
            package: Some("foobar".to_string()),
        }
    );
}
