use pbrs::lexer::identifier::{Block, Field, Kind, Property, Rpc, Scalar};
use pbrs::parser::{indent, parse_prop, translate, wrap_module, Config, Parser};

fn create_message<'a>() -> Vec<Block<'a>> {
    let fields = vec![Field::Property(Property {
        scalar: Scalar::Int32,
        name: "bar",
        value: 1,
    })];

    vec![Block {
        identifier: Some("Foo"),
        kind: Kind::Message(fields),
    }]
}

fn text(s: &str) -> Result<String, pbrs::tokeniser::PatternError> {
    Ok(s.to_string())
}

#[test]
fn translate_struct() {
    let input = create_message();
    let result = translate(input);

    assert_eq!(result, text("pub struct Foo {\n  pub bar: i32\n}"));
}

#[test]
fn translate_trait() {
    let fields = vec![Field::Rpc(Rpc {
        name: "Foo",
        params: ("Request", "Response"),
    })];
    let input = vec![Block {
        identifier: Some("Bar"),
        kind: Kind::Service(fields),
    }];
    let result = translate(input);

    assert_eq!(
        result,
        text(
            "pub struct BarClient {}\n\npub trait Bar {\n  fn foo(req: Request) -> \
             Response {\n    Response::default()\n  }\n}"
        )
    );
}

#[test]
fn wrap_package() {
    let mut input = create_message();

    input.push(Block {
        identifier: None,
        kind: Kind::Package("foobar"),
    });

    let result = translate(input);

    assert_eq!(
        result,
        text("pub mod foobar {\n  pub struct Foo {\n    pub bar: i32\n  }\n}")
    );
}

#[test]
fn wrap_package_given_first() {
    let mut input = vec![Block {
        identifier: None,
        kind: Kind::Package("foobar"),
    }];
    input.extend(create_message());

    assert_eq!(
        translate(input),
        text("pub mod foobar {\n  pub struct Foo {\n    pub bar: i32\n  }\n}")
    );
}

#[test]
fn last_package_names_the_module() {
    let input = vec![
        Block { identifier: None, kind: Kind::Package("first") },
        Block { identifier: Some("Foo"), kind: Kind::Message(vec![]) },
        Block { identifier: None, kind: Kind::Package("second") },
    ];

    assert_eq!(translate(input), text("pub mod second {\n  pub struct Foo {\n  \n  }\n}"));
}

#[test]
fn package_alone_wraps_nothing() {
    let input = vec![Block { identifier: None, kind: Kind::Package("only") }];

    assert_eq!(translate(input), text("pub mod only {\n  \n}"));
}

#[test]
fn translate_empty_message() {
    let input = vec![Block { identifier: Some("Foo"), kind: Kind::Message(vec![]) }];

    assert_eq!(translate(input), text("pub struct Foo {\n\n}"));
}

#[test]
fn translate_nothing() {
    assert_eq!(translate(vec![]), text(""));
}

#[test]
fn syntax_and_unknown_give_no_text() {
    let input = vec![
        Block { identifier: None, kind: Kind::Syntax("proto3") },
        Block { identifier: None, kind: Kind::Unknown },
        Block { identifier: Some("Foo"), kind: Kind::Message(vec![]) },
    ];

    assert_eq!(translate(input), text("pub struct Foo {\n\n}"));
}

#[test]
fn units_are_separated_by_an_empty_line() {
    let input = vec![
        Block { identifier: Some("A"), kind: Kind::Message(vec![]) },
        Block { identifier: Some("B"), kind: Kind::Message(vec![]) },
    ];

    assert_eq!(translate(input), text("pub struct A {\n\n}\n\npub struct B {\n\n}"));
}

#[test]
fn fields_are_separated_by_comma_and_line_end() {
    let fields = vec![
        Field::Property(Property { scalar: Scalar::Int32, name: "a", value: 1 }),
        Field::Property(Property { scalar: Scalar::String, name: "b", value: 2 }),
        Field::Property(Property { scalar: Scalar::Bool, name: "c", value: 3 }),
    ];
    let input = vec![Block { identifier: Some("Foo"), kind: Kind::Message(fields) }];

    assert_eq!(
        translate(input),
        text("pub struct Foo {\n  pub a: i32,\n  pub b: String,\n  pub c: bool\n}")
    );
}

#[test]
fn nested_message_is_hoisted() {
    let inner = Block {
        identifier: Some("InnerPart"),
        kind: Kind::Message(vec![Field::Property(Property {
            scalar: Scalar::Bool,
            name: "on",
            value: 1,
        })]),
    };
    let input = vec![Block {
        identifier: Some("Outer"),
        kind: Kind::Message(vec![Field::Block(inner)]),
    }];

    assert_eq!(
        translate(input),
        text(
            "pub struct InnerPart {\n  pub on: bool\n}\n\npub struct Outer {\n  pub inner_part: \
             InnerPart\n}"
        )
    );
}

#[test]
fn deeper_nesting_is_hoisted_innermost_first() {
    let c = Block { identifier: Some("C"), kind: Kind::Message(vec![]) };
    let b = Block { identifier: Some("B"), kind: Kind::Message(vec![Field::Block(c)]) };
    let a = Block { identifier: Some("A"), kind: Kind::Message(vec![Field::Block(b)]) };

    assert_eq!(
        translate(vec![a]),
        text(
            "pub struct C {\n\n}\n\npub struct B {\n  pub c: C\n}\n\npub struct A {\n  pub b: \
             B\n}"
        )
    );
}

#[test]
fn nested_service_brings_its_client() {
    let s = Block { identifier: Some("Svc"), kind: Kind::Service(vec![]) };
    let a = Block { identifier: Some("A"), kind: Kind::Message(vec![Field::Block(s)]) };

    assert_eq!(
        translate(vec![a]),
        text(
            "pub struct SvcClient {}\n\npub trait Svc {\n\n}\n\npub struct A {\n  pub svc: \
             Svc\n}"
        )
    );
}

#[test]
fn hoisted_units_come_before_all_definitions() {
    let inner = Block { identifier: Some("In"), kind: Kind::Message(vec![]) };
    let input = vec![
        Block { identifier: Some("First"), kind: Kind::Message(vec![]) },
        Block { identifier: Some("Second"), kind: Kind::Message(vec![Field::Block(inner)]) },
        Block { identifier: Some("Third"), kind: Kind::Service(vec![]) },
    ];

    assert_eq!(
        translate(input),
        text(
            "pub struct In {\n\n}\n\npub struct ThirdClient {}\n\npub struct First \
             {\n\n}\n\npub struct Second {\n  pub in: In\n}\n\npub trait Third {\n\n}"
        )
    );
}

#[test]
fn nested_directive_leaves_an_empty_unit() {
    let p = Block { identifier: None, kind: Kind::Package("pkg") };
    let a = Block { identifier: Some("A"), kind: Kind::Message(vec![Field::Block(p)]) };

    assert_eq!(
        translate(vec![a]),
        text("pub mod pkg {\n  \n  \n  pub struct A {\n    pub : \n  }\n}")
    );
}

#[test]
fn rpc_name_is_rendered_in_snake_case() {
    let fields = vec![Field::Rpc(Rpc { name: "SayHello", params: ("HelloRequest", "HelloReply") })];
    let input = vec![Block { identifier: Some("Greeter"), kind: Kind::Service(fields) }];

    assert_eq!(
        translate(input),
        text(
            "pub struct GreeterClient {}\n\npub trait Greeter {\n  fn say_hello(req: \
             HelloRequest) -> HelloReply {\n    HelloReply::default()\n  }\n}"
        )
    );
}

#[test]
fn package_indents_every_line() {
    let fields = vec![Field::Rpc(Rpc { name: "Foo", params: ("Request", "Response") })];
    let input = vec![
        Block { identifier: None, kind: Kind::Package("foobar") },
        Block { identifier: Some("Bar"), kind: Kind::Service(fields) },
    ];

    assert_eq!(
        translate(input),
        text(
            "pub mod foobar {\n  pub struct BarClient {}\n  \n  pub trait Bar {\n    fn \
             foo(req: Request) -> Response {\n      Response::default()\n    }\n  }\n}"
        )
    );
}

#[test]
fn rendering_twice_gives_the_same_text() {
    let first = translate(create_message());
    let second = translate(create_message());

    assert_eq!(first, second);
}

#[test]
fn indent_is_two_spaces_a_level() {
    assert_eq!(indent(0), "");
    assert_eq!(indent(1), "  ");
    assert_eq!(indent(3), "      ");
    assert_eq!(indent(255).len(), 510);
}

#[test]
fn scalar_names() {
    assert_eq!(parse_prop(Scalar::Int32), "i32");
    assert_eq!(parse_prop(Scalar::Bool), "bool");
    assert_eq!(parse_prop(Scalar::String), "String");
}

#[test]
fn wrap_module_writes_the_frame() {
    assert_eq!(wrap_module("m", "  x"), "pub mod m {\n  x\n}");
    assert_eq!(wrap_module("", ""), "pub mod  {\n\n}");
}

#[test]
fn parser_keeps_what_it_has_met() {
    let mut parser = Parser::default();
    let first = parser.parse(vec![
        Block { identifier: None, kind: Kind::Syntax("proto3") },
        Block { identifier: Some("S"), kind: Kind::Service(vec![]) },
    ]);

    assert_eq!(first, text("pub struct SClient {}\n\npub trait S {\n\n}"));
    assert_eq!(parser.config.syntax, Some("proto3"));
    assert_eq!(parser.config.package, None);
    assert_eq!(parser.root, vec!["pub struct SClient {}".to_string()]);

    let second = parser.parse(vec![Block { identifier: None, kind: Kind::Package("p") }]);

    assert_eq!(second, text("pub mod p {\n  pub struct SClient {}\n}"));
    assert_eq!(parser.config.package, Some("p"));
}

#[test]
fn parser_steps() {
    let mut parser = Parser { config: Config { package: None, syntax: None }, root: vec![] };
    let inner = Block { identifier: Some("In"), kind: Kind::Message(vec![]) };
    let line = parser.format_field(&Field::Block(inner));

    assert_eq!(line, "  pub in: In");
    assert_eq!(parser.root, vec!["pub struct In {\n\n}".to_string()]);

    let body = parser.format_block("struct", "X", &vec![]);
    assert_eq!(body, "pub struct X {\n\n}");

    let member = parser.format_property("name".to_string(), "Type".to_string());
    assert_eq!(member, "  pub name: Type");

    let none = parser.parse_block(&Block { identifier: None, kind: Kind::Unknown });
    assert_eq!(none, None);

    assert_eq!(parser.result("a\nb".to_string()), text("a\nb"));
    parser.config.package = Some("m");
    assert_eq!(parser.result("a\nb".to_string()), text("pub mod m {\n  a\n  b\n}"));
}

#[test]
fn tags_do_not_reach_the_output() {
    let with = |tag: i32| {
        vec![
            Block { identifier: None, kind: Kind::Package("p") },
            Block {
                identifier: Some("Foo"),
                kind: Kind::Message(vec![
                    Field::Property(Property { scalar: Scalar::Int32, name: "a", value: tag }),
                    Field::Block(Block {
                        identifier: Some("In"),
                        kind: Kind::Message(vec![Field::Property(Property {
                            scalar: Scalar::Bool,
                            name: "b",
                            value: tag - 1,
                        })]),
                    }),
                ]),
            },
        ]
    };

    assert_eq!(translate(with(1)), translate(with(i32::MAX)));
    assert_eq!(
        translate(with(7)),
        text(
            "pub mod p {\n  pub struct In {\n    pub b: bool\n  }\n  \n  pub struct Foo {\n    \
             pub a: i32,\n    pub in: In\n  }\n}"
        )
    );
}

#[test]
fn rendering_with_a_package_succeeds_each_time() {
    let blocks = || {
        vec![
            Block { identifier: Some("Foo"), kind: Kind::Message(vec![]) },
            Block { identifier: None, kind: Kind::Package("foobar") },
        ]
    };
    let first = translate(blocks());
    let second = translate(blocks());

    assert!(first.is_ok());
    assert_eq!(first, second);
}

#[test]
fn silent_declarations_change_nothing_with_a_package() {
    let plain = vec![
        Block { identifier: None, kind: Kind::Package("p") },
        Block { identifier: Some("Foo"), kind: Kind::Message(vec![]) },
    ];
    let more = vec![
        Block { identifier: None, kind: Kind::Unknown },
        Block { identifier: None, kind: Kind::Package("p") },
        Block { identifier: None, kind: Kind::Syntax("proto3") },
        Block { identifier: Some("Foo"), kind: Kind::Message(vec![]) },
        Block { identifier: None, kind: Kind::Unknown },
    ];

    assert_eq!(translate(more), translate(plain));
}
