use pbrs::lexer::identifier::{Block, Field, Kind, Property, Rpc, Scalar};
use pbrs::parser::stringify::{
    from_field, into_field, into_mod, into_struct, into_trait, parse_fields, unwrap_block,
};

fn member(name: &str, scalar: Scalar) -> Field<'_> {
    Field::Property(Property { scalar, name, value: 1 })
}

#[test]
fn property_in_place() {
    assert_eq!(from_field(&member("bar", Scalar::Int32), 0), "pub bar: i32");
    assert_eq!(from_field(&member("bar", Scalar::String), 2), "    pub bar: String");
}

#[test]
fn rpc_in_place() {
    let rpc = Field::Rpc(Rpc { name: "Foo", params: ("Request", "Response") });

    assert_eq!(from_field(&rpc, 1), "  fn Foo(req: Request) -> Response {\n  }");
}

#[test]
fn nested_block_in_place() {
    let inner = Block {
        identifier: Some("In"),
        kind: Kind::Message(vec![member("x", Scalar::Bool)]),
    };

    assert_eq!(
        from_field(&Field::Block(inner), 1),
        "  pub struct In {\n    pub x: bool\n  }"
    );
}

#[test]
fn directive_in_place_is_empty() {
    let package = Block { identifier: None, kind: Kind::Package("p") };

    assert_eq!(unwrap_block(&package, 0), None);
    assert_eq!(from_field(&Field::Block(package), 3), "");
}

#[test]
fn struct_in_place() {
    let fields = vec![member("a", Scalar::Int32), member("b", Scalar::Bool)];

    assert_eq!(
        into_struct("Foo", &fields, 0),
        "pub struct Foo {\n  pub a: i32,\n  pub b: bool\n}"
    );
    assert_eq!(into_struct("Foo", &vec![], 1), "  pub struct Foo {\n\n  }");
}

#[test]
fn trait_in_place() {
    let fields = vec![Field::Rpc(Rpc { name: "get", params: ("In", "Out") })];

    assert_eq!(
        into_trait("Svc", &fields, 0),
        "pub trait Svc {\n  fn get(req: In) -> Out {\n  }\n}"
    );
}

#[test]
fn mod_in_place() {
    let inner = Block { identifier: Some("In"), kind: Kind::Message(vec![]) };
    let fields = vec![Field::Block(inner)];

    assert_eq!(
        into_mod("pkg", &fields, 0),
        "pub mod pkg {\n  pub struct In {\n\n  }\n}"
    );
}

#[test]
fn nesting_deepens_the_indentation() {
    let c = Block { identifier: Some("C"), kind: Kind::Service(vec![]) };
    let b = Block {
        identifier: Some("B"),
        kind: Kind::Message(vec![member("x", Scalar::Int32), Field::Block(c)]),
    };

    assert_eq!(
        unwrap_block(&b, 0),
        Some("pub struct B {\n  pub x: i32,\n  pub trait C {\n\n  }\n}".to_string())
    );
}

#[test]
fn fields_in_place() {
    let fields = vec![member("a", Scalar::Int32), member("b", Scalar::Bool)];

    assert_eq!(parse_fields(&fields, 1), "  pub a: i32,\n  pub b: bool");
    assert_eq!(parse_fields(&vec![], 1), "");
}

#[test]
fn deepest_level_that_fits() {
    assert_eq!(into_struct("Foo", &vec![], 254).len(), 2 * 254 + 19 + 2 * 254);
    assert_eq!(from_field(&member("a", Scalar::Bool), 255).len(), 2 * 255 + 11);
}

#[test]
fn kind_alone_has_no_text() {
    assert_eq!(into_field(Kind::Unknown, 0), "");
    assert_eq!(into_field(Kind::Package("p"), 3), "");
    assert_eq!(into_field(Kind::Message(vec![member("a", Scalar::Bool)]), 255), "");
}
