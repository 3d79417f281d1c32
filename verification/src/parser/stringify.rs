use vstd::prelude::*;

use crate::lexer::identifier::{
    fields_view, Block, BlockView, Field, FieldView, Kind, KindView,
};
use crate::parser::{indent, indent_text, name_text, parse_prop, scalar_text, text_or_empty};
use crate::text::{join, joined, lemma_strings_view_push, strings_view};

verus! {

/// How many levels of braces a field opens below itself.
pub open spec fn field_levels(field: FieldView) -> nat
    decreases field,
{
    match field {
        FieldView::Block(block) => block_levels(block),
        _ => 0,
    }
}

/// How many levels of braces a declaration opens: one for its own, and those
/// of its deepest field.
pub open spec fn block_levels(block: BlockView) -> nat
    decreases block,
{
    match block.kind {
        KindView::Message(fields) => 1 + fields_levels(fields),
        KindView::Service(fields) => 1 + fields_levels(fields),
        _ => 0,
    }
}

/// The levels of the deepest of a list of fields.
pub open spec fn fields_levels(fields: Seq<FieldView>) -> nat
    decreases fields,
{
    if fields.len() == 0 {
        0
    } else {
        let front = fields_levels(fields.drop_last());
        let last = field_levels(fields.last());
        if front >= last {
            front
        } else {
            last
        }
    }
}

/// A field in place, `depth` levels deep: a nested declaration as its whole
/// definition, a property as a member, a procedure as a method with an empty
/// body.
pub open spec fn field_at(field: FieldView, depth: nat) -> Seq<char>
    decreases field, 0nat,
{
    match field {
        FieldView::Block(block) => text_or_empty(block_at(block, depth)),
        FieldView::Property(property) => indent_text(depth) + "pub "@ + property.name + ": "@
            + scalar_text(property.scalar),
        FieldView::Rpc(rpc) => indent_text(depth) + "fn "@ + rpc.name + "(req: "@ + rpc.request
            + ") -> "@ + rpc.response + " {\n"@ + indent_text(depth) + "}"@,
    }
}

/// The fields of a list in place, each `depth` levels deep.
pub open spec fn fields_at(fields: Seq<FieldView>, depth: nat) -> Seq<Seq<char>>
    decreases fields, 0nat,
{
    if fields.len() == 0 {
        Seq::empty()
    } else {
        fields_at(fields.drop_last(), depth).push(field_at(fields.last(), depth))
    }
}

/// A definition in place, `depth` levels deep: `pub keyword identifier {`,
/// the fields one level deeper with a comma between each two, and the
/// closing brace.
pub open spec fn framed(
    keyword: Seq<char>,
    identifier: Seq<char>,
    fields: Seq<FieldView>,
    depth: nat,
) -> Seq<char>
    decreases fields, 1nat,
{
    indent_text(depth) + "pub "@ + keyword + " "@ + identifier + " {\n"@ + joined(
        fields_at(fields, depth + 1),
        ",\n"@,
    ) + "\n"@ + indent_text(depth) + "}"@
}

/// A declaration in place, `depth` levels deep: a record for a message, an
/// interface for a service, nothing for a directive or an unknown
/// declaration.
pub open spec fn block_at(block: BlockView, depth: nat) -> Option<Seq<char>>
    decreases block, 0nat,
{
    match block.kind {
        KindView::Message(fields) => Some(
            framed("struct"@, name_text(block.identifier), fields, depth),
        ),
        KindView::Service(fields) => Some(
            framed("trait"@, name_text(block.identifier), fields, depth),
        ),
        _ => None,
    }
}

/// The levels of a field of a list are among the levels of the list.
pub proof fn lemma_fields_levels_bound(fields: Seq<FieldView>, i: int)
    requires
        0 <= i < fields.len(),
    ensures
        field_levels(fields[i]) <= fields_levels(fields),
    decreases fields.len(),
{
    if i < fields.len() - 1 {
        lemma_fields_levels_bound(fields.drop_last(), i);
    }
}

/// Renders a field in place, `depth` levels deep.
pub fn from_field(field: &Field, depth: u8) -> (r: String)
    requires
        depth + field_levels(field@) <= u8::MAX,
    ensures
        r@ == field_at(field@, depth as nat),
    decreases field, 0nat,
{
    match field {
        Field::Block(block) => match unwrap_block(block, depth) {
            Some(text) => text,
            None => String::new(),
        },
        Field::Property(prop) => {
            let mut out = indent(depth);
            out.append("pub ");
            out.append(prop.name);
            out.append(": ");
            out.append(parse_prop(prop.scalar).as_str());
            out
        },
        Field::Rpc(rpc) => {
            let mut out = indent(depth);
            out.append("fn ");
            out.append(rpc.name);
            out.append("(req: ");
            out.append(rpc.params.0);
            out.append(") -> ");
            out.append(rpc.params.1);
            out.append(" {\n");
            out.append(indent(depth).as_str());
            out.append("}");
            out
        },
    }
}

/// The text of a kind on its own, whatever the depth: none. A kind becomes
/// text only together with the name of its declaration.
pub fn into_field(kind: Kind, depth: u8) -> (r: String)
    ensures
        r@ == Seq::<char>::empty(),
{
    String::new()
}

/// Renders a declaration in place, `depth` levels deep, if it has a
/// definition.
pub fn unwrap_block(block: &Block, depth: u8) -> (r: Option<String>)
    requires
        depth + block_levels(block@) <= u8::MAX,
    ensures
        crate::parser::option_string_text(r) == block_at(block@, depth as nat),
    decreases block, 0nat,
{
    let id: &str = match block.identifier {
        Some(name) => name,
        None => "",
    };
    proof {
        reveal_strlit("");
        assert(id@ =~= name_text(block@.identifier));
    }
    match &block.kind {
        Kind::Message(fields) => Some(into_struct(id, fields, depth)),
        Kind::Service(fields) => Some(into_trait(id, fields, depth)),
        _ => None,
    }
}

/// Renders the fields of a definition, each `depth` levels deep, with a comma
/// and a line end between each two.
pub fn parse_fields(fields: &Vec<Field>, depth: u8) -> (r: String)
    requires
        depth + fields_levels(fields_view(fields@)) <= u8::MAX,
    ensures
        r@ == joined(fields_at(fields_view(fields@), depth as nat), ",\n"@),
    decreases fields, 0nat,
{
    let ghost all = fields_view(fields@);
    let mut lines: Vec<String> = Vec::new();
    let mut i: usize = 0;
    proof {
        assert(all.take(0) =~= Seq::empty());
        assert(strings_view(lines@) =~= fields_at(all.take(0), depth as nat));
    }
    while i < fields.len()
        invariant
            i <= fields.len(),
            all == fields_view(fields@),
            depth + fields_levels(all) <= u8::MAX,
            strings_view(lines@) == fields_at(all.take(i as int), depth as nat),
        decreases fields.len() - i,
    {
        proof {
            lemma_fields_levels_bound(all, i as int);
            assert(all.take(i + 1).drop_last() =~= all.take(i as int));
            assert(all.take(i + 1).last() == fields[i as int]@);
        }
        let line = from_field(&fields[i], depth);
        proof {
            lemma_strings_view_push(lines@, line);
        }
        lines.push(line);
        i = i + 1;
    }
    proof {
        assert(all.take(i as int) =~= all);
    }
    join(&lines, ",\n")
}

/// Renders `pub keyword identifier { .. }` in place, `depth` levels deep.
fn frame(keyword: &str, identifier: &str, fields: &Vec<Field>, depth: u8) -> (r: String)
    requires
        depth + 1 + fields_levels(fields_view(fields@)) <= u8::MAX,
    ensures
        r@ == framed(keyword@, identifier@, fields_view(fields@), depth as nat),
    decreases fields, 1nat,
{
    let mut out = indent(depth);
    out.append("pub ");
    out.append(keyword);
    out.append(" ");
    out.append(identifier);
    out.append(" {\n");
    out.append(parse_fields(fields, depth + 1).as_str());
    out.append("\n");
    out.append(indent(depth).as_str());
    out.append("}");
    out
}

/// Renders an interface in place, `depth` levels deep.
pub fn into_trait(identifier: &str, fields: &Vec<Field>, depth: u8) -> (r: String)
    requires
        depth + 1 + fields_levels(fields_view(fields@)) <= u8::MAX,
    ensures
        r@ == framed("trait"@, identifier@, fields_view(fields@), depth as nat),
    decreases fields, 2nat,
{
    frame("trait", identifier, fields, depth)
}

/// Renders a record in place, `depth` levels deep.
pub fn into_struct(identifier: &str, fields: &Vec<Field>, depth: u8) -> (r: String)
    requires
        depth + 1 + fields_levels(fields_view(fields@)) <= u8::MAX,
    ensures
        r@ == framed("struct"@, identifier@, fields_view(fields@), depth as nat),
    decreases fields, 2nat,
{
    frame("struct", identifier, fields, depth)
}

/// Renders a module in place, `depth` levels deep.
pub fn into_mod(identifier: &str, fields: &Vec<Field>, depth: u8) -> (r: String)
    requires
        depth + 1 + fields_levels(fields_view(fields@)) <= u8::MAX,
    ensures
        r@ == framed("mod"@, identifier@, fields_view(fields@), depth as nat),
    decreases fields, 2nat,
{
    frame("mod", identifier, fields, depth)
}

} // verus!
