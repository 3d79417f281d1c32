use vstd::prelude::*;

pub mod stringify;

use crate::lexer::identifier::{
    blocks_view, fields_view, Block, BlockView, Field, FieldView, Kind, KindView, PropertyView,
    RpcView, Scalar,
};
use crate::naming::{snake_case, to_snake_case};
use crate::pattern::{regex_builds, regex_replace_all, replace_all};
use crate::text::{join, joined, lemma_strings_view_push, strings_view};
use crate::tokeniser::{built, text_result_view, PatternError};

verus! {

/// The pattern that matches at the start of every line, in multi-line mode.
pub const LINE_START_PATTERN: &'static str = "^";

/// The indentation of `depth` levels: two spaces for each level.
pub open spec fn indent_text(depth: nat) -> Seq<char>
    decreases depth,
{
    if depth == 0 {
        Seq::empty()
    } else {
        indent_text((depth - 1) as nat) + "  "@
    }
}

/// The indentation of `depth` levels.
pub fn indent(depth: u8) -> (r: String)
    ensures
        r@ == indent_text(depth as nat),
{
    let mut out = String::new();
    let mut i: u8 = 0;
    while i < depth
        invariant
            i <= depth,
            out@ == indent_text(i as nat),
        decreases depth - i,
    {
        out.append("  ");
        i = i + 1;
    }
    out
}

/// The name of a scalar type in the rendered source.
pub open spec fn scalar_text(scalar: Scalar) -> Seq<char> {
    match scalar {
        Scalar::Int32 => "i32"@,
        Scalar::Bool => "bool"@,
        Scalar::String => "String"@,
    }
}

/// The name of a scalar type in the rendered source.
pub fn parse_prop(scalar: Scalar) -> (r: String)
    ensures
        r@ == scalar_text(scalar),
{
    match scalar {
        Scalar::Int32 => "i32".to_owned(),
        Scalar::Bool => "bool".to_owned(),
        Scalar::String => "String".to_owned(),
    }
}

/// The text of an optional name: nothing where there is none.
pub open spec fn name_text(identifier: Option<Seq<char>>) -> Seq<char> {
    match identifier {
        Some(name) => name,
        None => Seq::empty(),
    }
}

/// A member of a record: `  pub name: type`.
pub open spec fn property_text(name: Seq<char>, ty: Seq<char>) -> Seq<char> {
    indent_text(1) + "pub "@ + name + ": "@ + ty
}

/// A method of an interface, with a body that returns the default response.
pub open spec fn rpc_text(rpc: RpcView) -> Seq<char> {
    indent_text(1) + "fn "@ + snake_case(rpc.name) + "(req: "@ + rpc.request + ") -> "@
        + rpc.response + " {\n"@ + indent_text(2) + rpc.response + "::default()"@ + "\n"@
        + indent_text(1) + "}"@
}

/// The line that a field becomes inside its block. A nested declaration
/// becomes a member that is named after it in snake case and has it as type.
pub open spec fn field_text(field: FieldView) -> Seq<char> {
    match field {
        FieldView::Block(block) => property_text(
            snake_case(name_text(block.identifier)),
            name_text(block.identifier),
        ),
        FieldView::Property(property) => property_text(
            property.name,
            scalar_text(property.scalar),
        ),
        FieldView::Rpc(rpc) => rpc_text(rpc),
    }
}

/// The lines of the fields of a block, in their order.
pub open spec fn fields_texts(fields: Seq<FieldView>) -> Seq<Seq<char>> {
    Seq::new(fields.len(), |i: int| field_text(fields[i]))
}

/// A definition: `pub desc id {`, the lines of the fields with a comma
/// between each two, and the closing brace.
pub open spec fn block_body(desc: Seq<char>, id: Seq<char>, fields: Seq<FieldView>) -> Seq<char> {
    "pub "@ + desc + " "@ + id + " {\n"@ + joined(fields_texts(fields), ",\n"@) + "\n}"@
}

/// The empty client type that goes with a service.
pub open spec fn client_text(id: Seq<char>) -> Seq<char> {
    "pub struct "@ + id + "Client {}"@
}

/// The definition that a declaration becomes: a record for a message, an
/// interface for a service, nothing for a directive or an unknown
/// declaration.
pub open spec fn block_text(block: BlockView) -> Option<Seq<char>> {
    match block.kind {
        KindView::Message(fields) => Some(
            block_body("struct"@, name_text(block.identifier), fields),
        ),
        KindView::Service(fields) => Some(
            block_body("trait"@, name_text(block.identifier), fields),
        ),
        _ => None,
    }
}

/// The text of an optional definition: nothing where there is none.
pub open spec fn text_or_empty(text: Option<Seq<char>>) -> Seq<char> {
    match text {
        Some(t) => t,
        None => Seq::empty(),
    }
}

/// The units that rendering a declaration moves to the top level, in the
/// order in which they get there: the client type of a service, then what
/// its fields move there.
pub open spec fn block_hoisted(block: BlockView) -> Seq<Seq<char>>
    decreases block,
{
    match block.kind {
        KindView::Message(fields) => fields_hoisted(fields),
        KindView::Service(fields) => seq![client_text(name_text(block.identifier))]
            + fields_hoisted(fields),
        _ => Seq::empty(),
    }
}

/// The units that rendering a field moves to the top level: for a nested
/// declaration what that declaration moves there and then its own
/// definition, for any other field nothing.
pub open spec fn field_hoisted(field: FieldView) -> Seq<Seq<char>>
    decreases field,
{
    match field {
        FieldView::Block(block) => block_hoisted(block).push(text_or_empty(block_text(block))),
        _ => Seq::empty(),
    }
}

/// The units that rendering a list of fields moves to the top level.
pub open spec fn fields_hoisted(fields: Seq<FieldView>) -> Seq<Seq<char>>
    decreases fields,
{
    if fields.len() == 0 {
        Seq::empty()
    } else {
        fields_hoisted(fields.drop_last()) + field_hoisted(fields.last())
    }
}

/// The directives that a rendering has met.
pub struct ConfigView {
    pub package: Option<Seq<char>>,
    pub syntax: Option<Seq<char>>,
}

/// The directives after a declaration was rendered: a package or syntax
/// directive replaces the earlier one of its kind.
pub open spec fn block_config(block: BlockView, config: ConfigView) -> ConfigView
    decreases block,
{
    match block.kind {
        KindView::Message(fields) => fields_config(fields, config),
        KindView::Service(fields) => fields_config(fields, config),
        KindView::Package(name) => ConfigView { package: Some(name), syntax: config.syntax },
        KindView::Syntax(version) => ConfigView { package: config.package, syntax: Some(version) },
        KindView::Unknown => config,
    }
}

/// The directives after a field was rendered.
pub open spec fn field_config(field: FieldView, config: ConfigView) -> ConfigView
    decreases field,
{
    match field {
        FieldView::Block(block) => block_config(block, config),
        _ => config,
    }
}

/// The directives after a list of fields was rendered.
pub open spec fn fields_config(fields: Seq<FieldView>, config: ConfigView) -> ConfigView
    decreases fields,
{
    if fields.len() == 0 {
        config
    } else {
        field_config(fields.last(), fields_config(fields.drop_last(), config))
    }
}

/// The units that rendering a list of declarations moves to the top level.
pub open spec fn blocks_hoisted(blocks: Seq<BlockView>) -> Seq<Seq<char>>
    decreases blocks.len(),
{
    if blocks.len() == 0 {
        Seq::empty()
    } else {
        blocks_hoisted(blocks.drop_last()) + block_hoisted(blocks.last())
    }
}

/// The directives after a list of declarations was rendered.
pub open spec fn blocks_config(blocks: Seq<BlockView>, config: ConfigView) -> ConfigView
    decreases blocks.len(),
{
    if blocks.len() == 0 {
        config
    } else {
        block_config(blocks.last(), blocks_config(blocks.drop_last(), config))
    }
}

/// The definitions of the declarations of a list that have one, in their
/// order.
pub open spec fn blocks_texts(blocks: Seq<BlockView>) -> Seq<Seq<char>>
    decreases blocks.len(),
{
    if blocks.len() == 0 {
        Seq::empty()
    } else {
        match block_text(blocks.last()) {
            Some(text) => blocks_texts(blocks.drop_last()).push(text),
            None => blocks_texts(blocks.drop_last()),
        }
    }
}

/// A text with one level of indentation in front of each of its lines: what
/// replacing every line start by the indentation gives.
pub open spec fn line_indented(text: Seq<char>) -> Seq<char> {
    regex_replace_all(LINE_START_PATTERN@, true, text, indent_text(1))
}

/// A module of the given name around the given content.
pub open spec fn module_text(name: Seq<char>, content: Seq<char>) -> Seq<char> {
    "pub mod "@ + name + " {\n"@ + content + "\n}"@
}

/// The rendered units as the final output: inside a module named after the
/// package, each line indented by one level, where there is a package
/// directive; as they are where there is none.
pub open spec fn wrapped(total: Seq<char>, package: Option<Seq<char>>) -> Seq<char> {
    match package {
        Some(name) => module_text(name, line_indented(total)),
        None => total,
    }
}

/// All top-level units after the given declarations were rendered: those
/// that were at the top before, those that were moved there, and the
/// definitions of the declarations themselves.
pub open spec fn units(blocks: Seq<BlockView>, root: Seq<Seq<char>>) -> Seq<Seq<char>> {
    root + blocks_hoisted(blocks) + blocks_texts(blocks)
}

/// The source that a rendering in state `start` makes of a list of
/// declarations: the top-level units with an empty line between each two,
/// wrapped in the module of the package that is then known.
pub open spec fn rendered(blocks: Seq<BlockView>, start: ParserView) -> Seq<char> {
    wrapped(joined(units(blocks, start.root), "\n\n"@), blocks_config(blocks, start.config).package)
}

/// The state of a rendering that has not begun.
pub open spec fn fresh() -> ParserView {
    ParserView { config: ConfigView { package: None, syntax: None }, root: Seq::empty() }
}

/// The source that a list of declarations is translated to.
pub open spec fn translated(blocks: Seq<BlockView>) -> Seq<char> {
    rendered(blocks, fresh())
}

/// What wrapping the rendered units comes to: the units as they are where no
/// package is known; with a package the module around them where the
/// line-start pattern is built, and that pattern as error where it is not.
pub open spec fn wrapping(total: Seq<char>, package: Option<Seq<char>>) -> Result<
    Seq<char>,
    Seq<char>,
> {
    if package is None || regex_builds(LINE_START_PATTERN@, true) {
        Ok(wrapped(total, package))
    } else {
        Err(LINE_START_PATTERN@)
    }
}

/// What rendering a list of declarations in state `start` comes to: the
/// source, or the line-start pattern as error where a module is to be
/// written and the pattern is not built.
pub open spec fn rendering_from(blocks: Seq<BlockView>, start: ParserView) -> Result<
    Seq<char>,
    Seq<char>,
> {
    wrapping(joined(units(blocks, start.root), "\n\n"@), blocks_config(blocks, start.config).package)
}

/// What translating a list of declarations comes to.
pub open spec fn rendering(blocks: Seq<BlockView>) -> Result<Seq<char>, Seq<char>> {
    rendering_from(blocks, fresh())
}

/// The directives that a rendering has met.
pub struct Config<'a> {
    pub package: Option<&'a str>,
    pub syntax: Option<&'a str>,
}

/// The text of an optional string.
pub open spec fn option_text(s: Option<&str>) -> Option<Seq<char>> {
    match s {
        Some(text) => Some(text@),
        None => None,
    }
}

impl<'a> View for Config<'a> {
    type V = ConfigView;

    open spec fn view(&self) -> ConfigView {
        ConfigView { package: option_text(self.package), syntax: option_text(self.syntax) }
    }
}

/// The state of a rendering: the directives met so far, and the units that
/// were moved to the top level.
pub struct Parser<'a> {
    pub config: Config<'a>,
    pub root: Vec<String>,
}

/// The mathematical value of a [`Parser`].
pub struct ParserView {
    pub config: ConfigView,
    pub root: Seq<Seq<char>>,
}

impl<'a> View for Parser<'a> {
    type V = ParserView;

    open spec fn view(&self) -> ParserView {
        ParserView { config: self.config@, root: strings_view(self.root@) }
    }
}

/// The text of an optional string: nothing where there is none.
pub open spec fn option_string_text(s: Option<String>) -> Option<Seq<char>> {
    match s {
        Some(text) => Some(text@),
        None => None,
    }
}

impl<'a> Default for Parser<'a> {
    /// A rendering that has met no directive and moved nothing to the top.
    fn default() -> (r: Self)
        ensures
            r@ == fresh(),
    {
        let r = Parser { config: Config { package: None, syntax: None }, root: Vec::new() };
        assert(r@.root =~= Seq::<Seq<char>>::empty());
        r
    }
}

impl<'a> Parser<'a> {

    /// Renders a list of declarations: all top-level units, those moved to
    /// the top first, with an empty line between each two, inside the module
    /// of the package if a package directive was met.
    ///
    /// The module wrapper needs the line-start pattern; where that pattern
    /// cannot be built, the error names it. Nothing else makes the call fail.
    pub fn parse(&mut self, blocks: Vec<Block<'a>>) -> (r: Result<String, PatternError>)
        ensures
            final(self)@.root == old(self)@.root + blocks_hoisted(blocks_view(blocks@)),
            final(self)@.config == blocks_config(blocks_view(blocks@), old(self)@.config),
            text_result_view(r) == rendering_from(blocks_view(blocks@), old(self)@),
    {
        let ghost all = blocks_view(blocks@);
        let ghost start = self@;
        let mut items: Vec<String> = Vec::new();
        let mut i: usize = 0;
        proof {
            assert(all.take(0) =~= Seq::empty());
            assert(strings_view(items@) =~= Seq::empty());
            assert(start.root + Seq::<Seq<char>>::empty() =~= start.root);
        }
        while i < blocks.len()
            invariant
                i <= blocks.len(),
                all == blocks_view(blocks@),
                strings_view(items@) == blocks_texts(all.take(i as int)),
                self@.root == start.root + blocks_hoisted(all.take(i as int)),
                self@.config == blocks_config(all.take(i as int), start.config),
            decreases blocks.len() - i,
        {
            proof {
                assert(all.take(i + 1).drop_last() =~= all.take(i as int));
                assert(all.take(i + 1).last() == blocks[i as int]@);
                assert((start.root + blocks_hoisted(all.take(i as int))) + block_hoisted(
                    blocks[i as int]@,
                ) =~= start.root + (blocks_hoisted(all.take(i as int)) + block_hoisted(
                    blocks[i as int]@,
                )));
            }
            match self.parse_block(&blocks[i]) {
                Some(text) => {
                    proof {
                        lemma_strings_view_push(items@, text);
                    }
                    items.push(text);
                },
                None => {},
            }
            i = i + 1;
        }
        proof {
            assert(all.take(i as int) =~= all);
        }
        let mut total: Vec<String> = Vec::new();
        let mut j: usize = 0;
        proof {
            assert(strings_view(total@) =~= strings_view(self.root@).take(0));
        }
        while j < self.root.len()
            invariant
                j <= self.root.len(),
                strings_view(total@) == strings_view(self.root@).take(j as int),
            decreases self.root.len() - j,
        {
            let unit = self.root[j].clone();
            proof {
                lemma_strings_view_push(total@, unit);
                assert(strings_view(self.root@).take(j as int).push(unit@) =~= strings_view(
                    self.root@,
                ).take(j + 1));
            }
            total.push(unit);
            j = j + 1;
        }
        proof {
            assert(strings_view(self.root@).take(j as int) =~= strings_view(self.root@));
            assert(strings_view(total@ + items@) =~= strings_view(total@) + strings_view(items@));
        }
        total.append(&mut items);
        let text = join(&total, "\n\n");
        self.result(text)
    }

    /// The final output for the rendered units in `input`: wrapped in the
    /// module of the package where a package directive was met, with each
    /// line indented by one level; `input` itself where none was. The
    /// wrapping fails where the line-start pattern is not built, and nowhere
    /// else.
    pub fn result(&self, input: String) -> (r: Result<String, PatternError>)
        ensures
            text_result_view(r) == wrapping(input@, self@.config.package),
    {
        match self.config.package {
            Some(name) => {
                let unit = indent(1);
                let indented = built(
                    replace_all(LINE_START_PATTERN, true, input.as_str(), unit.as_str()),
                    LINE_START_PATTERN,
                );
                match indented {
                    Ok(content) => Ok(wrap_module(name, content.as_str())),
                    Err(e) => Err(e),
                }
            },
            None => Ok(input),
        }
    }

    /// A member of a record: `  pub name: id`.
    pub fn format_property(&self, name: String, id: String) -> (r: String)
        ensures
            r@ == property_text(name@, id@),
    {
        let mut out = indent(1);
        out.append("pub ");
        out.append(name.as_str());
        out.append(": ");
        out.append(id.as_str());
        out
    }

    /// Renders a declaration. Returns its definition, if it has one; moves
    /// the client type of a service and the nested declarations to the top
    /// level; records a directive.
    pub fn parse_block(&mut self, block: &Block<'a>) -> (r: Option<String>)
        ensures
            option_string_text(r) == block_text(block@),
            final(self)@.root == old(self)@.root + block_hoisted(block@),
            final(self)@.config == block_config(block@, old(self)@.config),
        decreases block,
    {
        let id: &str = match block.identifier {
            Some(name) => name,
            None => "",
        };
        proof {
            reveal_strlit("");
            assert(id@ =~= name_text(block@.identifier));
            assert(self@.root + Seq::<Seq<char>>::empty() =~= self@.root);
        }
        match &block.kind {
            Kind::Message(fields) => Some(self.format_block("struct", id, fields)),
            Kind::Service(fields) => {
                let mut client = "pub struct ".to_owned();
                client.append(id);
                client.append("Client {}");
                proof {
                    lemma_strings_view_push(self.root@, client);
                    assert(self@.root.push(client@) + fields_hoisted(fields_view(fields@))
                        =~= self@.root + (seq![client@] + fields_hoisted(fields_view(fields@))));
                }
                self.root.push(client);
                Some(self.format_block("trait", id, fields))
            },
            Kind::Package(name) => {
                self.config.package = Some(*name);
                None
            },
            Kind::Syntax(version) => {
                self.config.syntax = Some(*version);
                None
            },
            Kind::Unknown => None,
        }
    }

    /// Renders a field as a line of its block. A nested declaration is
    /// rendered on its own and moved to the top level.
    pub fn format_field(&mut self, field: &Field<'a>) -> (r: String)
        ensures
            r@ == field_text(field@),
            final(self)@.root == old(self)@.root + field_hoisted(field@),
            final(self)@.config == field_config(field@, old(self)@.config),
        decreases field,
    {
        match field {
            Field::Block(block) => {
                let id: &str = match block.identifier {
                    Some(name) => name,
                    None => "",
                };
                proof {
                    reveal_strlit("");
                    assert(id@ =~= name_text(block@.identifier));
                }
                let ghost before = self@.root;
                let struct_block = match self.parse_block(block) {
                    Some(text) => text,
                    None => String::new(),
                };
                proof {
                    lemma_strings_view_push(self.root@, struct_block);
                    assert((before + block_hoisted(block@)).push(struct_block@) =~= before
                        + block_hoisted(block@).push(struct_block@));
                }
                self.root.push(struct_block);
                self.format_property(to_snake_case(id), id.to_owned())
            },
            Field::Property(prop) => {
                proof {
                    assert(self@.root + Seq::<Seq<char>>::empty() =~= self@.root);
                }
                self.format_property(prop.name.to_owned(), parse_prop(prop.scalar))
            },
            Field::Rpc(rpc) => {
                proof {
                    assert(self@.root + Seq::<Seq<char>>::empty() =~= self@.root);
                }
                let mut out = indent(1);
                out.append("fn ");
                out.append(to_snake_case(rpc.name).as_str());
                out.append("(req: ");
                out.append(rpc.params.0);
                out.append(") -> ");
                out.append(rpc.params.1);
                out.append(" {\n");
                out.append(indent(2).as_str());
                out.append(rpc.params.1);
                out.append("::default()");
                out.append("\n");
                out.append(indent(1).as_str());
                out.append("}");
                out
            },
        }
    }

    /// Renders the definition `pub desc id { .. }` with the given fields.
    pub fn format_block(&mut self, desc: &str, id: &str, fields: &Vec<Field<'a>>) -> (r: String)
        ensures
            r@ == block_body(desc@, id@, fields_view(fields@)),
            final(self)@.root == old(self)@.root + fields_hoisted(fields_view(fields@)),
            final(self)@.config == fields_config(fields_view(fields@), old(self)@.config),
        decreases fields,
    {
        let ghost all = fields_view(fields@);
        let ghost start = self@;
        let mut lines: Vec<String> = Vec::new();
        let mut i: usize = 0;
        proof {
            assert(all.take(0) =~= Seq::empty());
            assert(strings_view(lines@) =~= fields_texts(all.take(0)));
            assert(start.root + Seq::<Seq<char>>::empty() =~= start.root);
        }
        while i < fields.len()
            invariant
                i <= fields.len(),
                all == fields_view(fields@),
                strings_view(lines@) == fields_texts(all.take(i as int)),
                self@.root == start.root + fields_hoisted(all.take(i as int)),
                self@.config == fields_config(all.take(i as int), start.config),
            decreases fields.len() - i,
        {
            let line = self.format_field(&fields[i]);
            proof {
                assert(all.take(i + 1).drop_last() =~= all.take(i as int));
                assert(all.take(i + 1).last() == fields[i as int]@);
                lemma_strings_view_push(lines@, line);
                assert(fields_texts(all.take(i as int)).push(line@) =~= fields_texts(
                    all.take(i + 1),
                ));
                assert((start.root + fields_hoisted(all.take(i as int))) + field_hoisted(
                    fields[i as int]@,
                ) =~= start.root + (fields_hoisted(all.take(i as int)) + field_hoisted(
                    fields[i as int]@,
                )));
            }
            lines.push(line);
            i = i + 1;
        }
        proof {
            assert(all.take(i as int) =~= all);
        }
        let result = join(&lines, ",\n");
        let mut out = "pub ".to_owned();
        out.append(desc);
        out.append(" ");
        out.append(id);
        out.append(" {\n");
        out.append(result.as_str());
        out.append("\n}");
        out
    }
}

/// A package that is known stays known while a declaration is rendered.
pub proof fn lemma_block_keeps_package(block: BlockView, config: ConfigView)
    requires
        config.package is Some,
    ensures
        block_config(block, config).package is Some,
    decreases block,
{
    match block.kind {
        KindView::Message(fields) => lemma_fields_keep_package(fields, config),
        KindView::Service(fields) => lemma_fields_keep_package(fields, config),
        _ => {},
    }
}

/// A package that is known stays known while fields are rendered.
pub proof fn lemma_fields_keep_package(fields: Seq<FieldView>, config: ConfigView)
    requires
        config.package is Some,
    ensures
        fields_config(fields, config).package is Some,
    decreases fields,
{
    if fields.len() > 0 {
        let front = fields_config(fields.drop_last(), config);
        lemma_fields_keep_package(fields.drop_last(), config);
        assert(fields_config(fields, config) == field_config(fields.last(), front));
        match fields.last() {
            FieldView::Block(block) => {
                lemma_block_keeps_package(block, front);
                assert(field_config(fields.last(), front) == block_config(block, front));
            },
            _ => {
                assert(field_config(fields.last(), front) == front);
            },
        }
    }
}

/// A declaration that holds no package directive leaves the package as it
/// finds it.
pub proof fn lemma_block_leaves_package(block: BlockView, none: ConfigView, config: ConfigView)
    requires
        none.package is None,
        block_config(block, none).package is None,
    ensures
        block_config(block, config).package == config.package,
    decreases block,
{
    match block.kind {
        KindView::Message(fields) => lemma_fields_leave_package(fields, none, config),
        KindView::Service(fields) => lemma_fields_leave_package(fields, none, config),
        _ => {},
    }
}

/// Fields that hold no package directive leave the package as they find it.
pub proof fn lemma_fields_leave_package(
    fields: Seq<FieldView>,
    none: ConfigView,
    config: ConfigView,
)
    requires
        none.package is None,
        fields_config(fields, none).package is None,
    ensures
        fields_config(fields, config).package == config.package,
    decreases fields,
{
    if fields.len() > 0 {
        let front = fields.drop_last();
        let last = fields.last();
        let before = fields_config(front, none);
        assert(fields_config(fields, none) == field_config(last, before));
        assert(fields_config(fields, config) == field_config(
            last,
            fields_config(front, config),
        ));
        if before.package is Some {
            match last {
                FieldView::Block(block) => {
                    lemma_block_keeps_package(block, before);
                    assert(field_config(last, before) == block_config(block, before));
                },
                _ => {
                    assert(field_config(last, before) == before);
                },
            }
        }
        lemma_fields_leave_package(front, none, config);
        match last {
            FieldView::Block(block) => {
                assert(field_config(last, before) == block_config(block, before));
                lemma_block_leaves_package(block, before, fields_config(front, config));
            },
            _ => {},
        }
    }
}

/// Declarations that hold no package directive leave the package as they
/// find it.
pub proof fn lemma_blocks_leave_package(
    blocks: Seq<BlockView>,
    none: ConfigView,
    config: ConfigView,
)
    requires
        none.package is None,
        blocks_config(blocks, none).package is None,
    ensures
        blocks_config(blocks, config).package == config.package,
    decreases blocks.len(),
{
    if blocks.len() > 0 {
        let front = blocks.drop_last();
        let before = blocks_config(front, none);
        assert(blocks_config(blocks, none) == block_config(blocks.last(), before));
        if before.package is Some {
            lemma_block_keeps_package(blocks.last(), before);
        }
        lemma_blocks_leave_package(front, none, config);
        lemma_block_leaves_package(blocks.last(), before, blocks_config(front, config));
    }
}

/// Rendering one list of declarations after another moves to the top level
/// what each of them moves there, gives the definitions of both, and meets
/// the directives of the first and then those of the second.
pub proof fn lemma_blocks_concat(first: Seq<BlockView>, second: Seq<BlockView>, config: ConfigView)
    ensures
        blocks_hoisted(first + second) == blocks_hoisted(first) + blocks_hoisted(second),
        blocks_texts(first + second) == blocks_texts(first) + blocks_texts(second),
        blocks_config(first + second, config) == blocks_config(
            second,
            blocks_config(first, config),
        ),
    decreases second.len(),
{
    if second.len() == 0 {
        assert(first + second =~= first);
        assert(blocks_hoisted(first) + blocks_hoisted(second) =~= blocks_hoisted(first));
        assert(blocks_texts(first) + blocks_texts(second) =~= blocks_texts(first));
    } else {
        let front = second.drop_last();
        lemma_blocks_concat(first, front, config);
        assert((first + second).drop_last() =~= first + front);
        assert((first + second).last() == second.last());
        assert((blocks_hoisted(first) + blocks_hoisted(front)) + block_hoisted(second.last())
            =~= blocks_hoisted(first) + (blocks_hoisted(front) + block_hoisted(second.last())));
        match block_text(second.last()) {
            Some(text) => {
                assert((blocks_texts(first) + blocks_texts(front)).push(text) =~= blocks_texts(
                    first,
                ) + blocks_texts(front).push(text));
            },
            None => {},
        }
    }
}

/// A package directive among declarations that hold no other one wraps what
/// they are translated to without it: the output is a module that is named
/// after the package and holds the output without the directive, each of its
/// lines indented by one level; it is an error only where the line-start
/// pattern is not built. Without any package directive the rendering succeeds
/// and the output is the plain text of the units.
pub proof fn law_package_wraps(
    before: Seq<BlockView>,
    directive: BlockView,
    after: Seq<BlockView>,
    name: Seq<char>,
)
    requires
        directive.kind == KindView::Package(name),
        blocks_config(before, fresh().config).package is None,
        blocks_config(after, fresh().config).package is None,
    ensures
        rendering(before + after) == Ok::<Seq<char>, Seq<char>>(
            joined(units(before + after, Seq::empty()), "\n\n"@),
        ),
        rendering(before + after) == Ok::<Seq<char>, Seq<char>>(translated(before + after)),
        rendering(before + seq![directive] + after) == if regex_builds(
            LINE_START_PATTERN@,
            true,
        ) {
            Ok::<Seq<char>, Seq<char>>(
                module_text(name, line_indented(translated(before + after))),
            )
        } else {
            Err::<Seq<char>, Seq<char>>(LINE_START_PATTERN@)
        },
{
    let none = fresh().config;
    let one = seq![directive];
    assert(one.drop_last() =~= Seq::<BlockView>::empty());
    assert(one.last() == directive);
    assert(blocks_hoisted(one.drop_last()) =~= Seq::<Seq<char>>::empty());
    assert(blocks_texts(one.drop_last()) =~= Seq::<Seq<char>>::empty());
    assert(block_hoisted(directive) =~= Seq::<Seq<char>>::empty());
    assert(block_text(directive) is None);
    assert(blocks_hoisted(one) =~= Seq::<Seq<char>>::empty());
    assert(blocks_texts(one) =~= Seq::<Seq<char>>::empty());
    assert(blocks_config(one.drop_last(), blocks_config(before, none)) == blocks_config(
        before,
        none,
    ));
    let named = blocks_config(one, blocks_config(before, none));
    assert(named.package == Some(name));

    lemma_blocks_concat(before, after, none);
    lemma_blocks_leave_package(after, none, blocks_config(before, none));

    lemma_blocks_concat(before, one, none);
    lemma_blocks_concat(before + one, after, none);
    lemma_blocks_leave_package(after, none, named);
    assert(blocks_hoisted(before + one + after) =~= blocks_hoisted(before + after));
    assert(blocks_texts(before + one + after) =~= blocks_texts(before + after));
}

/// The package that is known after a declaration depends on the package that
/// was known before it, not on the syntax version.
pub proof fn lemma_block_package_ignores_syntax(
    block: BlockView,
    first: ConfigView,
    second: ConfigView,
)
    requires
        first.package == second.package,
    ensures
        block_config(block, first).package == block_config(block, second).package,
    decreases block,
{
    match block.kind {
        KindView::Message(fields) => lemma_fields_package_ignores_syntax(fields, first, second),
        KindView::Service(fields) => lemma_fields_package_ignores_syntax(fields, first, second),
        _ => {},
    }
}

/// The package that is known after a list of fields depends on the package
/// that was known before it, not on the syntax version.
pub proof fn lemma_fields_package_ignores_syntax(
    fields: Seq<FieldView>,
    first: ConfigView,
    second: ConfigView,
)
    requires
        first.package == second.package,
    ensures
        fields_config(fields, first).package == fields_config(fields, second).package,
    decreases fields,
{
    if fields.len() > 0 {
        let front = fields.drop_last();
        let last = fields.last();
        lemma_fields_package_ignores_syntax(front, first, second);
        assert(fields_config(fields, first) == field_config(last, fields_config(front, first)));
        assert(fields_config(fields, second) == field_config(
            last,
            fields_config(front, second),
        ));
        match last {
            FieldView::Block(block) => {
                lemma_block_package_ignores_syntax(
                    block,
                    fields_config(front, first),
                    fields_config(front, second),
                );
            },
            _ => {},
        }
    }
}

/// The package that is known after a list of declarations depends on the
/// package that was known before it, not on the syntax version.
pub proof fn lemma_blocks_package_ignores_syntax(
    blocks: Seq<BlockView>,
    first: ConfigView,
    second: ConfigView,
)
    requires
        first.package == second.package,
    ensures
        blocks_config(blocks, first).package == blocks_config(blocks, second).package,
    decreases blocks.len(),
{
    if blocks.len() > 0 {
        let front = blocks.drop_last();
        lemma_blocks_package_ignores_syntax(front, first, second);
        lemma_block_package_ignores_syntax(
            blocks.last(),
            blocks_config(front, first),
            blocks_config(front, second),
        );
    }
}

/// A syntax directive and an unknown declaration change nothing: with and
/// without one of them at the top level the rendering ends alike, with the
/// same source or with the same error.
pub proof fn law_syntax_changes_nothing(
    before: Seq<BlockView>,
    silent: BlockView,
    after: Seq<BlockView>,
)
    requires
        silent.kind is Syntax || silent.kind is Unknown,
    ensures
        translated(before + seq![silent] + after) == translated(before + after),
        rendering(before + seq![silent] + after) == rendering(before + after),
{
    let none = fresh().config;
    let one = seq![silent];
    assert(one.drop_last() =~= Seq::<BlockView>::empty());
    assert(one.last() == silent);
    assert(blocks_hoisted(one.drop_last()) =~= Seq::<Seq<char>>::empty());
    assert(blocks_texts(one.drop_last()) =~= Seq::<Seq<char>>::empty());
    assert(block_hoisted(silent) =~= Seq::<Seq<char>>::empty());
    assert(block_text(silent) is None);
    assert(blocks_hoisted(one) =~= Seq::<Seq<char>>::empty());
    assert(blocks_texts(one) =~= Seq::<Seq<char>>::empty());
    let met = blocks_config(before, none);
    assert(blocks_config(one.drop_last(), met) == met);
    assert(blocks_config(one, met).package == met.package);

    lemma_blocks_concat(before, after, none);
    lemma_blocks_concat(before, one, none);
    lemma_blocks_concat(before + one, after, none);
    lemma_blocks_package_ignores_syntax(after, blocks_config(one, met), met);
    assert(blocks_hoisted(before + one + after) =~= blocks_hoisted(before + after));
    assert(blocks_texts(before + one + after) =~= blocks_texts(before + after));
}

/// A field with the tag of every property in it set to zero.
pub open spec fn untagged_field(field: FieldView) -> FieldView
    decreases field,
{
    match field {
        FieldView::Block(block) => FieldView::Block(untagged_block(block)),
        FieldView::Property(property) => FieldView::Property(
            PropertyView { scalar: property.scalar, name: property.name, value: 0 },
        ),
        FieldView::Rpc(rpc) => FieldView::Rpc(rpc),
    }
}

/// A declaration with the tag of every property in it set to zero.
pub open spec fn untagged_block(block: BlockView) -> BlockView
    decreases block,
{
    BlockView {
        identifier: block.identifier,
        kind: match block.kind {
            KindView::Message(fields) => KindView::Message(untagged_fields(fields)),
            KindView::Service(fields) => KindView::Service(untagged_fields(fields)),
            KindView::Package(name) => KindView::Package(name),
            KindView::Syntax(version) => KindView::Syntax(version),
            KindView::Unknown => KindView::Unknown,
        },
    }
}

/// A list of fields with the tag of every property in them set to zero.
pub open spec fn untagged_fields(fields: Seq<FieldView>) -> Seq<FieldView>
    decreases fields,
{
    Seq::new(
        fields.len(),
        |i: int|
            if 0 <= i < fields.len() {
                untagged_field(fields[i])
            } else {
                arbitrary()
            },
    )
}

/// A list of declarations with the tag of every property in them set to
/// zero.
pub open spec fn untagged_blocks(blocks: Seq<BlockView>) -> Seq<BlockView> {
    Seq::new(blocks.len(), |i: int| untagged_block(blocks[i]))
}

/// Rendering a declaration reads no tag: its definition, what it moves to the
/// top level and the directives after it are those of the declaration
/// without tags.
pub proof fn lemma_block_reads_no_tag(block: BlockView, config: ConfigView)
    ensures
        block_text(untagged_block(block)) == block_text(block),
        block_hoisted(untagged_block(block)) == block_hoisted(block),
        block_config(untagged_block(block), config) == block_config(block, config),
    decreases block,
{
    match block.kind {
        KindView::Message(fields) => lemma_fields_read_no_tag(fields, config),
        KindView::Service(fields) => lemma_fields_read_no_tag(fields, config),
        _ => {},
    }
}

/// Rendering a list of fields reads no tag.
pub proof fn lemma_fields_read_no_tag(fields: Seq<FieldView>, config: ConfigView)
    ensures
        fields_texts(untagged_fields(fields)) == fields_texts(fields),
        fields_hoisted(untagged_fields(fields)) == fields_hoisted(fields),
        fields_config(untagged_fields(fields), config) == fields_config(fields, config),
    decreases fields,
{
    let bare = untagged_fields(fields);
    assert(fields_texts(bare) =~= fields_texts(fields));
    if fields.len() > 0 {
        let front = fields.drop_last();
        let last = fields.last();
        lemma_fields_read_no_tag(front, config);
        assert(bare.drop_last() =~= untagged_fields(front));
        assert(bare.last() == untagged_field(last));
        let met = fields_config(front, config);
        assert(fields_config(bare, config) == field_config(bare.last(), met));
        assert(fields_config(fields, config) == field_config(last, met));
        assert(fields_hoisted(bare) == fields_hoisted(bare.drop_last()) + field_hoisted(
            bare.last(),
        ));
        assert(fields_hoisted(fields) == fields_hoisted(front) + field_hoisted(last));
        match last {
            FieldView::Block(block) => {
                lemma_block_reads_no_tag(block, met);
                assert(field_hoisted(bare.last()) == block_hoisted(untagged_block(block)).push(
                    text_or_empty(block_text(untagged_block(block))),
                ));
                assert(field_hoisted(last) == block_hoisted(block).push(
                    text_or_empty(block_text(block)),
                ));
            },
            _ => {
                assert(field_hoisted(bare.last()) == Seq::<Seq<char>>::empty());
                assert(field_hoisted(last) == Seq::<Seq<char>>::empty());
            },
        }
    } else {
        assert(bare =~= fields);
    }
}

/// Rendering a list of declarations reads no tag.
pub proof fn lemma_blocks_read_no_tag(blocks: Seq<BlockView>, config: ConfigView)
    ensures
        blocks_texts(untagged_blocks(blocks)) == blocks_texts(blocks),
        blocks_hoisted(untagged_blocks(blocks)) == blocks_hoisted(blocks),
        blocks_config(untagged_blocks(blocks), config) == blocks_config(blocks, config),
    decreases blocks.len(),
{
    let bare = untagged_blocks(blocks);
    if blocks.len() > 0 {
        let front = blocks.drop_last();
        lemma_blocks_read_no_tag(front, config);
        assert(bare.drop_last() =~= untagged_blocks(front));
        assert(bare.last() == untagged_block(blocks.last()));
        lemma_block_reads_no_tag(blocks.last(), blocks_config(front, config));
    } else {
        assert(bare =~= blocks);
    }
}

/// The tags of properties never reach the output: two lists of declarations
/// that differ in tags only are rendered alike, from any state, with the
/// same source or with the same error.
pub proof fn law_tags_change_nothing(
    first: Seq<BlockView>,
    second: Seq<BlockView>,
    start: ParserView,
)
    requires
        untagged_blocks(first) == untagged_blocks(second),
    ensures
        rendering_from(first, start) == rendering_from(second, start),
        rendering(first) == rendering(second),
{
    lemma_blocks_read_no_tag(first, start.config);
    lemma_blocks_read_no_tag(second, start.config);
    lemma_blocks_read_no_tag(first, fresh().config);
    lemma_blocks_read_no_tag(second, fresh().config);
}

/// Rendering is a function of the declarations: two renderings of the same
/// declarations end alike, with the same text or with the same error.
pub proof fn law_render_deterministic(
    blocks: Seq<BlockView>,
    first: Result<String, PatternError>,
    second: Result<String, PatternError>,
)
    requires
        text_result_view(first) == rendering(blocks),
        text_result_view(second) == rendering(blocks),
    ensures
        first is Ok <==> second is Ok,
        text_result_view(first) == text_result_view(second),
{
}

/// Rendering succeeds where the declarations hold no package directive or
/// the line-start pattern is built, and nowhere else.
pub proof fn law_render_succeeds(blocks: Seq<BlockView>)
    ensures
        rendering(blocks) is Ok <==> (blocks_config(blocks, fresh().config).package is None
            || regex_builds(LINE_START_PATTERN@, true)),
        rendering(blocks) is Ok ==> rendering(blocks) == Ok::<Seq<char>, Seq<char>>(
            translated(blocks),
        ),
{
}

/// Writes a module of the given name around the given content.
pub fn wrap_module(name: &str, content: &str) -> (r: String)
    ensures
        r@ == module_text(name@, content@),
{
    let mut out = "pub mod ".to_owned();
    out.append(name);
    out.append(" {\n");
    out.append(content);
    out.append("\n}");
    out
}

/// Renders a list of declarations as source text.
///
/// Without a package directive the rendering always succeeds. With one, it
/// succeeds where the line-start pattern, which the module wrapper needs, is
/// built; where it is not, the error names the pattern.
pub fn translate(blocks: Vec<Block>) -> (r: Result<String, PatternError>)
    ensures
        text_result_view(r) == rendering(blocks_view(blocks@)),
{
    let mut parser = Parser::default();
    parser.parse(blocks)
}

} // verus!
