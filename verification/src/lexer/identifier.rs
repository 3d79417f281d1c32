use vstd::prelude::*;

use crate::lexer::{groups_view, tokens_view, GroupView, TokenChildren, TokenGroup};
use crate::text::{parse_i32, parsed_i32, same_text};

verus! {

/// Why a group of tokens is no declaration and no field.
#[derive(Clone, Copy, PartialEq, Eq, Debug)]
pub enum GrammarError {
    /// The head has fewer tokens than the rule of its keyword reads.
    MissingToken,
    /// A field starts with a word that names no scalar type.
    UnknownScalar,
    /// The tag of a property is no 32-bit integer.
    InvalidTag,
}

/// The scalar types that a property can have.
#[derive(Clone, Copy, PartialEq, Eq, Debug)]
pub enum Scalar {
    Int32,
    Bool,
    String,
}

/// A member of a message: `type name = tag;`.
#[derive(Clone, Copy, PartialEq, Debug)]
pub struct Property<'a> {
    pub scalar: Scalar,
    pub name: &'a str,
    pub value: i32,
}

/// A remote procedure of a service, with its request and response types.
#[derive(Clone, Copy, PartialEq, Debug)]
pub struct Rpc<'a> {
    pub name: &'a str,
    pub params: (&'a str, &'a str),
}

/// What stands inside the braces of a message or a service.
#[derive(PartialEq, Debug)]
pub enum Field<'a> {
    Block(Block<'a>),
    Property(Property<'a>),
    Rpc(Rpc<'a>),
}

/// The kinds of declaration.
#[derive(PartialEq, Debug)]
pub enum Kind<'a> {
    Service(Vec<Field<'a>>),
    Message(Vec<Field<'a>>),
    Package(&'a str),
    Syntax(&'a str),
    Unknown,
}

/// A classified declaration: a kind and, for messages and services, a name.
#[derive(PartialEq, Debug)]
pub struct Block<'a> {
    pub identifier: Option<&'a str>,
    pub kind: Kind<'a>,
}

/// The mathematical value of a [`Property`].
pub struct PropertyView {
    pub scalar: Scalar,
    pub name: Seq<char>,
    pub value: i32,
}

/// The mathematical value of an [`Rpc`].
pub struct RpcView {
    pub name: Seq<char>,
    pub request: Seq<char>,
    pub response: Seq<char>,
}

/// The mathematical value of a [`Field`].
pub enum FieldView {
    Block(BlockView),
    Property(PropertyView),
    Rpc(RpcView),
}

/// The mathematical value of a [`Kind`].
pub enum KindView {
    Service(Seq<FieldView>),
    Message(Seq<FieldView>),
    Package(Seq<char>),
    Syntax(Seq<char>),
    Unknown,
}

/// The mathematical value of a [`Block`].
pub struct BlockView {
    pub identifier: Option<Seq<char>>,
    pub kind: KindView,
}

impl<'a> View for Property<'a> {
    type V = PropertyView;

    open spec fn view(&self) -> PropertyView {
        PropertyView { scalar: self.scalar, name: self.name@, value: self.value }
    }
}

impl<'a> View for Rpc<'a> {
    type V = RpcView;

    open spec fn view(&self) -> RpcView {
        RpcView { name: self.name@, request: self.params.0@, response: self.params.1@ }
    }
}

/// The values of a list of fields.
pub open spec fn fields_view(fields: Seq<Field>) -> Seq<FieldView>
    decreases fields,
{
    Seq::new(
        fields.len(),
        |i: int|
            if 0 <= i < fields.len() {
                fields[i]@
            } else {
                arbitrary()
            },
    )
}

impl<'a> View for Field<'a> {
    type V = FieldView;

    open spec fn view(&self) -> FieldView
        decreases self,
    {
        match self {
            Field::Block(b) => FieldView::Block(b@),
            Field::Property(p) => FieldView::Property(p@),
            Field::Rpc(r) => FieldView::Rpc(r@),
        }
    }
}

impl<'a> View for Kind<'a> {
    type V = KindView;

    open spec fn view(&self) -> KindView
        decreases self,
    {
        match self {
            Kind::Service(fields) => KindView::Service(fields_view(fields@)),
            Kind::Message(fields) => KindView::Message(fields_view(fields@)),
            Kind::Package(name) => KindView::Package(name@),
            Kind::Syntax(version) => KindView::Syntax(version@),
            Kind::Unknown => KindView::Unknown,
        }
    }
}

impl<'a> View for Block<'a> {
    type V = BlockView;

    open spec fn view(&self) -> BlockView
        decreases self,
    {
        BlockView {
            identifier: match self.identifier {
                None => None,
                Some(s) => Some(s@),
            },
            kind: self.kind@,
        }
    }
}

/// The scalar type that a keyword names.
pub open spec fn scalar_of(token: Seq<char>) -> Option<Scalar> {
    if token == "int32"@ {
        Some(Scalar::Int32)
    } else if token == "string"@ {
        Some(Scalar::String)
    } else if token == "bool"@ {
        Some(Scalar::Bool)
    } else {
        None
    }
}

/// Whether a keyword opens a declaration with a name and fields.
pub open spec fn opens_block(token: Seq<char>) -> bool {
    token == "service"@ || token == "message"@
}

/// The declaration that a group denotes.
///
/// The first token of the head selects the rule, and each rule reads fixed
/// places of the head: `message Name` and `service Name` with the groups
/// below them as fields, `syntax = " version "`, `package name`. Any other
/// first token gives an unknown declaration. A head that is too short for
/// its rule is an error.
pub open spec fn classified(group: GroupView) -> Result<BlockView, GrammarError>
    decreases group, 0nat,
{
    let head = group.head;
    if head.len() < 1 {
        Err(GrammarError::MissingToken)
    } else if opens_block(head[0]) {
        if head.len() < 2 {
            Err(GrammarError::MissingToken)
        } else {
            let fields = match group.children {
                Some(groups) => classified_fields(groups),
                None => Ok(Seq::empty()),
            };
            match fields {
                Err(e) => Err(e),
                Ok(fields) => Ok(
                    BlockView {
                        identifier: Some(head[1]),
                        kind: if head[0] == "service"@ {
                            KindView::Service(fields)
                        } else {
                            KindView::Message(fields)
                        },
                    },
                ),
            }
        }
    } else if head[0] == "syntax"@ {
        if head.len() < 4 {
            Err(GrammarError::MissingToken)
        } else {
            Ok(BlockView { identifier: None, kind: KindView::Syntax(head[3]) })
        }
    } else if head[0] == "package"@ {
        if head.len() < 2 {
            Err(GrammarError::MissingToken)
        } else {
            Ok(BlockView { identifier: None, kind: KindView::Package(head[1]) })
        }
    } else {
        Ok(BlockView { identifier: None, kind: KindView::Unknown })
    }
}

/// The field that a group inside a block denotes.
///
/// `message` and `service` give a nested declaration, `rpc Name ( Request )
/// returns ( Response )` a procedure, and `type name = tag` a property, where
/// `type` must name a scalar and `tag` must be a 32-bit integer.
pub open spec fn classified_field(group: GroupView) -> Result<FieldView, GrammarError>
    decreases group, 1nat,
{
    let head = group.head;
    if head.len() < 1 {
        Err(GrammarError::MissingToken)
    } else if opens_block(head[0]) {
        match classified(group) {
            Err(e) => Err(e),
            Ok(block) => Ok(FieldView::Block(block)),
        }
    } else if head[0] == "rpc"@ {
        if head.len() < 8 {
            Err(GrammarError::MissingToken)
        } else {
            Ok(FieldView::Rpc(RpcView { name: head[1], request: head[3], response: head[7] }))
        }
    } else {
        match scalar_of(head[0]) {
            None => Err(GrammarError::UnknownScalar),
            Some(scalar) => if head.len() < 4 {
                Err(GrammarError::MissingToken)
            } else {
                match parsed_i32(head[3]) {
                    None => Err(GrammarError::InvalidTag),
                    Some(value) => Ok(
                        FieldView::Property(PropertyView { scalar, name: head[1], value }),
                    ),
                }
            },
        }
    }
}

/// The fields that a list of groups denotes, in their order; the error of the
/// first group that denotes none.
pub open spec fn classified_fields(groups: Seq<GroupView>) -> Result<Seq<FieldView>, GrammarError>
    decreases groups, 0nat,
{
    if groups.len() == 0 {
        Ok(Seq::empty())
    } else {
        match classified_fields(groups.drop_last()) {
            Err(e) => Err(e),
            Ok(fields) => match classified_field(groups.last()) {
                Err(e) => Err(e),
                Ok(field) => Ok(fields.push(field)),
            },
        }
    }
}

/// The declarations that a list of groups denotes, in their order; the error
/// of the first group that denotes none.
pub open spec fn classified_blocks(groups: Seq<GroupView>) -> Result<Seq<BlockView>, GrammarError>
    decreases groups.len(),
{
    if groups.len() == 0 {
        Ok(Seq::empty())
    } else {
        match classified_blocks(groups.drop_last()) {
            Err(e) => Err(e),
            Ok(blocks) => match classified(groups.last()) {
                Err(e) => Err(e),
                Ok(block) => Ok(blocks.push(block)),
            },
        }
    }
}

/// The value of a classification: the value of what was built, or the error.
pub open spec fn block_result_view(r: Result<Block, GrammarError>) -> Result<
    BlockView,
    GrammarError,
> {
    match r {
        Ok(block) => Ok(block@),
        Err(e) => Err(e),
    }
}

/// The value of a field's classification.
pub open spec fn field_result_view(r: Result<Field, GrammarError>) -> Result<
    FieldView,
    GrammarError,
> {
    match r {
        Ok(field) => Ok(field@),
        Err(e) => Err(e),
    }
}

/// The value of the classification of a list of fields.
pub open spec fn fields_result_view(r: Result<Vec<Field>, GrammarError>) -> Result<
    Seq<FieldView>,
    GrammarError,
> {
    match r {
        Ok(fields) => Ok(fields_view(fields@)),
        Err(e) => Err(e),
    }
}

/// The values of a list of declarations.
pub open spec fn blocks_view(blocks: Seq<Block>) -> Seq<BlockView> {
    Seq::new(blocks.len(), |i: int| blocks[i]@)
}

/// The value of the classification of a list of declarations.
pub open spec fn blocks_result_view(r: Result<Vec<Block>, GrammarError>) -> Result<
    Seq<BlockView>,
    GrammarError,
> {
    match r {
        Ok(blocks) => Ok(blocks_view(blocks@)),
        Err(e) => Err(e),
    }
}

/// Once a group in a list denotes no field, no longer list denotes fields:
/// the first error stays.
pub proof fn lemma_fields_error_stays(groups: Seq<GroupView>, k: int)
    requires
        0 <= k <= groups.len(),
        classified_fields(groups.take(k)) is Err,
    ensures
        classified_fields(groups) == classified_fields(groups.take(k)),
    decreases groups.len() - k,
{
    if k < groups.len() {
        assert(groups.take(k + 1).drop_last() =~= groups.take(k));
        lemma_fields_error_stays(groups, k + 1);
    } else {
        assert(groups.take(k) =~= groups);
    }
}

/// Once a group in a list denotes no declaration, no longer list denotes
/// declarations: the first error stays.
pub proof fn lemma_blocks_error_stays(groups: Seq<GroupView>, k: int)
    requires
        0 <= k <= groups.len(),
        classified_blocks(groups.take(k)) is Err,
    ensures
        classified_blocks(groups) == classified_blocks(groups.take(k)),
    decreases groups.len() - k,
{
    if k < groups.len() {
        assert(groups.take(k + 1).drop_last() =~= groups.take(k));
        lemma_blocks_error_stays(groups, k + 1);
    } else {
        assert(groups.take(k) =~= groups);
    }
}

/// The scalar type that a keyword names, if it names one.
pub fn scalar_named(token: &str) -> (r: Option<Scalar>)
    ensures
        r == scalar_of(token@),
{
    if same_text(token, "int32") {
        Some(Scalar::Int32)
    } else if same_text(token, "string") {
        Some(Scalar::String)
    } else if same_text(token, "bool") {
        Some(Scalar::Bool)
    } else {
        None
    }
}

/// Classifies a group as a declaration.
pub fn block_of<'a>(group: &TokenGroup<'a>) -> (r: Result<Block<'a>, GrammarError>)
    ensures
        block_result_view(r) == classified(group@),
    decreases group, 0nat,
{
    let tokens = &group.0;
    let ghost head = tokens_view(tokens@);
    assert(head == group@.head);
    if tokens.len() < 1 {
        return Err(GrammarError::MissingToken);
    }
    let keyword: &'a str = tokens[0];
    assert(keyword@ == head[0]);
    let service = same_text(keyword, "service");
    if service || same_text(keyword, "message") {
        if tokens.len() < 2 {
            return Err(GrammarError::MissingToken);
        }
        let name: &'a str = tokens[1];
        assert(name@ == head[1]);
        let fields = match &group.1 {
            Some(groups) => match fields_of(groups) {
                Ok(fields) => fields,
                Err(e) => {
                    return Err(e);
                },
            },
            None => {
                let none: Vec<Field<'a>> = Vec::new();
                assert(fields_view(none@) =~= Seq::empty());
                none
            },
        };
        let kind = if service {
            Kind::Service(fields)
        } else {
            Kind::Message(fields)
        };
        Ok(Block { identifier: Some(name), kind })
    } else if same_text(keyword, "syntax") {
        if tokens.len() < 4 {
            return Err(GrammarError::MissingToken);
        }
        let version: &'a str = tokens[3];
        assert(version@ == head[3]);
        Ok(Block { identifier: None, kind: Kind::Syntax(version) })
    } else if same_text(keyword, "package") {
        if tokens.len() < 2 {
            return Err(GrammarError::MissingToken);
        }
        let name: &'a str = tokens[1];
        assert(name@ == head[1]);
        Ok(Block { identifier: None, kind: Kind::Package(name) })
    } else {
        Ok(Block { identifier: None, kind: Kind::Unknown })
    }
}

/// Classifies a group as a field of a block.
pub fn field_of<'a>(group: &TokenGroup<'a>) -> (r: Result<Field<'a>, GrammarError>)
    ensures
        field_result_view(r) == classified_field(group@),
    decreases group, 1nat,
{
    let tokens = &group.0;
    let ghost head = tokens_view(tokens@);
    assert(head == group@.head);
    if tokens.len() < 1 {
        return Err(GrammarError::MissingToken);
    }
    let keyword: &'a str = tokens[0];
    assert(keyword@ == head[0]);
    if same_text(keyword, "message") || same_text(keyword, "service") {
        match block_of(group) {
            Ok(block) => Ok(Field::Block(block)),
            Err(e) => Err(e),
        }
    } else if same_text(keyword, "rpc") {
        if tokens.len() < 8 {
            return Err(GrammarError::MissingToken);
        }
        let name: &'a str = tokens[1];
        let request: &'a str = tokens[3];
        let response: &'a str = tokens[7];
        assert(name@ == head[1] && request@ == head[3] && response@ == head[7]);
        Ok(Field::Rpc(Rpc { name, params: (request, response) }))
    } else {
        match scalar_named(keyword) {
            None => Err(GrammarError::UnknownScalar),
            Some(scalar) => {
                if tokens.len() < 4 {
                    return Err(GrammarError::MissingToken);
                }
                let name: &'a str = tokens[1];
                let tag: &'a str = tokens[3];
                assert(name@ == head[1] && tag@ == head[3]);
                match parse_i32(tag) {
                    None => Err(GrammarError::InvalidTag),
                    Some(value) => Ok(Field::Property(Property { scalar, name, value })),
                }
            },
        }
    }
}

/// The value of a list of fields with one more field at its end.
pub proof fn lemma_fields_view_push(fields: Seq<Field>, field: Field)
    ensures
        fields_view(fields.push(field)) == fields_view(fields).push(field@),
{
    assert(fields_view(fields.push(field)) =~= fields_view(fields).push(field@));
}

/// Classifies the groups inside a block as its fields.
pub fn fields_of<'a>(groups: &Vec<TokenGroup<'a>>) -> (r: Result<Vec<Field<'a>>, GrammarError>)
    ensures
        fields_result_view(r) == classified_fields(groups_view(groups@)),
    decreases groups, 0nat,
{
    let ghost all = groups_view(groups@);
    let mut fields: Vec<Field<'a>> = Vec::new();
    let mut i: usize = 0;
    proof {
        assert(all.take(0) =~= Seq::empty());
        assert(fields_view(fields@) =~= Seq::empty());
    }
    while i < groups.len()
        invariant
            i <= groups.len(),
            all == groups_view(groups@),
            classified_fields(all.take(i as int)) == Ok::<Seq<FieldView>, GrammarError>(
                fields_view(fields@),
            ),
        decreases groups.len() - i,
    {
        proof {
            assert(all.take(i + 1).drop_last() =~= all.take(i as int));
            assert(all.take(i + 1).last() == groups[i as int]@);
        }
        match field_of(&groups[i]) {
            Err(e) => {
                proof {
                    lemma_fields_error_stays(all, i + 1);
                }
                return Err(e);
            },
            Ok(field) => {
                proof {
                    lemma_fields_view_push(fields@, field);
                }
                fields.push(field);
            },
        }
        i = i + 1;
    }
    proof {
        assert(all.take(i as int) =~= all);
    }
    Ok(fields)
}

/// The head tokens of a group and the groups below it, on their way to
/// becoming a declaration or a field.
pub struct Identifier<'a> {
    pub tokens: Vec<&'a str>,
    pub children: TokenChildren<'a>,
}

impl<'a> View for Identifier<'a> {
    type V = GroupView;

    open spec fn view(&self) -> GroupView {
        GroupView {
            head: tokens_view(self.tokens@),
            children: match self.children {
                None => None,
                Some(groups) => Some(groups_view(groups@)),
            },
        }
    }
}

/// The value of a declaration given as a pair of name and kind.
pub open spec fn kind_result_view(r: Result<(Option<&str>, Kind), GrammarError>) -> Result<
    BlockView,
    GrammarError,
> {
    match r {
        Ok(pair) => Ok(
            BlockView {
                identifier: match pair.0 {
                    None => None,
                    Some(s) => Some(s@),
                },
                kind: pair.1@,
            },
        ),
        Err(e) => Err(e),
    }
}

/// What an [`Identifier`] can be turned into: a declaration, given as its
/// name and kind, or a field.
pub trait Identified<'a>: Sized {
    /// Whether `out` is what `group` denotes, read as a value of this type.
    spec fn denoted_by(group: GroupView, out: Result<Self, GrammarError>) -> bool;

    fn identified(value: Identifier<'a>) -> (r: Result<Self, GrammarError>)
        ensures
            Self::denoted_by(value@, r),
    ;
}

impl<'a> Identified<'a> for (Option<&'a str>, Kind<'a>) {
    open spec fn denoted_by(group: GroupView, out: Result<Self, GrammarError>) -> bool {
        kind_result_view(out) == classified(group)
    }

    fn identified(value: Identifier<'a>) -> (r: Result<Self, GrammarError>) {
        value.kind()
    }
}

impl<'a> Identified<'a> for Field<'a> {
    open spec fn denoted_by(group: GroupView, out: Result<Self, GrammarError>) -> bool {
        field_result_view(out) == classified_field(group)
    }

    fn identified(value: Identifier<'a>) -> (r: Result<Self, GrammarError>) {
        value.field()
    }
}

impl<'a> Identifier<'a> {
    /// Classifies a head and the groups below it: as a declaration where a
    /// pair of name and kind is asked for, as a field where a field is.
    pub fn identify<T: Identified<'a>>(tokens: Vec<&'a str>, children: TokenChildren<'a>) -> (r:
        Result<T, GrammarError>)
        ensures
            T::denoted_by(
                GroupView { head: tokens_view(tokens@), children: crate::lexer::children_view(children) },
                r,
            ),
    {
        let this = Self { tokens, children };
        T::identified(this)
    }

    /// The scalar type that a keyword names, if it names one.
    pub fn scalar(&self, token: &str) -> (r: Option<Scalar>)
        ensures
            r == scalar_of(token@),
    {
        scalar_named(token)
    }

    /// The declaration that this head and these children denote, as its name
    /// and kind.
    pub fn kind(self) -> (r: Result<(Option<&'a str>, Kind<'a>), GrammarError>)
        ensures
            kind_result_view(r) == classified(self@),
    {
        let group = TokenGroup(self.tokens, self.children);
        match block_of(&group) {
            Ok(block) => Ok((block.identifier, block.kind)),
            Err(e) => Err(e),
        }
    }

    /// The field that this head and these children denote.
    pub fn field(self) -> (r: Result<Field<'a>, GrammarError>)
        ensures
            field_result_view(r) == classified_field(self@),
    {
        let group = TokenGroup(self.tokens, self.children);
        field_of(&group)
    }
}

} // verus!
