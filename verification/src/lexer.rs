use vstd::prelude::*;

pub mod identifier;

use crate::lexer::identifier::{
    block_of, blocks_result_view, blocks_view, classified_blocks, lemma_blocks_error_stays, Block,
    BlockView, GrammarError,
};
use crate::text::{same_text, strings_view};

verus! {

pub type TokenChildren<'a> = Option<Vec<TokenGroup<'a>>>;

/// A node of the grouping tree: the head tokens of one statement or block,
/// and the groups nested in its braces (`None` for a statement that a
/// semicolon closed).
#[derive(PartialEq, Debug)]
pub struct TokenGroup<'a>(pub Vec<&'a str>, pub TokenChildren<'a>);

/// The declarations of a schema, with the name of its package where it has
/// one.
#[derive(PartialEq, Debug)]
pub struct Graph<'a> {
    pub blocks: Vec<Block<'a>>,
    pub package: Option<String>,
}

/// The mathematical value of a [`Graph`].
pub struct GraphView {
    pub blocks: Seq<BlockView>,
    pub package: Option<Seq<char>>,
}

impl<'a> View for Graph<'a> {
    type V = GraphView;

    open spec fn view(&self) -> GraphView {
        GraphView {
            blocks: blocks_view(self.blocks@),
            package: match self.package {
                Some(name) => Some(name@),
                None => None,
            },
        }
    }
}

/// The mathematical value of a [`TokenGroup`].
pub struct GroupView {
    pub head: Seq<Seq<char>>,
    pub children: Option<Seq<GroupView>>,
}

/// The texts of a list of borrowed tokens.
pub open spec fn tokens_view(tokens: Seq<&str>) -> Seq<Seq<char>> {
    Seq::new(tokens.len(), |i: int| tokens[i]@)
}

/// The values of a list of groups.
pub open spec fn groups_view(groups: Seq<TokenGroup>) -> Seq<GroupView>
    decreases groups,
{
    Seq::new(
        groups.len(),
        |i: int|
            if 0 <= i < groups.len() {
                groups[i]@
            } else {
                arbitrary()
            },
    )
}

/// The value of the groups below a node.
pub open spec fn children_view(children: TokenChildren) -> Option<Seq<GroupView>> {
    match children {
        None => None,
        Some(groups) => Some(groups_view(groups@)),
    }
}

impl<'a> View for TokenGroup<'a> {
    type V = GroupView;

    open spec fn view(&self) -> GroupView
        decreases self,
    {
        GroupView {
            head: tokens_view(self.0@),
            children: match self.1 {
                None => None,
                Some(groups) => Some(groups_view(groups@)),
            },
        }
    }
}

/// Where the nesting level that is open at `pos` ends, when `depth` more
/// levels are open inside it: just behind the brace that closes it, or at the
/// end of the tokens where no brace does.
pub open spec fn level_end(tokens: Seq<Seq<char>>, pos: nat, depth: nat) -> nat
    decreases tokens.len() - pos,
{
    if pos >= tokens.len() {
        pos
    } else if tokens[pos as int] == "{"@ {
        level_end(tokens, pos + 1, depth + 1)
    } else if tokens[pos as int] == "}"@ {
        if depth == 0 {
            pos + 1
        } else {
            level_end(tokens, pos + 1, (depth - 1) as nat)
        }
    } else {
        level_end(tokens, pos + 1, depth)
    }
}

/// A level ends behind the place where it is entered, and within the tokens.
pub proof fn lemma_level_end_bounds(tokens: Seq<Seq<char>>, pos: nat, depth: nat)
    requires
        pos <= tokens.len(),
    ensures
        pos <= level_end(tokens, pos, depth) <= tokens.len(),
    decreases tokens.len() - pos,
{
    if pos < tokens.len() {
        if tokens[pos as int] == "{"@ {
            lemma_level_end_bounds(tokens, pos + 1, depth + 1);
        } else if tokens[pos as int] == "}"@ {
            if depth > 0 {
                lemma_level_end_bounds(tokens, pos + 1, (depth - 1) as nat);
            }
        } else {
            lemma_level_end_bounds(tokens, pos + 1, depth);
        }
    }
}

/// Leaving `inner + outer + 1` levels is leaving the `inner + 1` innermost
/// ones first and then `outer` more.
pub proof fn lemma_level_end_split(tokens: Seq<Seq<char>>, pos: nat, inner: nat, outer: nat)
    requires
        pos <= tokens.len(),
    ensures
        level_end(tokens, pos, inner + outer + 1) == level_end(
            tokens,
            level_end(tokens, pos, inner),
            outer,
        ),
    decreases tokens.len() - pos,
{
    if pos < tokens.len() {
        if tokens[pos as int] == "{"@ {
            lemma_level_end_split(tokens, pos + 1, inner + 1, outer);
        } else if tokens[pos as int] == "}"@ {
            if inner > 0 {
                lemma_level_end_split(tokens, pos + 1, (inner - 1) as nat, outer);
            }
        } else {
            lemma_level_end_split(tokens, pos + 1, inner, outer);
        }
    }
}

/// The groups of one nesting level, read from `pos` on, where `head` holds
/// the tokens of the statement that is being read.
///
/// A semicolon closes a statement; an opening brace closes a head and opens a
/// level, whose groups become the children; a closing brace ends the level.
/// Tokens that are left at the end of the input belong to no group.
pub open spec fn groups_from(tokens: Seq<Seq<char>>, pos: nat, head: Seq<Seq<char>>) -> Seq<
    GroupView,
>
    decreases tokens.len() - pos,
{
    if pos >= tokens.len() {
        Seq::empty()
    } else if tokens[pos as int] == ";"@ {
        seq![GroupView { head, children: None }] + groups_from(tokens, pos + 1, Seq::empty())
    } else if tokens[pos as int] == "{"@ {
        proof {
            lemma_level_end_bounds(tokens, pos + 1, 0);
        }
        seq![
            GroupView { head, children: Some(groups_from(tokens, pos + 1, Seq::empty())) },
        ] + groups_from(tokens, level_end(tokens, pos + 1, 0), Seq::empty())
    } else if tokens[pos as int] == "}"@ {
        Seq::empty()
    } else {
        groups_from(tokens, pos + 1, head.push(tokens[pos as int]))
    }
}

/// The grouping tree of a whole token sequence.
pub open spec fn grouped(tokens: Seq<Seq<char>>) -> Seq<GroupView> {
    groups_from(tokens, 0, Seq::empty())
}

/// The value of a list of groups with one more group at its end.
pub proof fn lemma_groups_view_push(groups: Seq<TokenGroup>, group: TokenGroup)
    ensures
        groups_view(groups.push(group)) == groups_view(groups).push(group@),
{
    assert(groups_view(groups.push(group)) =~= groups_view(groups).push(group@));
}

/// The texts of a list of tokens with one more token at its end.
pub proof fn lemma_tokens_view_push(tokens: Seq<&str>, token: &str)
    ensures
        tokens_view(tokens.push(token)) == tokens_view(tokens).push(token@),
{
    assert(tokens_view(tokens.push(token)) =~= tokens_view(tokens).push(token@));
}

/// The state of reading one nesting level: the head tokens of the statement
/// that is being read, and the groups that are complete.
pub struct Node<'a> {
    pub tokens: Vec<&'a str>,
    pub groups: Vec<TokenGroup<'a>>,
}

impl<'a> Default for Node<'a> {
    /// A level of which nothing was read yet.
    fn default() -> (node: Self)
        ensures
            node.tokens@ == Seq::<&str>::empty(),
            node.groups@ == Seq::<TokenGroup>::empty(),
    {
        Node { tokens: Vec::new(), groups: Vec::new() }
    }
}

impl<'a> Node<'a> {
    /// Closes the statement that is being read: its head tokens and the given
    /// children become the next group, and the head starts anew.
    pub fn push(&mut self, children: TokenChildren<'a>)
        ensures
            final(self).tokens@ == Seq::<&str>::empty(),
            final(self).groups@ == old(self).groups@.push(TokenGroup(old(self).tokens, children)),
    {
        let group: TokenGroup<'a> = TokenGroup(self.drain(), children);
        self.groups.push(group);
    }

    /// Takes the head tokens that were read, and leaves none.
    pub fn drain(&mut self) -> (tokens: Vec<&'a str>)
        ensures
            tokens == old(self).tokens,
            final(self).tokens@ == Seq::<&str>::empty(),
            final(self).groups == old(self).groups,
    {
        let mut tokens: Vec<&'a str> = Vec::new();
        std::mem::swap(&mut self.tokens, &mut tokens);
        tokens
    }
}

/// Groups one nesting level of `tokens`, from `start` on. Returns the groups
/// and the place behind the level.
pub fn group_level<'a>(tokens: &'a Vec<String>, start: usize) -> (r: (
    Vec<TokenGroup<'a>>,
    usize,
))
    requires
        start <= tokens.len(),
    ensures
        groups_view(r.0@) == groups_from(strings_view(tokens@), start as nat, Seq::empty()),
        r.1 == level_end(strings_view(tokens@), start as nat, 0),
        start <= r.1 <= tokens.len(),
    decreases tokens.len() - start,
{
    let ghost texts = strings_view(tokens@);
    let mut node = Node::default();
    let mut pos: usize = start;
    proof {
        assert(groups_view(node.groups@) =~= Seq::empty());
        assert(tokens_view(node.tokens@) =~= Seq::empty());
        lemma_braces_differ();
    }
    while pos < tokens.len()
        invariant
            start <= pos <= tokens.len(),
            texts == strings_view(tokens@),
            groups_from(texts, start as nat, Seq::empty()) == groups_view(node.groups@)
                + groups_from(texts, pos as nat, tokens_view(node.tokens@)),
            level_end(texts, start as nat, 0) == level_end(texts, pos as nat, 0),
            ";"@ != "{"@,
            ";"@ != "}"@,
            "{"@ != "}"@,
        decreases tokens.len() - pos,
    {
        let token: &'a str = tokens[pos].as_str();
        assert(token@ == texts[pos as int]);
        let ghost before = groups_view(node.groups@);
        let ghost head = tokens_view(node.tokens@);
        let ghost rest = groups_from(texts, pos as nat, head);
        if same_text(token, ";") {
            proof {
                lemma_groups_view_push(node.groups@, TokenGroup(node.tokens, None));
            }
            node.push(None);
            pos = pos + 1;
            proof {
                let leaf = GroupView { head, children: None };
                let after = groups_from(texts, pos as nat, Seq::empty());
                assert(tokens_view(node.tokens@) =~= Seq::empty());
                assert(rest == seq![leaf] + after);
                assert(before + (seq![leaf] + after) =~= before.push(leaf) + after);
            }
        } else if same_text(token, "{") {
            let (inner, next) = group_level(tokens, pos + 1);
            proof {
                lemma_groups_view_push(node.groups@, TokenGroup(node.tokens, Some(inner)));
                lemma_level_end_split(texts, (pos + 1) as nat, 0, 0);
            }
            node.push(Some(inner));
            let ghost entered = pos;
            pos = next;
            proof {
                let block = GroupView {
                    head,
                    children: Some(groups_from(texts, (entered + 1) as nat, Seq::empty())),
                };
                let after = groups_from(texts, pos as nat, Seq::empty());
                assert(tokens_view(node.tokens@) =~= Seq::empty());
                assert(rest == seq![block] + after);
                assert(before + (seq![block] + after) =~= before.push(block) + after);
            }
        } else if same_text(token, "}") {
            proof {
                assert(before + Seq::<GroupView>::empty() =~= before);
            }
            return (node.groups, pos + 1);
        } else {
            proof {
                lemma_tokens_view_push(node.tokens@, token);
            }
            node.tokens.push(token);
            pos = pos + 1;
        }
    }
    proof {
        assert(groups_view(node.groups@) + Seq::<GroupView>::empty() =~= groups_view(
            node.groups@,
        ));
    }
    (node.groups, pos)
}

/// The three tokens that shape the grouping tree are different texts.
pub proof fn lemma_braces_differ()
    ensures
        ";"@ != "{"@,
        ";"@ != "}"@,
        "{"@ != "}"@,
{
    reveal_strlit(";");
    reveal_strlit("{");
    reveal_strlit("}");
    assert(";"@[0] == ';');
    assert("{"@[0] == '{');
    assert("}"@[0] == '}');
}

/// Groups a token sequence into its tree of statements and blocks.
///
/// Braces are not checked for balance: a closing brace that closes nothing
/// ends the grouping there, and a level that is never closed runs to the end
/// of the input.
pub fn group_tokens<'a>(tokens: &'a Vec<String>) -> (groups: Vec<TokenGroup<'a>>)
    ensures
        groups_view(groups@) == grouped(strings_view(tokens@)),
{
    let (groups, _) = group_level(tokens, 0);
    groups
}

/// The values of a list of declarations with one more at its end.
pub proof fn lemma_blocks_view_push(blocks: Seq<Block>, block: Block)
    ensures
        blocks_view(blocks.push(block)) == blocks_view(blocks).push(block@),
{
    assert(blocks_view(blocks.push(block)) =~= blocks_view(blocks).push(block@));
}

/// Classifies each top-level group as a declaration, in order. The first
/// group that is malformed gives the error.
pub fn into_blocks<'a>(group: Vec<TokenGroup<'a>>) -> (r: Result<Vec<Block<'a>>, GrammarError>)
    ensures
        blocks_result_view(r) == classified_blocks(groups_view(group@)),
{
    let ghost all = groups_view(group@);
    let mut blocks: Vec<Block<'a>> = Vec::new();
    let mut i: usize = 0;
    proof {
        assert(all.take(0) =~= Seq::empty());
        assert(blocks_view(blocks@) =~= Seq::empty());
    }
    while i < group.len()
        invariant
            i <= group.len(),
            all == groups_view(group@),
            classified_blocks(all.take(i as int)) == Ok::<Seq<BlockView>, GrammarError>(
                blocks_view(blocks@),
            ),
        decreases group.len() - i,
    {
        proof {
            assert(all.take(i + 1).drop_last() =~= all.take(i as int));
            assert(all.take(i + 1).last() == group[i as int]@);
        }
        match block_of(&group[i]) {
            Err(e) => {
                proof {
                    lemma_blocks_error_stays(all, i + 1);
                }
                return Err(e);
            },
            Ok(block) => {
                proof {
                    lemma_blocks_view_push(blocks@, block);
                }
                blocks.push(block);
            },
        }
        i = i + 1;
    }
    proof {
        assert(all.take(i as int) =~= all);
    }
    Ok(blocks)
}

/// The declarations that a token sequence denotes: its grouping tree,
/// classified.
pub open spec fn declarations(tokens: Seq<Seq<char>>) -> Result<Seq<BlockView>, GrammarError> {
    classified_blocks(grouped(tokens))
}

/// Groups the tokens of a schema and classifies the groups as declarations.
pub fn translate<'a>(input: &'a Vec<String>) -> (r: Result<Vec<Block<'a>>, GrammarError>)
    ensures
        blocks_result_view(r) == declarations(strings_view(input@)),
{
    let groups = group_tokens(input);
    into_blocks(groups)
}

} // verus!
