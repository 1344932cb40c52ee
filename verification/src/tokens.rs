//! Token streams of `proc_macro2`, as the generic-parameter code builds
//! them. A stream is seen as the sequence of its token trees; every item
//! here is a trusted wrapper around one `proc_macro2` call.
use vstd::prelude::*;
use proc_macro2::{Delimiter, Group, Ident, Literal, Punct, Spacing, Span, TokenStream, TokenTree};

verus! {

#[verifier::external_type_specification]
#[verifier::external_body]
pub struct ExTokenStream(proc_macro2::TokenStream);

#[verifier::external_type_specification]
#[verifier::external_body]
pub struct ExIdent(proc_macro2::Ident);

/// The delimiter of a group.
#[derive(PartialEq, Eq, Structural)]
pub enum Delim {
    /// `( ... )`
    Parenthesis,
    /// `[ ... ]`
    Bracket,
    /// `{ ... }`
    Brace,
    /// An invisible delimiter
    Invisible,
}

/// A token tree as a plain value: a punctuation character (joint when the
/// next token follows it without space), an identifier or literal by its
/// text, or a delimited group with its trees.
pub enum TokenTreeView {
    Punct { ch: char, joint: bool },
    Ident(Seq<char>),
    Literal(Seq<char>),
    Group(Delim, Seq<TokenTreeView>),
}

/// The token trees of a stream, in order.
pub uninterp spec fn token_trees(ts: TokenStream) -> Seq<TokenTreeView>;

/// The text of an identifier, as `Ident::to_string` gives it.
pub uninterp spec fn ident_text(id: Ident) -> Seq<char>;

/// The characters that `Punct::new` accepts.
pub open spec fn is_punct_char(c: char) -> bool {
    c == '!' || c == '#' || c == '$' || c == '%' || c == '&' || c == '\'' || c == '*' || c == '+'
        || c == ',' || c == '-' || c == '.' || c == '/' || c == ':' || c == ';' || c == '<' || c
        == '=' || c == '>' || c == '?' || c == '@' || c == '^' || c == '|' || c == '~'
}

/// An ASCII letter or `_`.
pub open spec fn is_ascii_ident_start(c: char) -> bool {
    ('a' <= c && c <= 'z') || ('A' <= c && c <= 'Z') || c == '_'
}

/// An ASCII letter, digit or `_`.
pub open spec fn is_ascii_ident_continue(c: char) -> bool {
    is_ascii_ident_start(c) || ('0' <= c && c <= '9')
}

/// An identifier made of ASCII letters, digits and `_`, not starting with a
/// digit: `Ident::new` accepts every such name.
pub open spec fn is_ascii_ident(s: Seq<char>) -> bool {
    &&& s.len() > 0
    &&& is_ascii_ident_start(s[0])
    &&& forall|i: int| 0 < i < s.len() ==> is_ascii_ident_continue(#[trigger] s[i])
}

/// `TokenStream::new`: the empty stream.
#[verifier::external_body]
pub(crate) fn ts_new() -> (r: TokenStream)
    ensures
        token_trees(r) == Seq::<TokenTreeView>::empty(),
{
    TokenStream::new()
}

/// `TokenStream::clone`: a stream of the same trees.
#[verifier::external_body]
pub(crate) fn ts_clone(ts: &TokenStream) -> (r: TokenStream)
    ensures
        token_trees(r) == token_trees(*ts),
{
    ts.clone()
}

/// `Extend<TokenStream>::extend` with one stream: the trees of `more` are
/// appended after those of `dst`.
#[verifier::external_body]
pub(crate) fn ts_append(dst: &mut TokenStream, more: TokenStream)
    ensures
        token_trees(*final(dst)) == token_trees(*old(dst)) + token_trees(more),
{
    dst.extend(core::iter::once(more))
}

/// `Punct::new` in a stream of its own.
#[verifier::external_body]
pub(crate) fn ts_punct(ch: char, joint: bool) -> (r: TokenStream)
    requires
        is_punct_char(ch),
    ensures
        token_trees(r) == seq![TokenTreeView::Punct { ch, joint }],
{
    let spacing = if joint { Spacing::Joint } else { Spacing::Alone };
    TokenStream::from(TokenTree::Punct(Punct::new(ch, spacing)))
}

/// `Ident::new` at the call site, in a stream of its own.
#[verifier::external_body]
pub(crate) fn ts_ident(name: &str) -> (r: TokenStream)
    requires
        is_ascii_ident(name@),
    ensures
        token_trees(r) == seq![TokenTreeView::Ident(name@)],
{
    TokenStream::from(TokenTree::Ident(Ident::new(name, Span::call_site())))
}

/// `Group::new`: the trees of `inner` inside a delimiter, in a stream of
/// its own.
#[verifier::external_body]
pub(crate) fn ts_group(delim: Delim, inner: TokenStream) -> (r: TokenStream)
    ensures
        token_trees(r) == seq![TokenTreeView::Group(delim, token_trees(inner))],
{
    let d = match delim {
        Delim::Parenthesis => Delimiter::Parenthesis,
        Delim::Bracket => Delimiter::Bracket,
        Delim::Brace => Delimiter::Brace,
        Delim::Invisible => Delimiter::None,
    };
    TokenStream::from(TokenTree::Group(Group::new(d, inner)))
}

/// `TokenStream::from` an identifier: a stream of that one tree.
#[verifier::external_body]
pub(crate) fn ts_of_ident(id: Ident) -> (r: TokenStream)
    ensures
        token_trees(r) == seq![TokenTreeView::Ident(ident_text(id))],
{
    TokenStream::from(TokenTree::Ident(id))
}

/// `Ident::clone`: the same identifier.
#[verifier::external_body]
pub(crate) fn ident_clone(id: &Ident) -> (r: Ident)
    ensures
        ident_text(r) == ident_text(*id),
{
    id.clone()
}

/// What one token tree is, with the text of an identifier or literal.
pub enum TreeKind {
    /// A punctuation character, and whether it is joint
    Punct(char, bool),
    /// An identifier, by its text
    Ident(String),
    /// A literal, by its text
    Literal(String),
    /// A group, by its delimiter
    Group(Delim),
}

/// Whether `k` tells what the tree `t` is.
pub open spec fn kind_matches(k: TreeKind, t: TokenTreeView) -> bool {
    match k {
        TreeKind::Punct(c, j) => t == TokenTreeView::Punct { ch: c, joint: j },
        TreeKind::Ident(x) => t == TokenTreeView::Ident(x@),
        TreeKind::Literal(x) => t == TokenTreeView::Literal(x@),
        TreeKind::Group(d) => t matches TokenTreeView::Group(d2, _) && d2 == d,
    }
}

/// `IntoIterator for TokenStream`, each tree put in a stream of its own:
/// one stream per tree, in order.
#[verifier::external_body]
pub(crate) fn ts_split(ts: TokenStream) -> (r: Vec<TokenStream>)
    ensures
        r@.len() == token_trees(ts).len(),
        forall|i: int| 0 <= i < r@.len() ==> token_trees(#[trigger] r@[i]) == seq![token_trees(ts)[i]],
{
    ts.into_iter().map(TokenStream::from).collect()
}

/// What the one tree of a stream is: its punctuation character and
/// spacing, its identifier's or literal's text (`to_string`), or its
/// group's delimiter.
#[verifier::external_body]
pub(crate) fn tree_kind(t: &TokenStream) -> (r: TreeKind)
    requires
        token_trees(*t).len() == 1,
    ensures
        kind_matches(r, token_trees(*t)[0]),
{
    match t.clone().into_iter().next() {
        Some(TokenTree::Punct(p)) => TreeKind::Punct(p.as_char(), p.spacing() == Spacing::Joint),
        Some(TokenTree::Ident(i)) => TreeKind::Ident(i.to_string()),
        Some(TokenTree::Literal(l)) => TreeKind::Literal(l.to_string()),
        Some(TokenTree::Group(g)) => TreeKind::Group(match g.delimiter() {
            Delimiter::Parenthesis => Delim::Parenthesis,
            Delimiter::Bracket => Delim::Bracket,
            Delimiter::Brace => Delim::Brace,
            Delimiter::None => Delim::Invisible,
        }),
        None => TreeKind::Group(Delim::Invisible),
    }
}

/// `Group::stream`: the trees inside the group that is the one tree of
/// the stream.
#[verifier::external_body]
pub(crate) fn group_stream(t: &TokenStream) -> (r: TokenStream)
    requires
        token_trees(*t).len() == 1,
        token_trees(*t)[0] is Group,
    ensures
        token_trees(r) == token_trees(*t)[0]->Group_1,
{
    match t.clone().into_iter().next() {
        Some(TokenTree::Group(g)) => g.stream(),
        _ => TokenStream::new(),
    }
}

/// The identifier that is the one tree of the stream.
#[verifier::external_body]
pub(crate) fn tree_ident(t: &TokenStream) -> (r: Ident)
    requires
        token_trees(*t).len() == 1,
        token_trees(*t)[0] is Ident,
    ensures
        token_trees(*t)[0] == TokenTreeView::Ident(ident_text(r)),
{
    match t.clone().into_iter().next() {
        Some(TokenTree::Ident(i)) => i,
        _ => Ident::new("_", Span::call_site()),
    }
}


/// A character that a string literal holds as it is: printable ASCII
/// other than `"` and `\`, or `…`.
pub open spec fn is_plain_char(c: char) -> bool {
    (' ' <= c && c <= '~' && c != '"' && c != '\\') || c == '\u{2026}'
}

/// Whether every character of `s` is plain.
pub open spec fn is_plain_text(s: Seq<char>) -> bool {
    forall|i: int| 0 <= i < s.len() ==> is_plain_char(#[trigger] s[i])
}

/// `s` in double quotes.
pub open spec fn quoted(s: Seq<char>) -> Seq<char> {
    seq!['"'] + s + seq!['"']
}

/// `Literal::string`, in a stream of its own: one literal. Its text is
/// written by the compiler inside a procedural macro and by proc-macro2's
/// own escaper (`escape_utf8`, which goes through `char::escape_debug`)
/// elsewhere; both write plain characters as they are, so the literal of
/// a plain string is the string in double quotes. How other characters
/// are escaped differs between the two and is not stated.
#[verifier::external_body]
pub(crate) fn ts_str_literal(s: &str) -> (r: TokenStream)
    ensures
        token_trees(r).len() == 1,
        token_trees(r)[0] is Literal,
        is_plain_text(s@) ==> token_trees(r) == seq![TokenTreeView::Literal(quoted(s@))],
{
    TokenStream::from(TokenTree::Literal(Literal::string(s)))
}

/// `Ident::to_string`: the identifier's text.
#[verifier::external_body]
pub(crate) fn ident_string(id: &Ident) -> (r: String)
    ensures
        r@ == ident_text(*id),
{
    id.to_string()
}

} // verus!
