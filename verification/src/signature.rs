//! Function signatures read from token streams: the attributes (and the
//! documentation among them), the name, the generic parameters, the
//! parameters, the return type and the body.
//!
//! The grammar, over the token trees of the input:
//! - an attribute is `#` then a bracket group; it is documentation when the
//!   group holds exactly `doc = "..."` (a plain string literal), and the
//!   group may not hold `doc = "..."` followed by more tokens; every other
//!   group is an attribute that holds no documentation;
//! - a signature is attributes, `fn`, a name, optional generic parameters,
//!   a parenthesis group of parameters, an optional `-> type`, and a brace
//!   group (the body); what follows the body is not read;
//! - a type runs until a stop token at its own level, where `<` ... `>`
//!   (balanced) counts as one tree; the angle brackets of such a pair are
//!   written back alone, every other tree as it was;
//! - a parameter is a name, `:` and a type that runs until a `,`; the
//!   parameters are read one after the other, each followed by an optional
//!   `,`, until one cannot be read or no `,` follows;
//! - generic parameters are `<`, then lifetimes (`'a: bounds`), consts
//!   (`const N: type = default`) and types (`T: bounds = default`), each
//!   followed by an optional `,`, then `>`.
use vstd::prelude::*;
use proc_macro2::{Ident, TokenStream};
use crate::tokens::{
    TokenTreeView, Delim, TreeKind, kind_matches, token_trees, ident_text, ts_new, ts_clone,
    ts_append, ts_punct, ts_group, ts_split, tree_kind, group_stream, tree_ident,
};
use crate::text::{str_chars, push_chars};

verus! {

/// A punctuation character written alone.
pub open spec fn lone(c: char) -> TokenTreeView {
    TokenTreeView::Punct { ch: c, joint: false }
}

/// Whether `t` is the punctuation character `c` (joint or alone).
pub open spec fn is_punct(t: TokenTreeView, c: char) -> bool {
    t matches TokenTreeView::Punct { ch, .. } && ch == c
}

/// Whether `t` is the identifier `w`.
pub open spec fn is_word(t: TokenTreeView, w: Seq<char>) -> bool {
    t matches TokenTreeView::Ident(x) && x == w
}

/// Whether `t` is a group with delimiter `d`.
pub open spec fn is_group(t: TokenTreeView, d: Delim) -> bool {
    t matches TokenTreeView::Group(d2, _) && d2 == d
}

/// The tokens that end a type.
pub enum Stop {
    /// `,`
    Comma,
    /// `,` or `>`
    CommaGt,
    /// `,`, `>` or `=`
    CommaGtEq,
    /// A brace group
    Brace,
}

/// Whether `t` ends a type under `stop`.
pub open spec fn stops(stop: Stop, t: TokenTreeView) -> bool {
    match stop {
        Stop::Comma => is_punct(t, ','),
        Stop::CommaGt => is_punct(t, ',') || is_punct(t, '>'),
        Stop::CommaGtEq => is_punct(t, ',') || is_punct(t, '>') || is_punct(t, '='),
        Stop::Brace => is_group(t, Delim::Brace),
    }
}

/// A read: where it ends, and the trees it writes back.
pub type Read = Option<(int, Seq<TokenTreeView>)>;

/// One tree at `i`, where a `<` with a matching `>` at its level takes the
/// whole pair and what is between.
pub open spec fn angle_tree(s: Seq<TokenTreeView>, i: int) -> Read
    decreases s.len() - i, 1nat,
{
    if i < 0 || i >= s.len() {
        None
    } else if is_punct(s[i], '<') {
        match angle_rest(s, i + 1) {
            Some((e, inner)) => Some((e, seq![lone('<')] + inner + seq![lone('>')])),
            None => Some((i + 1, seq![s[i]])),
        }
    } else {
        Some((i + 1, seq![s[i]]))
    }
}

/// The trees after a `<` up to its matching `>`, which is read but not
/// written.
pub open spec fn angle_rest(s: Seq<TokenTreeView>, i: int) -> Read
    decreases s.len() - i, 2nat,
{
    if i < 0 || i >= s.len() {
        None
    } else if is_punct(s[i], '>') {
        Some((i + 1, seq![]))
    } else {
        match angle_tree(s, i) {
            Some((e, t)) => if i < e <= s.len() {
                match angle_rest(s, e) {
                    Some((e2, t2)) => Some((e2, t + t2)),
                    None => None,
                }
            } else {
                None
            },
            None => None,
        }
    }
}

/// Trees from `i` on, up to (not including) a stop token or the end.
pub open spec fn type_more(s: Seq<TokenTreeView>, i: int, stop: Stop) -> (int, Seq<TokenTreeView>)
    decreases s.len() - i,
{
    if 0 <= i < s.len() && !stops(stop, s[i]) {
        match angle_tree(s, i) {
            Some((e, t)) => if i < e <= s.len() {
                let (e2, t2) = type_more(s, e, stop);
                (e2, t + t2)
            } else {
                (i, seq![])
            },
            None => (i, seq![]),
        }
    } else {
        (i, seq![])
    }
}

/// A type at `i`: at least one tree before the stop.
pub open spec fn type_at(s: Seq<TokenTreeView>, i: int, stop: Stop) -> Read {
    let (e, t) = type_more(s, i, stop);
    if e > i {
        Some((e, t))
    } else {
        None
    }
}

/// A parameter as plain values: its name and the trees of its type.
pub struct ParamSpec {
    pub name: Seq<char>,
    pub ty: Seq<TokenTreeView>,
}

/// A parameter at `i`: a name, `:`, and a type up to a `,`.
pub open spec fn param_at(s: Seq<TokenTreeView>, i: int) -> Option<(int, ParamSpec)> {
    if 0 <= i && i + 1 < s.len() && s[i] is Ident && is_punct(s[i + 1], ':') {
        match type_at(s, i + 2, Stop::Comma) {
            Some((e, t)) => Some((e, ParamSpec { name: s[i]->Ident_0, ty: t })),
            None => None,
        }
    } else {
        None
    }
}

/// The parameters from `i` on, and where they end.
pub open spec fn params_from(s: Seq<TokenTreeView>, i: int) -> (int, Seq<ParamSpec>)
    decreases s.len() - i,
{
    match param_at(s, i) {
        Some((e, p)) => if e > i && e < s.len() && is_punct(s[e], ',') {
            let (e2, rest) = params_from(s, e + 1);
            (e2, seq![p] + rest)
        } else {
            (e, seq![p])
        },
        None => (i, seq![]),
    }
}

/// The parameters of a parameter list.
pub open spec fn params_of(s: Seq<TokenTreeView>) -> Seq<ParamSpec> {
    params_from(s, 0).1
}

/// A lifetime parameter at `i`: `'name`, then `: bounds` when the bounds
/// can be read.
pub open spec fn lifetime_param(s: Seq<TokenTreeView>, i: int) -> Read {
    if 0 <= i && i + 1 < s.len() && s[i] == (TokenTreeView::Punct { ch: '\'', joint: true })
        && s[i + 1] is Ident {
        let head = seq![s[i], s[i + 1]];
        if i + 2 < s.len() && is_punct(s[i + 2], ':') {
            match type_at(s, i + 3, Stop::CommaGt) {
                Some((e, b)) => Some((e, head + seq![lone(':')] + b)),
                None => Some((i + 2, head)),
            }
        } else {
            Some((i + 2, head))
        }
    } else {
        None
    }
}

/// `= default` at `i`, when it can be read, after a parameter that ended
/// at `i` having written `t`.
pub open spec fn with_default(s: Seq<TokenTreeView>, i: int, t: Seq<TokenTreeView>) -> Read {
    if 0 <= i < s.len() && is_punct(s[i], '=') {
        match type_at(s, i + 1, Stop::CommaGt) {
            Some((e, d)) => Some((e, t + seq![lone('=')] + d)),
            None => Some((i, t)),
        }
    } else {
        Some((i, t))
    }
}

/// A const parameter at `i`: `const`, a name, `:`, a type, then an
/// optional default.
pub open spec fn const_param(s: Seq<TokenTreeView>, i: int) -> Read {
    if 0 <= i && i + 2 < s.len() && is_word(s[i], "const"@) && s[i + 1] is Ident && is_punct(
        s[i + 2],
        ':',
    ) {
        match type_at(s, i + 3, Stop::CommaGtEq) {
            Some((e, t)) => with_default(s, e, seq![s[i], s[i + 1], lone(':')] + t),
            None => None,
        }
    } else {
        None
    }
}

/// A type parameter at `i`: a name, then optional bounds, then an optional
/// default.
pub open spec fn type_param(s: Seq<TokenTreeView>, i: int) -> Read {
    if 0 <= i < s.len() && s[i] is Ident {
        let (e, t) = if i + 1 < s.len() && is_punct(s[i + 1], ':') {
            match type_at(s, i + 2, Stop::CommaGtEq) {
                Some((e, b)) => (e, seq![s[i], lone(':')] + b),
                None => (i + 1, seq![s[i]]),
            }
        } else {
            (i + 1, seq![s[i]])
        };
        with_default(s, e, t)
    } else {
        None
    }
}

/// A generic parameter at `i`: a lifetime, else a const, else a type.
pub open spec fn generic_param(s: Seq<TokenTreeView>, i: int) -> Read {
    match lifetime_param(s, i) {
        Some(r) => Some(r),
        None => match const_param(s, i) {
            Some(r) => Some(r),
            None => type_param(s, i),
        },
    }
}

/// The generic parameters from `i` on, each written with the `,` that
/// follows it.
pub open spec fn generic_params_from(s: Seq<TokenTreeView>, i: int) -> (int, Seq<TokenTreeView>)
    decreases s.len() - i,
{
    match generic_param(s, i) {
        Some((e, p)) => if e > i && e < s.len() && is_punct(s[e], ',') {
            let (e2, rest) = generic_params_from(s, e + 1);
            (e2, p + seq![lone(',')] + rest)
        } else {
            (e, p)
        },
        None => (i, seq![]),
    }
}

/// Generic parameters at `i`: `<`, the parameters, `>`.
pub open spec fn generics_at(s: Seq<TokenTreeView>, i: int) -> Read {
    if 0 <= i < s.len() && is_punct(s[i], '<') {
        let (e, ps) = generic_params_from(s, i + 1);
        if 0 <= e < s.len() && is_punct(s[e], '>') {
            Some((e + 1, seq![lone('<')] + ps + seq![lone('>')]))
        } else {
            None
        }
    } else {
        None
    }
}

/// What an attribute holds: documentation (the text of its string
/// literal, with the quotes) or anything else.
pub enum AttrSpec {
    Doc(Seq<char>),
    Other,
}

/// Whether `l` is the text of a plain string literal: it starts with a
/// quote (a literal token that does is a whole string literal, so it has
/// its closing quote too).
pub open spec fn is_string_literal(l: Seq<char>) -> bool {
    l.len() >= 2 && l[0] == '"'
}

/// Whether the trees start with `doc = "..."`.
pub open spec fn doc_head(c: Seq<TokenTreeView>) -> bool {
    &&& c.len() >= 3
    &&& is_word(c[0], "doc"@)
    &&& is_punct(c[1], '=')
    &&& c[2] matches TokenTreeView::Literal(l) && is_string_literal(l)
}

/// The attribute at `i`, if there is one there: `#` then a bracket group
/// that does not hold `doc = "..."` followed by more.
pub open spec fn attr_at(s: Seq<TokenTreeView>, i: int) -> Option<AttrSpec> {
    if 0 <= i && i + 1 < s.len() && is_punct(s[i], '#') && is_group(s[i + 1], Delim::Bracket) {
        let c = s[i + 1]->Group_1;
        if doc_head(c) {
            if c.len() == 3 {
                Some(AttrSpec::Doc(c[2]->Literal_0))
            } else {
                None
            }
        } else {
            Some(AttrSpec::Other)
        }
    } else {
        None
    }
}

/// The attributes from `i` on, and where they end.
pub open spec fn attrs_from(s: Seq<TokenTreeView>, i: int) -> (int, Seq<AttrSpec>)
    decreases s.len() - i,
{
    if 0 <= i < s.len() {
        match attr_at(s, i) {
            Some(a) => {
                let (e, rest) = attrs_from(s, i + 2);
                (e, seq![a] + rest)
            },
            None => (i, seq![]),
        }
    } else {
        (i, seq![])
    }
}

/// The text with each `\"` made `"`, left to right.
pub open spec fn unescape_quotes(t: Seq<char>) -> Seq<char>
    decreases t.len(),
{
    if t.len() == 0 {
        t
    } else if t.len() >= 2 && t[0] == '\\' && t[1] == '"' {
        seq!['"'] + unescape_quotes(t.subrange(2, t.len() as int))
    } else {
        seq![t[0]] + unescape_quotes(t.subrange(1, t.len() as int))
    }
}

/// A doc line: the literal without its first and last character (the
/// quotes), with `\"` made `"`.
pub open spec fn doc_line(l: Seq<char>) -> Seq<char> {
    unescape_quotes(l.subrange(1, l.len() - 1))
}

/// The doc lines of the first `n` attributes.
pub open spec fn docs_of(attrs: Seq<AttrSpec>, n: int) -> Seq<Seq<char>>
    decreases n,
{
    if n <= 0 || n > attrs.len() {
        seq![]
    } else {
        match attrs[n - 1] {
            AttrSpec::Doc(l) => docs_of(attrs, n - 1).push(doc_line(l)),
            AttrSpec::Other => docs_of(attrs, n - 1),
        }
    }
}

/// A signature as plain values.
pub struct SigSpec {
    pub docs: Seq<Seq<char>>,
    pub name: Seq<char>,
    pub generics: Option<Seq<TokenTreeView>>,
    pub params: Seq<ParamSpec>,
    pub return_type: Seq<TokenTreeView>,
    pub body: Seq<TokenTreeView>,
}

/// After the name and generics, at `i`: the parameters, the return type
/// and the body.
pub open spec fn sig_rest(s: Seq<TokenTreeView>, i: int) -> Option<(Seq<ParamSpec>, Seq<TokenTreeView>, Seq<TokenTreeView>)> {
    if 0 <= i < s.len() && is_group(s[i], Delim::Parenthesis) {
        let params = params_of(s[i]->Group_1);
        let j = i + 1;
        if j + 1 < s.len() && s[j] == (TokenTreeView::Punct { ch: '-', joint: true }) && is_punct(
            s[j + 1],
            '>',
        ) && type_at(s, j + 2, Stop::Brace) is Some {
            let (e, t) = type_at(s, j + 2, Stop::Brace)->0;
            if 0 <= e < s.len() && is_group(s[e], Delim::Brace) {
                Some((params, t, seq![s[e]]))
            } else {
                None
            }
        } else if j < s.len() && is_group(s[j], Delim::Brace) {
            Some((params, seq![TokenTreeView::Group(Delim::Parenthesis, seq![])], seq![s[j]]))
        } else {
            None
        }
    } else {
        None
    }
}

/// The signature that the trees hold, if they hold one.
pub open spec fn signature_of(s: Seq<TokenTreeView>) -> Option<SigSpec> {
    let (a, attrs) = attrs_from(s, 0);
    if 0 <= a && a + 1 < s.len() && is_word(s[a], "fn"@) && s[a + 1] is Ident {
        let n = a + 2;
        let (g, generics) = if n < s.len() && is_punct(s[n], '<') {
            match generics_at(s, n) {
                Some((e, t)) => (e, Some(t)),
                None => (n, None),
            }
        } else {
            (n, None)
        };
        match sig_rest(s, g) {
            Some((params, ret, body)) => Some(
                SigSpec {
                    docs: docs_of(attrs, attrs.len() as int),
                    name: s[a + 1]->Ident_0,
                    generics,
                    params,
                    return_type: ret,
                    body,
                },
            ),
            None => None,
        }
    } else {
        None
    }
}


/// A function parameter: its name and its type.
pub struct Parameter {
    /// The parameter's name
    pub name: Ident,
    /// The parameter's type, as it is written back
    pub param_type: TokenStream,
}

impl Parameter {
    /// This parameter as plain values.
    pub open spec fn pspec(self) -> ParamSpec {
        ParamSpec { name: ident_text(self.name), ty: token_trees(self.param_type) }
    }

    /// The tokens of the parameter's type.
    pub fn param_type_tokens(&self) -> (r: TokenStream)
        ensures
            token_trees(r) == token_trees(self.param_type),
    {
        ts_clone(&self.param_type)
    }
}

/// Parameters as plain values.
pub open spec fn param_specs(v: Seq<Parameter>) -> Seq<ParamSpec> {
    Seq::new(v.len(), |i: int| v[i].pspec())
}

/// What an attribute `#[...]` holds.
pub enum AttributeInner {
    /// `doc = "..."`: the string literal as written, quotes included
    Doc(String),
    /// Anything else
    Other,
}

impl AttributeInner {
    /// This attribute as plain values.
    pub open spec fn aspec(self) -> AttrSpec {
        match self {
            AttributeInner::Doc(l) => AttrSpec::Doc(l@),
            AttributeInner::Other => AttrSpec::Other,
        }
    }
}

/// Attributes as plain values.
pub open spec fn attr_specs(v: Seq<AttributeInner>) -> Seq<AttrSpec> {
    Seq::new(v.len(), |i: int| v[i].aspec())
}

/// Whether every doc attribute holds a literal of at least two characters.
pub open spec fn docs_quoted(v: Seq<AttributeInner>) -> bool {
    forall|i: int| 0 <= i < v.len() ==> (#[trigger] v[i] matches AttributeInner::Doc(l) ==> l@.len() >= 2)
}

/// A parsed function signature.
pub struct FunctionSignature {
    /// Function name
    pub name: Ident,
    /// Generic parameters, with their angle brackets, if there are any
    pub generics: Option<TokenStream>,
    /// Function parameters
    pub parameters: Vec<Parameter>,
    /// The return type, `()` when none is written
    pub return_type: TokenStream,
    /// Function body, with its braces
    pub body: TokenStream,
    /// The documentation, one entry per doc attribute
    pub documentation: Vec<String>,
}

/// The characters of some strings.
pub open spec fn lines_of(v: Seq<String>) -> Seq<Seq<char>> {
    Seq::new(v.len(), |i: int| v[i]@)
}

impl FunctionSignature {
    /// This signature as plain values.
    pub open spec fn sspec(self) -> SigSpec {
        SigSpec {
            docs: lines_of(self.documentation@),
            name: ident_text(self.name),
            generics: match self.generics {
                Some(g) => Some(token_trees(g)),
                None => None,
            },
            params: param_specs(self.parameters@),
            return_type: token_trees(self.return_type),
            body: token_trees(self.body),
        }
    }
}

/// The text with each `\"` made `"`.
fn unescape(t: &[char]) -> (r: Vec<char>)
    ensures
        r@ == unescape_quotes(t@),
{
    let mut out: Vec<char> = Vec::new();
    let mut i: usize = 0;
    assert(t@.subrange(0, t@.len() as int) == t@);
    while i < t.len()
        invariant
            i <= t@.len(),
            out@ + unescape_quotes(t@.subrange(i as int, t@.len() as int)) == unescape_quotes(t@),
        decreases t@.len() - i,
    {
        let rest = Ghost(t@.subrange(i as int, t@.len() as int));
        if i + 1 < t.len() && t[i] == '\\' && t[i + 1] == '"' {
            assert(rest@.subrange(2, rest@.len() as int) == t@.subrange(i + 2, t@.len() as int));
            out.push('"');
            i += 2;
        } else {
            assert(rest@.subrange(1, rest@.len() as int) == t@.subrange(i + 1, t@.len() as int));
            out.push(t[i]);
            i += 1;
        }
    }
    assert(t@.subrange(t@.len() as int, t@.len() as int) == Seq::<char>::empty());
    out
}

/// A doc line from the literal's text.
fn doc_line_of(lit: &String) -> (r: String)
    requires
        lit@.len() >= 2,
    ensures
        r@ == doc_line(lit@),
{
    let cs = str_chars(lit.as_str());
    let mut inner: Vec<char> = Vec::new();
    let mut i: usize = 1;
    while i < cs.len() - 1
        invariant
            1 <= i <= cs@.len() - 1,
            cs@ == lit@,
            inner@ == cs@.subrange(1, i as int),
        decreases cs@.len() - i,
    {
        inner.push(cs[i]);
        i += 1;
    }
    let un = unescape(inner.as_slice());
    let mut r = String::new();
    push_chars(&mut r, un.as_slice());
    r
}

/// The documentation among the attributes: for each doc attribute in
/// order, its literal without the quotes, with `\"` made `"`.
pub fn extract_documentation(attributes: &Option<Vec<AttributeInner>>) -> (r: Vec<String>)
    requires
        attributes matches Some(v) ==> docs_quoted(v@),
    ensures
        lines_of(r@) == match attributes {
            Some(v) => docs_of(attr_specs(v@), v@.len() as int),
            None => Seq::<Seq<char>>::empty(),
        },
{
    let attrs = match attributes {
        Some(v) => v,
        None => {
            let r: Vec<String> = Vec::new();
            assert(lines_of(r@) =~= Seq::<Seq<char>>::empty());
            return r;
        },
    };
    let ghost a = attr_specs(attrs@);
    let mut lines: Vec<String> = Vec::new();
    let mut i: usize = 0;
    while i < attrs.len()
        invariant
            i <= attrs@.len(),
            a == attr_specs(attrs@),
            docs_quoted(attrs@),
            lines_of(lines@) == docs_of(a, i as int),
        decreases attrs@.len() - i,
    {
        match &attrs[i] {
            AttributeInner::Doc(l) => {
                assert(attrs@[i as int] matches AttributeInner::Doc(l) ==> l@.len() >= 2);
                let line = doc_line_of(l);
                lines.push(line);
                assert(lines_of(lines@) =~= docs_of(a, i as int).push(doc_line(l@)));
            },
            AttributeInner::Other => {
                assert(lines_of(lines@) =~= docs_of(a, i as int + 1));
            },
        }
        i += 1;
    }
    lines
}

/// The trees of a stream, each in a stream of its own, with what each is.
struct Trees {
    toks: Vec<TokenStream>,
    kinds: Vec<TreeKind>,
    s: Ghost<Seq<TokenTreeView>>,
}

/// Whether a read found by the code is the one the grammar gives.
spec fn read_is(r: Option<(usize, TokenStream)>, g: Read) -> bool {
    match (r, g) {
        (Some((e, t)), Some((ge, gt))) => e == ge && token_trees(t) == gt,
        (None, None) => true,
        _ => false,
    }
}

impl Trees {
    spec fn wf(&self) -> bool {
        &&& self.toks@.len() == self.s@.len()
        &&& self.kinds@.len() == self.s@.len()
        &&& forall|i: int| 0 <= i < self.s@.len() ==> token_trees(#[trigger] self.toks@[i]) == seq![self.s@[i]]
        &&& forall|i: int| 0 <= i < self.s@.len() ==> kind_matches(#[trigger] self.kinds@[i], self.s@[i])
    }

    fn of(ts: TokenStream) -> (r: Self)
        ensures
            r.wf(),
            r.s@ == token_trees(ts),
    {
        let ghost s = token_trees(ts);
        let toks = ts_split(ts);
        let mut kinds: Vec<TreeKind> = Vec::new();
        let mut i: usize = 0;
        while i < toks.len()
            invariant
                i <= toks@.len(),
                toks@.len() == s.len(),
                forall|k: int| 0 <= k < s.len() ==> token_trees(#[trigger] toks@[k]) == seq![s[k]],
                kinds@.len() == i,
                forall|k: int| 0 <= k < i ==> kind_matches(#[trigger] kinds@[k], s[k]),
            decreases toks@.len() - i,
        {
            assert(token_trees(toks@[i as int]) == seq![s[i as int]]);
            let k = tree_kind(&toks[i]);
            kinds.push(k);
            i += 1;
        }
        Trees { toks, kinds, s: Ghost(s) }
    }

    fn len(&self) -> (r: usize)
        requires
            self.wf(),
        ensures
            r == self.s@.len(),
    {
        self.toks.len()
    }

    fn punct_at(&self, i: usize, c: char) -> (r: bool)
        requires
            self.wf(),
        ensures
            r == (i < self.s@.len() && is_punct(self.s@[i as int], c)),
    {
        if i >= self.kinds.len() {
            return false;
        }
        assert(kind_matches(self.kinds@[i as int], self.s@[i as int]));
        match &self.kinds[i] {
            TreeKind::Punct(ch, _) => *ch == c,
            _ => false,
        }
    }

    fn joint_at(&self, i: usize, c: char) -> (r: bool)
        requires
            self.wf(),
        ensures
            r == (i < self.s@.len() && self.s@[i as int] == (TokenTreeView::Punct { ch: c, joint: true })),
    {
        if i >= self.kinds.len() {
            return false;
        }
        assert(kind_matches(self.kinds@[i as int], self.s@[i as int]));
        match &self.kinds[i] {
            TreeKind::Punct(ch, j) => *ch == c && *j,
            _ => false,
        }
    }

    fn ident_at(&self, i: usize) -> (r: bool)
        requires
            self.wf(),
        ensures
            r == (i < self.s@.len() && self.s@[i as int] is Ident),
    {
        if i >= self.kinds.len() {
            return false;
        }
        assert(kind_matches(self.kinds@[i as int], self.s@[i as int]));
        match &self.kinds[i] {
            TreeKind::Ident(_) => true,
            _ => false,
        }
    }

    fn word_at(&self, i: usize, w: &str) -> (r: bool)
        requires
            self.wf(),
        ensures
            r == (i < self.s@.len() && is_word(self.s@[i as int], w@)),
    {
        if i >= self.kinds.len() {
            return false;
        }
        assert(kind_matches(self.kinds@[i as int], self.s@[i as int]));
        match &self.kinds[i] {
            TreeKind::Ident(x) => same_text(x.as_str(), w),
            _ => false,
        }
    }

    fn group_at(&self, i: usize, d: Delim) -> (r: bool)
        requires
            self.wf(),
        ensures
            r == (i < self.s@.len() && is_group(self.s@[i as int], d)),
    {
        if i >= self.kinds.len() {
            return false;
        }
        assert(kind_matches(self.kinds@[i as int], self.s@[i as int]));
        match &self.kinds[i] {
            TreeKind::Group(d2) => *d2 == d,
            _ => false,
        }
    }

    fn stops_at(&self, i: usize, stop: &Stop) -> (r: bool)
        requires
            self.wf(),
            i < self.s@.len(),
        ensures
            r == stops(*stop, self.s@[i as int]),
    {
        match stop {
            Stop::Comma => self.punct_at(i, ','),
            Stop::CommaGt => self.punct_at(i, ',') || self.punct_at(i, '>'),
            Stop::CommaGtEq => self.punct_at(i, ',') || self.punct_at(i, '>') || self.punct_at(i, '='),
            Stop::Brace => self.group_at(i, Delim::Brace),
        }
    }

    /// Appends the tree at `i`.
    fn push(&self, i: usize, out: &mut TokenStream)
        requires
            self.wf(),
            i < self.s@.len(),
        ensures
            token_trees(*final(out)) == token_trees(*old(out)) + seq![self.s@[i as int]],
    {
        assert(token_trees(self.toks@[i as int]) == seq![self.s@[i as int]]);
        ts_append(out, ts_clone(&self.toks[i]));
    }

    /// The tree at `i` in a stream of its own.
    fn single(&self, i: usize) -> (r: TokenStream)
        requires
            self.wf(),
            i < self.s@.len(),
        ensures
            token_trees(r) == seq![self.s@[i as int]],
    {
        let mut out = ts_new();
        self.push(i, &mut out);
        assert(Seq::<TokenTreeView>::empty() + seq![self.s@[i as int]] == seq![self.s@[i as int]]);
        out
    }

    fn angle_tree(&self, i: usize) -> (r: Option<(usize, TokenStream)>)
        requires
            self.wf(),
        ensures
            read_is(r, angle_tree(self.s@, i as int)),
            r matches Some((e, _)) ==> i < e <= self.s@.len(),
        decreases self.s@.len() - i, 1nat,
    {
        if i >= self.len() {
            return None;
        }
        if self.punct_at(i, '<') {
            match self.angle_rest(i + 1) {
                Some((e, inner)) => {
                    let mut out = ts_punct('<', false);
                    ts_append(&mut out, inner);
                    ts_append(&mut out, ts_punct('>', false));
                    Some((e, out))
                },
                None => Some((i + 1, self.single(i))),
            }
        } else {
            Some((i + 1, self.single(i)))
        }
    }

    fn angle_rest(&self, i: usize) -> (r: Option<(usize, TokenStream)>)
        requires
            self.wf(),
        ensures
            read_is(r, angle_rest(self.s@, i as int)),
            r matches Some((e, _)) ==> i < e <= self.s@.len(),
        decreases self.s@.len() - i, 2nat,
    {
        if i >= self.len() {
            return None;
        }
        if self.punct_at(i, '>') {
            return Some((i + 1, ts_new()));
        }
        match self.angle_tree(i) {
            Some((e, t)) => {
                match self.angle_rest(e) {
                    Some((e2, t2)) => {
                        let mut t = t;
                        ts_append(&mut t, t2);
                        Some((e2, t))
                    },
                    None => None,
                }
            },
            None => None,
        }
    }

    fn type_more(&self, i: usize, stop: &Stop) -> (r: (usize, TokenStream))
        requires
            self.wf(),
            i <= self.s@.len(),
        ensures
            (r.0 as int, token_trees(r.1)) == type_more(self.s@, i as int, *stop),
            i <= r.0 <= self.s@.len(),
        decreases self.s@.len() - i,
    {
        if i < self.len() && !self.stops_at(i, stop) {
            match self.angle_tree(i) {
                Some((e, t)) => {
                    let (e2, t2) = self.type_more(e, stop);
                    let mut t = t;
                    ts_append(&mut t, t2);
                    (e2, t)
                },
                None => (i, ts_new()),
            }
        } else {
            (i, ts_new())
        }
    }

    fn type_at(&self, i: usize, stop: &Stop) -> (r: Option<(usize, TokenStream)>)
        requires
            self.wf(),
        ensures
            read_is(r, type_at(self.s@, i as int, *stop)),
            r matches Some((e, _)) ==> i < e <= self.s@.len(),
    {
        if i > self.len() {
            return None;
        }
        let (e, t) = self.type_more(i, stop);
        if e > i {
            Some((e, t))
        } else {
            None
        }
    }
}

impl Trees {
    fn param_at(&self, i: usize) -> (r: Option<(usize, Parameter)>)
        requires
            self.wf(),
        ensures
            match (r, param_at(self.s@, i as int)) {
                (Some((e, p)), Some((ge, gp))) => e == ge && p.pspec() == gp,
                (None, None) => true,
                _ => false,
            },
            r matches Some((e, _)) ==> i < e <= self.s@.len(),
    {
        if i < self.len() && self.ident_at(i) && self.punct_at(i + 1, ':') {
            match self.type_at(i + 2, &Stop::Comma) {
                Some((e, t)) => {
                    assert(token_trees(self.toks@[i as int]) == seq![self.s@[i as int]]);
                    let name = tree_ident(&self.toks[i]);
                    Some((e, Parameter { name, param_type: t }))
                },
                None => None,
            }
        } else {
            None
        }
    }

    fn params_from(&self, i: usize) -> (r: (usize, Vec<Parameter>))
        requires
            self.wf(),
            i <= self.s@.len(),
        ensures
            r.0 as int == params_from(self.s@, i as int).0,
            param_specs(r.1@) == params_from(self.s@, i as int).1,
            i <= r.0 <= self.s@.len(),
        decreases self.s@.len() - i,
    {
        match self.param_at(i) {
            Some((e, p)) => {
                if e < self.len() && self.punct_at(e, ',') {
                    let (e2, rest) = self.params_from(e + 1);
                    let mut v: Vec<Parameter> = Vec::new();
                    v.push(p);
                    let ghost head = v@;
                    v.append(&mut { rest });
                    assert(param_specs(v@) =~= seq![head[0].pspec()] + param_specs(head.subrange(0, 0) + v@.subrange(1, v@.len() as int)));
                    assert(param_specs(v@) =~= seq![head[0].pspec()] + params_from(self.s@, e + 1).1);
                    (e2, v)
                } else {
                    let mut v: Vec<Parameter> = Vec::new();
                    v.push(p);
                    assert(param_specs(v@) =~= seq![p.pspec()]);
                    (e, v)
                }
            },
            None => {
                let v: Vec<Parameter> = Vec::new();
                assert(param_specs(v@) =~= Seq::<ParamSpec>::empty());
                (i, v)
            },
        }
    }
}

impl Trees {
    fn lifetime_param(&self, i: usize) -> (r: Option<(usize, TokenStream)>)
        requires
            self.wf(),
        ensures
            read_is(r, lifetime_param(self.s@, i as int)),
            r matches Some((e, _)) ==> i < e <= self.s@.len(),
    {
        if i < self.len() && self.joint_at(i, '\'') && self.ident_at(i + 1) {
            let mut head = self.single(i);
            self.push(i + 1, &mut head);
            let ghost h = seq![self.s@[i as int], self.s@[i + 1]];
            assert(token_trees(head) == h);
            if self.punct_at(i + 2, ':') {
                match self.type_at(i + 3, &Stop::CommaGt) {
                    Some((e, b)) => {
                        ts_append(&mut head, ts_punct(':', false));
                        ts_append(&mut head, b);
                        Some((e, head))
                    },
                    None => Some((i + 2, head)),
                }
            } else {
                Some((i + 2, head))
            }
        } else {
            None
        }
    }

    fn with_default(&self, i: usize, t: TokenStream) -> (r: Option<(usize, TokenStream)>)
        requires
            self.wf(),
            i <= self.s@.len(),
        ensures
            read_is(r, with_default(self.s@, i as int, token_trees(t))),
            r matches Some((e, _)) ==> i <= e <= self.s@.len(),
    {
        if i < self.len() && self.punct_at(i, '=') {
            match self.type_at(i + 1, &Stop::CommaGt) {
                Some((e, d)) => {
                    let mut t = t;
                    ts_append(&mut t, ts_punct('=', false));
                    ts_append(&mut t, d);
                    Some((e, t))
                },
                None => Some((i, t)),
            }
        } else {
            Some((i, t))
        }
    }

    fn const_param(&self, i: usize) -> (r: Option<(usize, TokenStream)>)
        requires
            self.wf(),
        ensures
            read_is(r, const_param(self.s@, i as int)),
            r matches Some((e, _)) ==> i < e <= self.s@.len(),
    {
        if i < self.len() && self.word_at(i, "const") && self.ident_at(i + 1) && self.punct_at(i + 2, ':') {
            match self.type_at(i + 3, &Stop::CommaGtEq) {
                Some((e, t)) => {
                    let ghost tt = token_trees(t);
                    let mut head = self.single(i);
                    self.push(i + 1, &mut head);
                    ts_append(&mut head, ts_punct(':', false));
                    ts_append(&mut head, t);
                    assert(token_trees(head) =~= seq![self.s@[i as int], self.s@[i + 1], lone(':')] + tt);
                    self.with_default(e, head)
                },
                None => None,
            }
        } else {
            None
        }
    }

    fn type_param(&self, i: usize) -> (r: Option<(usize, TokenStream)>)
        requires
            self.wf(),
        ensures
            read_is(r, type_param(self.s@, i as int)),
            r matches Some((e, _)) ==> i < e <= self.s@.len(),
    {
        if i < self.len() && self.ident_at(i) {
            let mut t = self.single(i);
            if self.punct_at(i + 1, ':') {
                match self.type_at(i + 2, &Stop::CommaGtEq) {
                    Some((e2, b)) => {
                        let ghost bt = token_trees(b);
                        ts_append(&mut t, ts_punct(':', false));
                        ts_append(&mut t, b);
                        assert(token_trees(t) =~= seq![self.s@[i as int], lone(':')] + bt);
                        self.with_default(e2, t)
                    },
                    None => self.with_default(i + 1, t),
                }
            } else {
                self.with_default(i + 1, t)
            }
        } else {
            None
        }
    }

    fn generic_param(&self, i: usize) -> (r: Option<(usize, TokenStream)>)
        requires
            self.wf(),
        ensures
            read_is(r, generic_param(self.s@, i as int)),
            r matches Some((e, _)) ==> i < e <= self.s@.len(),
    {
        match self.lifetime_param(i) {
            Some(r) => Some(r),
            None => match self.const_param(i) {
                Some(r) => Some(r),
                None => self.type_param(i),
            },
        }
    }

    fn generic_params_from(&self, i: usize) -> (r: (usize, TokenStream))
        requires
            self.wf(),
            i <= self.s@.len(),
        ensures
            (r.0 as int, token_trees(r.1)) == generic_params_from(self.s@, i as int),
            i <= r.0 <= self.s@.len(),
        decreases self.s@.len() - i,
    {
        match self.generic_param(i) {
            Some((e, p)) => {
                if e < self.len() && self.punct_at(e, ',') {
                    let (e2, rest) = self.generic_params_from(e + 1);
                    let mut p = p;
                    ts_append(&mut p, ts_punct(',', false));
                    ts_append(&mut p, rest);
                    (e2, p)
                } else {
                    (e, p)
                }
            },
            None => (i, ts_new()),
        }
    }

    fn generics_at(&self, i: usize) -> (r: Option<(usize, TokenStream)>)
        requires
            self.wf(),
        ensures
            read_is(r, generics_at(self.s@, i as int)),
            r matches Some((e, _)) ==> i < e <= self.s@.len(),
    {
        if i < self.len() && self.punct_at(i, '<') {
            let (e, ps) = self.generic_params_from(i + 1);
            if e < self.len() && self.punct_at(e, '>') {
                let mut out = ts_punct('<', false);
                ts_append(&mut out, ps);
                ts_append(&mut out, ts_punct('>', false));
                Some((e + 1, out))
            } else {
                None
            }
        } else {
            None
        }
    }
}

impl Trees {
    /// The text of the literal at `i`, when it is a plain string literal.
    fn string_literal_at(&self, i: usize) -> (r: Option<String>)
        requires
            self.wf(),
        ensures
            match r {
                Some(l) => i < self.s@.len() && self.s@[i as int] == TokenTreeView::Literal(l@)
                    && is_string_literal(l@),
                None => !(i < self.s@.len() && (self.s@[i as int] matches TokenTreeView::Literal(l)
                    && is_string_literal(l))),
            },
    {
        if i >= self.kinds.len() {
            return None;
        }
        assert(kind_matches(self.kinds@[i as int], self.s@[i as int]));
        match &self.kinds[i] {
            TreeKind::Literal(x) => {
                let cs = str_chars(x.as_str());
                if cs.len() >= 2 && cs[0] == '"' {
                    Some(x.clone())
                } else {
                    None
                }
            },
            _ => None,
        }
    }

    fn attr_at(&self, i: usize) -> (r: Option<AttributeInner>)
        requires
            self.wf(),
        ensures
            match (r, attr_at(self.s@, i as int)) {
                (Some(a), Some(g)) => a.aspec() == g,
                (None, None) => true,
                _ => false,
            },
            r matches Some(AttributeInner::Doc(l)) ==> l@.len() >= 2,
    {
        if i < self.len() && self.punct_at(i, '#') && self.group_at(i + 1, Delim::Bracket) {
            assert(token_trees(self.toks@[i + 1]) == seq![self.s@[i + 1]]);
            let content = Trees::of(group_stream(&self.toks[i + 1]));
            if content.len() >= 3 && content.word_at(0, "doc") && content.punct_at(1, '=') {
                match content.string_literal_at(2) {
                    Some(l) => {
                        if content.len() == 3 {
                            Some(AttributeInner::Doc(l))
                        } else {
                            None
                        }
                    },
                    None => Some(AttributeInner::Other),
                }
            } else {
                Some(AttributeInner::Other)
            }
        } else {
            None
        }
    }

    fn attrs_from(&self, i: usize) -> (r: (usize, Vec<AttributeInner>))
        requires
            self.wf(),
            i <= self.s@.len(),
        ensures
            r.0 as int == attrs_from(self.s@, i as int).0,
            attr_specs(r.1@) == attrs_from(self.s@, i as int).1,
            docs_quoted(r.1@),
            i <= r.0 <= self.s@.len(),
        decreases self.s@.len() - i,
    {
        if i < self.len() {
            match self.attr_at(i) {
                Some(a) => {
                    let (e, rest) = self.attrs_from(i + 2);
                    let mut v: Vec<AttributeInner> = Vec::new();
                    v.push(a);
                    let ghost first = v@[0];
                    let ghost tail = rest@;
                    v.append(&mut { rest });
                    assert(v@ =~= seq![first] + tail);
                    assert(attr_specs(v@) =~= seq![first.aspec()] + attr_specs(tail));
                    (e, v)
                },
                None => {
                    let v: Vec<AttributeInner> = Vec::new();
                    assert(attr_specs(v@) =~= Seq::<AttrSpec>::empty());
                    (i, v)
                },
            }
        } else {
            let v: Vec<AttributeInner> = Vec::new();
            assert(attr_specs(v@) =~= Seq::<AttrSpec>::empty());
            (i, v)
        }
    }

    fn sig_rest(&self, i: usize) -> (r: Option<(Vec<Parameter>, TokenStream, TokenStream)>)
        requires
            self.wf(),
        ensures
            match (r, sig_rest(self.s@, i as int)) {
                (Some((p, rt, b)), Some((gp, grt, gb))) => param_specs(p@) == gp && token_trees(rt)
                    == grt && token_trees(b) == gb,
                (None, None) => true,
                _ => false,
            },
    {
        if i < self.len() && self.group_at(i, Delim::Parenthesis) {
            assert(token_trees(self.toks@[i as int]) == seq![self.s@[i as int]]);
            let params = parse_fn_parameters(group_stream(&self.toks[i]));
            let j = i + 1;
            if j < self.len() && self.joint_at(j, '-') && self.punct_at(j + 1, '>') {
                match self.type_at(j + 2, &Stop::Brace) {
                    Some((e, t)) => {
                        if e < self.len() && self.group_at(e, Delim::Brace) {
                            Some((params, t, self.single(e)))
                        } else {
                            None
                        }
                    },
                    None => None,
                }
            } else if j < self.len() && self.group_at(j, Delim::Brace) {
                let unit = ts_group(Delim::Parenthesis, ts_new());
                Some((params, unit, self.single(j)))
            } else {
                None
            }
        } else {
            None
        }
    }
}

/// The signature that the tokens hold, or `None` when they hold none: the
/// documentation of the attributes, the name, the generic parameters
/// (written back), the parameters, the return type (`()` when none is
/// written) and the body.
pub fn try_parse_function_signature(input: TokenStream) -> (r: Option<FunctionSignature>)
    ensures
        match (r, signature_of(token_trees(input))) {
            (Some(f), Some(g)) => f.sspec() == g,
            (None, None) => true,
            _ => false,
        },
{
    let t = Trees::of(input);
    let (a, attrs) = t.attrs_from(0);
    if a < t.len() && a + 1 < t.len() && t.word_at(a, "fn") && t.ident_at(a + 1) {
        let n = a + 2;
        let (g, generics) = if n < t.len() && t.punct_at(n, '<') {
            match t.generics_at(n) {
                Some((e, gt)) => (e, Some(gt)),
                None => (n, None),
            }
        } else {
            (n, None)
        };
        match t.sig_rest(g) {
            Some((parameters, return_type, body)) => {
                assert(token_trees(t.toks@[a + 1]) == seq![t.s@[a + 1]]);
                let name = tree_ident(&t.toks[a + 1]);
                let documentation = extract_documentation(&Some(attrs));
                let f = FunctionSignature { name, generics, parameters, return_type, body, documentation };
                assert(f.sspec() == signature_of(t.s@)->0);
                Some(f)
            },
            None => None,
        }
    } else {
        None
    }
}

/// The signature that the tokens hold, which they must hold.
pub fn parse_function_signature(input: TokenStream) -> (r: FunctionSignature)
    requires
        signature_of(token_trees(input)) is Some,
    ensures
        signature_of(token_trees(input)) == Some(r.sspec()),
{
    try_parse_function_signature(input).unwrap()
}

/// The parameters in a parameter list (the contents of its parentheses):
/// each a name, `:` and a type up to a `,`, read one after the other while
/// a `,` follows; none when the first cannot be read.
pub fn parse_fn_parameters(params_ts: TokenStream) -> (r: Vec<Parameter>)
    ensures
        param_specs(r@) == params_of(token_trees(params_ts)),
{
    let trees = Trees::of(params_ts);
    let (_, params) = trees.params_from(0);
    params
}

/// Whether two strings have the same characters.
fn same_text(a: &str, b: &str) -> (r: bool)
    ensures
        r == (a@ == b@),
{
    let x = str_chars(a);
    let y = str_chars(b);
    if x.len() != y.len() {
        return false;
    }
    let mut i: usize = 0;
    while i < x.len()
        invariant
            i <= x@.len(),
            x@ == a@,
            y@ == b@,
            x@.len() == y@.len(),
            x@.subrange(0, i as int) == y@.subrange(0, i as int),
        decreases x@.len() - i,
    {
        if x[i] != y[i] {
            assert(x@[i as int] != y@[i as int]);
            return false;
        }
        assert(x@.subrange(0, i + 1) == x@.subrange(0, i as int).push(x@[i as int]));
        assert(y@.subrange(0, i + 1) == y@.subrange(0, i as int).push(y@[i as int]));
        i += 1;
    }
    assert(x@ == x@.subrange(0, x@.len() as int));
    assert(y@ == y@.subrange(0, y@.len() as int));
    true
}

} // verus!
