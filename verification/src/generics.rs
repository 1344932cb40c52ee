//! The generic parameters of a type declaration, kept in the order Rust
//! requires (lifetimes, then types, then consts), and written out with
//! their bounds, without them, or as a `PhantomData` that mentions each.
use vstd::prelude::*;
use proc_macro2::{Ident, TokenStream};
use crate::tokens::{
    TokenTreeView, Delim, token_trees, ident_text, ts_new, ts_clone, ts_append, ts_punct,
    ts_ident, ts_group, ts_of_ident, ident_clone,
};

verus! {

/// The name of a lifetime: "a", written as "'a".
pub struct LifetimeName(pub Ident);

/// The name of a generic parameter.
pub enum GenericParamName {
    /// "a" but formatted as "'a"
    Lifetime(LifetimeName),
    /// "T", formatted as "T"
    Type(TokenStream),
    /// "N", formatted as "N"
    Const(TokenStream),
}

/// The name of a generic parameter with bounds.
pub struct BoundedGenericParam {
    /// the parameter name
    pub param: GenericParamName,
    /// bounds like `'static`, or `Send + Sync`, etc. — None if no bounds
    pub bounds: Option<TokenStream>,
}

/// The generic parameters of a declaration, with their bounds.
pub struct BoundedGenericParams {
    /// Collection of generic parameters with their bounds
    pub params: Vec<BoundedGenericParam>,
}

/// A generic parameter as declared: `T: Clone = u8`, `'a: 'static`, or
/// `const N: usize = 3`. Each part is kept as the tokens it was written
/// with; the names are identifiers (a lifetime's without its quote).
pub enum GenericParam {
    /// A type parameter, with its bounds and its default if it has them
    Type { name: Ident, bounds: Option<TokenStream>, default: Option<TokenStream> },
    /// A lifetime parameter, with its bounds if it has them
    Lifetime { name: Ident, bounds: Option<TokenStream> },
    /// A const parameter, with its type and its default if it has one
    Const { name: Ident, typ: TokenStream, default: Option<TokenStream> },
}

/// The generic parameters of a declaration, as written between `<` and `>`.
pub struct GenericParams {
    /// The parameters, in the order they were written
    pub params: Vec<GenericParam>,
}

/// The parameters written with their bounds: for `T: Clone`, `<T: Clone>`.
pub struct WithBounds<'a>(&'a BoundedGenericParams);

/// The parameters written without their bounds: for `T: Clone`, `<T>`.
pub struct WithoutBounds<'a>(&'a BoundedGenericParams);

/// The parameters written as a `PhantomData` type: for
/// `<'a, T, const N: usize>`,
/// `::core::marker::PhantomData<(*mut &'a (), T, [u32; N])>`.
pub struct AsPhantomData<'a>(&'a BoundedGenericParams);

/// The kind of a generic parameter.
#[derive(PartialEq, Eq, Structural)]
pub enum ParamKind {
    Lifetime,
    Type,
    Const,
}

/// A generic parameter as plain values: its kind, the token trees of its
/// name (for a lifetime, the quote and the identifier), and those of its
/// bounds.
pub struct ParamView {
    pub kind: ParamKind,
    pub name: Seq<TokenTreeView>,
    pub bounds: Option<Seq<TokenTreeView>>,
}

/// The tokens of a lifetime named `name`: a joint quote, then the name.
pub open spec fn lifetime_trees(name: Seq<char>) -> Seq<TokenTreeView> {
    seq![TokenTreeView::Punct { ch: '\'', joint: true }, TokenTreeView::Ident(name)]
}

/// A punctuation character standing alone.
pub open spec fn alone(c: char) -> TokenTreeView {
    TokenTreeView::Punct { ch: c, joint: false }
}

impl LifetimeName {
    /// The tokens of this lifetime.
    pub open spec fn trees(self) -> Seq<TokenTreeView> {
        lifetime_trees(ident_text(self.0))
    }

    /// Appends `'name` to `tokens`.
    pub fn to_tokens(&self, tokens: &mut TokenStream)
        ensures
            token_trees(*final(tokens)) == token_trees(*old(tokens)) + self.trees(),
    {
        ts_append(tokens, ts_punct('\'', true));
        ts_append(tokens, ts_of_ident(ident_clone(&self.0)));
    }
}

impl BoundedGenericParam {
    /// This parameter as plain values.
    pub open spec fn pview(self) -> ParamView {
        ParamView {
            kind: match self.param {
                GenericParamName::Lifetime(_) => ParamKind::Lifetime,
                GenericParamName::Type(_) => ParamKind::Type,
                GenericParamName::Const(_) => ParamKind::Const,
            },
            name: match self.param {
                GenericParamName::Lifetime(l) => l.trees(),
                GenericParamName::Type(ts) => token_trees(ts),
                GenericParamName::Const(ts) => token_trees(ts),
            },
            bounds: match self.bounds {
                Some(b) => Some(token_trees(b)),
                None => None,
            },
        }
    }
}

impl View for BoundedGenericParam {
    type V = ParamView;

    open spec fn view(&self) -> ParamView {
        self.pview()
    }
}

impl View for BoundedGenericParams {
    type V = Seq<ParamView>;

    open spec fn view(&self) -> Seq<ParamView> {
        Seq::new(self.params@.len(), |i: int| self.params@[i].pview())
    }
}

/// The tokens of an optional stream, if it is there.
pub open spec fn opt_trees(b: Option<TokenStream>) -> Option<Seq<TokenTreeView>> {
    match b {
        Some(x) => Some(token_trees(x)),
        None => None,
    }
}

/// What a declared parameter becomes: a type keeps its bounds, a lifetime
/// its bounds, and a const takes its type as its bound; defaults are
/// dropped.
pub open spec fn declared_view(p: GenericParam) -> ParamView {
    match p {
        GenericParam::Type { name, bounds, default: _ } => ParamView {
            kind: ParamKind::Type,
            name: seq![TokenTreeView::Ident(ident_text(name))],
            bounds: opt_trees(bounds),
        },
        GenericParam::Lifetime { name, bounds } => ParamView {
            kind: ParamKind::Lifetime,
            name: lifetime_trees(ident_text(name)),
            bounds: opt_trees(bounds),
        },
        GenericParam::Const { name, typ, default: _ } => ParamView {
            kind: ParamKind::Const,
            name: seq![TokenTreeView::Ident(ident_text(name))],
            bounds: Some(token_trees(typ)),
        },
    }
}

/// The rank of a kind in Rust's order of generic parameters.
pub open spec fn rank(k: ParamKind) -> int {
    match k {
        ParamKind::Lifetime => 0,
        ParamKind::Type => 1,
        ParamKind::Const => 2,
    }
}

/// Lifetimes come first, then types, then consts.
pub open spec fn is_ordered(ps: Seq<ParamView>) -> bool {
    forall|i: int, j: int| 0 <= i < j < ps.len() ==> rank(ps[i].kind) <= rank(ps[j].kind)
}

/// The first index at or after `i` that holds something other than a
/// lifetime, or the length.
pub open spec fn first_non_lifetime(ps: Seq<ParamView>, i: int) -> int
    decreases ps.len() - i,
{
    if i >= ps.len() {
        ps.len() as int
    } else if ps[i].kind != ParamKind::Lifetime {
        i
    } else {
        first_non_lifetime(ps, i + 1)
    }
}

/// The first index at or after `i` that holds a const, or the length.
pub open spec fn first_const(ps: Seq<ParamView>, i: int) -> int
    decreases ps.len() - i,
{
    if i >= ps.len() {
        ps.len() as int
    } else if ps[i].kind == ParamKind::Const {
        i
    } else {
        first_const(ps, i + 1)
    }
}

/// Where a new parameter goes: a lifetime after the leading lifetimes; a
/// type before the first const that follows them; a const at the end.
pub open spec fn insert_position(ps: Seq<ParamView>, k: ParamKind) -> int {
    match k {
        ParamKind::Lifetime => first_non_lifetime(ps, 0),
        ParamKind::Type => first_const(ps, first_non_lifetime(ps, 0)),
        ParamKind::Const => ps.len() as int,
    }
}

fn clone_tokens_opt(b: &Option<TokenStream>) -> (r: Option<TokenStream>)
    ensures
        match (*b, r) {
            (Some(x), Some(y)) => token_trees(y) == token_trees(x),
            (None, None) => true,
            _ => false,
        },
{
    match b {
        Some(x) => Some(ts_clone(x)),
        None => None,
    }
}

fn clone_param(p: &BoundedGenericParam) -> (r: BoundedGenericParam)
    ensures
        r@ == p@,
{
    let param = match &p.param {
        GenericParamName::Lifetime(l) => GenericParamName::Lifetime(LifetimeName(ident_clone(&l.0))),
        GenericParamName::Type(ts) => GenericParamName::Type(ts_clone(ts)),
        GenericParamName::Const(ts) => GenericParamName::Const(ts_clone(ts)),
    };
    let r = BoundedGenericParam { param, bounds: clone_tokens_opt(&p.bounds) };
    assert(r@ == p@);
    r
}

impl BoundedGenericParams {
    /// The parameters written as a `PhantomData` type.
    pub fn as_phantom_data(&self) -> (r: AsPhantomData<'_>)
        ensures
            r.of() == *self,
    {
        AsPhantomData(self)
    }

    /// The parameters written with their bounds.
    pub fn display_with_bounds(&self) -> (r: WithBounds<'_>)
        ensures
            r.of() == *self,
    {
        WithBounds(self)
    }

    /// The parameters written without their bounds.
    pub fn display_without_bounds(&self) -> (r: WithoutBounds<'_>)
        ensures
            r.of() == *self,
    {
        WithoutBounds(self)
    }

    /// Returns a display wrapper that formats generic parameters as a
    /// PhantomData: for `<'a, T, const N: usize>`,
    /// `::core::marker::PhantomData<(*mut &'a (), T, [u32; N])>`.
    pub fn display_as_phantom_data(&self) -> (r: AsPhantomData<'_>)
        ensures
            r.of() == *self,
    {
        AsPhantomData(self)
    }

    /// These parameters with one more, put where its kind goes: a lifetime
    /// after the last leading lifetime, a type after the types and before
    /// any const, a const at the end.
    pub fn with(&self, param: BoundedGenericParam) -> (r: Self)
        ensures
            r@ == self@.insert(insert_position(self@, param@.kind), param@),
    {
        let mut params: Vec<BoundedGenericParam> = Vec::new();
        let mut i: usize = 0;
        while i < self.params.len()
            invariant
                i <= self.params@.len(),
                params@.len() == i,
                forall|k: int| 0 <= k < i ==> #[trigger] params@[k].pview() == self.params@[k].pview(),
            decreases self.params@.len() - i,
        {
            params.push(clone_param(&self.params[i]));
            i += 1;
        }
        let ghost ps = self@;
        assert(Seq::new(params@.len(), |k: int| params@[k].pview()) =~= ps);
        let mut after_lifetimes: usize = 0;
        while after_lifetimes < params.len()
            && matches!(params[after_lifetimes].param, GenericParamName::Lifetime(_))
            invariant
                after_lifetimes <= params@.len(),
                params@.len() == ps.len(),
                forall|k: int| 0 <= k < params@.len() ==> #[trigger] params@[k].pview() == ps[k],
                first_non_lifetime(ps, 0) == first_non_lifetime(ps, after_lifetimes as int),
            decreases params@.len() - after_lifetimes,
        {
            assert(params@[after_lifetimes as int].pview() == ps[after_lifetimes as int]);
            assert(ps[after_lifetimes as int].kind == ParamKind::Lifetime);
            after_lifetimes += 1;
        }
        let ghost new_view = param@;
        match &param.param {
            GenericParamName::Lifetime(_) => {
                params.insert(after_lifetimes, param);
            },
            GenericParamName::Type(_) => {
                let mut pos = after_lifetimes;
                while pos < params.len() && !matches!(params[pos].param, GenericParamName::Const(_))
                    invariant
                        after_lifetimes <= pos <= params@.len(),
                        params@.len() == ps.len(),
                        forall|k: int| 0 <= k < params@.len() ==> #[trigger] params@[k].pview() == ps[k],
                        first_const(ps, after_lifetimes as int) == first_const(ps, pos as int),
                    decreases params@.len() - pos,
                {
                    assert(params@[pos as int].pview() == ps[pos as int]);
                    pos += 1;
                }
                params.insert(pos, param);
            },
            GenericParamName::Const(_) => {
                params.push(param);
            },
        }
        let r = BoundedGenericParams { params };
        assert(r@ =~= ps.insert(insert_position(ps, new_view.kind), new_view));
        r
    }

    /// Adds a lifetime parameter with the given name and no bounds.
    pub fn with_lifetime(&self, name: LifetimeName) -> (r: Self)
        ensures
            r@ == self@.insert(
                insert_position(self@, ParamKind::Lifetime),
                ParamView { kind: ParamKind::Lifetime, name: name.trees(), bounds: None },
            ),
    {
        self.with(BoundedGenericParam { param: GenericParamName::Lifetime(name), bounds: None })
    }

    /// Adds a type parameter with the given name and no bounds.
    pub fn with_type(&self, name: TokenStream) -> (r: Self)
        ensures
            r@ == self@.insert(
                insert_position(self@, ParamKind::Type),
                ParamView { kind: ParamKind::Type, name: token_trees(name), bounds: None },
            ),
    {
        self.with(BoundedGenericParam { param: GenericParamName::Type(name), bounds: None })
    }

    /// The parameters of a declaration, in the order they were written,
    /// each with its bounds (a const with its type as its bound); none when
    /// there are no generics.
    pub fn parse(generics: Option<&GenericParams>) -> (r: Self)
        ensures
            match generics {
                None => r@ == Seq::<ParamView>::empty(),
                Some(g) => r@ == Seq::new(g.params@.len(), |i: int| declared_view(g.params@[i])),
            },
    {
        let generics = match generics {
            None => {
                let r = BoundedGenericParams { params: Vec::new() };
                assert(r@ =~= Seq::<ParamView>::empty());
                return r;
            },
            Some(g) => g,
        };
        let mut params: Vec<BoundedGenericParam> = Vec::new();
        let mut i: usize = 0;
        while i < generics.params.len()
            invariant
                i <= generics.params@.len(),
                params@.len() == i,
                forall|k: int| 0 <= k < i ==> #[trigger] params@[k].pview() == declared_view(generics.params@[k]),
            decreases generics.params@.len() - i,
        {
            let p = match &generics.params[i] {
                GenericParam::Type { name, bounds, default: _ } => BoundedGenericParam {
                    param: GenericParamName::Type(ts_of_ident(ident_clone(name))),
                    bounds: clone_tokens_opt(bounds),
                },
                GenericParam::Lifetime { name, bounds } => BoundedGenericParam {
                    param: GenericParamName::Lifetime(LifetimeName(ident_clone(name))),
                    bounds: clone_tokens_opt(bounds),
                },
                GenericParam::Const { name, typ, default: _ } => BoundedGenericParam {
                    param: GenericParamName::Const(ts_of_ident(ident_clone(name))),
                    bounds: Some(ts_clone(typ)),
                },
            };
            assert(p.pview() == declared_view(generics.params@[i as int]));
            params.push(p);
            i += 1;
        }
        let r = BoundedGenericParams { params };
        assert(r@ =~= Seq::new(generics.params@.len(), |k: int| declared_view(generics.params@[k])));
        r
    }
}


/// The items of `ps`, each written by `f`, separated by lone commas.
pub open spec fn joined(ps: Seq<ParamView>, f: spec_fn(ParamView) -> Seq<TokenTreeView>) -> Seq<TokenTreeView>
    decreases ps.len(),
{
    if ps.len() == 0 {
        seq![]
    } else if ps.len() == 1 {
        f(ps[0])
    } else {
        joined(ps.drop_last(), f) + seq![alone(',')] + f(ps.last())
    }
}

/// A parameter with its bounds: `const` before a const's name, and `: bounds`
/// after the name when there are bounds.
pub open spec fn with_bounds_item(p: ParamView) -> Seq<TokenTreeView> {
    (if p.kind == ParamKind::Const { seq![TokenTreeView::Ident("const"@)] } else { seq![] })
        + p.name + match p.bounds {
        Some(b) => seq![alone(':')] + b,
        None => seq![],
    }
}

/// A parameter without its bounds: its name alone.
pub open spec fn without_bounds_item(p: ParamView) -> Seq<TokenTreeView> {
    p.name
}

/// A parameter inside `PhantomData`: `*mut &'a ()` for a lifetime, the name
/// for a type, `[u32; N]` for a const.
pub open spec fn phantom_item(p: ParamView) -> Seq<TokenTreeView> {
    match p.kind {
        ParamKind::Lifetime => seq![alone('*'), TokenTreeView::Ident("mut"@), alone('&')] + p.name
            + seq![TokenTreeView::Group(Delim::Parenthesis, seq![])],
        ParamKind::Type => p.name,
        ParamKind::Const => seq![
            TokenTreeView::Group(
                Delim::Bracket,
                seq![TokenTreeView::Ident("u32"@), alone(';')] + p.name,
            ),
        ],
    }
}

/// Nothing when there are no parameters, otherwise `<`, the items, `>`.
pub open spec fn angled(ps: Seq<ParamView>, f: spec_fn(ParamView) -> Seq<TokenTreeView>) -> Seq<TokenTreeView> {
    if ps.len() == 0 {
        seq![]
    } else {
        seq![alone('<')] + joined(ps, f) + seq![alone('>')]
    }
}

/// `with_bounds_item` as a function value.
pub open spec fn with_bounds_fn() -> spec_fn(ParamView) -> Seq<TokenTreeView> {
    |p: ParamView| with_bounds_item(p)
}

/// `without_bounds_item` as a function value.
pub open spec fn without_bounds_fn() -> spec_fn(ParamView) -> Seq<TokenTreeView> {
    |p: ParamView| without_bounds_item(p)
}

/// `phantom_item` as a function value.
pub open spec fn phantom_fn() -> spec_fn(ParamView) -> Seq<TokenTreeView> {
    |p: ParamView| phantom_item(p)
}

/// The tokens of the parameters with their bounds.
pub open spec fn with_bounds_trees(ps: Seq<ParamView>) -> Seq<TokenTreeView> {
    angled(ps, with_bounds_fn())
}

/// The tokens of the parameters without their bounds.
pub open spec fn without_bounds_trees(ps: Seq<ParamView>) -> Seq<TokenTreeView> {
    angled(ps, without_bounds_fn())
}

/// `::`
pub open spec fn path_sep() -> Seq<TokenTreeView> {
    seq![TokenTreeView::Punct { ch: ':', joint: true }, alone(':')]
}

/// The tokens of `::core::marker::PhantomData<(...)>` over the parameters;
/// with no parameters the tuple holds `()`.
pub open spec fn phantom_trees(ps: Seq<ParamView>) -> Seq<TokenTreeView> {
    path_sep() + seq![TokenTreeView::Ident("core"@)] + path_sep() + seq![TokenTreeView::Ident("marker"@)]
        + path_sep() + seq![TokenTreeView::Ident("PhantomData"@), alone('<')] + seq![
        TokenTreeView::Group(
            Delim::Parenthesis,
            if ps.len() == 0 {
                seq![TokenTreeView::Group(Delim::Parenthesis, seq![])]
            } else {
                joined(ps, phantom_fn())
            },
        ),
    ] + seq![alone('>')]
}

proof fn lemma_joined_step(ps: Seq<ParamView>, f: spec_fn(ParamView) -> Seq<TokenTreeView>, i: int)
    requires
        0 <= i < ps.len(),
    ensures
        joined(ps.take(i + 1), f) == if i == 0 {
            f(ps[0])
        } else {
            joined(ps.take(i), f) + seq![alone(',')] + f(ps[i])
        },
{
    assert(ps.take(i + 1).drop_last() =~= ps.take(i));
}

fn ident_tokens(name: &str) -> (r: TokenStream)
    requires
        name@ == "const"@ || name@ == "mut"@ || name@ == "u32"@ || name@ == "core"@ || name@ == "marker"@
            || name@ == "PhantomData"@,
    ensures
        token_trees(r) == seq![TokenTreeView::Ident(name@)],
{
    proof {
        reveal_strlit("const");
        reveal_strlit("mut");
        reveal_strlit("u32");
        reveal_strlit("core");
        reveal_strlit("marker");
        reveal_strlit("PhantomData");
    }
    ts_ident(name)
}

fn push_name(tokens: &mut TokenStream, p: &BoundedGenericParam)
    ensures
        token_trees(*final(tokens)) == token_trees(*old(tokens)) + p@.name,
{
    match &p.param {
        GenericParamName::Lifetime(name) => name.to_tokens(tokens),
        GenericParamName::Type(name) => ts_append(tokens, ts_clone(name)),
        GenericParamName::Const(name) => ts_append(tokens, ts_clone(name)),
    }
}

fn push_with_bounds_item(tokens: &mut TokenStream, p: &BoundedGenericParam)
    ensures
        token_trees(*final(tokens)) == token_trees(*old(tokens)) + with_bounds_item(p@),
{
    let ghost start = token_trees(*tokens);
    if matches!(p.param, GenericParamName::Const(_)) {
        ts_append(tokens, ident_tokens("const"));
    }
    let ghost mid = token_trees(*tokens);
    push_name(tokens, p);
    if let Some(bounds) = &p.bounds {
        ts_append(tokens, ts_punct(':', false));
        ts_append(tokens, ts_clone(bounds));
    }
    assert(token_trees(*tokens) =~= start + with_bounds_item(p@));
}

fn push_phantom_item(tokens: &mut TokenStream, p: &BoundedGenericParam)
    ensures
        token_trees(*final(tokens)) == token_trees(*old(tokens)) + phantom_item(p@),
{
    let ghost start = token_trees(*tokens);
    match &p.param {
        GenericParamName::Lifetime(name) => {
            ts_append(tokens, ts_punct('*', false));
            ts_append(tokens, ident_tokens("mut"));
            ts_append(tokens, ts_punct('&', false));
            name.to_tokens(tokens);
            ts_append(tokens, ts_group(Delim::Parenthesis, ts_new()));
        },
        GenericParamName::Type(name) => ts_append(tokens, ts_clone(name)),
        GenericParamName::Const(name) => {
            let mut inner = ident_tokens("u32");
            ts_append(&mut inner, ts_punct(';', false));
            ts_append(&mut inner, ts_clone(name));
            assert(token_trees(inner) =~= seq![TokenTreeView::Ident("u32"@), alone(';')] + p@.name);
            ts_append(tokens, ts_group(Delim::Bracket, inner));
        },
    }
    assert(token_trees(*tokens) =~= start + phantom_item(p@));
}

impl<'a> WithBounds<'a> {
    /// The parameters that this writes.
    pub closed spec fn of(self) -> BoundedGenericParams {
        *self.0
    }

    /// Appends `<` the parameters with their bounds `>` (nothing when there
    /// are none).
    pub fn to_tokens(&self, tokens: &mut TokenStream)
        ensures
            token_trees(*final(tokens)) == token_trees(*old(tokens)) + with_bounds_trees(self.of()@),
    {
        let ghost start = token_trees(*tokens);
        let ghost ps = self.0@;
        let ghost f = with_bounds_fn();
        if self.0.params.len() == 0 {
            assert(token_trees(*tokens) =~= start + with_bounds_trees(ps));
            return;
        }
        ts_append(tokens, ts_punct('<', false));
        let mut i: usize = 0;
        while i < self.0.params.len()
            invariant
                i <= self.0.params@.len(),
                ps == self.0@,
                f == with_bounds_fn(),
                token_trees(*tokens) == start + seq![alone('<')] + joined(ps.take(i as int), f),
            decreases self.0.params@.len() - i,
        {
            proof {
                lemma_joined_step(ps, f, i as int);
            }
            if i > 0 {
                ts_append(tokens, ts_punct(',', false));
            }
            push_with_bounds_item(tokens, &self.0.params[i]);
            assert(token_trees(*tokens) =~= start + seq![alone('<')] + joined(ps.take(i + 1), f));
            i += 1;
        }
        ts_append(tokens, ts_punct('>', false));
        assert(ps.take(ps.len() as int) =~= ps);
        assert(token_trees(*tokens) =~= start + with_bounds_trees(ps));
    }

    /// The tokens that `to_tokens` appends, as a stream of their own.
    pub fn to_token_stream(&self) -> (r: TokenStream)
        ensures
            token_trees(r) == with_bounds_trees(self.of()@),
    {
        let mut ts = ts_new();
        self.to_tokens(&mut ts);
        assert(token_trees(ts) =~= with_bounds_trees(self.of()@));
        ts
    }
}

impl<'a> WithoutBounds<'a> {
    /// The parameters that this writes.
    pub closed spec fn of(self) -> BoundedGenericParams {
        *self.0
    }

    /// Appends `<` the parameters' names `>` (nothing when there are none);
    /// a const parameter is written as its name alone.
    pub fn to_tokens(&self, tokens: &mut TokenStream)
        ensures
            token_trees(*final(tokens)) == token_trees(*old(tokens)) + without_bounds_trees(self.of()@),
    {
        let ghost start = token_trees(*tokens);
        let ghost ps = self.0@;
        let ghost f = without_bounds_fn();
        if self.0.params.len() == 0 {
            assert(token_trees(*tokens) =~= start + without_bounds_trees(ps));
            return;
        }
        ts_append(tokens, ts_punct('<', false));
        let mut i: usize = 0;
        while i < self.0.params.len()
            invariant
                i <= self.0.params@.len(),
                ps == self.0@,
                f == without_bounds_fn(),
                token_trees(*tokens) == start + seq![alone('<')] + joined(ps.take(i as int), f),
            decreases self.0.params@.len() - i,
        {
            proof {
                lemma_joined_step(ps, f, i as int);
            }
            if i > 0 {
                ts_append(tokens, ts_punct(',', false));
            }
            push_name(tokens, &self.0.params[i]);
            assert(token_trees(*tokens) =~= start + seq![alone('<')] + joined(ps.take(i + 1), f));
            i += 1;
        }
        ts_append(tokens, ts_punct('>', false));
        assert(ps.take(ps.len() as int) =~= ps);
        assert(token_trees(*tokens) =~= start + without_bounds_trees(ps));
    }

    /// The tokens that `to_tokens` appends, as a stream of their own.
    pub fn to_token_stream(&self) -> (r: TokenStream)
        ensures
            token_trees(r) == without_bounds_trees(self.of()@),
    {
        let mut ts = ts_new();
        self.to_tokens(&mut ts);
        assert(token_trees(ts) =~= without_bounds_trees(self.of()@));
        ts
    }
}

impl<'a> AsPhantomData<'a> {
    /// The parameters that this writes.
    pub closed spec fn of(self) -> BoundedGenericParams {
        *self.0
    }

    /// Appends `::core::marker::PhantomData<(...)>` with one tuple item per
    /// parameter, or `()` when there are none.
    pub fn to_tokens(&self, tokens: &mut TokenStream)
        ensures
            token_trees(*final(tokens)) == token_trees(*old(tokens)) + phantom_trees(self.of()@),
    {
        let ghost start = token_trees(*tokens);
        let ghost ps = self.0@;
        let ghost f = phantom_fn();
        let mut temp = ts_new();
        let mut first_param = true;
        let mut i: usize = 0;
        while i < self.0.params.len()
            invariant
                i <= self.0.params@.len(),
                ps == self.0@,
                f == phantom_fn(),
                first_param == (i == 0),
                token_trees(temp) == joined(ps.take(i as int), f),
            decreases self.0.params@.len() - i,
        {
            proof {
                lemma_joined_step(ps, f, i as int);
            }
            if !first_param {
                ts_append(&mut temp, ts_punct(',', false));
            }
            push_phantom_item(&mut temp, &self.0.params[i]);
            assert(token_trees(temp) =~= joined(ps.take(i + 1), f));
            first_param = false;
            i += 1;
        }
        if first_param {
            ts_append(&mut temp, ts_group(Delim::Parenthesis, ts_new()));
        }
        assert(ps.take(ps.len() as int) =~= ps);
        ts_append(tokens, ts_punct(':', true));
        ts_append(tokens, ts_punct(':', false));
        ts_append(tokens, ident_tokens("core"));
        ts_append(tokens, ts_punct(':', true));
        ts_append(tokens, ts_punct(':', false));
        ts_append(tokens, ident_tokens("marker"));
        ts_append(tokens, ts_punct(':', true));
        ts_append(tokens, ts_punct(':', false));
        ts_append(tokens, ident_tokens("PhantomData"));
        ts_append(tokens, ts_punct('<', false));
        ts_append(tokens, ts_group(Delim::Parenthesis, temp));
        ts_append(tokens, ts_punct('>', false));
        assert(token_trees(*tokens) =~= start + phantom_trees(ps));
    }

    /// The tokens that `to_tokens` appends, as a stream of their own.
    pub fn to_token_stream(&self) -> (r: TokenStream)
        ensures
            token_trees(r) == phantom_trees(self.of()@),
    {
        let mut ts = ts_new();
        self.to_tokens(&mut ts);
        assert(token_trees(ts) =~= phantom_trees(self.of()@));
        ts
    }
}


proof fn lemma_first_non_lifetime(ps: Seq<ParamView>, i: int)
    requires
        0 <= i <= ps.len(),
    ensures
        i <= first_non_lifetime(ps, i) <= ps.len(),
        forall|k: int| i <= k < first_non_lifetime(ps, i) ==> #[trigger] ps[k].kind == ParamKind::Lifetime,
        first_non_lifetime(ps, i) < ps.len() ==> ps[first_non_lifetime(ps, i)].kind != ParamKind::Lifetime,
    decreases ps.len() - i,
{
    if i < ps.len() && ps[i].kind == ParamKind::Lifetime {
        lemma_first_non_lifetime(ps, i + 1);
    }
}

proof fn lemma_first_const(ps: Seq<ParamView>, i: int)
    requires
        0 <= i <= ps.len(),
    ensures
        i <= first_const(ps, i) <= ps.len(),
        forall|k: int| i <= k < first_const(ps, i) ==> #[trigger] ps[k].kind != ParamKind::Const,
        first_const(ps, i) < ps.len() ==> ps[first_const(ps, i)].kind == ParamKind::Const,
    decreases ps.len() - i,
{
    if i < ps.len() && ps[i].kind != ParamKind::Const {
        lemma_first_const(ps, i + 1);
    }
}

/// Adding a parameter with `with` keeps the parameters in Rust's order:
/// when lifetimes come before types and types before consts, they still do
/// after the new parameter is put in.
pub proof fn law_with_keeps_order(ps: Seq<ParamView>, p: ParamView)
    requires
        is_ordered(ps),
    ensures
        is_ordered(ps.insert(insert_position(ps, p.kind), p)),
{
    lemma_first_non_lifetime(ps, 0);
    let a = first_non_lifetime(ps, 0);
    lemma_first_const(ps, a);
    let pos = insert_position(ps, p.kind);
    // every parameter before the position ranks no higher than p, every one
    // from it on no lower
    assert forall|k: int| 0 <= k < pos implies rank(#[trigger] ps[k].kind) <= rank(p.kind) by {
        if p.kind == ParamKind::Type && k >= a {
            assert(ps[k].kind != ParamKind::Const);
        }
    }
    assert forall|k: int| pos <= k < ps.len() implies rank(p.kind) <= rank(#[trigger] ps[k].kind) by {
        if p.kind == ParamKind::Type {
            let c = first_const(ps, a);
            assert(rank(ps[c].kind) <= rank(ps[k].kind));
        }
    }
    let r = ps.insert(pos, p);
    assert forall|i: int, j: int| 0 <= i < j < r.len() implies rank(r[i].kind) <= rank(r[j].kind) by {
        if j < pos {
        } else if j == pos {
            assert(r[i] == ps[i]);
        } else if i < pos {
            assert(r[j] == ps[j - 1]);
            assert(rank(ps[i].kind) <= rank(p.kind));
        } else if i == pos {
            assert(r[j] == ps[j - 1]);
        } else {
            assert(r[i] == ps[i - 1]);
            assert(r[j] == ps[j - 1]);
        }
    }
}

/// How many of the first `n` parameters rank no higher than `r`.
pub open spec fn count_ranked_at_most(ps: Seq<ParamView>, r: int, n: int) -> int
    decreases n,
{
    if n <= 0 {
        0
    } else {
        count_ranked_at_most(ps, r, n - 1) + if rank(ps[n - 1].kind) <= r { 1int } else { 0int }
    }
}

proof fn lemma_count_split(ps: Seq<ParamView>, r: int, pos: int, n: int)
    requires
        0 <= pos <= ps.len(),
        0 <= n <= ps.len(),
        forall|k: int| 0 <= k < pos ==> rank(#[trigger] ps[k].kind) <= r,
        forall|k: int| pos <= k < ps.len() ==> rank(#[trigger] ps[k].kind) > r,
    ensures
        count_ranked_at_most(ps, r, n) == if n <= pos { n } else { pos },
    decreases n,
{
    if n > 0 {
        lemma_count_split(ps, r, pos, n - 1);
    }
}

/// Adding a parameter with `with` to parameters in Rust's order puts it
/// after every parameter that ranks no higher (lifetimes, then types, then
/// consts) and before every other: its position is the number of those.
pub proof fn law_with_places_after_its_kind(ps: Seq<ParamView>, p: ParamView)
    requires
        is_ordered(ps),
    ensures
        insert_position(ps, p.kind) == count_ranked_at_most(ps, rank(p.kind), ps.len() as int),
{
    lemma_first_non_lifetime(ps, 0);
    let a = first_non_lifetime(ps, 0);
    lemma_first_const(ps, a);
    let pos = insert_position(ps, p.kind);
    assert forall|k: int| 0 <= k < pos implies rank(#[trigger] ps[k].kind) <= rank(p.kind) by {
        if p.kind == ParamKind::Type && k >= a {
            assert(ps[k].kind != ParamKind::Const);
        }
    }
    assert forall|k: int| pos <= k < ps.len() implies rank(#[trigger] ps[k].kind) > rank(p.kind) by {
        if p.kind == ParamKind::Lifetime {
            assert(rank(ps[a].kind) <= rank(ps[k].kind));
        } else if p.kind == ParamKind::Type {
            let c = first_const(ps, a);
            assert(rank(ps[c].kind) <= rank(ps[k].kind));
        }
    }
    lemma_count_split(ps, rank(p.kind), pos, ps.len() as int);
}

} // verus!
