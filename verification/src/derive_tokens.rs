//! Tokens of the `Facet` implementation that the derive writes for a
//! generic type: the `where` clause that asks each lifetime to outlive
//! `'__facet` (and back) and each type parameter to be `Facet`, and the
//! list of type parameters that the shape records.
use vstd::prelude::*;
use proc_macro2::TokenStream;
use crate::tokens::{
    TokenTreeView, Delim, token_trees, ident_text, is_plain_text, quoted, ts_new, ts_clone, ts_append,
    ts_punct, ts_ident, ts_group, ts_of_ident, ts_str_literal, ident_clone, ident_string,
};
use crate::generics::{GenericParam, GenericParams, lifetime_trees, alone, path_sep};

verus! {

/// The `where` clauses of a declaration, each as its tokens.
pub struct WhereClauses {
    /// The clauses, in order
    pub clauses: Vec<TokenStream>,
}

/// The items, each after `sep` but the first.
pub open spec fn separated_by(items: Seq<Seq<TokenTreeView>>, sep: Seq<TokenTreeView>, n: int) -> Seq<TokenTreeView>
    decreases n,
{
    if n <= 0 || n > items.len() {
        seq![]
    } else {
        separated_by(items, sep, n - 1) + (if n > 1 { sep } else { seq![] }) + items[n - 1]
    }
}

/// The items, each after a lone comma but the first.
pub open spec fn comma_separated(items: Seq<Seq<TokenTreeView>>, n: int) -> Seq<TokenTreeView> {
    separated_by(items, seq![alone(',')], n)
}

/// An identifier.
pub open spec fn word(s: Seq<char>) -> TokenTreeView {
    TokenTreeView::Ident(s)
}

/// `'__facet`
pub open spec fn facet_lifetime() -> Seq<TokenTreeView> {
    lifetime_trees("__facet"@)
}

/// `::facet::<last>`
pub open spec fn facet_path(last: Seq<char>) -> Seq<TokenTreeView> {
    path_sep() + seq![word("facet"@)] + path_sep() + seq![word(last)]
}

/// What a generic parameter asks of the `where` clause: a lifetime
/// `'a: '__facet, '__facet: 'a`, a type `T: ::facet::Facet<'__facet>`, a
/// const nothing.
pub open spec fn where_item(p: GenericParam) -> Option<Seq<TokenTreeView>> {
    match p {
        GenericParam::Lifetime { name, .. } => {
            let lt = lifetime_trees(ident_text(name));
            Some(lt + seq![alone(':')] + facet_lifetime() + seq![alone(',')] + facet_lifetime() + seq![alone(':')] + lt)
        },
        GenericParam::Const { .. } => None,
        GenericParam::Type { name, .. } => Some(
            seq![word(ident_text(name)), alone(':')] + facet_path("Facet"@) + seq![alone('<')] + facet_lifetime()
                + seq![alone('>')],
        ),
    }
}

/// The items that the first `n` parameters ask of the `where` clause.
pub open spec fn param_where_items(ps: Seq<GenericParam>, n: int) -> Seq<Seq<TokenTreeView>>
    decreases n,
{
    if n <= 0 || n > ps.len() {
        seq![]
    } else {
        param_where_items(ps, n - 1) + match where_item(ps[n - 1]) {
            Some(t) => seq![t],
            None => seq![],
        }
    }
}

/// All the items of the `where` clause: the declared clauses, then what
/// the parameters ask.
pub open spec fn where_items(wc: Option<WhereClauses>, g: Option<GenericParams>) -> Seq<Seq<TokenTreeView>> {
    (match wc {
        Some(w) => Seq::new(w.clauses@.len(), |i: int| token_trees(w.clauses@[i])),
        None => seq![],
    }) + match g {
        Some(gp) => param_where_items(gp.params@, gp.params@.len() as int),
        None => seq![],
    }
}

/// `where` and the items separated by commas, or nothing when there are
/// no items.
pub open spec fn where_trees(items: Seq<Seq<TokenTreeView>>) -> Seq<TokenTreeView> {
    if items.len() == 0 {
        seq![]
    } else {
        seq![word("where"@)] + comma_separated(items, items.len() as int)
    }
}

fn word_tokens(name: &str) -> (r: TokenStream)
    requires
        name@ == "where"@ || name@ == "facet"@ || name@ == "Facet"@ || name@ == "__facet"@ || name@ == "TypeParam"@ || name@ == "name"@ || name@ == "shape"@ || name@ == "as"@ || name@ == "SHAPE"@ || name@ == "type_params"@ || name@ == "write"@ || name@ == "f"@ || name@ == "opts"@ || name@ == "_opts"@ || name@ == "if"@ || name@ == "let"@ || name@ == "Some"@ || name@ == "for_children"@ || name@ == "else"@ || name@ == "Ok"@ || name@ == "vtable"@ || name@ == "type_name"@ || name@ == "core"@ || name@ == "fmt"@ || name@ == "Write"@ || name@ == "write_str"@,
    ensures
        token_trees(r) == seq![word(name@)],
{
    proof {
        reveal_strlit("where");
        reveal_strlit("facet");
        reveal_strlit("Facet");
        reveal_strlit("__facet");
        reveal_strlit("TypeParam");
        reveal_strlit("name");
        reveal_strlit("shape");
        reveal_strlit("as");
        reveal_strlit("SHAPE");
        reveal_strlit("type_params");
        reveal_strlit("write");
        reveal_strlit("f");
        reveal_strlit("opts");
        reveal_strlit("_opts");
        reveal_strlit("if");
        reveal_strlit("let");
        reveal_strlit("Some");
        reveal_strlit("for_children");
        reveal_strlit("else");
        reveal_strlit("Ok");
        reveal_strlit("vtable");
        reveal_strlit("type_name");
        reveal_strlit("core");
        reveal_strlit("fmt");
        reveal_strlit("Write");
        reveal_strlit("write_str");
    }
    ts_ident(name)
}

/// Appends `'__facet`.
fn push_facet_lifetime(out: &mut TokenStream)
    ensures
        token_trees(*final(out)) == token_trees(*old(out)) + facet_lifetime(),
{
    let ghost start = token_trees(*out);
    ts_append(out, ts_punct('\'', true));
    ts_append(out, word_tokens("__facet"));
    proof {
        reveal_strlit("__facet");
    }
    assert(token_trees(*out) =~= start + facet_lifetime());
}

/// Appends `::facet::<last>`.
fn push_facet_path(out: &mut TokenStream, last: &str)
    requires
        last@ == "Facet"@ || last@ == "TypeParam"@,
    ensures
        token_trees(*final(out)) == token_trees(*old(out)) + facet_path(last@),
{
    let ghost start = token_trees(*out);
    ts_append(out, ts_punct(':', true));
    ts_append(out, ts_punct(':', false));
    ts_append(out, word_tokens("facet"));
    ts_append(out, ts_punct(':', true));
    ts_append(out, ts_punct(':', false));
    ts_append(out, word_tokens(last));
    proof {
        reveal_strlit("facet");
    }
    assert(token_trees(*out) =~= start + facet_path(last@));
}

/// The tokens of a lifetime named by `name`.
fn lifetime_tokens(name: &proc_macro2::Ident) -> (r: TokenStream)
    ensures
        token_trees(r) == lifetime_trees(ident_text(*name)),
{
    let mut t = ts_punct('\'', true);
    ts_append(&mut t, ts_of_ident(ident_clone(name)));
    assert(token_trees(t) =~= lifetime_trees(ident_text(*name)));
    t
}

/// The tokens that a parameter asks of the `where` clause.
fn where_item_tokens(p: &GenericParam) -> (r: Option<TokenStream>)
    ensures
        match (r, where_item(*p)) {
            (Some(t), Some(g)) => token_trees(t) == g,
            (None, None) => true,
            _ => false,
        },
{
    match p {
        GenericParam::Lifetime { name, .. } => {
            let mut t = lifetime_tokens(name);
            ts_append(&mut t, ts_punct(':', false));
            push_facet_lifetime(&mut t);
            ts_append(&mut t, ts_punct(',', false));
            push_facet_lifetime(&mut t);
            ts_append(&mut t, ts_punct(':', false));
            ts_append(&mut t, lifetime_tokens(name));
            Some(t)
        },
        GenericParam::Const { .. } => None,
        GenericParam::Type { name, .. } => {
            let ghost start = seq![word(ident_text(*name)), alone(':')];
            let mut t = ts_of_ident(ident_clone(name));
            ts_append(&mut t, ts_punct(':', false));
            assert(token_trees(t) =~= start);
            push_facet_path(&mut t, "Facet");
            ts_append(&mut t, ts_punct('<', false));
            push_facet_lifetime(&mut t);
            ts_append(&mut t, ts_punct('>', false));
            proof {
                reveal_strlit("Facet");
            }
            Some(t)
        },
    }
}

/// Appends an item after the separator unless it is the first.
fn push_item(
    out: &mut TokenStream,
    item: TokenStream,
    sep: TokenStream,
    first: bool,
    Ghost(items): Ghost<Seq<Seq<TokenTreeView>>>,
    Ghost(k): Ghost<int>,
    Ghost(exact): Ghost<bool>,
)
    requires
        0 <= k < items.len(),
        first == (k == 0),
        exact ==> items[k] == token_trees(item),
        exact ==> token_trees(*old(out)) == separated_by(items, token_trees(sep), k),
    ensures
        exact ==> token_trees(*final(out)) == separated_by(items, token_trees(sep), k + 1),
{
    if !first {
        ts_append(out, sep);
    }
    ts_append(out, item);
}

/// The `where` clause of the `Facet` implementation: the declared clauses,
/// then for each lifetime `'a: '__facet, '__facet: 'a` and for each type
/// parameter `T: ::facet::Facet<'__facet>`; nothing when there is none of
/// these.
pub fn build_where_clauses(where_clauses: Option<&WhereClauses>, generics: Option<&GenericParams>) -> (r: TokenStream)
    ensures
        token_trees(r) == where_trees(where_items(
            match where_clauses {
                Some(w) => Some(*w),
                None => None,
            },
            match generics {
                Some(g) => Some(*g),
                None => None,
            },
        )),
{
    let ghost wc = match where_clauses {
        Some(w) => Some(*w),
        None => None::<WhereClauses>,
    };
    let ghost g = match generics {
        Some(gp) => Some(*gp),
        None => None::<GenericParams>,
    };
    let ghost items = where_items(wc, g);
    let ghost declared = match wc {
        Some(w) => Seq::new(w.clauses@.len(), |i: int| token_trees(w.clauses@[i])),
        None => Seq::<Seq<TokenTreeView>>::empty(),
    };
    let mut tokens = ts_new();
    let ghost mut count: int = 0;
    let mut has_clauses = false;
    match where_clauses {
        Some(w) => {
            let mut i: usize = 0;
            while i < w.clauses.len()
                invariant
                    i <= w.clauses@.len(),
                    wc == Some(*w),
                    items == where_items(wc, g),
                    declared == Seq::new(w.clauses@.len(), |i: int| token_trees(w.clauses@[i])),
                    items.len() == declared.len() + match g {
                        Some(gp) => param_where_items(gp.params@, gp.params@.len() as int).len(),
                        None => 0,
                    },
                    count == i as int,
                    has_clauses == (count > 0),
                    token_trees(tokens) == comma_separated(items, count as int),
                decreases w.clauses@.len() - i,
            {
                assert(items[i as int] == token_trees(w.clauses@[i as int]));
                push_item(&mut tokens, ts_clone(&w.clauses[i]), ts_punct(',', false), !has_clauses, Ghost(items), Ghost(count), Ghost(true));
                has_clauses = true;
                proof {
                    count = count + 1;
                }
                i += 1;
            }
        },
        None => {},
    }
    assert(count == declared.len());
    match generics {
        Some(gp) => {
            let ghost pitems = param_where_items(gp.params@, gp.params@.len() as int);
            let mut i: usize = 0;
            while i < gp.params.len()
                invariant
                    i <= gp.params@.len(),
                    g == Some(*gp),
                    items == declared + pitems,
                    pitems == param_where_items(gp.params@, gp.params@.len() as int),
                    count == declared.len() + param_where_items(gp.params@, i as int).len(),
                    has_clauses == (count > 0),
                    token_trees(tokens) == comma_separated(items, count as int),
                decreases gp.params@.len() - i,
            {
                proof {
                    lemma_where_items_prefix(gp.params@, i as int + 1, gp.params@.len() as int);
                }
                match where_item_tokens(&gp.params[i]) {
                    Some(t) => {
                        let ghost a = param_where_items(gp.params@, i as int);
                        assert(param_where_items(gp.params@, i + 1) == a.push(token_trees(t)));
                        assert(pitems.take(a.len() + 1int)[a.len() as int] == pitems[a.len() as int]);
                        assert(pitems[a.len() as int] == token_trees(t));
                        assert(items[count] == pitems[count - declared.len()]);
                        push_item(&mut tokens, t, ts_punct(',', false), !has_clauses, Ghost(items), Ghost(count), Ghost(true));
                        has_clauses = true;
                        proof {
                            count = count + 1;
                        }
                    },
                    None => {
                        assert(param_where_items(gp.params@, i + 1) =~= param_where_items(gp.params@, i as int));
                    },
                }
                i += 1;
            }
        },
        None => {
            assert(items =~= declared);
        },
    }
    if !has_clauses {
        assert(items.len() == 0);
        ts_new()
    } else {
        let mut out = word_tokens("where");
        ts_append(&mut out, tokens);
        proof {
            reveal_strlit("where");
        }
        out
    }
}

proof fn lemma_where_items_prefix(ps: Seq<GenericParam>, i: int, n: int)
    requires
        0 <= i <= n <= ps.len(),
    ensures
        param_where_items(ps, i) == param_where_items(ps, n).take(param_where_items(ps, i).len() as int),
        param_where_items(ps, i).len() <= param_where_items(ps, n).len(),
    decreases n - i,
{
    if i < n {
        lemma_where_items_prefix(ps, i, n - 1);
        let a = param_where_items(ps, i);
        let b = param_where_items(ps, n - 1);
        let c = param_where_items(ps, n);
        assert(c.take(a.len() as int) =~= b.take(a.len() as int));
    } else {
        assert(param_where_items(ps, n).take(param_where_items(ps, n).len() as int) =~= param_where_items(ps, n));
    }
}


/// A punctuation character joined to the next.
pub open spec fn joint(c: char) -> TokenTreeView {
    TokenTreeView::Punct { ch: c, joint: true }
}

/// The entry that the shape records for a type parameter:
/// `::facet::TypeParam { name: "T", shape: || <T as ::facet::Facet>::SHAPE }`.
pub open spec fn type_param_entry(name: Seq<char>) -> Seq<TokenTreeView> {
    facet_path("TypeParam"@) + seq![
        TokenTreeView::Group(
            Delim::Brace,
            seq![
                word("name"@),
                alone(':'),
                TokenTreeView::Literal(quoted(name)),
                alone(','),
                word("shape"@),
                alone(':'),
                joint('|'),
                alone('|'),
                alone('<'),
                word(name),
                word("as"@),
            ] + facet_path("Facet"@) + seq![alone('>')] + path_sep() + seq![word("SHAPE"@)],
        ),
    ]
}

/// The entries of the type parameters among the first `n` parameters.
pub open spec fn type_param_entries(ps: Seq<GenericParam>, n: int) -> Seq<Seq<TokenTreeView>>
    decreases n,
{
    if n <= 0 || n > ps.len() {
        seq![]
    } else {
        type_param_entries(ps, n - 1) + match ps[n - 1] {
            GenericParam::Type { name, .. } => seq![type_param_entry(ident_text(name))],
            _ => seq![],
        }
    }
}

/// `.type_params(&[entries])`, or nothing when there are no type
/// parameters.
pub open spec fn type_params_trees(items: Seq<Seq<TokenTreeView>>) -> Seq<TokenTreeView> {
    if items.len() == 0 {
        seq![]
    } else {
        seq![
            alone('.'),
            word("type_params"@),
            TokenTreeView::Group(
                Delim::Parenthesis,
                seq![alone('&'), TokenTreeView::Group(Delim::Bracket, comma_separated(items, items.len() as int))],
            ),
        ]
    }
}

fn type_param_entry_tokens(name: &proc_macro2::Ident) -> (r: TokenStream)
    ensures
        is_plain_text(ident_text(*name)) ==> token_trees(r) == type_param_entry(ident_text(*name)),
{
    let text = ident_string(name);
    let mut inner = word_tokens("name");
    ts_append(&mut inner, ts_punct(':', false));
    ts_append(&mut inner, ts_str_literal(text.as_str()));
    ts_append(&mut inner, ts_punct(',', false));
    ts_append(&mut inner, word_tokens("shape"));
    ts_append(&mut inner, ts_punct(':', false));
    ts_append(&mut inner, ts_punct('|', true));
    ts_append(&mut inner, ts_punct('|', false));
    ts_append(&mut inner, ts_punct('<', false));
    ts_append(&mut inner, ts_of_ident(ident_clone(name)));
    ts_append(&mut inner, word_tokens("as"));
    push_facet_path(&mut inner, "Facet");
    ts_append(&mut inner, ts_punct('>', false));
    ts_append(&mut inner, ts_punct(':', true));
    ts_append(&mut inner, ts_punct(':', false));
    ts_append(&mut inner, word_tokens("SHAPE"));
    proof {
        reveal_strlit("name");
        reveal_strlit("shape");
        reveal_strlit("as");
        reveal_strlit("SHAPE");
        reveal_strlit("Facet");
    }
    assert(is_plain_text(ident_text(*name)) ==> token_trees(inner) =~= seq![
        word("name"@),
        alone(':'),
        TokenTreeView::Literal(quoted(ident_text(*name))),
        alone(','),
        word("shape"@),
        alone(':'),
        joint('|'),
        alone('|'),
        alone('<'),
        word(ident_text(*name)),
        word("as"@),
    ] + facet_path("Facet"@) + seq![alone('>')] + path_sep() + seq![word("SHAPE"@)]);
    let mut out = ts_new();
    push_facet_path(&mut out, "TypeParam");
    ts_append(&mut out, ts_group(Delim::Brace, inner));
    proof {
        reveal_strlit("name");
        reveal_strlit("shape");
        reveal_strlit("as");
        reveal_strlit("SHAPE");
        reveal_strlit("Facet");
        reveal_strlit("TypeParam");
    }
    assert(is_plain_text(ident_text(*name)) ==> token_trees(out) =~= type_param_entry(ident_text(*name)));
    out
}

/// Whether the name of every type parameter among `generics` is plain, so
/// that the string literal that holds it is the name in double quotes.
pub open spec fn type_names_plain(generics: Option<&GenericParams>) -> bool {
    match generics {
        Some(g) => forall|i: int|
            0 <= i < g.params@.len() ==> (#[trigger] g.params@[i] matches GenericParam::Type { name, .. }
                ==> is_plain_text(ident_text(name))),
        None => true,
    }
}

/// The type parameters that the shape records: for each type parameter
/// `T`, an entry with its name and its shape, in
/// `.type_params(&[...])`; nothing when there is none. Where a name has a
/// character that is not plain, the text of the literal that holds it is
/// the escaper's, and the output is not stated.
pub fn build_type_params(generics: Option<&GenericParams>) -> (r: TokenStream)
    ensures
        type_names_plain(generics) ==> token_trees(r) == type_params_trees(
            match generics {
                Some(g) => type_param_entries(g.params@, g.params@.len() as int),
                None => Seq::<Seq<TokenTreeView>>::empty(),
            },
        ),
{
    let gp = match generics {
        Some(g) => g,
        None => {
            return ts_new();
        },
    };
    let ghost items = type_param_entries(gp.params@, gp.params@.len() as int);
    let ghost all_plain = type_names_plain(generics);
    let mut list = ts_new();
    let mut any = false;
    let ghost mut count: int = 0;
    let mut i: usize = 0;
    while i < gp.params.len()
        invariant
            i <= gp.params@.len(),
            items == type_param_entries(gp.params@, gp.params@.len() as int),
            count == type_param_entries(gp.params@, i as int).len(),
            any == (count > 0),
            all_plain == type_names_plain(generics),
            generics == Some(gp),
            all_plain ==> token_trees(list) == comma_separated(items, count),
        decreases gp.params@.len() - i,
    {
        proof {
            lemma_entries_prefix(gp.params@, i as int + 1, gp.params@.len() as int);
        }
        match &gp.params[i] {
            GenericParam::Type { name, .. } => {
                let t = type_param_entry_tokens(name);
                let ghost a = type_param_entries(gp.params@, i as int);
                assert(all_plain ==> is_plain_text(ident_text(*name))) by {
                    assert(gp.params@[i as int] matches GenericParam::Type { .. });
                }
                assert(all_plain ==> type_param_entries(gp.params@, i + 1) == a.push(token_trees(t)));
                assert(items.take(a.len() + 1int)[a.len() as int] == items[a.len() as int]);
                push_item(&mut list, t, ts_punct(',', false), !any, Ghost(items), Ghost(count), Ghost(all_plain));
                any = true;
                proof {
                    count = count + 1;
                }
            },
            _ => {
                assert(type_param_entries(gp.params@, i + 1) =~= type_param_entries(gp.params@, i as int));
            },
        }
        i += 1;
    }
    if !any {
        return ts_new();
    }
    let mut args = ts_punct('&', false);
    ts_append(&mut args, ts_group(Delim::Bracket, list));
    assert(all_plain ==> token_trees(args) =~= seq![alone('&'), TokenTreeView::Group(Delim::Bracket, comma_separated(items, items.len() as int))]);
    let mut out = ts_punct('.', false);
    ts_append(&mut out, word_tokens("type_params"));
    ts_append(&mut out, ts_group(Delim::Parenthesis, args));
    proof {
        reveal_strlit("type_params");
    }
    assert(all_plain ==> token_trees(out) =~= type_params_trees(items));
    out
}

proof fn lemma_entries_prefix(ps: Seq<GenericParam>, i: int, n: int)
    requires
        0 <= i <= n <= ps.len(),
    ensures
        type_param_entries(ps, i) == type_param_entries(ps, n).take(type_param_entries(ps, i).len() as int),
        type_param_entries(ps, i).len() <= type_param_entries(ps, n).len(),
    decreases n - i,
{
    if i < n {
        lemma_entries_prefix(ps, i, n - 1);
        let a = type_param_entries(ps, i);
        let b = type_param_entries(ps, n - 1);
        let c = type_param_entries(ps, n);
        assert(c.take(a.len() as int) =~= b.take(a.len() as int));
    } else {
        assert(type_param_entries(ps, n).take(type_param_entries(ps, n).len() as int) =~= type_param_entries(ps, n));
    }
}


/// A string literal, as `Literal::string` writes it.
pub open spec fn lit(s: Seq<char>) -> TokenTreeView {
    TokenTreeView::Literal(quoted(s))
}

/// `write!(f, args)?;`
pub open spec fn write_stmt(args: Seq<TokenTreeView>) -> Seq<TokenTreeView> {
    seq![
        word("write"@),
        alone('!'),
        TokenTreeView::Group(Delim::Parenthesis, seq![word("f"@), alone(',')] + args),
        alone('?'),
        alone(';'),
    ]
}

/// `write!(f, "s")?;`
pub open spec fn write_text_stmt(s: Seq<char>) -> Seq<TokenTreeView> {
    write_stmt(seq![lit(s)])
}

/// What writes a generic parameter into the type's name: a const its value
/// with `write!(f, "{:?}", N)?;`, a type its own name through its shape's
/// `type_name`, a lifetime nothing.
pub open spec fn type_writer(p: GenericParam) -> Option<Seq<TokenTreeView>> {
    match p {
        GenericParam::Lifetime { .. } => None,
        GenericParam::Const { name, .. } => Some(write_stmt(seq![lit("{:?}"@), alone(','), word(ident_text(name))])),
        GenericParam::Type { name, .. } => Some(
            seq![alone('<'), word(ident_text(name)), word("as"@)] + facet_path("Facet"@) + seq![alone('>')]
                + path_sep() + seq![
                word("SHAPE"@),
                alone('.'),
                word("vtable"@),
                alone('.'),
                word("type_name"@),
                TokenTreeView::Group(Delim::Parenthesis, seq![]),
                TokenTreeView::Group(Delim::Parenthesis, seq![word("f"@), alone(','), word("opts"@)]),
                alone('?'),
                alone(';'),
            ],
        ),
    }
}

/// The writers of the first `n` parameters that have one.
pub open spec fn param_writers(ps: Seq<GenericParam>, n: int) -> Seq<Seq<TokenTreeView>>
    decreases n,
{
    if n <= 0 || n > ps.len() {
        seq![]
    } else {
        param_writers(ps, n - 1) + match type_writer(ps[n - 1]) {
            Some(t) => seq![t],
            None => seq![],
        }
    }
}

/// The name written for a type with truncated generics.
pub open spec fn elided_generics() -> Seq<char> {
    "<\u{2026}>"@
}

/// The `type_name` function of the value vtable. Without writers,
/// `|f, _opts| ::core::fmt::Write::write_str(f, "Name")`; with them, a
/// closure that writes the name, then, where the options allow children,
/// the writers between `<` and `>` separated by `", "`, and else `<…>`.
pub open spec fn type_name_fn_trees(name: Seq<char>, writers: Seq<Seq<TokenTreeView>>) -> Seq<TokenTreeView> {
    if writers.len() == 0 {
        seq![alone('|'), word("f"@), alone(','), word("_opts"@), alone('|')] + path_sep() + seq![word("core"@)]
            + path_sep() + seq![word("fmt"@)] + path_sep() + seq![word("Write"@)] + path_sep() + seq![
            word("write_str"@),
            TokenTreeView::Group(Delim::Parenthesis, seq![word("f"@), alone(','), lit(name)]),
        ]
    } else {
        seq![
            alone('|'),
            word("f"@),
            alone(','),
            word("opts"@),
            alone('|'),
            TokenTreeView::Group(
                Delim::Brace,
                write_text_stmt(name) + seq![
                    word("if"@),
                    word("let"@),
                    word("Some"@),
                    TokenTreeView::Group(Delim::Parenthesis, seq![word("opts"@)]),
                    alone('='),
                    word("opts"@),
                    alone('.'),
                    word("for_children"@),
                    TokenTreeView::Group(Delim::Parenthesis, seq![]),
                    TokenTreeView::Group(
                        Delim::Brace,
                        write_text_stmt("<"@) + separated_by(writers, write_text_stmt(", "@), writers.len() as int)
                            + write_text_stmt(">"@),
                    ),
                    word("else"@),
                    TokenTreeView::Group(Delim::Brace, write_text_stmt(elided_generics())),
                    word("Ok"@),
                    TokenTreeView::Group(
                        Delim::Parenthesis,
                        seq![TokenTreeView::Group(Delim::Parenthesis, seq![])],
                    ),
                ],
            ),
        ]
    }
}

/// `write!(f, args)?;` around the tokens of `args`.
fn write_stmt_tokens(args: TokenStream) -> (r: TokenStream)
    ensures
        token_trees(r) == write_stmt(token_trees(args)),
{
    let ghost a = token_trees(args);
    let mut inner = word_tokens("f");
    ts_append(&mut inner, ts_punct(',', false));
    ts_append(&mut inner, args);
    proof {
        reveal_strlit("f");
    }
    assert(token_trees(inner) =~= seq![word("f"@), alone(',')] + a);
    let mut out = word_tokens("write");
    ts_append(&mut out, ts_punct('!', false));
    ts_append(&mut out, ts_group(Delim::Parenthesis, inner));
    ts_append(&mut out, ts_punct('?', false));
    ts_append(&mut out, ts_punct(';', false));
    proof {
        reveal_strlit("f");
        reveal_strlit("write");
    }
    assert(token_trees(out) =~= write_stmt(a));
    out
}

/// `write!(f, "s")?;`
fn write_text_tokens(s: &str) -> (r: TokenStream)
    ensures
        is_plain_text(s@) ==> token_trees(r) == write_text_stmt(s@),
{
    let t = ts_str_literal(s);
    assert(is_plain_text(s@) ==> token_trees(t) =~= seq![lit(s@)]);
    write_stmt_tokens(t)
}

/// The tokens that write a parameter into the type's name.
fn type_writer_tokens(p: &GenericParam) -> (r: Option<TokenStream>)
    ensures
        match (r, type_writer(*p)) {
            (Some(t), Some(g)) => token_trees(t) == g,
            (None, None) => true,
            _ => false,
        },
{
    match p {
        GenericParam::Lifetime { .. } => None,
        GenericParam::Const { name, .. } => {
            proof {
                reveal_strlit("{:?}");
                assert(is_plain_text("{:?}"@));
            }
            let mut args = ts_str_literal("{:?}");
            ts_append(&mut args, ts_punct(',', false));
            ts_append(&mut args, ts_of_ident(ident_clone(name)));
            assert(token_trees(args) =~= seq![lit("{:?}"@), alone(','), word(ident_text(*name))]);
            Some(write_stmt_tokens(args))
        },
        GenericParam::Type { name, .. } => {
            let ghost head = seq![alone('<'), word(ident_text(*name)), word("as"@)];
            let mut t = ts_punct('<', false);
            ts_append(&mut t, ts_of_ident(ident_clone(name)));
            ts_append(&mut t, word_tokens("as"));
            assert(token_trees(t) =~= head);
            push_facet_path(&mut t, "Facet");
            ts_append(&mut t, ts_punct('>', false));
            let mut args = word_tokens("f");
            ts_append(&mut args, ts_punct(',', false));
            ts_append(&mut args, word_tokens("opts"));
            let mut tail = ts_punct(':', true);
            ts_append(&mut tail, ts_punct(':', false));
            ts_append(&mut tail, word_tokens("SHAPE"));
            ts_append(&mut tail, ts_punct('.', false));
            ts_append(&mut tail, word_tokens("vtable"));
            ts_append(&mut tail, ts_punct('.', false));
            ts_append(&mut tail, word_tokens("type_name"));
            ts_append(&mut tail, ts_group(Delim::Parenthesis, ts_new()));
            proof {
                reveal_strlit("f");
                reveal_strlit("opts");
            }
            assert(token_trees(args) =~= seq![word("f"@), alone(','), word("opts"@)]);
            ts_append(&mut tail, ts_group(Delim::Parenthesis, args));
            ts_append(&mut tail, ts_punct('?', false));
            ts_append(&mut tail, ts_punct(';', false));
            proof {
                reveal_strlit("as");
                reveal_strlit("Facet");
                reveal_strlit("SHAPE");
                reveal_strlit("vtable");
                reveal_strlit("type_name");
                reveal_strlit("f");
                reveal_strlit("opts");
            }
            assert(token_trees(t) =~= head + facet_path("Facet"@) + seq![alone('>')]);
            assert(token_trees(tail) =~= path_sep() + seq![
                word("SHAPE"@),
                alone('.'),
                word("vtable"@),
                alone('.'),
                word("type_name"@),
                TokenTreeView::Group(Delim::Parenthesis, seq![]),
                TokenTreeView::Group(Delim::Parenthesis, seq![word("f"@), alone(','), word("opts"@)]),
                alone('?'),
                alone(';'),
            ]);
            ts_append(&mut t, tail);
            assert(token_trees(t) =~= type_writer(*p)->Some_0);
            Some(t)
        },
    }
}

proof fn lemma_writers_prefix(ps: Seq<GenericParam>, i: int, n: int)
    requires
        0 <= i <= n <= ps.len(),
    ensures
        param_writers(ps, i) == param_writers(ps, n).take(param_writers(ps, i).len() as int),
        param_writers(ps, i).len() <= param_writers(ps, n).len(),
    decreases n - i,
{
    if i < n {
        lemma_writers_prefix(ps, i, n - 1);
        let a = param_writers(ps, i);
        let b = param_writers(ps, n - 1);
        let c = param_writers(ps, n);
        assert(c.take(a.len() as int) =~= b.take(a.len() as int));
    } else {
        assert(param_writers(ps, n).take(param_writers(ps, n).len() as int) =~= param_writers(ps, n));
    }
}

/// The `type_name` function of the value vtable for the type `name`:
/// it writes the name and, for each const and type parameter, what writes
/// it between `<` and `>`; lifetimes are not shown. With nothing to write
/// for the parameters it writes the name alone. Where the name has a
/// character that is not plain, the text of the literal that holds it is
/// the escaper's, and the output is not stated.
pub fn generate_type_name_fn(name: &proc_macro2::Ident, generics: Option<&GenericParams>) -> (r: TokenStream)
    ensures
        is_plain_text(ident_text(*name)) ==> token_trees(r) == type_name_fn_trees(
            ident_text(*name),
            match generics {
                Some(g) => param_writers(g.params@, g.params@.len() as int),
                None => Seq::<Seq<TokenTreeView>>::empty(),
            },
        ),
{
    let text = ident_string(name);
    let ghost writers = match generics {
        Some(g) => param_writers(g.params@, g.params@.len() as int),
        None => Seq::<Seq<TokenTreeView>>::empty(),
    };
    let ghost sep = write_text_stmt(", "@);
    let mut list = ts_new();
    let mut any = false;
    let ghost mut count: int = 0;
    match generics {
        Some(gp) => {
            let mut i: usize = 0;
            while i < gp.params.len()
                invariant
                    i <= gp.params@.len(),
                    writers == param_writers(gp.params@, gp.params@.len() as int),
                    sep == write_text_stmt(", "@),
                    count == param_writers(gp.params@, i as int).len(),
                    any == (count > 0),
                    token_trees(list) == separated_by(writers, sep, count),
                decreases gp.params@.len() - i,
            {
                proof {
                    lemma_writers_prefix(gp.params@, i as int + 1, gp.params@.len() as int);
                }
                match type_writer_tokens(&gp.params[i]) {
                    Some(t) => {
                        proof {
                            reveal_strlit(", ");
                            assert(is_plain_text(", "@));
                        }
                        let ghost a = param_writers(gp.params@, i as int);
                        assert(param_writers(gp.params@, i + 1) == a.push(token_trees(t)));
                        assert(writers.take(a.len() + 1int)[a.len() as int] == writers[a.len() as int]);
                        push_item(&mut list, t, write_text_tokens(", "), !any, Ghost(writers), Ghost(count), Ghost(true));
                        any = true;
                        proof {
                            count = count + 1;
                        }
                    },
                    None => {
                        assert(param_writers(gp.params@, i + 1) =~= param_writers(gp.params@, i as int));
                    },
                }
                i += 1;
            }
        },
        None => {},
    }
    proof {
        reveal_strlit("f");
        reveal_strlit("opts");
        reveal_strlit("_opts");
        reveal_strlit("core");
        reveal_strlit("fmt");
        reveal_strlit("Write");
        reveal_strlit("write_str");
    }
    if !any {
        let mut out = ts_punct('|', false);
        ts_append(&mut out, word_tokens("f"));
        ts_append(&mut out, ts_punct(',', false));
        ts_append(&mut out, word_tokens("_opts"));
        ts_append(&mut out, ts_punct('|', false));
        let ghost a = seq![alone('|'), word("f"@), alone(','), word("_opts"@), alone('|')];
        assert(token_trees(out) =~= a);
        ts_append(&mut out, ts_punct(':', true));
        ts_append(&mut out, ts_punct(':', false));
        ts_append(&mut out, word_tokens("core"));
        let ghost b = a + path_sep() + seq![word("core"@)];
        assert(token_trees(out) =~= b);
        ts_append(&mut out, ts_punct(':', true));
        ts_append(&mut out, ts_punct(':', false));
        ts_append(&mut out, word_tokens("fmt"));
        let ghost c = b + path_sep() + seq![word("fmt"@)];
        assert(token_trees(out) =~= c);
        ts_append(&mut out, ts_punct(':', true));
        ts_append(&mut out, ts_punct(':', false));
        ts_append(&mut out, word_tokens("Write"));
        let ghost d = c + path_sep() + seq![word("Write"@)];
        assert(token_trees(out) =~= d);
        ts_append(&mut out, ts_punct(':', true));
        ts_append(&mut out, ts_punct(':', false));
        ts_append(&mut out, word_tokens("write_str"));
        let mut args = word_tokens("f");
        ts_append(&mut args, ts_punct(',', false));
        ts_append(&mut args, ts_str_literal(text.as_str()));
        assert(is_plain_text(ident_text(*name)) ==> token_trees(args) =~= seq![word("f"@), alone(','), lit(ident_text(*name))]);
        ts_append(&mut out, ts_group(Delim::Parenthesis, args));
        assert(writers.len() == 0);
        assert(is_plain_text(ident_text(*name)) ==> token_trees(out) =~= d + path_sep() + seq![
            word("write_str"@),
            TokenTreeView::Group(Delim::Parenthesis, seq![word("f"@), alone(','), lit(ident_text(*name))]),
        ]);
        return out;
    }
    proof {
        reveal_strlit("<");
        reveal_strlit(">");
        reveal_strlit("<\u{2026}>");
        assert(is_plain_text("<"@));
        assert(is_plain_text(">"@));
        assert(is_plain_text("<\u{2026}>"@));
    }
    let mut then_body = write_text_tokens("<");
    ts_append(&mut then_body, list);
    ts_append(&mut then_body, write_text_tokens(">"));
    let ghost then_trees = write_text_stmt("<"@) + separated_by(writers, sep, writers.len() as int) + write_text_stmt(">"@);
    assert(token_trees(then_body) =~= then_trees);
    let mut body = write_text_tokens(text.as_str());
    ts_append(&mut body, word_tokens("if"));
    ts_append(&mut body, word_tokens("let"));
    ts_append(&mut body, word_tokens("Some"));
    ts_append(&mut body, ts_group(Delim::Parenthesis, word_tokens("opts")));
    ts_append(&mut body, ts_punct('=', false));
    ts_append(&mut body, word_tokens("opts"));
    ts_append(&mut body, ts_punct('.', false));
    ts_append(&mut body, word_tokens("for_children"));
    ts_append(&mut body, ts_group(Delim::Parenthesis, ts_new()));
    ts_append(&mut body, ts_group(Delim::Brace, then_body));
    ts_append(&mut body, word_tokens("else"));
    let elided = write_text_tokens("<\u{2026}>");
    assert(token_trees(elided) == write_text_stmt(elided_generics()));
    ts_append(&mut body, ts_group(Delim::Brace, elided));
    ts_append(&mut body, word_tokens("Ok"));
    ts_append(&mut body, ts_group(Delim::Parenthesis, ts_group(Delim::Parenthesis, ts_new())));
    proof {
        reveal_strlit("if");
        reveal_strlit("let");
        reveal_strlit("Some");
        reveal_strlit("for_children");
        reveal_strlit("else");
        reveal_strlit("Ok");
    }
    let ghost body_trees = write_text_stmt(ident_text(*name)) + seq![
        word("if"@),
        word("let"@),
        word("Some"@),
        TokenTreeView::Group(Delim::Parenthesis, seq![word("opts"@)]),
        alone('='),
        word("opts"@),
        alone('.'),
        word("for_children"@),
        TokenTreeView::Group(Delim::Parenthesis, seq![]),
        TokenTreeView::Group(Delim::Brace, then_trees),
        word("else"@),
        TokenTreeView::Group(Delim::Brace, write_text_stmt(elided_generics())),
        word("Ok"@),
        TokenTreeView::Group(Delim::Parenthesis, seq![TokenTreeView::Group(Delim::Parenthesis, seq![])]),
    ];
    assert(is_plain_text(ident_text(*name)) ==> token_trees(body) =~= body_trees);
    let mut out = ts_punct('|', false);
    ts_append(&mut out, word_tokens("f"));
    ts_append(&mut out, ts_punct(',', false));
    ts_append(&mut out, word_tokens("opts"));
    ts_append(&mut out, ts_punct('|', false));
    ts_append(&mut out, ts_group(Delim::Brace, body));
    assert(is_plain_text(ident_text(*name)) ==> token_trees(out) =~= type_name_fn_trees(ident_text(*name), writers));
    out
}

} // verus!
