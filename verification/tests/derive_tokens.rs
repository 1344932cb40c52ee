use facet_formats::derive_tokens::{
    build_type_params, build_where_clauses, generate_type_name_fn, WhereClauses,
};
use facet_formats::generics::{GenericParam, GenericParams};
use proc_macro2::{Ident, Span, TokenStream};

fn ts(s: &str) -> TokenStream {
    s.parse().unwrap()
}

fn ident(s: &str) -> Ident {
    Ident::new(s, Span::call_site())
}

fn lifetime(name: &str) -> GenericParam {
    GenericParam::Lifetime { name: ident(name), bounds: None }
}

fn type_param(name: &str) -> GenericParam {
    GenericParam::Type { name: ident(name), bounds: None, default: None }
}

fn const_param(name: &str) -> GenericParam {
    GenericParam::Const { name: ident(name), typ: ts("usize"), default: None }
}

fn text(t: TokenStream) -> String {
    t.to_string()
}

#[test]
fn where_clause_is_empty_without_generics_or_clauses() {
    assert!(build_where_clauses(None, None).is_empty());
    let g = GenericParams { params: vec![const_param("N")] };
    assert!(build_where_clauses(None, Some(&g)).is_empty());
    let w = WhereClauses { clauses: vec![] };
    assert!(build_where_clauses(Some(&w), None).is_empty());
}

#[test]
fn where_clause_bounds_lifetimes_both_ways_and_types_by_facet() {
    let g = GenericParams { params: vec![lifetime("a"), type_param("T"), const_param("N")] };
    assert_eq!(
        text(build_where_clauses(None, Some(&g))),
        "where 'a : '__facet , '__facet : 'a , T : :: facet :: Facet < '__facet >"
    );
}

#[test]
fn where_clause_keeps_declared_clauses_first() {
    let w = WhereClauses { clauses: vec![ts("T: Clone"), ts("U: Default")] };
    let g = GenericParams { params: vec![type_param("T")] };
    assert_eq!(
        text(build_where_clauses(Some(&w), Some(&g))),
        "where T : Clone , U : Default , T : :: facet :: Facet < '__facet >"
    );
    assert_eq!(text(build_where_clauses(Some(&w), None)), "where T : Clone , U : Default");
}

#[test]
fn type_params_list_only_type_parameters() {
    assert!(build_type_params(None).is_empty());
    let only_lifetimes = GenericParams { params: vec![lifetime("a"), const_param("N")] };
    assert!(build_type_params(Some(&only_lifetimes)).is_empty());
    let g = GenericParams { params: vec![lifetime("a"), type_param("T"), type_param("U")] };
    assert_eq!(
        text(build_type_params(Some(&g))),
        ". type_params (& [:: facet :: TypeParam { name : \"T\" , shape : || < T as :: facet :: Facet > :: SHAPE } , \
         :: facet :: TypeParam { name : \"U\" , shape : || < U as :: facet :: Facet > :: SHAPE }])"
    );
}

#[test]
fn type_name_without_parameters_writes_the_name() {
    let simple = "| f , _opts | :: core :: fmt :: Write :: write_str (f , \"Foo\")";
    assert_eq!(text(generate_type_name_fn(&ident("Foo"), None)), simple);
    let only_lifetimes = GenericParams { params: vec![lifetime("a")] };
    assert_eq!(text(generate_type_name_fn(&ident("Foo"), Some(&only_lifetimes))), simple);
}

#[test]
fn type_name_writes_type_and_const_parameters() {
    let g = GenericParams { params: vec![lifetime("a"), type_param("T"), const_param("N")] };
    assert_eq!(
        text(generate_type_name_fn(&ident("Foo"), Some(&g))),
        "| f , opts | { write ! (f , \"Foo\") ? ; \
         if let Some (opts) = opts . for_children () { \
         write ! (f , \"<\") ? ; \
         < T as :: facet :: Facet > :: SHAPE . vtable . type_name () (f , opts) ? ; \
         write ! (f , \", \") ? ; \
         write ! (f , \"{:?}\" , N) ? ; \
         write ! (f , \">\") ? ; } \
         else { write ! (f , \"<\u{2026}>\") ? ; } Ok (()) }"
    );
}
