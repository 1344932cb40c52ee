use facet_formats::generics::{
    BoundedGenericParam, BoundedGenericParams, GenericParam, GenericParamName, GenericParams,
    LifetimeName,
};
use proc_macro2::{Ident, Span, TokenStream};

fn ts(s: &str) -> TokenStream {
    s.parse().unwrap()
}

fn ident(s: &str) -> Ident {
    Ident::new(s, Span::call_site())
}

fn lifetime(name: &str, bounds: Option<&str>) -> BoundedGenericParam {
    BoundedGenericParam {
        param: GenericParamName::Lifetime(LifetimeName(ident(name))),
        bounds: bounds.map(ts),
    }
}

fn type_param(name: &str, bounds: Option<&str>) -> BoundedGenericParam {
    BoundedGenericParam { param: GenericParamName::Type(ts(name)), bounds: bounds.map(ts) }
}

fn const_param(name: &str, bounds: Option<&str>) -> BoundedGenericParam {
    BoundedGenericParam { param: GenericParamName::Const(ts(name)), bounds: bounds.map(ts) }
}

#[test]
fn test_empty_generic_params() {
    let p = BoundedGenericParams { params: vec![] };
    assert_eq!(p.display_with_bounds().to_token_stream().to_string(), "");
    assert_eq!(p.display_without_bounds().to_token_stream().to_string(), "");
}

#[test]
fn print_multiple_generic_params() {
    let p = BoundedGenericParams {
        params: vec![
            lifetime("a", Some("'static")),
            type_param("T", Some("Clone + Debug")),
            type_param("U", None),
            const_param("N", Some("usize")),
        ],
    };
    assert_eq!(
        p.display_with_bounds().to_token_stream().to_string(),
        "< 'a : 'static , T : Clone + Debug , U , const N : usize >"
    );
    assert_eq!(p.display_without_bounds().to_token_stream().to_string(), "< 'a , T , U , N >");
}

#[test]
fn test_add_mixed_parameters() {
    let mut params = BoundedGenericParams { params: vec![] };
    params = params.with(type_param("T", None));
    params = params.with(const_param("N", Some("usize")));
    params = params.with(lifetime("a", None));
    params = params.with(type_param("U", Some("Clone")));
    params = params.with(lifetime("b", Some("'static")));
    params = params.with(const_param("M", Some("u8")));

    assert_eq!(
        params.display_without_bounds().to_token_stream().to_string(),
        "< 'a , 'b , T , U , N , M >"
    );
    assert_eq!(
        params.display_with_bounds().to_token_stream().to_string(),
        "< 'a , 'b : 'static , T , U : Clone , const N : usize , const M : u8 >"
    );
}

#[test]
fn test_phantom_data_formatting() {
    let empty = BoundedGenericParams { params: vec![] };
    assert_eq!(
        empty.display_as_phantom_data().to_token_stream().to_string(),
        ":: core :: marker :: PhantomData < (()) >"
    );

    let lifetime_only = BoundedGenericParams { params: vec![lifetime("a", None)] };
    assert_eq!(
        lifetime_only.display_as_phantom_data().to_token_stream().to_string(),
        ":: core :: marker :: PhantomData < (* mut & 'a ()) >"
    );

    let type_only = BoundedGenericParams { params: vec![type_param("T", None)] };
    assert_eq!(
        type_only.display_as_phantom_data().to_token_stream().to_string(),
        ":: core :: marker :: PhantomData < (T) >"
    );

    let const_only = BoundedGenericParams { params: vec![const_param("N", None)] };
    assert_eq!(
        const_only.display_as_phantom_data().to_token_stream().to_string(),
        ":: core :: marker :: PhantomData < ([u32 ; N]) >"
    );

    let mixed = BoundedGenericParams {
        params: vec![
            lifetime("a", None),
            type_param("T", Some("Clone")),
            const_param("N", Some("usize")),
        ],
    };
    assert_eq!(
        mixed.as_phantom_data().to_token_stream().to_string(),
        ":: core :: marker :: PhantomData < (* mut & 'a () , T , [u32 ; N]) >"
    );
}

#[test]
fn with_lifetime_and_type_go_where_their_kind_goes() {
    let p = BoundedGenericParams { params: vec![type_param("T", None), const_param("N", Some("usize"))] };
    let p = p.with_lifetime(LifetimeName(ident("f")));
    let p = p.with_type(ts("S"));
    assert_eq!(p.display_without_bounds().to_token_stream().to_string(), "< 'f , T , S , N >");
}

#[test]
fn parse_keeps_order_bounds_and_drops_defaults() {
    assert!(BoundedGenericParams::parse(None).params.is_empty());

    let declared = GenericParams {
        params: vec![
            GenericParam::Type { name: ident("T"), bounds: Some(ts("Clone")), default: Some(ts("u8")) },
            GenericParam::Lifetime { name: ident("a"), bounds: None },
            GenericParam::Const { name: ident("N"), typ: ts("usize"), default: Some(ts("3")) },
            GenericParam::Type { name: ident("U"), bounds: None, default: None },
        ],
    };
    let p = BoundedGenericParams::parse(Some(&declared));
    assert_eq!(
        p.display_with_bounds().to_token_stream().to_string(),
        "< T : Clone , 'a , const N : usize , U >"
    );
    assert_eq!(p.display_without_bounds().to_token_stream().to_string(), "< T , 'a , N , U >");
}
