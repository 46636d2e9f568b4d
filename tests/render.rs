use std::str::FromStr;

use proc_macro2::TokenStream;
use tested_trait::annotate::{
    analyze, lower, AttrSyntax, FnSyntax, ListArgs, MetaShape, ReturnShape, TraitItemSyntax,
    TraitSyntax,
};
use tested_trait::instantiate::{test_impl, ImplSyntax};
use tested_trait::render::{check_template, render, RenderError};
use tested_trait::template::{Delim, Payload, Tok};

fn code(s: &str) -> Tok {
    Tok::Code(s.to_string())
}

fn ts(s: &str) -> TokenStream {
    TokenStream::from_str(s).unwrap()
}

fn payloads_for(toks: &[Tok], f: impl Fn(Payload) -> TokenStream) -> Vec<TokenStream> {
    toks.iter()
        .filter_map(|t| match t {
            Tok::Slot(p) => Some(f(*p)),
            _ => None,
        })
        .collect()
}

#[test]
fn render_nests_groups_and_splices_payloads() {
    let toks = vec![
        code("fn f"),
        Tok::Open(Delim::Paren),
        Tok::Close(Delim::Paren),
        Tok::Open(Delim::Brace),
        Tok::Slot(Payload::TestBody(0)),
        code(";"),
        Tok::Close(Delim::Brace),
    ];
    let out = render(&toks, vec![ts("1 + 2")]).unwrap();
    assert_eq!(out.to_string(), "fn f () { 1 + 2 ; }");
}

#[test]
fn render_rejects_unbalanced_templates() {
    let toks = vec![Tok::Open(Delim::Brace), Tok::Close(Delim::Paren)];
    assert_eq!(render(&toks, vec![]).err(), Some(RenderError::Unbalanced));
    let toks = vec![Tok::Open(Delim::Brace)];
    assert_eq!(check_template(&toks, 0), Err(RenderError::Unbalanced));
    let toks = vec![Tok::Close(Delim::Brace)];
    assert_eq!(check_template(&toks, 0), Err(RenderError::Unbalanced));
}

#[test]
fn render_rejects_missing_payloads() {
    let toks = vec![Tok::Slot(Payload::TraitName), Tok::Slot(Payload::TraitName)];
    assert_eq!(render(&toks, vec![ts("A")]).err(), Some(RenderError::MissingPayloads));
    assert_eq!(check_template(&toks, 2), Ok(()));
}

#[test]
fn render_reports_text_that_does_not_lex() {
    let toks = vec![code("a"), code("\"unterminated")];
    assert_eq!(render(&toks, vec![]).err(), Some(RenderError::Lex(1)));
}

#[test]
fn rendered_test_all_method_parses() {
    let test = |name: &str, attrs: Vec<AttrSyntax>, output: ReturnShape, has_bounds: bool| {
        let mut all = vec![AttrSyntax { name: Some("test".to_string()), meta: MetaShape::Path }];
        all.extend(attrs);
        TraitItemSyntax::Fn(FnSyntax { name: name.to_string(), attrs: all, has_body: true, output, has_bounds })
    };
    let t = TraitSyntax {
        has_args: false,
        is_trait: true,
        items: vec![
            test("standard", vec![], ReturnShape::Absent, true),
            test("result", vec![], ReturnShape::Other, false),
            test(
                "panics",
                vec![AttrSyntax {
                    name: Some("should_panic".to_string()),
                    meta: MetaShape::List(ListArgs::NameValue(Some("expected".to_string()))),
                }],
                ReturnShape::Absent,
                false,
            ),
        ],
    };
    let toks = lower(&analyze(&t).unwrap());
    let payloads = payloads_for(&toks, |p| match p {
        Payload::TraitName => ts("Foo"),
        Payload::TestName(0) => ts("standard"),
        Payload::TestName(1) => ts("result"),
        Payload::TestName(_) => ts("panics"),
        Payload::TestBody(2) => ts("{ panic!(\"ahhhhh\") }"),
        Payload::TestBody(_) => ts("{ Ok(()) }"),
        Payload::TestOutput(_) => ts("Result<(), String>"),
        Payload::TestBounds(_) => ts("Self: Default,"),
        Payload::AttrValue(..) => ts("\"ahhh\""),
        _ => TokenStream::new(),
    });
    let out = render(&toks, payloads).unwrap();
    let item: syn::TraitItemFn = syn::parse2(out.clone()).unwrap();
    assert_eq!(item.sig.ident.to_string(), "__internal_tested_trait_test_all");
    assert_eq!(item.sig.generics.where_clause.unwrap().predicates.len(), 2);
    assert!(item.default.is_some());
    let text = out.to_string();
    assert!(text.contains("message . contains (\"ahhh\")"));
    assert!(text.contains("let result : Result < () , String > = { Ok (()) } ;"));
}

#[test]
fn rendered_test_functions_parse() {
    let s = ImplSyntax {
        is_trait_impl: true,
        negative: false,
        generic: true,
        trait_name: "Wrapper".to_string(),
        attrs: vec![],
        instantiations: vec!["Wrapper".to_string(), "Wrapper".to_string()],
    };
    let mut counter: u64 = 0;
    let out = test_impl(&s, &mut counter).unwrap();
    let payloads = payloads_for(&out.tokens, |p| match p {
        Payload::ImplItem => ts("impl<T> Wrapper<T> for Option<T> {}"),
        Payload::Implementer(0) => ts("Option<u32>"),
        Payload::Implementer(_) => ts("Option<String>"),
        Payload::InterfacePath(0) => ts("Wrapper<u32>"),
        Payload::InterfacePath(_) => ts("Wrapper<String>"),
        _ => TokenStream::new(),
    });
    let rendered = render(&out.tokens, payloads).unwrap();
    let file: syn::File = syn::parse2(rendered).unwrap();
    assert_eq!(file.items.len(), 3);
    match &file.items[2] {
        syn::Item::Fn(f) => {
            assert_eq!(f.sig.ident.to_string(), "tested_trait_test_impl_Wrapper_1");
            assert_eq!(f.attrs.len(), 2);
        }
        _ => panic!("expected a function"),
    }
}

#[test]
fn render_keeps_template_order_and_nesting() {
    let toks = vec![
        Tok::Slot(Payload::TraitName),
        code("+"),
        Tok::Open(Delim::Brace),
        Tok::Open(Delim::Paren),
        Tok::Slot(Payload::TestName(0)),
        Tok::Close(Delim::Paren),
        code("x y"),
        Tok::Close(Delim::Brace),
        Tok::Slot(Payload::TestName(1)),
    ];
    let out = render(&toks, vec![ts("a"), ts("[b]"), ts("c d")]).unwrap();
    assert_eq!(out.to_string(), "a + { ([b]) x y } c d");
}
