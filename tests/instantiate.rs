use tested_trait::instantiate::{
    analyze, codegen, lower, test_impl, ImplSyntax, InstantiateError, Target,
};
use tested_trait::template::{Delim, Payload, Tok};

fn text(toks: &[Tok]) -> String {
    let mut out = String::new();
    for t in toks {
        let piece = match t {
            Tok::Code(s) => s.clone(),
            Tok::Slot(p) => format!("${:?}", p),
            Tok::Open(Delim::Brace) => "{".to_string(),
            Tok::Open(Delim::Paren) => "(".to_string(),
            Tok::Close(Delim::Brace) => "}".to_string(),
            Tok::Close(Delim::Paren) => ")".to_string(),
        };
        if !out.is_empty() {
            out.push(' ');
        }
        out.push_str(&piece);
    }
    out
}

fn impl_of(generic: bool, trait_name: &str, attrs: &[&str], list: &[&str]) -> ImplSyntax {
    ImplSyntax {
        is_trait_impl: true,
        negative: false,
        generic,
        trait_name: trait_name.to_string(),
        attrs: attrs.iter().map(|a| Some(a.to_string())).collect(),
        instantiations: list.iter().map(|t| t.to_string()).collect(),
    }
}

#[test]
fn concrete_impls() {
    // #[test_impl((): Foo, u32: Foo, String: Foo)] #[in_integration_test] impl<T> Foo for T {}
    let s = impl_of(true, "Foo", &["in_integration_test"], &["Foo", "Foo", "Foo"]);
    let mut counter: u64 = 0;
    let out = test_impl(&s, &mut counter).unwrap();
    assert_eq!(counter, 3);
    assert_eq!(out.opt_out, Some(0));
    let names: Vec<&str> = out.tests.iter().map(|t| t.name.as_str()).collect();
    assert_eq!(
        names,
        vec!["tested_trait_test_impl_Foo_0", "tested_trait_test_impl_Foo_1", "tested_trait_test_impl_Foo_2"]
    );
    let s = text(&out.tokens);
    assert!(!s.contains("#[test]"));
    assert!(s.ends_with(
        "tested_trait_test_impl_Foo_0 ( ) ; tested_trait_test_impl_Foo_1 ( ) ; tested_trait_test_impl_Foo_2 ( ) ;"
    ));
    assert!(s.contains(
        "#[doc(hidden)] fn tested_trait_test_impl_Foo_1 ( ) { < $Implementer(1) as $InterfacePath(1) >:: __internal_tested_trait_test_all ( ) }"
    ));
}

#[test]
fn concrete_impl_tests_itself() {
    let s = impl_of(false, "Foo", &[], &[]);
    let mut counter: u64 = 41;
    let out = test_impl(&s, &mut counter).unwrap();
    assert_eq!(counter, 42);
    assert_eq!(out.tests.len(), 1);
    assert_eq!(out.tests[0].target, Target::Implied);
    assert_eq!(out.tests[0].name, "tested_trait_test_impl_Foo_41");
    assert_eq!(out.opt_out, None);
    assert_eq!(
        text(&out.tokens),
        "$ImplItem #[test] #[doc(hidden)] fn tested_trait_test_impl_Foo_41 ( ) { < $SelfType as $ImplTrait >:: __internal_tested_trait_test_all ( ) }"
    );
}

#[test]
fn concrete_impl_with_list_is_rejected() {
    let s = impl_of(false, "Foo", &[], &["Foo"]);
    let mut counter: u64 = 5;
    let e = test_impl(&s, &mut counter).err().unwrap();
    assert_eq!(e, InstantiateError::UnexpectedConcreteList);
    assert_eq!(counter, 5);
    assert_eq!(
        e.message("u32", "Foo"),
        "#[test_impl] on a non-generic impl does not support specifying concrete implementations"
    );
}

#[test]
fn generic_impl_without_list_is_rejected() {
    let s = impl_of(true, "Wrapper", &[], &[]);
    let e = analyze(&s).err().unwrap();
    assert_eq!(e, InstantiateError::MissingInstantiations);
    assert_eq!(
        e.message("Option < T >", "Wrapper < T >"),
        "#[test_impl] on a generic impl requires specifying concrete implementations with #[test_impl(Option < T >: Wrapper < T >)]"
    );
    assert_eq!(
        e.note().unwrap(),
        "associated tests for this generic implementation can only be instantiated for concrete types"
    );
}

#[test]
fn generic_impl_with_two_instantiations() {
    // (u32: Foo), (String: Foo)
    let s = impl_of(true, "Foo", &[], &["Foo", "Foo"]);
    let m = analyze(&s).unwrap();
    assert_eq!(m.targets, vec![Target::Explicit(0), Target::Explicit(1)]);
    let mut counter: u64 = 0;
    let tests = lower(&s, &m, &mut counter);
    assert_eq!(tests.len(), 2);
    let toks = codegen(&m, &tests);
    assert_eq!(toks.iter().filter(|t| **t == Tok::Code("#[test]".to_string())).count(), 2);
}

#[test]
fn negative_impl_is_rejected() {
    let mut s = impl_of(false, "Foo", &[], &[]);
    s.negative = true;
    assert_eq!(analyze(&s).err().unwrap(), InstantiateError::UnsupportedNegativeImpl);
}

#[test]
fn inherent_impl_is_rejected() {
    let mut s = impl_of(false, "Foo", &[], &[]);
    s.is_trait_impl = false;
    let e = analyze(&s).err().unwrap();
    assert_eq!(e, InstantiateError::UnexpectedConstruct);
    assert_eq!(e.note(), None);
}

#[test]
fn opt_out_marker_found_among_attributes() {
    let s = impl_of(false, "Foo", &["allow", "in_integration_test", "in_integration_test"], &[]);
    let m = analyze(&s).unwrap();
    assert_eq!(m.opt_out, Some(1));
}

#[test]
fn same_trait_name_expansions_get_distinct_names() {
    // Two traits named `Foo` in different modules, expanded one after the other.
    let a = impl_of(false, "Foo", &[], &[]);
    let b = impl_of(true, "Foo", &[], &["Foo"]);
    let mut counter: u64 = 9;
    let first = test_impl(&a, &mut counter).unwrap();
    let second = test_impl(&b, &mut counter).unwrap();
    assert_eq!(first.tests[0].name, "tested_trait_test_impl_Foo_9");
    assert_eq!(second.tests[0].name, "tested_trait_test_impl_Foo_10");
    assert_ne!(first.tests[0].name, second.tests[0].name);
    assert_eq!(second.tests[0].target, Target::Explicit(0));
    assert!(second.tokens.contains(&Tok::Slot(Payload::Implementer(0))));
}
