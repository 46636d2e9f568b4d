use tested_trait::annotate::{
    analyze, tested_trait, lower, AnnotateError, AttrSyntax, FnSyntax, ItemOut, ListArgs,
    MetaShape, ReturnShape, TestDecl, TestKind, TraitItemSyntax, TraitSyntax,
};
use tested_trait::template::{Delim, Payload, Tok};

fn attr(name: &str, meta: MetaShape) -> AttrSyntax {
    AttrSyntax { name: Some(name.to_string()), meta }
}

fn test_attr() -> AttrSyntax {
    attr("test", MetaShape::Path)
}

fn func(name: &str, attrs: Vec<AttrSyntax>, has_body: bool, output: ReturnShape) -> TraitItemSyntax {
    TraitItemSyntax::Fn(FnSyntax {
        name: name.to_string(),
        attrs,
        has_body,
        output,
        has_bounds: false,
    })
}

fn test_fn(name: &str) -> TraitItemSyntax {
    func(name, vec![test_attr()], true, ReturnShape::Absent)
}

fn trait_of(items: Vec<TraitItemSyntax>) -> TraitSyntax {
    TraitSyntax { has_args: false, is_trait: true, items }
}

/// Renders a template as text: code as written, payloads as `$Payload`.
fn text(toks: &[Tok]) -> String {
    let mut out = String::new();
    for t in toks {
        let piece = match t {
            Tok::Code(s) => s.clone(),
            Tok::Slot(p) => format!("${:?}", p),
            Tok::Open(Delim::Brace) => "{".to_string(),
            Tok::Open(Delim::Paren) => "(".to_string(),
            Tok::Close(Delim::Brace) => "}".to_string(),
            Tok::Close(Delim::Paren) => ")".to_string(),
        };
        if !out.is_empty() {
            out.push(' ');
        }
        out.push_str(&piece);
    }
    out
}

fn generated(out: &[ItemOut]) -> &Vec<Tok> {
    match out.last() {
        Some(ItemOut::Generated(g)) => g,
        _ => panic!("no generated method"),
    }
}

#[test]
fn valid_syntax() {
    // trait Foo { fn foo() -> bool; #[test] fn foo_is_true() { assert!(Self::foo()); } }
    let t = trait_of(vec![
        func("foo", vec![], false, ReturnShape::Other),
        test_fn("foo_is_true"),
    ]);
    assert!(tested_trait(&t).is_ok());
}

#[test]
fn tests_extracted_from_trait() {
    // trait Foo { fn foo(); #[test] fn test() {} fn bar() {} }
    let t = trait_of(vec![
        func("foo", vec![], false, ReturnShape::Absent),
        test_fn("test"),
        func("bar", vec![], true, ReturnShape::Absent),
    ]);
    let model = analyze(&t).unwrap();
    assert!(!model.kept.contains(&1));
    assert_eq!(
        [TestDecl { item: 1, kind: TestKind::Standard, has_bounds: false }].as_slice(),
        model.tests.as_slice()
    );
}

#[test]
fn test_simple() {
    // trait Foo { fn must_be_true(&self) -> bool;
    //             #[test] fn test_simple() where Self: Default { ... } }
    let t = trait_of(vec![
        func("must_be_true", vec![], false, ReturnShape::Other),
        TraitItemSyntax::Fn(FnSyntax {
            name: "test_simple".to_string(),
            attrs: vec![test_attr()],
            has_body: true,
            output: ReturnShape::Absent,
            has_bounds: true,
        }),
    ]);
    let out = tested_trait(&t).unwrap();
    assert_eq!(out.len(), 2);
    assert_eq!(out[0], ItemOut::Kept(0));
    let g = generated(&out);
    assert!(g.contains(&Tok::Slot(Payload::TestBounds(1))));
    assert!(g.contains(&Tok::Slot(Payload::TestName(1))));
    let s = text(g);
    assert!(s.starts_with(
        "#[doc(hidden)] fn __internal_tested_trait_test_all ( ) where Self: ::core::marker::Sized, $TestBounds(1) {"
    ));
    assert!(s.contains("let (): () = $TestBody(1) ;"));
}

#[test]
fn unwrap_none() {
    // #[test] #[should_panic] fn unwrap_none() { Self::NONE.unwrap(); }
    let t = trait_of(vec![
        TraitItemSyntax::Other,
        func("unwrap", vec![], false, ReturnShape::Other),
        func(
            "unwrap_none",
            vec![test_attr(), attr("should_panic", MetaShape::Path)],
            true,
            ReturnShape::Absent,
        ),
    ]);
    let model = analyze(&t).unwrap();
    assert_eq!(model.kept, vec![0, 1]);
    assert_eq!(model.tests[0].kind, TestKind::ShouldPanic { expected: None });
    let s = text(&lower(&model));
    assert!(s.contains("match ::std::panic::catch_unwind ( || $TestBody(2) )"));
    assert!(!s.contains("message.contains"));
}

#[test]
fn should_panic_doesnt_panic() {
    // #[test] #[should_panic] fn doesnt_panic() {}: the generated block fails
    // when the body returns normally.
    let t = trait_of(vec![func(
        "doesnt_panic",
        vec![test_attr(), attr("should_panic", MetaShape::Path)],
        true,
        ReturnShape::Absent,
    )]);
    let out = tested_trait(&t).unwrap();
    let s = text(generated(&out));
    assert!(s.contains("::core::result::Result::Ok(()) => { ::core::panic!(\"test did not panic as expected\") }"));
}

#[test]
fn standard_test_requires_unit_value() {
    let t = trait_of(vec![func("test", vec![test_attr()], true, ReturnShape::Tuple(0))]);
    let model = analyze(&t).unwrap();
    assert_eq!(model.tests[0].kind, TestKind::Standard);
    let s = text(&lower(&model));
    assert!(s.contains("{ let (): () = $TestBody(0) ; } ;"));
}

#[test]
fn result_test_unwraps_its_value() {
    let t = trait_of(vec![func("test", vec![test_attr()], true, ReturnShape::Other)]);
    let model = analyze(&t).unwrap();
    assert_eq!(model.tests[0].kind, TestKind::ReturnsResult);
    let s = text(&lower(&model));
    assert!(s.contains("{ let result: $TestOutput(0) = $TestBody(0) ; result.unwrap(); } ;"));
}

#[test]
fn should_panic_spellings_agree() {
    // #[should_panic = "ahhh"] and #[should_panic(expected = "ahhh")]
    let by_value = trait_of(vec![func(
        "t",
        vec![test_attr(), attr("should_panic", MetaShape::NameValue)],
        true,
        ReturnShape::Absent,
    )]);
    let by_list = trait_of(vec![func(
        "t",
        vec![
            test_attr(),
            attr("should_panic", MetaShape::List(ListArgs::NameValue(Some("expected".to_string())))),
        ],
        true,
        ReturnShape::Absent,
    )]);
    let a = analyze(&by_value).unwrap();
    let b = analyze(&by_list).unwrap();
    assert_eq!(a, b);
    assert_eq!(a.tests[0].kind, TestKind::ShouldPanic { expected: Some(1) });
    let s = text(&lower(&a));
    assert!(s.contains("message.contains ( $AttrValue(0, 1) )"));
    assert!(s.contains("expected panic with string value, found non-string value"));
}

#[test]
fn summary_counts_tests() {
    let one = analyze(&trait_of(vec![test_fn("a")])).unwrap();
    let s = text(&lower(&one));
    assert!(s.contains(
        "::std::println! ( \"running {} test{} for implementation of {}\", 1, \"\",  ::core::stringify! ( $TraitName ) ) ;"
    ));
    let three = analyze(&trait_of(vec![test_fn("a"), test_fn("b"), test_fn("c")])).unwrap();
    let s = text(&lower(&three));
    assert!(s.contains("\"running {} test{} for implementation of {}\", 3, \"s\", "));
    let none = analyze(&trait_of(vec![])).unwrap();
    let s = text(&lower(&none));
    assert!(s.contains("\"running {} test{} for implementation of {}\", 0, \"s\", "));
}

#[test]
fn run_blocks_follow_declaration_order() {
    let t = trait_of(vec![
        test_fn("first"),
        func("method", vec![], false, ReturnShape::Absent),
        test_fn("second"),
        test_fn("third"),
    ]);
    let out = tested_trait(&t).unwrap();
    assert_eq!(out[0], ItemOut::Kept(1));
    let g = generated(&out);
    let names: Vec<usize> = g
        .iter()
        .filter_map(|t| match t {
            Tok::Slot(Payload::TestName(i)) => Some(*i),
            _ => None,
        })
        .collect();
    assert_eq!(names, vec![0, 2, 3]);
}

#[test]
fn bounds_are_the_union_of_the_tests_bounds() {
    let bounded = |name: &str| {
        TraitItemSyntax::Fn(FnSyntax {
            name: name.to_string(),
            attrs: vec![test_attr()],
            has_body: true,
            output: ReturnShape::Absent,
            has_bounds: true,
        })
    };
    let t = trait_of(vec![bounded("a"), test_fn("b"), bounded("c")]);
    let s = text(&lower(&analyze(&t).unwrap()));
    assert!(s.contains("where Self: ::core::marker::Sized, $TestBounds(0) $TestBounds(2) {"));
}

#[test]
fn non_test_attributes_keep_the_item() {
    // #[test(x)] is not a bare test marker; #[inline] is unrelated.
    let t = trait_of(vec![
        func("a", vec![attr("test", MetaShape::List(ListArgs::Other))], true, ReturnShape::Absent),
        func("b", vec![attr("inline", MetaShape::Path)], true, ReturnShape::Absent),
    ]);
    let model = analyze(&t).unwrap();
    assert_eq!(model.kept, vec![0, 1]);
    assert!(model.tests.is_empty());
}

#[test]
fn duplicate_test_names_are_rejected() {
    let t = trait_of(vec![test_fn("same"), test_fn("other"), test_fn("same")]);
    let e = analyze(&t).unwrap_err();
    assert_eq!(e, AnnotateError::DuplicateTestName { first: 0, duplicate: 2 });
    assert_eq!(e.message(&t), "the test `same` is defined multiple times");
}

#[test]
fn unique_test_names_are_accepted() {
    let t = trait_of(vec![test_fn("a"), test_fn("b"), test_fn("c")]);
    assert_eq!(analyze(&t).unwrap().tests.len(), 3);
}

#[test]
fn arguments_are_rejected() {
    let t = TraitSyntax { has_args: true, is_trait: true, items: vec![] };
    let e = tested_trait(&t).unwrap_err();
    assert_eq!(e, AnnotateError::MalformedArguments);
    assert_eq!(e.message(&t), "#[tested_trait] takes no arguments");
}

#[test]
fn missing_body_is_rejected() {
    let t = trait_of(vec![func("t", vec![test_attr()], false, ReturnShape::Absent)]);
    assert_eq!(analyze(&t).unwrap_err(), AnnotateError::MissingTestBody { item: 0 });
}

#[test]
fn malformed_should_panic_is_rejected() {
    let t = trait_of(vec![func(
        "t",
        vec![test_attr(), attr("should_panic", MetaShape::List(ListArgs::NameValue(Some("msg".to_string()))))],
        true,
        ReturnShape::Absent,
    )]);
    assert_eq!(analyze(&t).unwrap_err(), AnnotateError::InvalidShouldPanic { item: 0 });
    let t = trait_of(vec![func(
        "t",
        vec![test_attr(), attr("should_panic", MetaShape::List(ListArgs::Other))],
        true,
        ReturnShape::Absent,
    )]);
    assert_eq!(analyze(&t).unwrap_err(), AnnotateError::InvalidShouldPanic { item: 0 });
}

#[test]
fn should_panic_returning_result_is_rejected() {
    let t = trait_of(vec![
        test_fn("fine"),
        func("t", vec![test_attr(), attr("should_panic", MetaShape::Path)], true, ReturnShape::Other),
    ]);
    let e = analyze(&t).unwrap_err();
    assert_eq!(e, AnnotateError::ConflictingTestKind { item: 1 });
    assert_eq!(e.message(&t), "#[should_panic] tests cannot return Result");
}

#[test]
fn malformed_test_reported_before_duplicates() {
    let t = trait_of(vec![
        test_fn("same"),
        test_fn("same"),
        func("t", vec![test_attr()], false, ReturnShape::Absent),
    ]);
    assert_eq!(analyze(&t).unwrap_err(), AnnotateError::MissingTestBody { item: 2 });
}

#[test]
fn non_empty_tuple_return_is_a_result_test() {
    let t = trait_of(vec![func("t", vec![test_attr()], true, ReturnShape::Tuple(2))]);
    assert_eq!(analyze(&t).unwrap().tests[0].kind, TestKind::ReturnsResult);
}

#[test]
fn arguments_reported_before_item_kind() {
    let t = TraitSyntax { has_args: true, is_trait: false, items: vec![] };
    assert_eq!(tested_trait(&t).unwrap_err(), AnnotateError::MalformedArguments);
    let t = TraitSyntax { has_args: false, is_trait: false, items: vec![] };
    let e = tested_trait(&t).unwrap_err();
    assert_eq!(e, AnnotateError::UnexpectedConstruct);
    assert_eq!(e.message(&t), "#[tested_trait] can only be used to annotate trait definitions");
}
