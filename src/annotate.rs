//! The interface annotator: extracts the `#[test]` functions embedded in a
//! trait definition and synthesizes the hidden method that runs them all.
use vstd::prelude::*;
use crate::names::{decimal, push_decimal, TEST_ALL_FN};
use crate::render::{
    balanced, lemma_nesting_concat, lemma_neutral_balanced, lemma_neutral_concat,
    lemma_neutral_empty, nesting_from, neutral,
};
use crate::template::{
    code, push_close, push_code, push_open, push_slot, push_string, views, Delim, Payload, Tok,
    TokV,
};

verus! {

/// The shape of an attribute's argument list.
#[derive(Clone, Debug)]
pub enum ListArgs {
    /// The list parses as a single `key = value`; the key's identifier when
    /// the key is a single identifier.
    NameValue(Option<String>),
    /// Anything else.
    Other,
}

/// The shape of an attribute.
#[derive(Clone, Debug)]
pub enum MetaShape {
    /// `#[name]`
    Path,
    /// `#[name = value]`
    NameValue,
    /// `#[name(...)]`
    List(ListArgs),
}

/// One attribute of a trait function.
#[derive(Clone, Debug)]
pub struct AttrSyntax {
    /// The attribute's identifier when its path is a single identifier.
    pub name: Option<String>,
    pub meta: MetaShape,
}

/// The declared return type of a trait function.
#[derive(Clone, Copy, PartialEq, Eq, Structural, Debug)]
pub enum ReturnShape {
    /// No `->` clause.
    Absent,
    /// A tuple type with this many elements; `-> ()` has none.
    Tuple(usize),
    /// Any other type.
    Other,
}

/// What the analysis reads of a function declared in a trait.
#[derive(Clone, Debug)]
pub struct FnSyntax {
    pub name: String,
    pub attrs: Vec<AttrSyntax>,
    /// The function has a default body.
    pub has_body: bool,
    pub output: ReturnShape,
    /// The function's signature has a `where` clause.
    pub has_bounds: bool,
}

/// One item of a trait definition.
#[derive(Clone, Debug)]
pub enum TraitItemSyntax {
    Fn(FnSyntax),
    /// A constant, type, macro or other item, carried through unchanged.
    Other,
}

/// What the analysis reads of an annotated trait definition.
#[derive(Clone, Debug)]
pub struct TraitSyntax {
    /// The attribute was given arguments.
    pub has_args: bool,
    /// The annotated item is a trait definition; when it is not, `items` is
    /// not read.
    pub is_trait: bool,
    pub items: Vec<TraitItemSyntax>,
}

/// How an associated test is run.
#[derive(Clone, Copy, PartialEq, Eq, Structural, Debug)]
pub enum TestKind {
    /// The body must complete with `()`.
    Standard,
    /// The body's value is a result that must be the success variant.
    ReturnsResult,
    /// The body must panic; when `expected` names an attribute, the panic
    /// message must contain that attribute's value.
    ShouldPanic { expected: Option<usize> },
}

/// One associated test: the trait item it came from and how it runs.
#[derive(Clone, Copy, PartialEq, Eq, Structural, Debug)]
pub struct TestDecl {
    pub item: usize,
    pub kind: TestKind,
    /// The test adds `where` predicates to the generated method.
    pub has_bounds: bool,
}

/// An analysed trait: the items that stay, and the tests, in trait order.
#[derive(Clone, Debug, PartialEq, Eq)]
pub struct TraitModel {
    pub kept: Vec<usize>,
    pub tests: Vec<TestDecl>,
}

/// Why a trait definition cannot be annotated. Item indices refer to the
/// trait's items.
#[derive(Clone, Copy, PartialEq, Eq, Structural, Debug)]
pub enum AnnotateError {
    /// The annotated item is not a trait definition.
    UnexpectedConstruct,
    /// The attribute was given arguments.
    MalformedArguments,
    /// A test function has no body.
    MissingTestBody { item: usize },
    /// A test's `#[should_panic]` attribute has an argument list other than
    /// `(expected = ...)`.
    InvalidShouldPanic { item: usize },
    /// A test both returns a value and is expected to panic.
    ConflictingTestKind { item: usize },
    /// Two tests share a name.
    DuplicateTestName { first: usize, duplicate: usize },
}

/// The index of the first attribute whose path is the identifier `name`.
pub open spec fn first_attr(attrs: Seq<AttrSyntax>, name: Seq<char>) -> Option<int>
    decreases attrs.len(),
{
    if attrs.len() == 0 {
        None
    } else {
        match first_attr(attrs.drop_last(), name) {
            Some(i) => Some(i),
            None => if attrs.last().name matches Some(n) && n@ == name {
                Some(attrs.len() - 1)
            } else {
                None
            },
        }
    }
}

/// A function is a test when its first `test` attribute is a bare path.
pub open spec fn is_test_fn(f: FnSyntax) -> bool {
    match first_attr(f.attrs@, "test"@) {
        Some(i) => f.attrs@[i].meta is Path,
        None => false,
    }
}

pub open spec fn is_test_item(it: TraitItemSyntax) -> bool {
    match it {
        TraitItemSyntax::Fn(f) => is_test_fn(f),
        TraitItemSyntax::Other => false,
    }
}

/// The `#[should_panic]` marker of a function: `None` when absent;
/// otherwise the attribute that holds the expected substring, if any, or
/// `Err` when the marker's arguments are malformed.
pub open spec fn panic_marker(f: FnSyntax) -> Option<Result<Option<usize>, ()>> {
    match first_attr(f.attrs@, "should_panic"@) {
        None => None,
        Some(a) => Some(
            match f.attrs@[a].meta {
                MetaShape::Path => Ok(None),
                MetaShape::NameValue => Ok(Some(a as usize)),
                MetaShape::List(ListArgs::NameValue(Some(k))) => if k@ == "expected"@ {
                    Ok(Some(a as usize))
                } else {
                    Err(())
                },
                MetaShape::List(_) => Err(()),
            },
        ),
    }
}

/// The test declares a value other than `()`, taken to be a result.
pub open spec fn returns_result(f: FnSyntax) -> bool {
    match f.output {
        ReturnShape::Absent => false,
        ReturnShape::Tuple(n) => n != 0,
        ReturnShape::Other => true,
    }
}

fn returns_value(f: &FnSyntax) -> (r: bool)
    ensures
        r == returns_result(*f),
{
    match f.output {
        ReturnShape::Absent => false,
        ReturnShape::Tuple(n) => n != 0,
        ReturnShape::Other => true,
    }
}

/// The error that the test function `f`, at item index `i`, raises, if any.
pub open spec fn test_error(i: int, f: FnSyntax) -> Option<AnnotateError> {
    if !f.has_body {
        Some(AnnotateError::MissingTestBody { item: i as usize })
    } else if panic_marker(f) matches Some(Err(_)) {
        Some(AnnotateError::InvalidShouldPanic { item: i as usize })
    } else if returns_result(f) && panic_marker(f) is Some {
        Some(AnnotateError::ConflictingTestKind { item: i as usize })
    } else {
        None
    }
}

pub open spec fn test_kind(f: FnSyntax) -> TestKind {
    match panic_marker(f) {
        Some(Ok(e)) => TestKind::ShouldPanic { expected: e },
        _ => if returns_result(f) {
            TestKind::ReturnsResult
        } else {
            TestKind::Standard
        },
    }
}

pub open spec fn test_decl(i: int, f: FnSyntax) -> TestDecl {
    TestDecl { item: i as usize, kind: test_kind(f), has_bounds: f.has_bounds }
}

/// Indices of the first `n` items that are not tests, in order.
pub open spec fn kept_prefix(items: Seq<TraitItemSyntax>, n: int) -> Seq<usize>
    decreases n,
{
    if n <= 0 {
        seq![]
    } else if is_test_item(items[n - 1]) {
        kept_prefix(items, n - 1)
    } else {
        kept_prefix(items, n - 1).push((n - 1) as usize)
    }
}

/// The tests among the first `n` items, in order.
pub open spec fn tests_prefix(items: Seq<TraitItemSyntax>, n: int) -> Seq<TestDecl>
    decreases n,
{
    if n <= 0 {
        seq![]
    } else if is_test_item(items[n - 1]) {
        tests_prefix(items, n - 1).push(test_decl(n - 1, items[n - 1]->Fn_0))
    } else {
        tests_prefix(items, n - 1)
    }
}

/// The first error raised by a test among the first `n` items.
pub open spec fn first_test_error(items: Seq<TraitItemSyntax>, n: int) -> Option<AnnotateError>
    decreases n,
{
    if n <= 0 {
        None
    } else {
        match first_test_error(items, n - 1) {
            Some(e) => Some(e),
            None => if is_test_item(items[n - 1]) {
                test_error(n - 1, items[n - 1]->Fn_0)
            } else {
                None
            },
        }
    }
}

pub open spec fn test_name(items: Seq<TraitItemSyntax>, t: TestDecl) -> Seq<char> {
    items[t.item as int]->Fn_0.name@
}

/// The index of the first of `tests[0..j]` named like `tests[j]`.
pub open spec fn earlier_same_name(items: Seq<TraitItemSyntax>, tests: Seq<TestDecl>, j: int, k: int) -> Option<int>
    decreases k,
{
    if k <= 0 {
        None
    } else {
        match earlier_same_name(items, tests, j, k - 1) {
            Some(i) => Some(i),
            None => if test_name(items, tests[k - 1]) == test_name(items, tests[j]) {
                Some(k - 1)
            } else {
                None
            },
        }
    }
}

/// The first pair `(i, j)`, with `j` least, of tests among `tests[0..n]` that
/// share a name, `i` being the first test of that name.
pub open spec fn first_duplicate(items: Seq<TraitItemSyntax>, tests: Seq<TestDecl>, n: int) -> Option<(int, int)>
    decreases n,
{
    if n <= 0 {
        None
    } else {
        match first_duplicate(items, tests, n - 1) {
            Some(p) => Some(p),
            None => match earlier_same_name(items, tests, n - 1, n - 1) {
                Some(i) => Some((i, n - 1)),
                None => None,
            },
        }
    }
}

/// The outcome of analysing a trait: `Ok((kept, tests))` or the error.
pub open spec fn analysis(t: TraitSyntax) -> Result<(Seq<usize>, Seq<TestDecl>), AnnotateError> {
    let items = t.items@;
    let n = items.len() as int;
    let tests = tests_prefix(items, n);
    if t.has_args {
        Err(AnnotateError::MalformedArguments)
    } else if !t.is_trait {
        Err(AnnotateError::UnexpectedConstruct)
    } else {
        match first_test_error(items, n) {
            Some(e) => Err(e),
            None => match first_duplicate(items, tests, tests.len() as int) {
                Some((i, j)) => Err(
                    AnnotateError::DuplicateTestName { first: tests[i].item, duplicate: tests[j].item },
                ),
                None => Ok((kept_prefix(items, n), tests)),
            },
        }
    }
}

proof fn lemma_first_attr_prefix(s: Seq<AttrSyntax>, name: Seq<char>, k: int)
    requires
        0 <= k <= s.len(),
        first_attr(s.take(k), name) is Some,
    ensures
        first_attr(s, name) == first_attr(s.take(k), name),
    decreases s.len(),
{
    if k < s.len() {
        assert(s.drop_last().take(k) =~= s.take(k));
        lemma_first_attr_prefix(s.drop_last(), name, k);
    } else {
        assert(s.take(k) =~= s);
    }
}

/// Finds the first attribute whose path is the identifier `name`.
fn find_attr(attrs: &Vec<AttrSyntax>, name: &str) -> (r: Option<usize>)
    ensures
        match r {
            Some(i) => i < attrs@.len() && first_attr(attrs@, name@) == Some(i as int),
            None => first_attr(attrs@, name@) is None,
        },
{
    let wanted = String::from_str(name);
    let mut i: usize = 0;
    while i < attrs.len()
        invariant
            i <= attrs@.len(),
            wanted@ == name@,
            first_attr(attrs@.take(i as int), name@) is None,
        decreases attrs@.len() - i,
    {
        assert(attrs@.take(i + 1).drop_last() =~= attrs@.take(i as int));
        let hit = match &attrs[i].name {
            Some(n) => *n == wanted,
            None => false,
        };
        if hit {
            proof { lemma_first_attr_prefix(attrs@, name@, i + 1); }
            return Some(i);
        }
        i = i + 1;
    }
    assert(attrs@.take(i as int) =~= attrs@);
    None
}

fn is_test(f: &FnSyntax) -> (r: bool)
    ensures
        r == is_test_fn(*f),
{
    match find_attr(&f.attrs, "test") {
        Some(i) => matches!(f.attrs[i].meta, MetaShape::Path),
        None => false,
    }
}

fn find_panic_marker(f: &FnSyntax) -> (r: Option<Result<Option<usize>, ()>>)
    ensures
        r == panic_marker(*f),
{
    match find_attr(&f.attrs, "should_panic") {
        None => None,
        Some(a) => Some(
            match &f.attrs[a].meta {
                MetaShape::Path => Ok(None),
                MetaShape::NameValue => Ok(Some(a)),
                MetaShape::List(ListArgs::NameValue(Some(k))) => {
                    if *k == String::from_str("expected") {
                        Ok(Some(a))
                    } else {
                        Err(())
                    }
                },
                MetaShape::List(_) => Err(()),
            },
        ),
    }
}

proof fn lemma_first_test_error_stays(items: Seq<TraitItemSyntax>, k: int, m: int)
    requires
        k <= m,
        first_test_error(items, k) is Some,
    ensures
        first_test_error(items, m) == first_test_error(items, k),
    decreases m - k,
{
    if k < m {
        lemma_first_test_error_stays(items, k, m - 1);
    }
}

proof fn lemma_earlier_same_name_stays(
    items: Seq<TraitItemSyntax>,
    tests: Seq<TestDecl>,
    j: int,
    k: int,
    m: int,
)
    requires
        k <= m,
        earlier_same_name(items, tests, j, k) is Some,
    ensures
        earlier_same_name(items, tests, j, m) == earlier_same_name(items, tests, j, k),
    decreases m - k,
{
    if k < m {
        lemma_earlier_same_name_stays(items, tests, j, k, m - 1);
    }
}

proof fn lemma_first_duplicate_stays(
    items: Seq<TraitItemSyntax>,
    tests: Seq<TestDecl>,
    k: int,
    m: int,
)
    requires
        k <= m,
        first_duplicate(items, tests, k) is Some,
    ensures
        first_duplicate(items, tests, m) == first_duplicate(items, tests, k),
    decreases m - k,
{
    if k < m {
        lemma_first_duplicate_stays(items, tests, k, m - 1);
    }
}

/// Analyses a trait definition: separates its tests from the items that
/// stay, classifies each test, and rejects malformed or duplicate tests.
pub fn analyze(t: &TraitSyntax) -> (r: Result<TraitModel, AnnotateError>)
    ensures
        match analysis(*t) {
            Ok((kept, tests)) => r matches Ok(m) && m.kept@ == kept && m.tests@ == tests,
            Err(e) => r == Err::<TraitModel, AnnotateError>(e),
        },
{
    if t.has_args {
        return Err(AnnotateError::MalformedArguments);
    }
    if !t.is_trait {
        return Err(AnnotateError::UnexpectedConstruct);
    }
    let ghost items = t.items@;
    let n = t.items.len();
    let mut kept: Vec<usize> = Vec::new();
    let mut tests: Vec<TestDecl> = Vec::new();
    let mut names: Vec<String> = Vec::new();
    let mut i: usize = 0;
    while i < n
        invariant
            n == items.len(),
            items == t.items@,
            !t.has_args,
            t.is_trait,
            i <= n,
            kept@ == kept_prefix(items, i as int),
            tests@ == tests_prefix(items, i as int),
            first_test_error(items, i as int) is None,
            names@.len() == tests@.len(),
            forall|x: int| 0 <= x < names@.len() ==> #[trigger] names@[x]@ == test_name(items, tests@[x]),
        decreases n - i,
    {
        match &t.items[i] {
            TraitItemSyntax::Fn(f) if is_test(f) => {
                assert(items[i as int] == TraitItemSyntax::Fn(*f));
                let marker = find_panic_marker(f);
                if !f.has_body {
                    assert(first_test_error(items, i + 1) == Some(AnnotateError::MissingTestBody { item: i }));
                    proof { lemma_first_test_error_stays(items, i + 1, n as int); }
                    return Err(AnnotateError::MissingTestBody { item: i });
                }
                let kind = match marker {
                    Some(Err(())) => {
                        proof { lemma_first_test_error_stays(items, i + 1, n as int); }
                        return Err(AnnotateError::InvalidShouldPanic { item: i });
                    },
                    Some(Ok(expected)) => {
                        if returns_value(f) {
                            proof { lemma_first_test_error_stays(items, i + 1, n as int); }
                            return Err(AnnotateError::ConflictingTestKind { item: i });
                        }
                        TestKind::ShouldPanic { expected }
                    },
                    None => if returns_value(f) {
                        TestKind::ReturnsResult
                    } else {
                        TestKind::Standard
                    },
                };
                tests.push(TestDecl { item: i, kind, has_bounds: f.has_bounds });
                names.push(f.name.clone());
            },
            _ => {
                kept.push(i);
            },
        }
        i = i + 1;
    }
    let nt = tests.len();
    let mut j: usize = 0;
    while j < nt
        invariant
            nt == tests@.len(),
            !t.has_args,
            t.is_trait,
            items == t.items@,
            n == items.len(),
            first_test_error(items, n as int) is None,
            tests@ == tests_prefix(items, n as int),
            names@.len() == nt,
            forall|x: int| 0 <= x < names@.len() ==> #[trigger] names@[x]@ == test_name(items, tests@[x]),
            j <= nt,
            first_duplicate(items, tests@, j as int) is None,
        decreases nt - j,
    {
        let mut k: usize = 0;
        while k < j
            invariant
                nt == tests@.len(),
                !t.has_args,
                t.is_trait,
                items == t.items@,
                n == items.len(),
                first_test_error(items, n as int) is None,
                tests@ == tests_prefix(items, n as int),
                first_duplicate(items, tests@, j as int) is None,
                names@.len() == nt,
                forall|x: int| 0 <= x < names@.len() ==> #[trigger] names@[x]@ == test_name(items, tests@[x]),
                j < nt,
                k <= j,
                earlier_same_name(items, tests@, j as int, k as int) is None,
            decreases j - k,
        {
            if names[k] == names[j] {
                proof {
                    assert(names@[k as int]@ == test_name(items, tests@[k as int]));
                    assert(names@[j as int]@ == test_name(items, tests@[j as int]));
                    lemma_earlier_same_name_stays(items, tests@, j as int, k + 1, j as int);
                    lemma_first_duplicate_stays(items, tests@, j + 1, nt as int);
                }
                return Err(AnnotateError::DuplicateTestName { first: tests[k].item, duplicate: tests[j].item });
            }
            proof {
                assert(names@[k as int]@ == test_name(items, tests@[k as int]));
                assert(names@[j as int]@ == test_name(items, tests@[j as int]));
            }
            k = k + 1;
        }
        j = j + 1;
    }
    Ok(TraitModel { kept, tests })
}

/// The line printed before a test runs, naming the trait and the test.
pub open spec fn progress_line(item: usize) -> Seq<TokV> {
    seq![
        code("::std::println!"),
        TokV::Open(Delim::Paren),
        code("\"test {}::{}\", ::core::stringify!"),
        TokV::Open(Delim::Paren),
        TokV::Slot(Payload::TraitName),
        TokV::Close(Delim::Paren),
        code(", ::core::stringify!"),
        TokV::Open(Delim::Paren),
        TokV::Slot(Payload::TestName(item)),
        TokV::Close(Delim::Paren),
        TokV::Close(Delim::Paren),
        code(";"),
    ]
}

/// The check of a panic payload against the expected substring held by
/// attribute `attr` of the test at `item`.
pub open spec fn panic_check(item: usize, attr: usize) -> Seq<TokV> {
    seq![
        code("let err = ::core::ops::Deref::deref(&err);"),
        code("let message = <dyn ::core::any::Any>::downcast_ref::<::std::string::String>(err)"),
        code(".map(|s| s.as_str())"),
        code(".or_else(|| <dyn ::core::any::Any>::downcast_ref::<&str>(err).copied())"),
        code(".unwrap_or_else(|| ::core::panic!(\"expected panic with string value, found non-string value\"));"),
        code("::core::assert!"),
        TokV::Open(Delim::Paren),
        code("message.contains"),
        TokV::Open(Delim::Paren),
        TokV::Slot(Payload::AttrValue(item, attr)),
        TokV::Close(Delim::Paren),
        TokV::Close(Delim::Paren),
        code(";"),
    ]
}

/// The block that runs one test according to its kind.
pub open spec fn kind_block(t: TestDecl) -> Seq<TokV> {
    let i = t.item;
    match t.kind {
        TestKind::Standard => seq![
            TokV::Open(Delim::Brace),
            code("let (): () ="),
            TokV::Slot(Payload::TestBody(i)),
            code(";"),
            TokV::Close(Delim::Brace),
            code(";"),
        ],
        TestKind::ReturnsResult => seq![
            TokV::Open(Delim::Brace),
            code("let result:"),
            TokV::Slot(Payload::TestOutput(i)),
            code("="),
            TokV::Slot(Payload::TestBody(i)),
            code("; result.unwrap();"),
            TokV::Close(Delim::Brace),
            code(";"),
        ],
        TestKind::ShouldPanic { expected } => seq![
            TokV::Open(Delim::Brace),
            code("match ::std::panic::catch_unwind"),
            TokV::Open(Delim::Paren),
            code("||"),
            TokV::Slot(Payload::TestBody(i)),
            TokV::Close(Delim::Paren),
            TokV::Open(Delim::Brace),
            code("::core::result::Result::Ok(()) =>"),
            TokV::Open(Delim::Brace),
            code("::core::panic!(\"test did not panic as expected\")"),
            TokV::Close(Delim::Brace),
            code("::core::result::Result::Err(err) =>"),
            TokV::Open(Delim::Brace),
        ] + match expected {
            Some(a) => panic_check(i, a),
            None => seq![],
        } + seq![
            TokV::Close(Delim::Brace),
            TokV::Close(Delim::Brace),
            TokV::Close(Delim::Brace),
            code(";"),
        ],
    }
}

pub open spec fn run_block(t: TestDecl) -> Seq<TokV> {
    progress_line(t.item) + kind_block(t)
}

/// The run blocks of the tests, in order.
pub open spec fn run_blocks(tests: Seq<TestDecl>) -> Seq<TokV>
    decreases tests.len(),
{
    if tests.len() == 0 {
        seq![]
    } else {
        run_blocks(tests.drop_last()) + run_block(tests.last())
    }
}

/// The `where` predicates that the tests add, in order.
pub open spec fn bound_slots(tests: Seq<TestDecl>) -> Seq<TokV>
    decreases tests.len(),
{
    if tests.len() == 0 {
        seq![]
    } else if tests.last().has_bounds {
        bound_slots(tests.drop_last()).push(TokV::Slot(Payload::TestBounds(tests.last().item)))
    } else {
        bound_slots(tests.drop_last())
    }
}

/// The arguments of the summary line that precede the trait's name.
pub open spec fn summary_args(n: nat) -> Seq<char> {
    "\"running {} test{} for implementation of {}\", "@ + decimal(n) + if n == 1 {
        ", \"\", "@
    } else {
        ", \"s\", "@
    }
}

/// The summary line printed before the tests run.
pub open spec fn summary_line(n: nat) -> Seq<TokV> {
    seq![
        code("::std::println!"),
        TokV::Open(Delim::Paren),
        TokV::Code(summary_args(n)),
        code("::core::stringify!"),
        TokV::Open(Delim::Paren),
        TokV::Slot(Payload::TraitName),
        TokV::Close(Delim::Paren),
        TokV::Close(Delim::Paren),
        code(";"),
    ]
}

/// The hidden method that runs every test: bounded by `Self: Sized` and by
/// each test's predicates, it prints a summary and runs the tests in order.
pub open spec fn test_all_fn(tests: Seq<TestDecl>) -> Seq<TokV> {
    seq![
        code("#[doc(hidden)] fn"),
        TokV::Code(TEST_ALL_FN@),
        TokV::Open(Delim::Paren),
        TokV::Close(Delim::Paren),
        code("where Self: ::core::marker::Sized,"),
    ] + bound_slots(tests) + seq![TokV::Open(Delim::Brace)] + summary_line(tests.len()) + run_blocks(
        tests,
    ) + seq![TokV::Close(Delim::Brace)]
}

fn push_progress_line(out: &mut Vec<Tok>, item: usize)
    ensures
        views(final(out)@) == views(old(out)@) + progress_line(item),
{
    push_code(out, "::std::println!");
    push_open(out, Delim::Paren);
    push_code(out, "\"test {}::{}\", ::core::stringify!");
    push_open(out, Delim::Paren);
    push_slot(out, Payload::TraitName);
    push_close(out, Delim::Paren);
    push_code(out, ", ::core::stringify!");
    push_open(out, Delim::Paren);
    push_slot(out, Payload::TestName(item));
    push_close(out, Delim::Paren);
    push_close(out, Delim::Paren);
    push_code(out, ";");
    assert(views(out@) =~= views(old(out)@) + progress_line(item));
}

fn push_panic_check(out: &mut Vec<Tok>, item: usize, attr: usize)
    ensures
        views(final(out)@) == views(old(out)@) + panic_check(item, attr),
{
    push_code(out, "let err = ::core::ops::Deref::deref(&err);");
    push_code(out, "let message = <dyn ::core::any::Any>::downcast_ref::<::std::string::String>(err)");
    push_code(out, ".map(|s| s.as_str())");
    push_code(out, ".or_else(|| <dyn ::core::any::Any>::downcast_ref::<&str>(err).copied())");
    push_code(out, ".unwrap_or_else(|| ::core::panic!(\"expected panic with string value, found non-string value\"));");
    push_code(out, "::core::assert!");
    push_open(out, Delim::Paren);
    push_code(out, "message.contains");
    push_open(out, Delim::Paren);
    push_slot(out, Payload::AttrValue(item, attr));
    push_close(out, Delim::Paren);
    push_close(out, Delim::Paren);
    push_code(out, ";");
    assert(views(out@) =~= views(old(out)@) + panic_check(item, attr));
}

fn push_kind_block(out: &mut Vec<Tok>, t: TestDecl)
    ensures
        views(final(out)@) == views(old(out)@) + kind_block(t),
{
    let i = t.item;
    match t.kind {
        TestKind::Standard => {
            push_open(out, Delim::Brace);
            push_code(out, "let (): () =");
            push_slot(out, Payload::TestBody(i));
            push_code(out, ";");
            push_close(out, Delim::Brace);
            push_code(out, ";");
        },
        TestKind::ReturnsResult => {
            push_open(out, Delim::Brace);
            push_code(out, "let result:");
            push_slot(out, Payload::TestOutput(i));
            push_code(out, "=");
            push_slot(out, Payload::TestBody(i));
            push_code(out, "; result.unwrap();");
            push_close(out, Delim::Brace);
            push_code(out, ";");
        },
        TestKind::ShouldPanic { expected } => {
            push_open(out, Delim::Brace);
            push_code(out, "match ::std::panic::catch_unwind");
            push_open(out, Delim::Paren);
            push_code(out, "||");
            push_slot(out, Payload::TestBody(i));
            push_close(out, Delim::Paren);
            push_open(out, Delim::Brace);
            push_code(out, "::core::result::Result::Ok(()) =>");
            push_open(out, Delim::Brace);
            push_code(out, "::core::panic!(\"test did not panic as expected\")");
            push_close(out, Delim::Brace);
            push_code(out, "::core::result::Result::Err(err) =>");
            push_open(out, Delim::Brace);
            match expected {
                Some(a) => push_panic_check(out, i, a),
                None => {},
            }
            let ghost mid2 = views(out@);
            push_close(out, Delim::Brace);
            push_close(out, Delim::Brace);
            push_close(out, Delim::Brace);
            push_code(out, ";");
            assert(views(out@) =~= mid2 + seq![
                TokV::Close(Delim::Brace),
                TokV::Close(Delim::Brace),
                TokV::Close(Delim::Brace),
                code(";"),
            ]);
        },
    }
    assert(views(out@) =~= views(old(out)@) + kind_block(t));
}

fn push_summary_line(out: &mut Vec<Tok>, n: usize)
    ensures
        views(final(out)@) == views(old(out)@) + summary_line(n as nat),
{
    let mut args = String::from_str("\"running {} test{} for implementation of {}\", ");
    push_decimal(&mut args, n as u64);
    if n == 1 {
        args.append(", \"\", ");
    } else {
        args.append(", \"s\", ");
    }
    assert(args@ =~= summary_args(n as nat));
    push_code(out, "::std::println!");
    push_open(out, Delim::Paren);
    push_string(out, args);
    push_code(out, "::core::stringify!");
    push_open(out, Delim::Paren);
    push_slot(out, Payload::TraitName);
    push_close(out, Delim::Paren);
    push_close(out, Delim::Paren);
    push_code(out, ";");
    assert(views(out@) =~= views(old(out)@) + summary_line(n as nat));
}

/// Lowers the analysed tests into the hidden method that runs them all.
pub fn lower(model: &TraitModel) -> (r: Vec<Tok>)
    ensures
        views(r@) == test_all_fn(model.tests@),
{
    let tests = &model.tests;
    let mut out: Vec<Tok> = Vec::new();
    push_code(&mut out, "#[doc(hidden)] fn");
    push_code(&mut out, TEST_ALL_FN);
    push_open(&mut out, Delim::Paren);
    push_close(&mut out, Delim::Paren);
    push_code(&mut out, "where Self: ::core::marker::Sized,");
    let ghost head = views(out@);
    let mut i: usize = 0;
    while i < tests.len()
        invariant
            i <= tests@.len(),
            views(out@) == head + bound_slots(tests@.take(i as int)),
        decreases tests@.len() - i,
    {
        assert(tests@.take(i + 1).drop_last() =~= tests@.take(i as int));
        if tests[i].has_bounds {
            push_slot(&mut out, Payload::TestBounds(tests[i].item));
        }
        i = i + 1;
    }
    assert(tests@.take(i as int) =~= tests@);
    push_open(&mut out, Delim::Brace);
    push_summary_line(&mut out, tests.len());
    let ghost before_runs = views(out@);
    let mut j: usize = 0;
    while j < tests.len()
        invariant
            j <= tests@.len(),
            views(out@) == before_runs + run_blocks(tests@.take(j as int)),
        decreases tests@.len() - j,
    {
        assert(tests@.take(j + 1).drop_last() =~= tests@.take(j as int));
        let ghost prev = views(out@);
        push_progress_line(&mut out, tests[j].item);
        push_kind_block(&mut out, tests[j]);
        assert(views(out@) =~= prev + run_block(tests@[j as int]));
        assert(views(out@) =~= before_runs + run_blocks(tests@.take(j + 1)));
        j = j + 1;
    }
    assert(tests@.take(j as int) =~= tests@);
    push_close(&mut out, Delim::Brace);
    assert(views(out@) =~= test_all_fn(model.tests@));
    out
}

/// One item of the rewritten trait.
#[derive(Clone, Debug, PartialEq, Eq)]
pub enum ItemOut {
    /// The input item at this index, unchanged.
    Kept(usize),
    /// A generated item.
    Generated(Vec<Tok>),
}

/// `out` lists the kept items in order, followed by the hidden method.
pub open spec fn annotated_items(out: Seq<ItemOut>, kept: Seq<usize>, tests: Seq<TestDecl>) -> bool {
    &&& out.len() == kept.len() + 1
    &&& forall|x: int| 0 <= x < kept.len() ==> #[trigger] out[x] == ItemOut::Kept(kept[x])
    &&& out.last() matches ItemOut::Generated(g) && views(g@) == test_all_fn(tests)
}

/// Emits the rewritten trait's items: those kept, then the hidden method.
pub fn codegen(model: &TraitModel, test_all: Vec<Tok>) -> (r: Vec<ItemOut>)
    ensures
        r@.len() == model.kept@.len() + 1,
        forall|x: int| 0 <= x < model.kept@.len() ==> #[trigger] r@[x] == ItemOut::Kept(model.kept@[x]),
        r@.last() == ItemOut::Generated(test_all),
{
    let mut out: Vec<ItemOut> = Vec::new();
    let mut i: usize = 0;
    while i < model.kept.len()
        invariant
            i <= model.kept@.len(),
            out@.len() == i,
            forall|x: int| 0 <= x < i ==> #[trigger] out@[x] == ItemOut::Kept(model.kept@[x]),
        decreases model.kept@.len() - i,
    {
        out.push(ItemOut::Kept(model.kept[i]));
        i = i + 1;
    }
    out.push(ItemOut::Generated(test_all));
    out
}

/// Rewrites an annotated trait: its tests are removed and the hidden method
/// that runs them is appended, or the reason it cannot be rewritten.
pub fn tested_trait(t: &TraitSyntax) -> (r: Result<Vec<ItemOut>, AnnotateError>)
    ensures
        match analysis(*t) {
            Ok((kept, tests)) => r matches Ok(out) && annotated_items(out@, kept, tests),
            Err(e) => r == Err::<Vec<ItemOut>, AnnotateError>(e),
        },
{
    let model = analyze(t)?;
    let test_all = lower(&model);
    Ok(codegen(&model, test_all))
}

proof fn lemma_prefixes_partition(items: Seq<TraitItemSyntax>, n: int)
    requires
        0 <= n <= items.len(),
        items.len() <= usize::MAX,
    ensures
        forall|x: int| 0 <= x < kept_prefix(items, n).len() ==> {
            let i = #[trigger] kept_prefix(items, n)[x] as int;
            i < n && !is_test_item(items[i])
        },
        forall|x: int, y: int|
            0 <= x < y < kept_prefix(items, n).len() ==> kept_prefix(items, n)[x] < kept_prefix(items, n)[y],
        forall|i: int| 0 <= i < n && !is_test_item(items[i]) ==> #[trigger] kept_prefix(items, n).contains(i as usize),
        forall|x: int| 0 <= x < tests_prefix(items, n).len() ==> {
            let t = #[trigger] tests_prefix(items, n)[x];
            &&& t.item < n
            &&& is_test_item(items[t.item as int])
            &&& t == test_decl(t.item as int, items[t.item as int]->Fn_0)
        },
        forall|x: int, y: int|
            0 <= x < y < tests_prefix(items, n).len() ==> tests_prefix(items, n)[x].item < tests_prefix(items, n)[y].item,
        forall|i: int| 0 <= i < n && is_test_item(items[i]) ==> exists|x: int|
            0 <= x < tests_prefix(items, n).len() && #[trigger] tests_prefix(items, n)[x].item == i,
    decreases n,
{
    if n > 0 {
        lemma_prefixes_partition(items, n - 1);
        let k0 = kept_prefix(items, n - 1);
        let k = kept_prefix(items, n);
        let t0 = tests_prefix(items, n - 1);
        let t = tests_prefix(items, n);
        assert forall|i: int| 0 <= i < n && !is_test_item(items[i]) implies #[trigger] k.contains(i as usize) by {
            if i < n - 1 {
                assert(k0.contains(i as usize));
                let w = choose|w: int| 0 <= w < k0.len() && k0[w] == i as usize;
                assert(k[w] == i as usize);
            } else {
                assert(k[k.len() - 1] == i as usize);
            }
        }
        assert forall|i: int| 0 <= i < n && is_test_item(items[i]) implies exists|x: int|
            0 <= x < t.len() && #[trigger] t[x].item == i by {
            if i < n - 1 {
                let w = choose|w: int| 0 <= w < t0.len() && #[trigger] t0[w].item == i;
                assert(t[w].item == i);
            } else {
                assert(t[t.len() - 1].item == i);
            }
        }
    }
}

/// The trait that an annotation emits keeps exactly the items that are not
/// tests, in the order in which they are declared, and its tests are exactly the items
/// marked as tests, in the order in which they are declared.
pub proof fn lemma_kept_items_are_the_non_tests(t: TraitSyntax)
    requires
        analysis(t) is Ok,
    ensures
        ({
            let kept = analysis(t)->Ok_0.0;
            let tests = analysis(t)->Ok_0.1;
            let items = t.items@;
            &&& forall|x: int| 0 <= x < kept.len() ==> #[trigger] kept[x] < items.len() && !is_test_item(items[kept[x] as int])
            &&& forall|x: int, y: int| 0 <= x < y < kept.len() ==> kept[x] < kept[y]
            &&& forall|i: int| 0 <= i < items.len() && !is_test_item(items[i]) ==> #[trigger] kept.contains(i as usize)
            &&& forall|x: int| 0 <= x < tests.len() ==> #[trigger] tests[x].item < items.len() && is_test_item(items[tests[x].item as int])
            &&& forall|x: int, y: int| 0 <= x < y < tests.len() ==> tests[x].item < tests[y].item
            &&& forall|i: int| 0 <= i < items.len() && is_test_item(items[i]) ==> exists|x: int|
                0 <= x < tests.len() && #[trigger] tests[x].item == i
        }),
{
    let items = t.items@;
    let n = items.len() as int;
    assert(t.items.len() == n);
    lemma_analysis_ok(t);
    lemma_prefixes_partition(items, n);
}

proof fn lemma_analysis_ok(t: TraitSyntax)
    requires
        analysis(t) is Ok,
    ensures
        analysis(t)->Ok_0.0 == kept_prefix(t.items@, t.items@.len() as int),
        analysis(t)->Ok_0.1 == tests_prefix(t.items@, t.items@.len() as int),
{
}

proof fn lemma_earlier_found(items: Seq<TraitItemSyntax>, tests: Seq<TestDecl>, j: int, k: int, a: int)
    requires
        0 <= a < k,
        test_name(items, tests[a]) == test_name(items, tests[j]),
    ensures
        earlier_same_name(items, tests, j, k) is Some,
    decreases k,
{
    if a < k - 1 {
        lemma_earlier_found(items, tests, j, k - 1, a);
    }
}

proof fn lemma_duplicate_found(items: Seq<TraitItemSyntax>, tests: Seq<TestDecl>, m: int, a: int, b: int)
    requires
        0 <= a < b < m,
        test_name(items, tests[a]) == test_name(items, tests[b]),
    ensures
        first_duplicate(items, tests, m) is Some,
    decreases m,
{
    if b < m - 1 {
        lemma_duplicate_found(items, tests, m - 1, a, b);
    } else {
        lemma_earlier_found(items, tests, b, b, a);
    }
}

proof fn lemma_no_earlier(items: Seq<TraitItemSyntax>, tests: Seq<TestDecl>, j: int, k: int)
    requires
        forall|a: int| 0 <= a < k ==> test_name(items, #[trigger] tests[a]) != test_name(items, tests[j]),
    ensures
        earlier_same_name(items, tests, j, k) is None,
    decreases k,
{
    if k > 0 {
        lemma_no_earlier(items, tests, j, k - 1);
    }
}

proof fn lemma_no_duplicate(items: Seq<TraitItemSyntax>, tests: Seq<TestDecl>, m: int)
    requires
        forall|a: int, b: int|
            0 <= a < b < m ==> test_name(items, #[trigger] tests[a]) != test_name(items, #[trigger] tests[b]),
    ensures
        first_duplicate(items, tests, m) is None,
    decreases m,
{
    if m > 0 {
        lemma_no_duplicate(items, tests, m - 1);
        assert forall|a: int| 0 <= a < m - 1 implies test_name(items, #[trigger] tests[a]) != test_name(
            items,
            tests[m - 1],
        ) by {}
        lemma_no_earlier(items, tests, m - 1, m - 1);
    }
}

/// A trait that declares two tests of the same name is rejected with a
/// duplicate-name error, provided the attribute has no arguments, the item
/// is a trait and no test is malformed (those errors are reported first).
pub proof fn lemma_duplicate_test_names_rejected(t: TraitSyntax, i: int, j: int)
    requires
        !t.has_args,
        t.is_trait,
        first_test_error(t.items@, t.items@.len() as int) is None,
        0 <= i < j < t.items@.len(),
        is_test_item(t.items@[i]),
        is_test_item(t.items@[j]),
        t.items@[i]->Fn_0.name@ == t.items@[j]->Fn_0.name@,
    ensures
        analysis(t) matches Err(AnnotateError::DuplicateTestName { .. }),
{
    let items = t.items@;
    let n = items.len() as int;
    assert(t.items.len() == n);
    lemma_prefixes_partition(items, n);
    let tests = tests_prefix(items, n);
    let x = choose|x: int| 0 <= x < tests.len() && #[trigger] tests[x].item == i;
    let y = choose|y: int| 0 <= y < tests.len() && #[trigger] tests[y].item == j;
    assert(x < y) by {
        if y <= x {
            if y < x {
                assert(tests[y].item < tests[x].item);
            }
        }
    }
    lemma_duplicate_found(items, tests, tests.len() as int, x, y);
}

/// A trait whose tests all have distinct names is accepted, provided the
/// attribute has no arguments and no test is malformed.
pub proof fn lemma_unique_test_names_accepted(t: TraitSyntax)
    requires
        !t.has_args,
        t.is_trait,
        first_test_error(t.items@, t.items@.len() as int) is None,
        forall|i: int, j: int|
            0 <= i < j < t.items@.len() && is_test_item(#[trigger] t.items@[i]) && is_test_item(
                #[trigger] t.items@[j],
            ) ==> t.items@[i]->Fn_0.name@ != t.items@[j]->Fn_0.name@,
    ensures
        analysis(t) is Ok,
{
    let items = t.items@;
    let n = items.len() as int;
    assert(t.items.len() == n);
    lemma_prefixes_partition(items, n);
    let tests = tests_prefix(items, n);
    assert forall|a: int, b: int| 0 <= a < b < tests.len() implies test_name(
        items,
        #[trigger] tests[a],
    ) != test_name(items, #[trigger] tests[b]) by {
        assert(tests[a].item < tests[b].item);
        assert(is_test_item(items[tests[a].item as int]));
        assert(is_test_item(items[tests[b].item as int]));
    }
    lemma_no_duplicate(items, tests, tests.len() as int);
}

/// The name of the function at item index `i`, or the empty text when
/// there is none.
pub open spec fn item_fn_name(t: TraitSyntax, i: usize) -> Seq<char> {
    if i < t.items@.len() && t.items@[i as int] is Fn {
        t.items@[i as int]->Fn_0.name@
    } else {
        seq![]
    }
}

/// The diagnostic for an error raised on the trait `t`.
pub open spec fn error_message(e: AnnotateError, t: TraitSyntax) -> Seq<char> {
    match e {
        AnnotateError::UnexpectedConstruct => "#[tested_trait] can only be used to annotate trait definitions"@,
        AnnotateError::MalformedArguments => "#[tested_trait] takes no arguments"@,
        AnnotateError::MissingTestBody { .. } => "associated #[test]s must have a body"@,
        AnnotateError::InvalidShouldPanic { .. } => "invalid #[should_panic] syntax"@,
        AnnotateError::ConflictingTestKind { .. } => "#[should_panic] tests cannot return Result"@,
        AnnotateError::DuplicateTestName { duplicate, .. } => "the test `"@ + item_fn_name(t, duplicate)
            + "` is defined multiple times"@,
    }
}

impl AnnotateError {
    /// The diagnostic for this error, raised on the trait `t`.
    pub fn message(&self, t: &TraitSyntax) -> (r: String)
        ensures
            r@ == error_message(*self, *t),
    {
        match self {
            AnnotateError::UnexpectedConstruct => String::from_str(
                "#[tested_trait] can only be used to annotate trait definitions",
            ),
            AnnotateError::MalformedArguments => String::from_str("#[tested_trait] takes no arguments"),
            AnnotateError::MissingTestBody { .. } => String::from_str("associated #[test]s must have a body"),
            AnnotateError::InvalidShouldPanic { .. } => String::from_str("invalid #[should_panic] syntax"),
            AnnotateError::ConflictingTestKind { .. } => String::from_str(
                "#[should_panic] tests cannot return Result",
            ),
            AnnotateError::DuplicateTestName { duplicate, .. } => {
                let mut m = String::from_str("the test `");
                if *duplicate < t.items.len() {
                    match &t.items[*duplicate] {
                        TraitItemSyntax::Fn(f) => m.append(f.name.as_str()),
                        TraitItemSyntax::Other => {},
                    }
                }
                m.append("` is defined multiple times");
                m
            },
        }
    }
}

spec fn panic_head(i: usize) -> Seq<TokV> {
    seq![
        TokV::Open(Delim::Brace),
        code("match ::std::panic::catch_unwind"),
        TokV::Open(Delim::Paren),
        code("||"),
        TokV::Slot(Payload::TestBody(i)),
        TokV::Close(Delim::Paren),
        TokV::Open(Delim::Brace),
        code("::core::result::Result::Ok(()) =>"),
        TokV::Open(Delim::Brace),
        code("::core::panic!(\"test did not panic as expected\")"),
        TokV::Close(Delim::Brace),
        code("::core::result::Result::Err(err) =>"),
        TokV::Open(Delim::Brace),
    ]
}

spec fn panic_tail() -> Seq<TokV> {
    seq![
        TokV::Close(Delim::Brace),
        TokV::Close(Delim::Brace),
        TokV::Close(Delim::Brace),
        code(";"),
    ]
}

proof fn lemma_panic_head(o: Seq<Delim>, i: usize)
    ensures
        nesting_from(o, panic_head(i)) == Some(o.push(Delim::Brace).push(Delim::Brace).push(Delim::Brace)),
{
    reveal_with_fuel(nesting_from, 14);
}

proof fn lemma_panic_tail(o: Seq<Delim>)
    ensures
        nesting_from(o.push(Delim::Brace).push(Delim::Brace).push(Delim::Brace), panic_tail()) == Some(o),
{
    reveal_with_fuel(nesting_from, 5);
    assert(o.push(Delim::Brace).push(Delim::Brace).push(Delim::Brace).drop_last().drop_last().drop_last() =~= o);
}

proof fn lemma_panic_check_neutral(i: usize, a: usize)
    ensures
        neutral(panic_check(i, a)),
{
    assert forall|o: Seq<Delim>| #[trigger] nesting_from(o, panic_check(i, a)) == Some(o) by {
        reveal_with_fuel(nesting_from, 14);
    }
}

proof fn lemma_kind_block_neutral(t: TestDecl)
    ensures
        neutral(kind_block(t)),
{
    let i = t.item;
    match t.kind {
        TestKind::ShouldPanic { expected } => {
            let check = match expected {
                Some(a) => panic_check(i, a),
                None => seq![],
            };
            match expected {
                Some(a) => lemma_panic_check_neutral(i, a),
                None => lemma_neutral_empty(),
            }
            assert(kind_block(t) =~= panic_head(i) + check + panic_tail());
            assert forall|o: Seq<Delim>| #[trigger] nesting_from(o, kind_block(t)) == Some(o) by {
                lemma_panic_head(o, i);
                lemma_panic_tail(o);
                let o3 = o.push(Delim::Brace).push(Delim::Brace).push(Delim::Brace);
                assert(nesting_from(o3, check) == Some(o3));
                lemma_nesting_concat(o, panic_head(i), check);
                lemma_nesting_concat(o, panic_head(i) + check, panic_tail());
            }
        },
        _ => {
            assert forall|o: Seq<Delim>| #[trigger] nesting_from(o, kind_block(t)) == Some(o) by {
                reveal_with_fuel(nesting_from, 9);
            }
        },
    }
}

proof fn lemma_run_blocks_neutral(tests: Seq<TestDecl>)
    ensures
        neutral(run_blocks(tests)),
    decreases tests.len(),
{
    if tests.len() == 0 {
        lemma_neutral_empty();
    } else {
        lemma_run_blocks_neutral(tests.drop_last());
        let t = tests.last();
        assert(neutral(progress_line(t.item))) by {
            reveal_with_fuel(nesting_from, 13);
            assert forall|o: Seq<Delim>| #[trigger] nesting_from(o, progress_line(t.item)) == Some(o) by {}
        }
        lemma_kind_block_neutral(t);
        lemma_neutral_concat(progress_line(t.item), kind_block(t));
        lemma_neutral_concat(run_blocks(tests.drop_last()), run_block(t));
    }
}

proof fn lemma_bound_slots_neutral(tests: Seq<TestDecl>)
    ensures
        neutral(bound_slots(tests)),
    decreases tests.len(),
{
    if tests.len() == 0 {
        lemma_neutral_empty();
    } else {
        lemma_bound_slots_neutral(tests.drop_last());
        let b = bound_slots(tests.drop_last());
        if tests.last().has_bounds {
            let p = seq![TokV::Slot(Payload::TestBounds(tests.last().item))];
            assert(neutral(p)) by {
                reveal_with_fuel(nesting_from, 2);
                assert forall|o: Seq<Delim>| #[trigger] nesting_from(o, p) == Some(o) by {}
            }
            lemma_neutral_concat(b, p);
            assert(bound_slots(tests) == b + p);
        }
    }
}

/// The hidden method's template is well nested: every delimiter it opens is
/// closed by a matching one, so rendering it never fails for that reason.
pub proof fn lemma_test_all_fn_balanced(tests: Seq<TestDecl>)
    ensures
        balanced(test_all_fn(tests)),
{
    let head = seq![
        code("#[doc(hidden)] fn"),
        TokV::Code(TEST_ALL_FN@),
        TokV::Open(Delim::Paren),
        TokV::Close(Delim::Paren),
        code("where Self: ::core::marker::Sized,"),
    ];
    let body = summary_line(tests.len()) + run_blocks(tests);
    assert(neutral(head)) by {
        reveal_with_fuel(nesting_from, 6);
        assert forall|o: Seq<Delim>| #[trigger] nesting_from(o, head) == Some(o) by {}
    }
    assert(neutral(summary_line(tests.len()))) by {
        reveal_with_fuel(nesting_from, 10);
        assert forall|o: Seq<Delim>| #[trigger] nesting_from(o, summary_line(tests.len())) == Some(o) by {}
    }
    lemma_run_blocks_neutral(tests);
    lemma_bound_slots_neutral(tests);
    lemma_neutral_concat(summary_line(tests.len()), run_blocks(tests));
    let open = seq![TokV::Open(Delim::Brace)];
    let close = seq![TokV::Close(Delim::Brace)];
    assert(neutral(open + body + close)) by {
        assert forall|o: Seq<Delim>| #[trigger] nesting_from(o, open + body + close) == Some(o) by {
            reveal_with_fuel(nesting_from, 2);
            assert(nesting_from(o, open) == Some(o.push(Delim::Brace)));
            assert(nesting_from(o.push(Delim::Brace), close) == Some(o)) by {
                assert(o.push(Delim::Brace).drop_last() =~= o);
            }
            lemma_nesting_concat(o, open, body);
            lemma_nesting_concat(o, open + body, close);
        }
    }
    lemma_neutral_concat(head, bound_slots(tests));
    lemma_neutral_concat(head + bound_slots(tests), open + body + close);
    assert(test_all_fn(tests) =~= head + bound_slots(tests) + (open + body + close));
    lemma_neutral_balanced(test_all_fn(tests));
}

/// The tests named by the progress lines of a template, in order.
pub open spec fn named_tests(s: Seq<TokV>) -> Seq<usize>
    decreases s.len(),
{
    if s.len() == 0 {
        seq![]
    } else {
        named_tests(s.drop_last()) + match s.last() {
            TokV::Slot(Payload::TestName(i)) => seq![i],
            _ => seq![],
        }
    }
}

proof fn lemma_named_tests_concat(a: Seq<TokV>, b: Seq<TokV>)
    ensures
        named_tests(a + b) == named_tests(a) + named_tests(b),
    decreases b.len(),
{
    if b.len() == 0 {
        assert(a + b =~= a);
        assert(named_tests(a) + named_tests(b) =~= named_tests(a));
    } else {
        lemma_named_tests_concat(a, b.drop_last());
        assert((a + b).drop_last() =~= a + b.drop_last());
        assert((a + b).last() == b.last());
        assert(named_tests(a + b) =~= named_tests(a) + named_tests(b));
    }
}

proof fn lemma_panic_pieces_name_none(i: usize)
    ensures
        named_tests(panic_head(i)) == Seq::<usize>::empty(),
        named_tests(panic_tail()) == Seq::<usize>::empty(),
{
    reveal_with_fuel(named_tests, 14);
    assert(named_tests(panic_head(i)) =~= Seq::<usize>::empty());
    assert(named_tests(panic_tail()) =~= Seq::<usize>::empty());
}

proof fn lemma_panic_check_names_none(i: usize, a: usize)
    ensures
        named_tests(panic_check(i, a)) == Seq::<usize>::empty(),
{
    reveal_with_fuel(named_tests, 14);
    assert(named_tests(panic_check(i, a)) =~= Seq::<usize>::empty());
}

proof fn lemma_simple_block_names_none(t: TestDecl)
    requires
        !(t.kind is ShouldPanic),
    ensures
        named_tests(kind_block(t)) == Seq::<usize>::empty(),
{
    reveal_with_fuel(named_tests, 9);
    assert(named_tests(kind_block(t)) =~= Seq::<usize>::empty());
}

proof fn lemma_kind_block_names_none(t: TestDecl)
    ensures
        named_tests(kind_block(t)) == Seq::<usize>::empty(),
{
    match t.kind {
        TestKind::ShouldPanic { expected } => {
            let check = match expected {
                Some(a) => panic_check(t.item, a),
                None => seq![],
            };
            lemma_panic_pieces_name_none(t.item);
            match expected {
                Some(a) => lemma_panic_check_names_none(t.item, a),
                None => {
                    assert(named_tests(check) =~= Seq::<usize>::empty());
                },
            }
            assert(kind_block(t) =~= panic_head(t.item) + check + panic_tail());
            lemma_named_tests_concat(panic_head(t.item), check);
            lemma_named_tests_concat(panic_head(t.item) + check, panic_tail());
            assert(named_tests(kind_block(t)) =~= Seq::<usize>::empty());
        },
        _ => {
            lemma_simple_block_names_none(t);
        },
    }
}

proof fn lemma_run_blocks_names(tests: Seq<TestDecl>)
    ensures
        named_tests(run_blocks(tests)) == tests.map_values(|t: TestDecl| t.item),
    decreases tests.len(),
{
    if tests.len() == 0 {
        assert(tests.map_values(|t: TestDecl| t.item) =~= Seq::<usize>::empty());
    } else {
        let t = tests.last();
        lemma_run_blocks_names(tests.drop_last());
        assert(named_tests(progress_line(t.item)) =~= seq![t.item]) by {
            reveal_with_fuel(named_tests, 13);
        }
        lemma_kind_block_names_none(t);
        lemma_named_tests_concat(progress_line(t.item), kind_block(t));
        lemma_named_tests_concat(run_blocks(tests.drop_last()), run_block(t));
        assert(tests.map_values(|t: TestDecl| t.item) =~= tests.drop_last().map_values(|t: TestDecl| t.item)
            + seq![t.item]);
    }
}

proof fn lemma_bound_slots_name_none(tests: Seq<TestDecl>)
    ensures
        named_tests(bound_slots(tests)) == Seq::<usize>::empty(),
    decreases tests.len(),
{
    if tests.len() > 0 {
        lemma_bound_slots_name_none(tests.drop_last());
        if tests.last().has_bounds {
            let p = seq![TokV::Slot(Payload::TestBounds(tests.last().item))];
            assert(named_tests(p) =~= Seq::<usize>::empty()) by {
                reveal_with_fuel(named_tests, 2);
            }
            lemma_named_tests_concat(bound_slots(tests.drop_last()), p);
            assert(bound_slots(tests) == bound_slots(tests.drop_last()) + p);
        }
    }
}

/// The hidden method holds one run block per test, in the order in which
/// the tests are declared: the tests named by its progress lines are
/// exactly the tests, in order.
pub proof fn lemma_one_run_block_per_test(tests: Seq<TestDecl>)
    ensures
        named_tests(test_all_fn(tests)) == tests.map_values(|t: TestDecl| t.item),
{
    let head = seq![
        code("#[doc(hidden)] fn"),
        TokV::Code(TEST_ALL_FN@),
        TokV::Open(Delim::Paren),
        TokV::Close(Delim::Paren),
        code("where Self: ::core::marker::Sized,"),
    ];
    let open = seq![TokV::Open(Delim::Brace)];
    let close = seq![TokV::Close(Delim::Brace)];
    let summary = summary_line(tests.len());
    assert(named_tests(head) =~= Seq::<usize>::empty()) by {
        reveal_with_fuel(named_tests, 6);
    }
    assert(named_tests(open) =~= Seq::<usize>::empty()) by {
        reveal_with_fuel(named_tests, 2);
    }
    assert(named_tests(close) =~= Seq::<usize>::empty()) by {
        reveal_with_fuel(named_tests, 2);
    }
    assert(named_tests(summary) =~= Seq::<usize>::empty()) by {
        reveal_with_fuel(named_tests, 10);
    }
    lemma_bound_slots_name_none(tests);
    lemma_run_blocks_names(tests);
    let b = bound_slots(tests);
    let r = run_blocks(tests);
    lemma_named_tests_concat(head, b);
    lemma_named_tests_concat(head + b, open);
    lemma_named_tests_concat(head + b + open, summary);
    lemma_named_tests_concat(head + b + open + summary, r);
    lemma_named_tests_concat(head + b + open + summary + r, close);
    assert(test_all_fn(tests) =~= head + b + open + summary + r + close);
    assert(named_tests(test_all_fn(tests)) =~= tests.map_values(|t: TestDecl| t.item));
}

} // verus!
