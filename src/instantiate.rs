//! The implementation instantiator: emits, after an annotated `impl` of a
//! tested trait, one test function per concrete instantiation, each calling
//! the trait's hidden method.
use vstd::prelude::*;
use crate::names::{gensym, make_test_fn_name, test_fn_name, TEST_ALL_FN};
use crate::render::{
    balanced, lemma_neutral_balanced, lemma_neutral_concat, lemma_neutral_empty, nesting_from,
    neutral,
};
use crate::template::{
    code, push_close, push_code, push_open, push_slot, push_string, views, Delim, Payload, Tok,
    TokV,
};

verus! {

/// What the analysis reads of an annotated implementation and of the
/// attribute's instantiation list.
#[derive(Clone, Debug)]
pub struct ImplSyntax {
    /// The item implements a trait (`impl Trait for Type`).
    pub is_trait_impl: bool,
    /// The implementation is negative (`impl !Trait for Type`).
    pub negative: bool,
    /// The implementation has type, const or lifetime parameters.
    pub generic: bool,
    /// The final path segment of the implemented trait.
    pub trait_name: String,
    /// For each attribute of the implementation, its identifier when its path
    /// is a single identifier.
    pub attrs: Vec<Option<String>>,
    /// For each `Type: Trait` entry of the instantiation list, the final path
    /// segment of its trait.
    pub instantiations: Vec<String>,
}

/// The concrete type and trait that a synthesized test exercises.
#[derive(Clone, Copy, PartialEq, Eq, Structural, Debug)]
pub enum Target {
    /// The implementation's own self type and trait.
    Implied,
    /// The entry of the instantiation list at this index.
    Explicit(usize),
}

/// An analysed implementation.
#[derive(Clone, Debug, PartialEq, Eq)]
pub struct ImplModel {
    /// One target per test to synthesize, in order.
    pub targets: Vec<Target>,
    /// The index of the attribute that opts out of automatic test
    /// discovery; it is removed from the emitted implementation.
    pub opt_out: Option<usize>,
}

/// Why an implementation cannot be instantiated.
#[derive(Clone, Copy, PartialEq, Eq, Structural, Debug)]
pub enum InstantiateError {
    /// The annotated item is not a trait implementation.
    UnexpectedConstruct,
    /// The instantiation list is not a comma-separated list of `Type: Trait`.
    InvalidArguments,
    /// The implementation is negative.
    UnsupportedNegativeImpl,
    /// A non-generic implementation was given an instantiation list.
    UnexpectedConcreteList,
    /// A generic implementation was given no instantiation list.
    MissingInstantiations,
}

/// Name of the attribute that opts out of automatic test discovery.
pub const OPT_OUT_MARKER: &'static str = "in_integration_test";

/// The index of the first attribute whose identifier is `name`.
pub open spec fn first_named(attrs: Seq<Option<String>>, name: Seq<char>) -> Option<int>
    decreases attrs.len(),
{
    if attrs.len() == 0 {
        None
    } else {
        match first_named(attrs.drop_last(), name) {
            Some(i) => Some(i),
            None => if attrs.last() matches Some(n) && n@ == name {
                Some(attrs.len() - 1)
            } else {
                None
            },
        }
    }
}

pub open spec fn opt_out_marker(s: ImplSyntax) -> Option<usize> {
    match first_named(s.attrs@, OPT_OUT_MARKER@) {
        Some(i) => Some(i as usize),
        None => None,
    }
}

/// The entries of an instantiation list of length `n`, in order.
pub open spec fn explicit_targets(n: nat) -> Seq<Target> {
    Seq::new(n, |i: int| Target::Explicit(i as usize))
}

/// The outcome of analysing an implementation: `Ok((targets, opt_out))` or
/// the error.
pub open spec fn impl_analysis(s: ImplSyntax) -> Result<(Seq<Target>, Option<usize>), InstantiateError> {
    let n = s.instantiations@.len();
    if !s.is_trait_impl {
        Err(InstantiateError::UnexpectedConstruct)
    } else if s.negative {
        Err(InstantiateError::UnsupportedNegativeImpl)
    } else if !s.generic {
        if n > 0 {
            Err(InstantiateError::UnexpectedConcreteList)
        } else {
            Ok((seq![Target::Implied], opt_out_marker(s)))
        }
    } else if n == 0 {
        Err(InstantiateError::MissingInstantiations)
    } else {
        Ok((explicit_targets(n), opt_out_marker(s)))
    }
}

proof fn lemma_first_named_prefix(s: Seq<Option<String>>, name: Seq<char>, k: int)
    requires
        0 <= k <= s.len(),
        first_named(s.take(k), name) is Some,
    ensures
        first_named(s, name) == first_named(s.take(k), name),
    decreases s.len(),
{
    if k < s.len() {
        assert(s.drop_last().take(k) =~= s.take(k));
        lemma_first_named_prefix(s.drop_last(), name, k);
    } else {
        assert(s.take(k) =~= s);
    }
}

fn find_opt_out(attrs: &Vec<Option<String>>) -> (r: Option<usize>)
    ensures
        match r {
            Some(i) => i < attrs@.len() && first_named(attrs@, OPT_OUT_MARKER@) == Some(i as int),
            None => first_named(attrs@, OPT_OUT_MARKER@) is None,
        },
{
    let wanted = String::from_str(OPT_OUT_MARKER);
    let mut i: usize = 0;
    while i < attrs.len()
        invariant
            i <= attrs@.len(),
            wanted@ == OPT_OUT_MARKER@,
            first_named(attrs@.take(i as int), OPT_OUT_MARKER@) is None,
        decreases attrs@.len() - i,
    {
        assert(attrs@.take(i + 1).drop_last() =~= attrs@.take(i as int));
        let hit = match &attrs[i] {
            Some(n) => *n == wanted,
            None => false,
        };
        if hit {
            proof { lemma_first_named_prefix(attrs@, OPT_OUT_MARKER@, i + 1); }
            return Some(i);
        }
        i = i + 1;
    }
    assert(attrs@.take(i as int) =~= attrs@);
    None
}

/// Analyses an implementation: decides which instantiations get a test and
/// whether the discovery opt-out marker is present.
pub fn analyze(s: &ImplSyntax) -> (r: Result<ImplModel, InstantiateError>)
    ensures
        match impl_analysis(*s) {
            Ok((targets, opt_out)) => r matches Ok(m) && m.targets@ == targets && m.opt_out == opt_out,
            Err(e) => r == Err::<ImplModel, InstantiateError>(e),
        },
{
    if !s.is_trait_impl {
        return Err(InstantiateError::UnexpectedConstruct);
    }
    if s.negative {
        return Err(InstantiateError::UnsupportedNegativeImpl);
    }
    let n = s.instantiations.len();
    let mut targets: Vec<Target> = Vec::new();
    if !s.generic {
        if n > 0 {
            return Err(InstantiateError::UnexpectedConcreteList);
        }
        targets.push(Target::Implied);
        assert(targets@ =~= seq![Target::Implied]);
    } else {
        if n == 0 {
            return Err(InstantiateError::MissingInstantiations);
        }
        let mut i: usize = 0;
        while i < n
            invariant
                i <= n,
                targets@ =~= explicit_targets(i as nat),
            decreases n - i,
        {
            targets.push(Target::Explicit(i));
            i = i + 1;
        }
    }
    let opt_out = find_opt_out(&s.attrs);
    Ok(ImplModel { targets, opt_out })
}

/// One synthesized test function: its name and what it exercises.
#[derive(Clone, Debug, PartialEq, Eq)]
pub struct SynthTest {
    pub name: String,
    pub target: Target,
}

/// The final path segment of the trait that `t` exercises.
pub open spec fn target_trait_name(s: ImplSyntax, t: Target) -> Seq<char> {
    match t {
        Target::Implied => s.trait_name@,
        Target::Explicit(i) => s.instantiations@[i as int]@,
    }
}

pub open spec fn targets_in_range(s: ImplSyntax, targets: Seq<Target>) -> bool {
    forall|x: int| 0 <= x < targets.len() ==> (#[trigger] targets[x] matches Target::Explicit(i) ==> i
        < s.instantiations@.len())
}

/// `tests` are the synthesized tests for `targets`, numbered from `start`.
pub open spec fn synthesized(s: ImplSyntax, targets: Seq<Target>, start: nat, tests: Seq<SynthTest>) -> bool {
    &&& tests.len() == targets.len()
    &&& forall|k: int| 0 <= k < tests.len() ==> {
        &&& (#[trigger] tests[k]).target == targets[k]
        &&& tests[k].name@ == test_fn_name(target_trait_name(s, targets[k]), start + k as nat)
    }
}

/// Lowers the analysed implementation into one synthesized test per target,
/// each named after its trait and a fresh value of the shared counter.
pub fn lower(s: &ImplSyntax, m: &ImplModel, counter: &mut u64) -> (r: Vec<SynthTest>)
    requires
        targets_in_range(*s, m.targets@),
        *old(counter) + m.targets@.len() <= u64::MAX,
    ensures
        synthesized(*s, m.targets@, *old(counter) as nat, r@),
        *final(counter) == *old(counter) + m.targets@.len(),
{
    let mut out: Vec<SynthTest> = Vec::new();
    let mut k: usize = 0;
    while k < m.targets.len()
        invariant
            k <= m.targets@.len(),
            targets_in_range(*s, m.targets@),
            *counter == *old(counter) + k,
            *old(counter) + m.targets@.len() <= u64::MAX,
            synthesized(*s, m.targets@.take(k as int), *old(counter) as nat, out@),
        decreases m.targets@.len() - k,
    {
        let target = m.targets[k];
        let trait_name = match target {
            Target::Implied => s.trait_name.as_str(),
            Target::Explicit(i) => s.instantiations[i].as_str(),
        };
        let n = gensym(counter);
        let name = make_test_fn_name(trait_name, n);
        out.push(SynthTest { name, target });
        k = k + 1;
        assert(m.targets@.take(k as int).drop_last() =~= m.targets@.take(k - 1));
    }
    assert(m.targets@.take(k as int) =~= m.targets@);
    out
}

/// The payloads naming the concrete type and trait of a target.
pub open spec fn target_slots(t: Target) -> (Payload, Payload) {
    match t {
        Target::Implied => (Payload::SelfType, Payload::ImplTrait),
        Target::Explicit(i) => (Payload::Implementer(i), Payload::InterfacePath(i)),
    }
}

/// The function of one synthesized test: marked for discovery when
/// `discover`, it calls the hidden method as implemented by its target.
pub open spec fn test_fn(t: SynthTest, discover: bool) -> Seq<TokV> {
    (if discover {
        seq![code("#[test]")]
    } else {
        seq![]
    }) + seq![
        code("#[doc(hidden)] fn"),
        TokV::Code(t.name@),
        TokV::Open(Delim::Paren),
        TokV::Close(Delim::Paren),
        TokV::Open(Delim::Brace),
        code("<"),
        TokV::Slot(target_slots(t.target).0),
        code("as"),
        TokV::Slot(target_slots(t.target).1),
        code(">::"),
        TokV::Code(TEST_ALL_FN@),
        TokV::Open(Delim::Paren),
        TokV::Close(Delim::Paren),
        TokV::Close(Delim::Brace),
    ]
}

pub open spec fn test_fns(tests: Seq<SynthTest>, discover: bool) -> Seq<TokV>
    decreases tests.len(),
{
    if tests.len() == 0 {
        seq![]
    } else {
        test_fns(tests.drop_last(), discover) + test_fn(tests.last(), discover)
    }
}

/// Statements that call each synthesized test function, in order.
pub open spec fn direct_calls(tests: Seq<SynthTest>) -> Seq<TokV>
    decreases tests.len(),
{
    if tests.len() == 0 {
        seq![]
    } else {
        direct_calls(tests.drop_last()) + seq![
            TokV::Code(tests.last().name@),
            TokV::Open(Delim::Paren),
            TokV::Close(Delim::Paren),
            code(";"),
        ]
    }
}

/// The emitted code: the implementation, the test functions, and, when
/// discovery is opted out of, the statements that call them.
pub open spec fn impl_output(tests: Seq<SynthTest>, opt_out: bool) -> Seq<TokV> {
    seq![TokV::Slot(Payload::ImplItem)] + test_fns(tests, !opt_out) + if opt_out {
        direct_calls(tests)
    } else {
        seq![]
    }
}

fn push_test_fn(out: &mut Vec<Tok>, t: &SynthTest, discover: bool)
    ensures
        views(final(out)@) == views(old(out)@) + test_fn(*t, discover),
{
    if discover {
        push_code(out, "#[test]");
    }
    let (ty, tr) = match t.target {
        Target::Implied => (Payload::SelfType, Payload::ImplTrait),
        Target::Explicit(i) => (Payload::Implementer(i), Payload::InterfacePath(i)),
    };
    push_code(out, "#[doc(hidden)] fn");
    push_string(out, t.name.clone());
    push_open(out, Delim::Paren);
    push_close(out, Delim::Paren);
    push_open(out, Delim::Brace);
    push_code(out, "<");
    push_slot(out, ty);
    push_code(out, "as");
    push_slot(out, tr);
    push_code(out, ">::");
    push_code(out, TEST_ALL_FN);
    push_open(out, Delim::Paren);
    push_close(out, Delim::Paren);
    push_close(out, Delim::Brace);
    assert(views(out@) =~= views(old(out)@) + test_fn(*t, discover));
}

/// Emits the implementation followed by the synthesized test functions.
pub fn codegen(m: &ImplModel, tests: &Vec<SynthTest>) -> (r: Vec<Tok>)
    ensures
        views(r@) == impl_output(tests@, m.opt_out is Some),
{
    let opt_out = m.opt_out.is_some();
    let mut out: Vec<Tok> = Vec::new();
    push_slot(&mut out, Payload::ImplItem);
    let ghost head = views(out@);
    let mut i: usize = 0;
    while i < tests.len()
        invariant
            i <= tests@.len(),
            opt_out == m.opt_out is Some,
            views(out@) == head + test_fns(tests@.take(i as int), !opt_out),
        decreases tests@.len() - i,
    {
        assert(tests@.take(i + 1).drop_last() =~= tests@.take(i as int));
        push_test_fn(&mut out, &tests[i], !opt_out);
        assert(views(out@) =~= head + test_fns(tests@.take(i + 1), !opt_out));
        i = i + 1;
    }
    assert(tests@.take(i as int) =~= tests@);
    let ghost mid = views(out@);
    if opt_out {
        let mut j: usize = 0;
        while j < tests.len()
            invariant
                j <= tests@.len(),
                views(out@) == mid + direct_calls(tests@.take(j as int)),
            decreases tests@.len() - j,
        {
            assert(tests@.take(j + 1).drop_last() =~= tests@.take(j as int));
            push_string(&mut out, tests[j].name.clone());
            push_open(&mut out, Delim::Paren);
            push_close(&mut out, Delim::Paren);
            push_code(&mut out, ";");
            assert(views(out@) =~= mid + direct_calls(tests@.take(j + 1)));
            j = j + 1;
        }
        assert(tests@.take(j as int) =~= tests@);
    }
    assert(views(out@) =~= impl_output(tests@, opt_out));
    out
}

/// The code emitted for an implementation: its tests and the emitted tokens.
pub struct ImplOutput {
    pub tests: Vec<SynthTest>,
    pub tokens: Vec<Tok>,
    /// The attribute removed from the implementation, if any.
    pub opt_out: Option<usize>,
}

/// Instantiates the trait's tests for an implementation, numbering the
/// synthesized tests from the shared counter, or gives the reason it cannot.
pub fn test_impl(s: &ImplSyntax, counter: &mut u64) -> (r: Result<ImplOutput, InstantiateError>)
    requires
        *old(counter) + s.instantiations@.len() + 1 <= u64::MAX,
    ensures
        match impl_analysis(*s) {
            Ok((targets, opt_out)) => r matches Ok(o) && {
                &&& synthesized(*s, targets, *old(counter) as nat, o.tests@)
                &&& views(o.tokens@) == impl_output(o.tests@, opt_out is Some)
                &&& o.opt_out == opt_out
                &&& *final(counter) == *old(counter) + targets.len()
            },
            Err(e) => r matches Err(e2) && e2 == e && *final(counter) == *old(counter),
        },
{
    let m = analyze(s)?;
    let tests = lower(s, &m, counter);
    let tokens = codegen(&m, &tests);
    Ok(ImplOutput { tests, tokens, opt_out: m.opt_out })
}

/// A concrete implementation given an instantiation list is rejected; a
/// generic one given none is rejected with the missing-instantiations error;
/// a generic one given `n > 0` entries yields exactly `n` tests, one per
/// entry in order.
pub proof fn lemma_instantiation_rules(s: ImplSyntax)
    requires
        s.is_trait_impl,
        !s.negative,
    ensures
        !s.generic && s.instantiations@.len() > 0 ==> impl_analysis(s) == Err::<
            (Seq<Target>, Option<usize>),
            InstantiateError,
        >(InstantiateError::UnexpectedConcreteList),
        !s.generic && s.instantiations@.len() == 0 ==> (impl_analysis(s) matches Ok((t, _)) && t
            == seq![Target::Implied]),
        s.generic && s.instantiations@.len() == 0 ==> impl_analysis(s) == Err::<
            (Seq<Target>, Option<usize>),
            InstantiateError,
        >(InstantiateError::MissingInstantiations),
        s.generic && s.instantiations@.len() > 0 ==> (impl_analysis(s) matches Ok((t, _)) && t.len()
            == s.instantiations@.len() && forall|k: int|
            0 <= k < t.len() ==> #[trigger] t[k] == Target::Explicit(k as usize)),
{
}

/// Tests synthesized by two expansions that share a counter have distinct
/// names, even when their traits' final path segments coincide: the second
/// expansion starts where the first one left the counter.
pub proof fn lemma_expansions_have_distinct_names(
    s1: ImplSyntax,
    targets1: Seq<Target>,
    start1: nat,
    tests1: Seq<SynthTest>,
    s2: ImplSyntax,
    targets2: Seq<Target>,
    start2: nat,
    tests2: Seq<SynthTest>,
)
    requires
        synthesized(s1, targets1, start1, tests1),
        synthesized(s2, targets2, start2, tests2),
        start1 + targets1.len() <= start2,
    ensures
        forall|a: int, b: int|
            0 <= a < tests1.len() && 0 <= b < tests2.len() ==> #[trigger] tests1[a].name@
                != #[trigger] tests2[b].name@,
{
    assert forall|a: int, b: int| 0 <= a < tests1.len() && 0 <= b < tests2.len() implies #[trigger] tests1[a].name@
        != #[trigger] tests2[b].name@ by {
        crate::names::lemma_distinct_counters_give_distinct_names(
            target_trait_name(s1, targets1[a]),
            start1 + a as nat,
            target_trait_name(s2, targets2[b]),
            start2 + b as nat,
        );
    }
}

/// The tests synthesized by one expansion have distinct names.
pub proof fn lemma_expansion_names_distinct(s: ImplSyntax, targets: Seq<Target>, start: nat, tests: Seq<SynthTest>)
    requires
        synthesized(s, targets, start, tests),
    ensures
        forall|a: int, b: int|
            0 <= a < b < tests.len() ==> #[trigger] tests[a].name@ != #[trigger] tests[b].name@,
{
    assert forall|a: int, b: int| 0 <= a < b < tests.len() implies #[trigger] tests[a].name@
        != #[trigger] tests[b].name@ by {
        crate::names::lemma_distinct_counters_give_distinct_names(
            target_trait_name(s, targets[a]),
            start + a as nat,
            target_trait_name(s, targets[b]),
            start + b as nat,
        );
    }
}

/// The diagnostic for an error; `self_ty` and `trait_path` are the source
/// text of the implementation's self type and trait, used to suggest an
/// instantiation list.
pub open spec fn error_message(e: InstantiateError, self_ty: Seq<char>, trait_path: Seq<char>) -> Seq<char> {
    match e {
        InstantiateError::UnexpectedConstruct => "#[test_impl] can only be used to annotate trait implementations"@,
        InstantiateError::InvalidArguments => "#[test_impl] received invalid arguments"@,
        InstantiateError::UnsupportedNegativeImpl => "#[test_impl] does not support negative trait implementations"@,
        InstantiateError::UnexpectedConcreteList => "#[test_impl] on a non-generic impl does not support specifying concrete implementations"@,
        InstantiateError::MissingInstantiations => "#[test_impl] on a generic impl requires specifying concrete implementations with #[test_impl("@
            + self_ty + ": "@ + trait_path + ")]"@,
    }
}

impl InstantiateError {
    /// The diagnostic for this error.
    pub fn message(&self, self_ty: &str, trait_path: &str) -> (r: String)
        ensures
            r@ == error_message(*self, self_ty@, trait_path@),
    {
        match self {
            InstantiateError::UnexpectedConstruct => String::from_str(
                "#[test_impl] can only be used to annotate trait implementations",
            ),
            InstantiateError::InvalidArguments => String::from_str("#[test_impl] received invalid arguments"),
            InstantiateError::UnsupportedNegativeImpl => String::from_str(
                "#[test_impl] does not support negative trait implementations",
            ),
            InstantiateError::UnexpectedConcreteList => String::from_str(
                "#[test_impl] on a non-generic impl does not support specifying concrete implementations",
            ),
            InstantiateError::MissingInstantiations => {
                let mut m = String::from_str(
                    "#[test_impl] on a generic impl requires specifying concrete implementations with #[test_impl(",
                );
                m.append(self_ty);
                m.append(": ");
                m.append(trait_path);
                m.append(")]");
                m
            },
        }
    }

    /// A note that accompanies the diagnostic, pointing at the
    /// implementation's generic parameters.
    pub fn note(&self) -> (r: Option<String>)
        ensures
            r is Some <==> *self == InstantiateError::MissingInstantiations,
            r matches Some(n) ==> n@ == "associated tests for this generic implementation can only be instantiated for concrete types"@,
    {
        match self {
            InstantiateError::MissingInstantiations => Some(
                String::from_str(
                    "associated tests for this generic implementation can only be instantiated for concrete types",
                ),
            ),
            _ => None,
        }
    }
}

proof fn lemma_test_fn_neutral(t: SynthTest, discover: bool)
    ensures
        neutral(test_fn(t, discover)),
{
    assert forall|o: Seq<Delim>| #[trigger] nesting_from(o, test_fn(t, discover)) == Some(o) by {
        reveal_with_fuel(nesting_from, 16);
    }
}

proof fn lemma_test_fns_neutral(tests: Seq<SynthTest>, discover: bool)
    ensures
        neutral(test_fns(tests, discover)),
    decreases tests.len(),
{
    if tests.len() == 0 {
        lemma_neutral_empty();
    } else {
        lemma_test_fns_neutral(tests.drop_last(), discover);
        lemma_test_fn_neutral(tests.last(), discover);
        lemma_neutral_concat(test_fns(tests.drop_last(), discover), test_fn(tests.last(), discover));
    }
}

proof fn lemma_direct_calls_neutral(tests: Seq<SynthTest>)
    ensures
        neutral(direct_calls(tests)),
    decreases tests.len(),
{
    if tests.len() == 0 {
        lemma_neutral_empty();
    } else {
        lemma_direct_calls_neutral(tests.drop_last());
        let call = seq![
            TokV::Code(tests.last().name@),
            TokV::Open(Delim::Paren),
            TokV::Close(Delim::Paren),
            code(";"),
        ];
        assert forall|o: Seq<Delim>| #[trigger] nesting_from(o, call) == Some(o) by {
            reveal_with_fuel(nesting_from, 5);
        }
        lemma_neutral_concat(direct_calls(tests.drop_last()), call);
    }
}

/// The emitted code's template is well nested: every delimiter it opens is
/// closed by a matching one, so rendering it never fails for that reason.
pub proof fn lemma_impl_output_balanced(tests: Seq<SynthTest>, opt_out: bool)
    ensures
        balanced(impl_output(tests, opt_out)),
{
    let head = seq![TokV::Slot(Payload::ImplItem)];
    assert forall|o: Seq<Delim>| #[trigger] nesting_from(o, head) == Some(o) by {
        reveal_with_fuel(nesting_from, 2);
    }
    lemma_test_fns_neutral(tests, !opt_out);
    let calls = if opt_out {
        direct_calls(tests)
    } else {
        seq![]
    };
    if opt_out {
        lemma_direct_calls_neutral(tests);
    } else {
        lemma_neutral_empty();
    }
    lemma_neutral_concat(head, test_fns(tests, !opt_out));
    lemma_neutral_concat(head + test_fns(tests, !opt_out), calls);
    assert(impl_output(tests, opt_out) == head + test_fns(tests, !opt_out) + calls);
    lemma_neutral_balanced(impl_output(tests, opt_out));
}

} // verus!
