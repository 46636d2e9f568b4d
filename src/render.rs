//! Rendering a token template into a `proc_macro2::TokenStream`: source text
//! is lexed, payloads are spliced in the order in which their slots appear,
//! and the tokens between matching delimiters are enclosed in groups.
use vstd::prelude::*;
use crate::template::{views, Delim, Tok, TokV};
use proc_macro2::{Delimiter, Group, TokenStream, TokenTree};
use std::str::FromStr;

verus! {

#[verifier::external_type_specification]
#[verifier::external_body]
pub struct ExTokenStream(proc_macro2::TokenStream);

/// A token of a stream, seen flat: a leaf (identifier, punctuation or
/// literal) by its text, or a group's opening or closing delimiter.
pub enum FlatTok {
    Leaf(Seq<char>),
    Open(Delim),
    Close(Delim),
}

/// The tokens of a stream, with each group flattened into its delimiters
/// around its contents.
pub uninterp spec fn flat(s: TokenStream) -> Seq<FlatTok>;

/// The tokens that lexing `src` gives, flattened as by [`flat`].
pub uninterp spec fn lexed(src: Seq<char>) -> Seq<FlatTok>;

/// The contents of each stream of a sequence.
pub open spec fn flats(v: Seq<TokenStream>) -> Seq<Seq<FlatTok>> {
    v.map_values(|t: TokenStream| flat(t))
}

/// Relies on `proc_macro2::TokenStream::new`: an empty stream.
#[verifier::external_body]
fn empty_stream() -> (r: TokenStream)
    ensures
        flat(r) == Seq::<FlatTok>::empty(),
{
    TokenStream::new()
}

/// Relies on `<proc_macro2::TokenStream as FromStr>::from_str`, which lexes
/// source text and fails on text that does not lex; what it gives depends on
/// the text alone.
#[verifier::external_body]
fn lex(src: &str) -> (r: Option<TokenStream>)
    ensures
        r matches Some(t) ==> flat(t) == lexed(src@),
{
    TokenStream::from_str(src).ok()
}

/// Relies on `proc_macro2::Group::new`, which encloses a stream in a pair of
/// delimiters, and on `From<TokenTree>`, which makes that group a stream.
#[verifier::external_body]
fn enclose(d: Delim, inner: TokenStream) -> (r: TokenStream)
    ensures
        flat(r) == seq![FlatTok::Open(d)] + flat(inner) + seq![FlatTok::Close(d)],
{
    let delimiter = match d {
        Delim::Brace => Delimiter::Brace,
        Delim::Paren => Delimiter::Parenthesis,
    };
    TokenStream::from(TokenTree::Group(Group::new(delimiter, inner)))
}

/// Relies on `Extend<TokenStream>` for `proc_macro2::TokenStream`, which
/// appends a stream.
#[verifier::external_body]
fn append(out: &mut TokenStream, more: TokenStream)
    ensures
        flat(*final(out)) == flat(*old(out)) + flat(more),
{
    out.extend(std::iter::once(more))
}

/// The delimiters left open after `t`, starting from those in `open`, or
/// `None` when `t` closes a group that is not the innermost one open.
pub open spec fn step(open: Seq<Delim>, t: TokV) -> Option<Seq<Delim>> {
    match t {
        TokV::Open(d) => Some(open.push(d)),
        TokV::Close(d) => if open.len() > 0 && open.last() == d {
            Some(open.drop_last())
        } else {
            None
        },
        _ => Some(open),
    }
}

/// The delimiters left open after a template, starting from those in
/// `open`, or `None` when a closing delimiter does not match.
pub open spec fn nesting_from(open: Seq<Delim>, s: Seq<TokV>) -> Option<Seq<Delim>>
    decreases s.len(),
{
    if s.len() == 0 {
        Some(open)
    } else {
        match nesting_from(open, s.drop_last()) {
            Some(o) => step(o, s.last()),
            None => None,
        }
    }
}

/// The delimiters left open after a template, or `None` when a closing
/// delimiter does not match.
pub open spec fn nesting(s: Seq<TokV>) -> Option<Seq<Delim>> {
    nesting_from(seq![], s)
}

/// Every delimiter of the template is closed by a matching one.
pub open spec fn balanced(s: Seq<TokV>) -> bool {
    nesting(s) == Some(Seq::<Delim>::empty())
}

/// The number of payload slots in a template.
pub open spec fn slot_count(s: Seq<TokV>) -> nat
    decreases s.len(),
{
    if s.len() == 0 {
        0
    } else {
        slot_count(s.drop_last()) + if s.last() is Slot {
            1nat
        } else {
            0nat
        }
    }
}

/// Why a template cannot be rendered.
#[derive(Clone, Copy, PartialEq, Eq, Structural, Debug)]
pub enum RenderError {
    /// The template's delimiters do not match.
    Unbalanced,
    /// Fewer payloads were given than the template has slots.
    MissingPayloads,
    /// The source text of the token at this index does not lex.
    Lex(usize),
}

proof fn lemma_nesting_none_stays(s: Seq<TokV>, k: int)
    requires
        0 <= k <= s.len(),
        nesting(s.take(k)) is None,
    ensures
        nesting(s) is None,
    decreases s.len() - k,
{
    if k < s.len() {
        assert(s.take(k + 1).drop_last() =~= s.take(k));
        lemma_nesting_none_stays(s, k + 1);
    } else {
        assert(s.take(k) =~= s);
    }
}

/// Checks that a template's delimiters match and that `n_payloads` payloads
/// fill its slots.
pub fn check_template(toks: &Vec<Tok>, n_payloads: usize) -> (r: Result<(), RenderError>)
    ensures
        !balanced(views(toks@)) ==> r == Err::<(), RenderError>(RenderError::Unbalanced),
        balanced(views(toks@)) && slot_count(views(toks@)) > n_payloads ==> r == Err::<(), RenderError>(
            RenderError::MissingPayloads,
        ),
        balanced(views(toks@)) && slot_count(views(toks@)) <= n_payloads ==> r is Ok,
{
    let ghost s = views(toks@);
    let mut open: Vec<Delim> = Vec::new();
    let mut slots: usize = 0;
    let mut i: usize = 0;
    while i < toks.len()
        invariant
            s == views(toks@),
            i <= toks@.len(),
            nesting(s.take(i as int)) == Some(open@),
            slots == slot_count(s.take(i as int)),
            slots <= i,
        decreases toks@.len() - i,
    {
        assert(s.take(i + 1).drop_last() =~= s.take(i as int));
        assert(s.take(i + 1).last() == toks@[i as int]@);
        match &toks[i] {
            Tok::Open(d) => {
                open.push(*d);
            },
            Tok::Close(d) => {
                if open.len() == 0 || open[open.len() - 1] != *d {
                    proof { lemma_nesting_none_stays(s, i + 1); }
                    return Err(RenderError::Unbalanced);
                }
                open.pop();
            },
            Tok::Slot(_) => {
                slots = slots + 1;
            },
            Tok::Code(_) => {},
        }
        i = i + 1;
    }
    assert(s.take(i as int) =~= s);
    if open.len() > 0 {
        return Err(RenderError::Unbalanced);
    }
    assert(open@ =~= Seq::<Delim>::empty());
    if slots > n_payloads {
        return Err(RenderError::MissingPayloads);
    }
    Ok(())
}

/// What a template token renders to, `payload` being the payload for a
/// slot.
pub open spec fn piece(t: TokV, payload: Seq<FlatTok>) -> Seq<FlatTok> {
    match t {
        TokV::Code(c) => lexed(c),
        TokV::Slot(_) => payload,
        TokV::Open(d) => seq![FlatTok::Open(d)],
        TokV::Close(d) => seq![FlatTok::Close(d)],
    }
}

/// What a template renders to: each text lexed, each slot filled with the
/// next of `payloads` in turn, each delimiter kept.
pub open spec fn rendered(s: Seq<TokV>, payloads: Seq<Seq<FlatTok>>) -> Seq<FlatTok>
    decreases s.len(),
{
    if s.len() == 0 {
        seq![]
    } else {
        rendered(s.drop_last(), payloads) + piece(s.last(), payloads[slot_count(s.drop_last()) as int])
    }
}

/// The streams of the groups being built, innermost last, joined by the
/// delimiters that opened them.
pub open spec fn interleave(fs: Seq<Seq<FlatTok>>, open: Seq<Delim>) -> Seq<FlatTok>
    decreases open.len(),
{
    if open.len() == 0 {
        fs[0]
    } else {
        interleave(fs.drop_last(), open.drop_last()) + seq![FlatTok::Open(open.last())] + fs.last()
    }
}

proof fn lemma_interleave_append(fs: Seq<Seq<FlatTok>>, open: Seq<Delim>, l: Seq<FlatTok>)
    requires
        fs.len() == open.len() + 1,
    ensures
        interleave(fs.update(fs.len() - 1, fs.last() + l), open) == interleave(fs, open) + l,
{
    let g = fs.update(fs.len() - 1, fs.last() + l);
    if open.len() == 0 {
        assert(g[0] == fs[0] + l);
    } else {
        assert(g.drop_last() =~= fs.drop_last());
        assert(g.last() == fs.last() + l);
        let x = interleave(fs.drop_last(), open.drop_last()) + seq![FlatTok::Open(open.last())];
        assert(x + (fs.last() + l) =~= (x + fs.last()) + l);
    }
}

fn append_to_top(streams: &mut Vec<TokenStream>, more: TokenStream)
    requires
        old(streams)@.len() > 0,
    ensures
        final(streams)@.len() == old(streams)@.len(),
        flats(final(streams)@) == flats(old(streams)@).update(
            old(streams)@.len() - 1,
            flats(old(streams)@).last() + flat(more),
        ),
{
    let ghost fs = flats(streams@);
    let mut top = streams.pop().unwrap();
    append(&mut top, more);
    streams.push(top);
    assert(flats(streams@) =~= fs.update(fs.len() - 1, fs.last() + flat(more)));
}

/// Renders a template, filling its slots with `payloads` in order. It
/// fails with `Unbalanced` or `MissingPayloads` exactly as
/// [`check_template`] does; otherwise it fails only where the text of a
/// `Code` token does not lex, and what it returns is the template rendered.
pub fn render(toks: &Vec<Tok>, payloads: Vec<TokenStream>) -> (r: Result<TokenStream, RenderError>)
    ensures
        !balanced(views(toks@)) ==> r matches Err(RenderError::Unbalanced),
        balanced(views(toks@)) && slot_count(views(toks@)) > payloads@.len() ==> r matches Err(
            RenderError::MissingPayloads,
        ),
        r matches Err(RenderError::Lex(i)) ==> i < toks@.len() && toks@[i as int] is Code,
        balanced(views(toks@)) && slot_count(views(toks@)) <= payloads@.len() ==> (r is Ok || r is Err
            && r->Err_0 is Lex),
        r matches Ok(out) ==> flat(out) == rendered(views(toks@), flats(payloads@)),
{
    check_template(toks, payloads.len())?;
    let ghost s = views(toks@);
    let ghost n = payloads@.len();
    let ghost pf = flats(payloads@);
    let mut rest = payloads;
    let mut open: Vec<Delim> = Vec::new();
    let mut streams: Vec<TokenStream> = Vec::new();
    streams.push(empty_stream());
    assert(interleave(flats(streams@), open@) =~= rendered(s.take(0), pf));
    let mut i: usize = 0;
    while i < toks.len()
        invariant
            s == views(toks@),
            balanced(s),
            slot_count(s) <= n,
            i <= toks@.len(),
            nesting(s.take(i as int)) == Some(open@),
            streams@.len() == open@.len() + 1,
            n == payloads@.len(),
            pf == flats(payloads@),
            rest@ == payloads@.subrange(slot_count(s.take(i as int)) as int, n as int),
            interleave(flats(streams@), open@) == rendered(s.take(i as int), pf),
        decreases toks@.len() - i,
    {
        assert(s.take(i + 1).drop_last() =~= s.take(i as int));
        assert(s.take(i + 1).last() == toks@[i as int]@);
        proof {
            if nesting(s.take(i + 1)) is None {
                lemma_nesting_none_stays(s, i + 1);
            }
            lemma_slot_count_prefix(s, i + 1);
        }
        let ghost k = slot_count(s.take(i as int));
        let ghost fs0 = flats(streams@);
        let ghost o0 = open@;
        let ghost before = rendered(s.take(i as int), pf);
        match &toks[i] {
            Tok::Open(d) => {
                open.push(*d);
                streams.push(empty_stream());
                proof {
                    assert(flats(streams@).drop_last() =~= fs0);
                    assert(open@.drop_last() =~= o0);
                    assert(interleave(flats(streams@), open@) =~= before + seq![FlatTok::Open(*d)]);
                }
            },
            Tok::Close(d) => {
                let inner = streams.pop().unwrap();
                open.pop();
                let group = enclose(*d, inner);
                append_to_top(&mut streams, group);
                proof {
                    let fsd = fs0.drop_last();
                    let od = o0.drop_last();
                    assert(flats(streams@) == fsd.update(fsd.len() - 1, fsd.last() + flat(group)));
                    assert(open@ =~= od);
                    lemma_interleave_append(fsd, od, flat(group));
                    let x = interleave(fsd, od) + seq![FlatTok::Open(*d)];
                    assert(interleave(flats(streams@), open@) =~= (x + fs0.last()) + seq![
                        FlatTok::Close(*d),
                    ]);
                }
            },
            Tok::Slot(_) => {
                let payload = rest.remove(0);
                proof {
                    assert(payload == payloads@[k as int]);
                    assert(pf[k as int] == flat(payload));
                }
                append_to_top(&mut streams, payload);
                proof {
                    lemma_interleave_append(fs0, o0, pf[k as int]);
                    assert(rest@ =~= payloads@.subrange(k + 1 as int, n as int));
                }
            },
            Tok::Code(text) => {
                match lex(text.as_str()) {
                    Some(lexed) => {
                        append_to_top(&mut streams, lexed);
                        proof {
                            lemma_interleave_append(fs0, o0, flat(lexed));
                        }
                    },
                    None => {
                        return Err(RenderError::Lex(i));
                    },
                }
            },
        }
        i = i + 1;
    }
    assert(s.take(i as int) =~= s);
    assert(open@ =~= Seq::<Delim>::empty());
    let out = streams.pop().unwrap();
    Ok(out)
}

proof fn lemma_slot_count_prefix(s: Seq<TokV>, k: int)
    requires
        0 <= k <= s.len(),
    ensures
        slot_count(s.take(k)) <= slot_count(s),
    decreases s.len() - k,
{
    if k < s.len() {
        assert(s.take(k + 1).drop_last() =~= s.take(k));
        lemma_slot_count_prefix(s, k + 1);
    } else {
        assert(s.take(k) =~= s);
    }
}

/// The template leaves the open delimiters as it found them.
pub open spec fn neutral(s: Seq<TokV>) -> bool {
    forall|o: Seq<Delim>| #[trigger] nesting_from(o, s) == Some(o)
}

pub proof fn lemma_nesting_concat(o: Seq<Delim>, a: Seq<TokV>, b: Seq<TokV>)
    ensures
        nesting_from(o, a + b) == match nesting_from(o, a) {
            Some(k) => nesting_from(k, b),
            None => None,
        },
    decreases b.len(),
{
    if b.len() == 0 {
        assert(a + b =~= a);
    } else {
        lemma_nesting_concat(o, a, b.drop_last());
        assert((a + b).drop_last() =~= a + b.drop_last());
        assert((a + b).last() == b.last());
    }
}

pub proof fn lemma_neutral_concat(a: Seq<TokV>, b: Seq<TokV>)
    requires
        neutral(a),
        neutral(b),
    ensures
        neutral(a + b),
{
    assert forall|o: Seq<Delim>| #[trigger] nesting_from(o, a + b) == Some(o) by {
        lemma_nesting_concat(o, a, b);
    }
}

pub proof fn lemma_neutral_empty()
    ensures
        neutral(Seq::<TokV>::empty()),
{
    assert forall|o: Seq<Delim>| #[trigger] nesting_from(o, Seq::<TokV>::empty()) == Some(o) by {}
}

pub proof fn lemma_neutral_balanced(s: Seq<TokV>)
    requires
        neutral(s),
    ensures
        balanced(s),
{
    assert(nesting_from(seq![], s) == Some(Seq::<Delim>::empty()));
}

} // verus!
