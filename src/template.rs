//! Flat token templates.
//!
//! Generated code is described as a sequence of tokens: fixed source text,
//! opaque payloads taken from the input, and the delimiters that open and
//! close groups. A renderer lexes each piece of text, substitutes each
//! payload, and nests the pieces between matching delimiters.
use vstd::prelude::*;

verus! {

/// A group delimiter.
#[derive(PartialEq, Eq, Structural, Clone, Copy, Debug)]
pub enum Delim {
    Brace,
    Paren,
}

/// A piece of input syntax carried through unchanged. Indices into a trait
/// name its items; indices into an instantiation list name its entries.
#[derive(PartialEq, Eq, Structural, Clone, Copy, Debug)]
pub enum Payload {
    /// The trait's identifier.
    TraitName,
    /// The identifier of the test function at this item index.
    TestName(usize),
    /// The body block of the test function at this item index.
    TestBody(usize),
    /// The declared return type of the test function at this item index.
    TestOutput(usize),
    /// The `where` predicates of the test function at this item index, each
    /// followed by a comma.
    TestBounds(usize),
    /// The value of attribute `.1` of the test function at item index `.0`:
    /// the value of `#[a = v]`, or of `v` in `#[a(k = v)]`.
    AttrValue(usize, usize),
    /// The annotated implementation, without the attribute that was
    /// recognised as the discovery opt-out marker.
    ImplItem,
    /// The implementation's self type.
    SelfType,
    /// The implementation's trait path.
    ImplTrait,
    /// The type of the explicit instantiation at this index.
    Implementer(usize),
    /// The trait path of the explicit instantiation at this index.
    InterfacePath(usize),
}

/// One token of a template.
#[derive(Clone, Debug, PartialEq, Eq)]
pub enum Tok {
    /// Source text that lexes on its own into balanced tokens.
    Code(String),
    Slot(Payload),
    Open(Delim),
    Close(Delim),
}

/// The mathematical value of a [`Tok`].
pub enum TokV {
    Code(Seq<char>),
    Slot(Payload),
    Open(Delim),
    Close(Delim),
}

impl View for Tok {
    type V = TokV;

    open spec fn view(&self) -> TokV {
        match self {
            Tok::Code(s) => TokV::Code(s@),
            Tok::Slot(p) => TokV::Slot(*p),
            Tok::Open(d) => TokV::Open(*d),
            Tok::Close(d) => TokV::Close(*d),
        }
    }
}

/// The values of a sequence of tokens.
pub open spec fn views(s: Seq<Tok>) -> Seq<TokV> {
    s.map_values(|t: Tok| t@)
}

pub open spec fn code(s: &str) -> TokV {
    TokV::Code(s@)
}

/// Appends fixed source text.
pub fn push_code(out: &mut Vec<Tok>, s: &str)
    ensures
        views(final(out)@) == views(old(out)@).push(TokV::Code(s@)),
{
    out.push(Tok::Code(String::from_str(s)));
    proof {
        assert(views(final(out)@) =~= views(old(out)@).push(TokV::Code(s@)));
    }
}

/// Appends source text held in a string.
pub fn push_string(out: &mut Vec<Tok>, s: String)
    ensures
        views(final(out)@) == views(old(out)@).push(TokV::Code(s@)),
{
    let ghost v = s@;
    out.push(Tok::Code(s));
    proof {
        assert(views(final(out)@) =~= views(old(out)@).push(TokV::Code(v)));
    }
}

/// Appends a payload.
pub fn push_slot(out: &mut Vec<Tok>, p: Payload)
    ensures
        views(final(out)@) == views(old(out)@).push(TokV::Slot(p)),
{
    out.push(Tok::Slot(p));
    proof {
        assert(views(final(out)@) =~= views(old(out)@).push(TokV::Slot(p)));
    }
}

/// Appends an opening delimiter.
pub fn push_open(out: &mut Vec<Tok>, d: Delim)
    ensures
        views(final(out)@) == views(old(out)@).push(TokV::Open(d)),
{
    out.push(Tok::Open(d));
    proof {
        assert(views(final(out)@) =~= views(old(out)@).push(TokV::Open(d)));
    }
}

/// Appends a closing delimiter.
pub fn push_close(out: &mut Vec<Tok>, d: Delim)
    ensures
        views(final(out)@) == views(old(out)@).push(TokV::Close(d)),
{
    out.push(Tok::Close(d));
    proof {
        assert(views(final(out)@) =~= views(old(out)@).push(TokV::Close(d)));
    }
}

} // verus!
