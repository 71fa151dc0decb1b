use vstd::prelude::*;

verus! {

/// A half-open byte-offset range into the source text.  Every syntax node and
/// every typed node carries one, and checking never synthesizes or merges
/// spans: a typed node keeps the span of the syntax node it came from.
#[derive(Clone, Copy, PartialEq, Eq, Structural, Debug)]
pub struct Span {
    pub start: usize,
    pub end: usize,
}

/// A value paired with the span of the source text it came from.
pub type Spanned<T> = (T, Span);

} // verus!
