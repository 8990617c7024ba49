use vstd::prelude::*;
use vstd::slice::slice_subrange;

verus! {

/// An immutable cursor over the unconsumed part of a character sequence.
///
/// Copying a position copies a slice reference only: the input itself is
/// never duplicated, so backtracking combinators can keep a position and
/// retry from it cheaply.
#[derive(Clone, Copy)]
pub struct StrGenerator<'a> {
    st: &'a [char],
}

impl<'a> View for StrGenerator<'a> {
    type V = Seq<char>;

    /// The remaining, unconsumed input.
    closed spec fn view(&self) -> Seq<char> {
        self.st@
    }
}

impl<'a> StrGenerator<'a> {
    /// A position at the start of `input`.
    pub fn new(input: &'a [char]) -> (r: StrGenerator<'a>)
        ensures
            r@ == input@,
    {
        StrGenerator { st: input }
    }

    /// The position `offset` elements further on.
    pub fn forward(&self, offset: usize) -> (r: StrGenerator<'a>)
        requires
            offset <= self@.len(),
        ensures
            r@ == self@.subrange(offset as int, self@.len() as int),
    {
        StrGenerator { st: slice_subrange(self.st, offset, self.st.len()) }
    }

    /// The remaining, unconsumed input.
    pub fn get(&self) -> (r: &'a [char])
        ensures
            r@ == self@,
    {
        self.st
    }

    /// How many elements remain.
    pub fn len(&self) -> (r: usize)
        ensures
            r == self@.len(),
    {
        self.st.len()
    }

    /// The first remaining element, if any.
    pub fn first(&self) -> (r: Option<char>)
        ensures
            r == (if self@.len() > 0 { Some(self@[0]) } else { None::<char> }),
    {
        if self.st.len() > 0 {
            Some(self.st[0])
        } else {
            None
        }
    }
}

} // verus!
