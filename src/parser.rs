use vstd::prelude::*;

use vstd::std_specs::iter::IteratorSpec;

use crate::position::StrGenerator;

verus! {

/// The outcome of running a parser: the position reached and the output, or
/// a failure that carries nothing.
pub type ParseResult<'a, O> = Result<(StrGenerator<'a>, O), ()>;

/// The mathematical content of a [`ParseResult`]: the remaining input and the
/// model of the output on success, `None` on failure.
pub open spec fn result_model<'a, O: DeepView>(r: ParseResult<'a, O>) -> Option<(Seq<char>, O::V)> {
    match r {
        Ok((g, v)) => Some((g@, v.deep_view())),
        Err(_) => None,
    }
}

/// A parser: a pure capability that, given a position, either succeeds with
/// the position it reached and a value, or fails.
///
/// `spec_parse` says what the parser does on a remaining input; `parse` is
/// proved to do exactly that. Since the result depends on the remaining input
/// alone, running a parser twice on the same position gives the same outcome.
pub trait Parser {
    type Output: DeepView;

    /// What `parse` needs of the parser itself. It holds of the literal
    /// matchers and is kept by every combinator; a transform asks that its
    /// function be total and give results that depend on its argument's model
    /// alone.
    spec fn wf(&self) -> bool;

    /// On the remaining input `s`: the input left after a success together
    /// with the model of the output, or `None` where the parser fails.
    spec fn spec_parse(&self, s: Seq<char>) -> Option<(Seq<char>, <Self::Output as DeepView>::V)>;

    fn parse<'a>(&self, input: StrGenerator<'a>) -> (r: ParseResult<'a, Self::Output>)
        requires
            self.wf(),
        ensures
            result_model(r) == self.spec_parse(input@),
    ;
}

/// A literal character matches the first remaining character when the two
/// are equal, and consumes exactly it.
impl Parser for char {
    type Output = char;

    open spec fn wf(&self) -> bool {
        true
    }

    open spec fn spec_parse(&self, s: Seq<char>) -> Option<(Seq<char>, char)> {
        if s.len() > 0 && s[0] == *self {
            Some((s.drop_first(), *self))
        } else {
            None
        }
    }

    fn parse<'a>(&self, input: StrGenerator<'a>) -> (r: ParseResult<'a, char>) {
        match input.first() {
            Some(c) => {
                if c == *self {
                    Ok((input.forward(1), c))
                } else {
                    Err(())
                }
            },
            None => Err(()),
        }
    }
}

/// Whether `lit` is a prefix of `s`.
pub open spec fn starts_with(s: Seq<char>, lit: Seq<char>) -> bool {
    lit.len() <= s.len() && s.subrange(0, lit.len() as int) == lit
}

/// A literal string matches when the remaining input starts with it; it
/// consumes the literal and yields an owned copy of it.
impl<'s> Parser for &'s str {
    type Output = String;

    open spec fn wf(&self) -> bool {
        true
    }

    open spec fn spec_parse(&self, s: Seq<char>) -> Option<(Seq<char>, Seq<char>)> {
        if starts_with(s, self@) {
            Some((s.skip(self@.len() as int), self@))
        } else {
            None
        }
    }

    fn parse<'a>(&self, input: StrGenerator<'a>) -> (r: ParseResult<'a, String>) {
        let rest = input.get();
        let mut it = self.chars();
        let mut i: usize = 0;
        loop
            invariant
                i <= rest@.len(),
                rest@ == input@,
                it.remaining() == self@.skip(i as int),
                i <= self@.len(),
                rest@.subrange(0, i as int) == self@.subrange(0, i as int),
            ensures
                i == self@.len(),
                rest@.subrange(0, i as int) == self@.subrange(0, i as int),
            decreases self@.len() - i,
        {
            match it.next() {
                Some(c) => {
                    if i < rest.len() && rest[i] == c {
                        assert(rest@.subrange(0, i + 1) =~= self@.subrange(0, i + 1)) by {
                            assert(rest@.subrange(0, i + 1) =~= rest@.subrange(0, i as int).push(c));
                            assert(self@.subrange(0, i + 1) =~= self@.subrange(0, i as int).push(c));
                        }
                        i = i + 1;
                    } else {
                        assert(!starts_with(input@, self@)) by {
                            if starts_with(input@, self@) {
                                assert(rest@.subrange(0, self@.len() as int)[i as int] == rest@[i as int]);
                            }
                        }
                        return Err(());
                    }
                },
                None => {
                    assert(self@.skip(i as int).len() == 0);
                    break;
                },
            }
        }
        assert(self@.subrange(0, i as int) =~= self@);
        Ok((input.forward(i), (*self).to_owned()))
    }
}

} // verus!
