use vstd::prelude::*;

use core::marker::PhantomData;

use crate::parser::{ParseResult, Parser};
use crate::position::StrGenerator;

verus! {

/// Sequence: runs `l`, then `r` from where `l` stopped, and yields both
/// outputs as a pair. Fails as soon as either part fails.
pub struct ConcatParser<L, R> {
    pub l: L,
    pub r: R,
}

impl<L: Parser, R: Parser> ConcatParser<L, R> {
    pub fn new(l: L, r: R) -> (p: Self)
        ensures
            p.l == l,
            p.r == r,
    {
        ConcatParser { l, r }
    }
}

impl<L: Parser, R: Parser> Parser for ConcatParser<L, R> {
    type Output = (L::Output, R::Output);

    open spec fn wf(&self) -> bool {
        self.l.wf() && self.r.wf()
    }

    open spec fn spec_parse(&self, s: Seq<char>) -> Option<(Seq<char>, (<L::Output as DeepView>::V, <R::Output as DeepView>::V))> {
        match self.l.spec_parse(s) {
            Some((mid, a)) => match self.r.spec_parse(mid) {
                Some((rest, b)) => Some((rest, (a, b))),
                None => None,
            },
            None => None,
        }
    }

    fn parse<'a>(&self, input: StrGenerator<'a>) -> (r: ParseResult<'a, (L::Output, R::Output)>) {
        let (mid, a) = match self.l.parse(input) {
            Ok(x) => x,
            Err(()) => return Err(()),
        };
        let (rest, b) = match self.r.parse(mid) {
            Ok(x) => x,
            Err(()) => return Err(()),
        };
        Ok((rest, (a, b)))
    }
}

/// The outputs collected by applying `p` repeatedly from `s`, and the input
/// left after the last application that consumed something.
///
/// Repetition stops at the first application that fails, and also at one
/// that succeeds without consuming input: repeating that one could never
/// end, so its value is not collected and its position is not taken.
pub open spec fn repeat_spec<P: Parser>(p: &P, s: Seq<char>) -> (Seq<<P::Output as DeepView>::V>, Seq<char>)
    decreases s.len(),
{
    match p.spec_parse(s) {
        Some((rest, v)) => if rest.len() < s.len() {
            let (vs, end) = repeat_spec(p, rest);
            (seq![v] + vs, end)
        } else {
            (Seq::empty(), s)
        },
        None => (Seq::empty(), s),
    }
}

/// Repetition: applies `p` greedily, each time from where the previous
/// application stopped, and collects the outputs in order. It succeeds at the
/// position of the last successful application, unless `limit` holds a
/// minimum count that was not reached, in which case it fails.
pub struct RepeatParser<P> {
    pub p: P,
    pub limit: Option<usize>,
}

impl<P: Parser> RepeatParser<P> {
    pub fn new(p: P, limit: Option<usize>) -> (r: Self)
        ensures
            r.p == p,
            r.limit == limit,
    {
        RepeatParser { p, limit }
    }
}

impl<P: Parser> Parser for RepeatParser<P> {
    type Output = Vec<P::Output>;

    open spec fn wf(&self) -> bool {
        self.p.wf()
    }

    open spec fn spec_parse(&self, s: Seq<char>) -> Option<(Seq<char>, Seq<<P::Output as DeepView>::V>)> {
        let (vs, end) = repeat_spec(&self.p, s);
        match self.limit {
            Some(n) => if vs.len() >= n {
                Some((end, vs))
            } else {
                None
            },
            None => Some((end, vs)),
        }
    }

    fn parse<'a>(&self, input: StrGenerator<'a>) -> (r: ParseResult<'a, Vec<P::Output>>) {
        let mut vec: Vec<P::Output> = Vec::new();
        let mut pos = input;
        assert(vec.deep_view() + repeat_spec(&self.p, pos@).0 =~= repeat_spec(&self.p, pos@).0);
        loop
            invariant
                self.p.wf(),
                repeat_spec(&self.p, input@) == (
                    vec.deep_view() + repeat_spec(&self.p, pos@).0,
                    repeat_spec(&self.p, pos@).1,
                ),
            ensures
                repeat_spec(&self.p, input@) == (vec.deep_view(), pos@),
            decreases pos@.len(),
        {
            match self.p.parse(pos) {
                Ok((next, v)) => {
                    if next.len() < pos.len() {
                        let ghost old_vec = vec.deep_view();
                        let ghost vm = v.deep_view();
                        vec.push(v);
                        assert(vec.deep_view() =~= old_vec.push(vm));
                        assert(old_vec + repeat_spec(&self.p, pos@).0 =~= vec.deep_view()
                            + repeat_spec(&self.p, next@).0);
                        pos = next;
                    } else {
                        assert(vec.deep_view() + repeat_spec(&self.p, pos@).0 =~= vec.deep_view());
                        break;
                    }
                },
                Err(()) => {
                    assert(vec.deep_view() + repeat_spec(&self.p, pos@).0 =~= vec.deep_view());
                    break;
                },
            }
        }
        match self.limit {
            Some(n) => {
                if vec.len() >= n {
                    Ok((pos, vec))
                } else {
                    Err(())
                }
            },
            None => Ok((pos, vec)),
        }
    }
}

/// Sequence that keeps the right output: runs `l`, then `r` from where `l`
/// stopped, and yields only the output of `r`. Both must succeed.
pub struct IgnoreLeftParser<L, R> {
    pub l: L,
    pub r: R,
}

impl<L: Parser, R: Parser> IgnoreLeftParser<L, R> {
    pub fn new(l: L, r: R) -> (p: Self)
        ensures
            p.l == l,
            p.r == r,
    {
        IgnoreLeftParser { l, r }
    }
}

impl<L: Parser, R: Parser> Parser for IgnoreLeftParser<L, R> {
    type Output = R::Output;

    open spec fn wf(&self) -> bool {
        self.l.wf() && self.r.wf()
    }

    open spec fn spec_parse(&self, s: Seq<char>) -> Option<(Seq<char>, <R::Output as DeepView>::V)> {
        match self.l.spec_parse(s) {
            Some((mid, _)) => self.r.spec_parse(mid),
            None => None,
        }
    }

    fn parse<'a>(&self, input: StrGenerator<'a>) -> (r: ParseResult<'a, R::Output>) {
        let (mid, _a) = match self.l.parse(input) {
            Ok(x) => x,
            Err(()) => return Err(()),
        };
        let (rest, b) = match self.r.parse(mid) {
            Ok(x) => x,
            Err(()) => return Err(()),
        };
        Ok((rest, b))
    }
}

/// Sequence that keeps the left output: runs `l`, then `r` from where `l`
/// stopped, and yields only the output of `l`. Both must succeed.
pub struct IgnoreRightParser<L, R> {
    pub l: L,
    pub r: R,
}

impl<L: Parser, R: Parser> IgnoreRightParser<L, R> {
    pub fn new(l: L, r: R) -> (p: Self)
        ensures
            p.l == l,
            p.r == r,
    {
        IgnoreRightParser { l, r }
    }
}

impl<L: Parser, R: Parser> Parser for IgnoreRightParser<L, R> {
    type Output = L::Output;

    open spec fn wf(&self) -> bool {
        self.l.wf() && self.r.wf()
    }

    open spec fn spec_parse(&self, s: Seq<char>) -> Option<(Seq<char>, <L::Output as DeepView>::V)> {
        match self.l.spec_parse(s) {
            Some((mid, a)) => match self.r.spec_parse(mid) {
                Some((rest, _)) => Some((rest, a)),
                None => None,
            },
            None => None,
        }
    }

    fn parse<'a>(&self, input: StrGenerator<'a>) -> (r: ParseResult<'a, L::Output>) {
        let (mid, a) = match self.l.parse(input) {
            Ok(x) => x,
            Err(()) => return Err(()),
        };
        let (rest, _b) = match self.r.parse(mid) {
            Ok(x) => x,
            Err(()) => return Err(()),
        };
        Ok((rest, a))
    }
}

/// Left-biased choice: tries `l`; if it fails, tries `r` from the very same
/// position and returns whatever `r` gives.
pub struct OrParser<L, R> {
    pub l: L,
    pub r: R,
}

impl<L: Parser, R: Parser<Output = L::Output>> OrParser<L, R> {
    pub fn new(l: L, r: R) -> (p: Self)
        ensures
            p.l == l,
            p.r == r,
    {
        OrParser { l, r }
    }
}

impl<L: Parser, R: Parser<Output = L::Output>> Parser for OrParser<L, R> {
    type Output = L::Output;

    open spec fn wf(&self) -> bool {
        self.l.wf() && self.r.wf()
    }

    open spec fn spec_parse(&self, s: Seq<char>) -> Option<(Seq<char>, <L::Output as DeepView>::V)> {
        match self.l.spec_parse(s) {
            Some(x) => Some(x),
            None => self.r.spec_parse(s),
        }
    }

    fn parse<'a>(&self, input: StrGenerator<'a>) -> (r: ParseResult<'a, L::Output>) {
        match self.l.parse(input) {
            Ok(x) => Ok(x),
            Err(()) => self.r.parse(input),
        }
    }
}

/// Wraps the output of `p` in `Some`. This is not "zero or one": where `p`
/// fails, this parser fails too.
pub struct MaybeParser<P> {
    pub p: P,
}

impl<P: Parser> MaybeParser<P> {
    pub fn new(p: P) -> (r: Self)
        ensures
            r.p == p,
    {
        MaybeParser { p }
    }
}

impl<P: Parser> Parser for MaybeParser<P> {
    type Output = Option<P::Output>;

    open spec fn wf(&self) -> bool {
        self.p.wf()
    }

    open spec fn spec_parse(&self, s: Seq<char>) -> Option<(Seq<char>, Option<<P::Output as DeepView>::V>)> {
        match self.p.spec_parse(s) {
            Some((rest, v)) => Some((rest, Some(v))),
            None => None,
        }
    }

    fn parse<'a>(&self, input: StrGenerator<'a>) -> (r: ParseResult<'a, Option<P::Output>>) {
        match self.p.parse(input) {
            Ok((rest, v)) => Ok((rest, Some(v))),
            Err(()) => Err(()),
        }
    }
}

/// Whether `f` can serve as a transform: it accepts every argument, and
/// arguments with the same model give results with the same model.
pub open spec fn pure_fn<A: DeepView, B: DeepView, F: Fn(A) -> B>(f: F) -> bool {
    &&& forall|a: A| #[trigger] f.requires((a,))
    &&& forall|a1: A, a2: A, b1: B, b2: B|
        a1.deep_view() == a2.deep_view() && #[trigger] f.ensures((a1,), b1) && #[trigger] f.ensures(
            (a2,),
            b2,
        ) ==> b1.deep_view() == b2.deep_view()
}

/// Whether `f` may return `b` on some argument whose model is `v`.
pub open spec fn returns_on<A: DeepView, B: DeepView, F: Fn(A) -> B>(f: F, v: A::V, b: B) -> bool {
    exists|a: A| a.deep_view() == v && #[trigger] f.ensures((a,), b)
}

/// The model of what `f` returns on an argument whose model is `v`.
pub open spec fn apply_model<A: DeepView, B: DeepView, F: Fn(A) -> B>(f: F, v: A::V) -> B::V {
    (choose|b: B| #[trigger] returns_on(f, v, b)).deep_view()
}

/// Transform: runs `p` and applies `f` to its output, keeping the position
/// that `p` reached; a failure of `p` passes through.
pub struct MapParser<P, F, B> {
    pub p: P,
    pub f: F,
    pub out: PhantomData<B>,
}

impl<P: Parser, B: DeepView, F: Fn(P::Output) -> B> MapParser<P, F, B> {
    pub fn new(p: P, f: F) -> (r: Self)
        ensures
            r.p == p,
            r.f == f,
            r.wf() == (p.wf() && pure_fn(f)),
            forall|s: Seq<char>| #[trigger] r.spec_parse(s) == match p.spec_parse(s) {
                Some((rest, v)) => Some((rest, apply_model(f, v))),
                None => None,
            },
    {
        MapParser { p, f, out: PhantomData }
    }
}

impl<P: Parser, B: DeepView, F: Fn(P::Output) -> B> Parser for MapParser<P, F, B> {
    type Output = B;

    open spec fn wf(&self) -> bool {
        self.p.wf() && pure_fn(self.f)
    }

    open spec fn spec_parse(&self, s: Seq<char>) -> Option<(Seq<char>, B::V)> {
        match self.p.spec_parse(s) {
            Some((rest, v)) => Some((rest, apply_model(self.f, v))),
            None => None,
        }
    }

    fn parse<'a>(&self, input: StrGenerator<'a>) -> (r: ParseResult<'a, B>) {
        match self.p.parse(input) {
            Ok((rest, v)) => {
                let ghost vm = v.deep_view();
                let b = (self.f)(v);
                proof {
                    assert(returns_on(self.f, vm, b));
                    lemma_apply_model(self.f, vm, b);
                }
                Ok((rest, b))
            },
            Err(()) => Err(()),
        }
    }
}

/// For a transform function, the model of any result it gives equals
/// `apply_model` at the model of the argument it was given.
pub proof fn lemma_apply_model<A: DeepView, B: DeepView, F: Fn(A) -> B>(f: F, v: A::V, b: B)
    requires
        pure_fn(f),
        returns_on(f, v, b),
    ensures
        apply_model(f, v) == b.deep_view(),
{
    let a = choose|a: A| a.deep_view() == v && #[trigger] f.ensures((a,), b);
    let b2 = choose|b2: B| #[trigger] returns_on(f, v, b2);
    let a2 = choose|a2: A| a2.deep_view() == v && #[trigger] f.ensures((a2,), b2);
    assert(f.ensures((a2,), b2) && f.ensures((a,), b));
}

} // verus!
