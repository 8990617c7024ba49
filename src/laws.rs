use vstd::prelude::*;

use crate::combinators::{
    lemma_apply_model, pure_fn, repeat_spec, returns_on, ConcatParser, IgnoreLeftParser,
    IgnoreRightParser, MapParser, OrParser, RepeatParser,
};
use crate::parser::{result_model, ParseResult, Parser};
use crate::position::StrGenerator;

verus! {

/// Parsing leaves a position usable as it was: two runs of the same parser
/// on positions with the same remaining input, such as one position used
/// twice, whether after a failure or not, give the same outcome.
pub proof fn lemma_parse_repeatable<'a, P: Parser>(
    p: P,
    g1: StrGenerator<'a>,
    g2: StrGenerator<'a>,
    r1: ParseResult<'a, P::Output>,
    r2: ParseResult<'a, P::Output>,
)
    requires
        g1@ == g2@,
        result_model(r1) == p.spec_parse(g1@),
        result_model(r2) == p.spec_parse(g2@),
    ensures
        result_model(r1) == result_model(r2),
{
}

/// Keeping only the right output changes nothing else: `IgnoreLeft(l, r)`
/// succeeds with `v` at the remaining input `rest` exactly when `Concat(l, r)`
/// succeeds with some pair `(a, v)` at `rest`.
pub proof fn lemma_ignore_left_is_concat<L: Parser, R: Parser>(
    l: L,
    r: R,
    s: Seq<char>,
    rest: Seq<char>,
    v: <R::Output as DeepView>::V,
)
    ensures
        (IgnoreLeftParser { l, r }).spec_parse(s) == Some((rest, v)) <==> exists|a: <L::Output as DeepView>::V|
            (ConcatParser { l, r }).spec_parse(s) == Some((rest, (a, v))),
{
    let il = IgnoreLeftParser { l, r };
    let c = ConcatParser { l, r };
    if il.spec_parse(s) == Some((rest, v)) {
        let a = l.spec_parse(s).unwrap().1;
        assert(c.spec_parse(s) == Some((rest, (a, v))));
    }
}

/// Keeping only the left output changes nothing else: `IgnoreRight(l, r)`
/// succeeds with `v` at the remaining input `rest` exactly when
/// `Concat(l, r)` succeeds with some pair `(v, b)` at `rest`.
pub proof fn lemma_ignore_right_is_concat<L: Parser, R: Parser>(
    l: L,
    r: R,
    s: Seq<char>,
    rest: Seq<char>,
    v: <L::Output as DeepView>::V,
)
    ensures
        (IgnoreRightParser { l, r }).spec_parse(s) == Some((rest, v)) <==> exists|b: <R::Output as DeepView>::V|
            (ConcatParser { l, r }).spec_parse(s) == Some((rest, (v, b))),
{
    let ir = IgnoreRightParser { l, r };
    let c = ConcatParser { l, r };
    if ir.spec_parse(s) == Some((rest, v)) {
        let mid = l.spec_parse(s).unwrap().0;
        let b = r.spec_parse(mid).unwrap().1;
        assert(c.spec_parse(s) == Some((rest, (v, b))));
    }
}

/// Choice backtracks fully: where `l` fails on the input `s`, `Or(l, r)`
/// behaves exactly as `r` does on the same, unconsumed input `s`.
pub proof fn lemma_or_retries_from_start<L: Parser, R: Parser<Output = L::Output>>(
    l: L,
    r: R,
    s: Seq<char>,
)
    requires
        l.spec_parse(s) is None,
    ensures
        (OrParser { l, r }).spec_parse(s) == r.spec_parse(s),
{
}

/// Where `p` matches zero times on `s`, repetition without a minimum
/// succeeds with no values and leaves the input as it was.
pub proof fn lemma_repeat_zero_matches<P: Parser>(p: P, s: Seq<char>)
    requires
        p.spec_parse(s) is None,
    ensures
        (RepeatParser { p, limit: None }).spec_parse(s) == Some((s, Seq::<<P::Output as DeepView>::V>::empty())),
{
    assert(repeat_spec(&p, s) == (Seq::<<P::Output as DeepView>::V>::empty(), s));
}

/// Repetition with a minimum `n` fails exactly when fewer than `n`
/// applications succeeded before the repetition stopped.
pub proof fn lemma_repeat_minimum<P: Parser>(p: P, n: usize, s: Seq<char>)
    ensures
        (RepeatParser { p, limit: Some(n) }).spec_parse(s) is None <==> repeat_spec(&p, s).0.len() < n,
{
}

/// Transform commutes with success and failure: where `p` succeeds on `s`
/// with `(rest, v)` and `f` returns `b` on a value whose model is `v`,
/// `Map(p, f)` succeeds with `(rest, b)`; where `p` fails, so does
/// `Map(p, f)`.
pub proof fn lemma_map_applies<P: Parser, B: DeepView, F: Fn(P::Output) -> B>(
    m: MapParser<P, F, B>,
    s: Seq<char>,
    a: P::Output,
    b: B,
)
    requires
        pure_fn(m.f),
        m.f.ensures((a,), b),
    ensures
        m.p.spec_parse(s) is None ==> m.spec_parse(s) is None,
        forall|rest: Seq<char>|
            m.p.spec_parse(s) == Some((rest, a.deep_view())) ==> #[trigger] m.spec_parse(s) == Some(
                (rest, b.deep_view()),
            ),
{
    assert(returns_on(m.f, a.deep_view(), b));
    lemma_apply_model(m.f, a.deep_view(), b);
}

} // verus!
