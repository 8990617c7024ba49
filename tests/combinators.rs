use parcomb::combinators::{
    ConcatParser, IgnoreLeftParser, IgnoreRightParser, MapParser, MaybeParser, OrParser,
    RepeatParser,
};
use parcomb::parser::Parser;
use parcomb::position::StrGenerator;

fn chars(s: &str) -> Vec<char> {
    s.chars().collect()
}

fn rest_of(g: &StrGenerator) -> String {
    g.get().iter().collect()
}

/// Maps an operator character to its code.
fn op_code(c: char) -> u8 {
    match c {
        '*' => 0,
        '/' => 1,
        '+' => 2,
        '-' => 3,
        _ => unreachable!(),
    }
}

/// Reads a run of decimal digits as a number.
fn number(ds: Vec<char>) -> u32 {
    ds.iter().fold(0, |n, d| n * 10 + d.to_digit(10).unwrap())
}

fn digit() -> OrParser<OrParser<OrParser<OrParser<OrParser<OrParser<OrParser<OrParser<OrParser<char, char>, char>, char>, char>, char>, char>, char>, char>, char> {
    let p = OrParser::new('0', '1');
    let p2 = OrParser::new(p, '2');
    let p3 = OrParser::new(p2, '3');
    let p4 = OrParser::new(p3, '4');
    let p5 = OrParser::new(p4, '5');
    let p6 = OrParser::new(p5, '6');
    let p7 = OrParser::new(p6, '7');
    let p8 = OrParser::new(p7, '8');
    OrParser::new(p8, '9')
}

#[test]
fn test_basic() {
    let num = MapParser::new(RepeatParser::new(digit(), Some(1)), number);
    let op = MapParser::new(
        OrParser::new(OrParser::new(OrParser::new('*', '/'), '+'), '-'),
        op_code,
    );
    let input = chars("12+34");
    let g = StrGenerator::new(&input);
    let expr = ConcatParser::new(num, ConcatParser::new(op, MapParser::new(RepeatParser::new(digit(), Some(1)), number)));
    let (end, (a, (o, b))) = expr.parse(g).unwrap();
    assert_eq!(a, 12);
    assert_eq!(o, 2);
    assert_eq!(b, 34);
    assert_eq!(end.len(), 0);

    let foo_bar = chars("foo_bar");
    let input = StrGenerator::new(&foo_bar);
    let (_, s) = Parser::parse(&"foo", input).unwrap();
    assert_eq!(s, "foo".to_string());
    let parse_foo_bar = ConcatParser::new("foo", ConcatParser::new('_', "bar"));
    let (_, v) = parse_foo_bar.parse(input).unwrap();
    assert_eq!(v, ("foo".to_string(), ('_', "bar".to_string())));
}

#[test]
fn test_ct() {
    let input = chars("abc");
    let g = StrGenerator::new(&input);
    let (_, tup2) = ConcatParser::new('a', 'b').parse(g).unwrap();
    let (a, b) = tup2;
    assert_eq!((a, b), ('a', 'b'));
    let (_, tup3) = ConcatParser::new('a', ConcatParser::new('b', 'c')).parse(g).unwrap();
    let (a, (b, c)) = tup3;
    assert_eq!(format!("{}{}{}", a, b, c), "abc");
}

#[test]
fn literal_char_matches_first() {
    let input = chars("abc");
    let g = StrGenerator::new(&input);
    let (next, c) = 'a'.parse(g).unwrap();
    assert_eq!(c, 'a');
    assert_eq!(rest_of(&next), "bc");
}

#[test]
fn literal_char_mismatch_keeps_position() {
    let input = chars("abc");
    let g = StrGenerator::new(&input);
    assert!('x'.parse(g).is_err());
    assert!('x'.parse(g).is_err());
    assert_eq!(rest_of(&g), "abc");
    let (next, c) = 'a'.parse(g).unwrap();
    assert_eq!(c, 'a');
    assert_eq!(rest_of(&next), "bc");
    let (again, c2) = 'a'.parse(g).unwrap();
    assert_eq!(c2, 'a');
    assert_eq!(rest_of(&again), "bc");
}

#[test]
fn literal_char_fails_at_end() {
    let input: Vec<char> = Vec::new();
    let g = StrGenerator::new(&input);
    assert!('a'.parse(g).is_err());
}

#[test]
fn literal_char_skips_multibyte() {
    let input = chars("éa");
    let g = StrGenerator::new(&input);
    let (next, c) = 'é'.parse(g).unwrap();
    assert_eq!(c, 'é');
    assert_eq!(rest_of(&next), "a");
}

#[test]
fn literal_str_matches_prefix() {
    let input = chars("foobar");
    let g = StrGenerator::new(&input);
    let (next, s) = Parser::parse(&"foo", g).unwrap();
    assert_eq!(s, "foo");
    assert_eq!(rest_of(&next), "bar");
}

#[test]
fn literal_str_mismatch_fails() {
    let input = chars("fobar");
    let g = StrGenerator::new(&input);
    assert!(Parser::parse(&"foo", g).is_err());
    let short = chars("fo");
    assert!(Parser::parse(&"foo", StrGenerator::new(&short)).is_err());
}

#[test]
fn literal_str_empty_consumes_nothing() {
    let input = chars("ab");
    let g = StrGenerator::new(&input);
    let (next, s) = Parser::parse(&"", g).unwrap();
    assert_eq!(s, "");
    assert_eq!(rest_of(&next), "ab");
}

#[test]
fn concat_char_then_str() {
    let input = chars("_bar");
    let g = StrGenerator::new(&input);
    let (next, v) = ConcatParser::new('_', "bar").parse(g).unwrap();
    assert_eq!(v, ('_', "bar".to_string()));
    assert_eq!(next.len(), 0);
}

#[test]
fn concat_fails_when_right_fails() {
    let input = chars("_baz");
    let g = StrGenerator::new(&input);
    assert!(ConcatParser::new('_', "bar").parse(g).is_err());
}

#[test]
fn ignore_left_agrees_with_concat() {
    let input = chars("_bar!");
    let g = StrGenerator::new(&input);
    let (n1, v) = IgnoreLeftParser::new('_', "bar").parse(g).unwrap();
    let (n2, (_, w)) = ConcatParser::new('_', "bar").parse(g).unwrap();
    assert_eq!(v, w);
    assert_eq!(v, "bar");
    assert_eq!(rest_of(&n1), rest_of(&n2));
    assert_eq!(rest_of(&n1), "!");
    let bad = chars("-bar");
    assert!(IgnoreLeftParser::new('_', "bar").parse(StrGenerator::new(&bad)).is_err());
}

#[test]
fn ignore_right_agrees_with_concat() {
    let input = chars("_bar!");
    let g = StrGenerator::new(&input);
    let (n1, v) = IgnoreRightParser::new('_', "bar").parse(g).unwrap();
    let (n2, (w, _)) = ConcatParser::new('_', "bar").parse(g).unwrap();
    assert_eq!(v, w);
    assert_eq!(v, '_');
    assert_eq!(rest_of(&n1), rest_of(&n2));
    let bad = chars("_baz");
    assert!(IgnoreRightParser::new('_', "bar").parse(StrGenerator::new(&bad)).is_err());
}

#[test]
fn or_retries_from_start() {
    let input = chars("ac");
    let g = StrGenerator::new(&input);
    let l = IgnoreLeftParser::new('a', 'b');
    let r = IgnoreLeftParser::new('a', 'c');
    let (next, c) = OrParser::new(l, r).parse(g).unwrap();
    assert_eq!(c, 'c');
    assert_eq!(next.len(), 0);
}

#[test]
fn or_prefers_left() {
    let input = chars("ab");
    let g = StrGenerator::new(&input);
    let (next, s) = OrParser::new("a", "ab").parse(g).unwrap();
    assert_eq!(s, "a");
    assert_eq!(rest_of(&next), "b");
    let none = chars("x");
    assert!(OrParser::new("a", "ab").parse(StrGenerator::new(&none)).is_err());
}

#[test]
fn maybe_wraps_success_and_keeps_failure() {
    let input = chars("ab");
    let g = StrGenerator::new(&input);
    let (next, v) = MaybeParser::new('a').parse(g).unwrap();
    assert_eq!(v, Some('a'));
    assert_eq!(rest_of(&next), "b");
    assert!(MaybeParser::new('x').parse(g).is_err());
}

#[test]
fn repeat_zero_matches_without_minimum() {
    let input = chars("bbb");
    let g = StrGenerator::new(&input);
    let (next, v) = RepeatParser::new('a', None).parse(g).unwrap();
    assert!(v.is_empty());
    assert_eq!(rest_of(&next), "bbb");
}

#[test]
fn repeat_collects_greedily() {
    let input = chars("aaab");
    let g = StrGenerator::new(&input);
    let (next, v) = RepeatParser::new('a', None).parse(g).unwrap();
    assert_eq!(v, vec!['a', 'a', 'a']);
    assert_eq!(rest_of(&next), "b");
}

#[test]
fn repeat_minimum_unmet_fails() {
    let input = chars("aab");
    let g = StrGenerator::new(&input);
    assert!(RepeatParser::new('a', Some(3)).parse(g).is_err());
}

#[test]
fn repeat_minimum_met_exactly() {
    let input = chars("aab");
    let g = StrGenerator::new(&input);
    let (next, v) = RepeatParser::new('a', Some(2)).parse(g).unwrap();
    assert_eq!(v, vec!['a', 'a']);
    assert_eq!(rest_of(&next), "b");
}

#[test]
fn repeat_stops_on_empty_match() {
    let input = chars("aab");
    let g = StrGenerator::new(&input);
    let inner = RepeatParser::new('a', None);
    let (next, v) = RepeatParser::new(inner, None).parse(g).unwrap();
    assert_eq!(v, vec![vec!['a', 'a']]);
    assert_eq!(rest_of(&next), "b");
}

#[test]
fn map_applies_on_success() {
    let input = chars("ab");
    let g = StrGenerator::new(&input);
    let (n1, v) = MapParser::new('a', |c: char| c as u32).parse(g).unwrap();
    let (n2, c) = 'a'.parse(g).unwrap();
    assert_eq!(v, c as u32);
    assert_eq!(v, 97);
    assert_eq!(rest_of(&n1), rest_of(&n2));
    assert!(MapParser::new('b', |c: char| c as u32).parse(g).is_err());
}

#[test]
fn position_forward_and_get() {
    let input = chars("héllo");
    let g = StrGenerator::new(&input);
    assert_eq!(g.len(), 5);
    assert_eq!(g.first(), Some('h'));
    let f = g.forward(2);
    assert_eq!(rest_of(&f), "llo");
    assert_eq!(rest_of(&g), "héllo");
    let end = g.forward(5);
    assert_eq!(end.first(), None);
    assert_eq!(end.len(), 0);
}
