use parsecomb::{Parse, Parser};

fn session(document: &str) -> Parser {
    Parser {
        document: document.to_string(),
        dtdgenentities: Default::default(),
    }
}

#[test]
fn pair_reports_the_first_failure() {
    let mut doc = session("<doc>");
    let first_fails = doc.pair(doc.tag("x"), doc.tag("doc"));
    assert_eq!(Err(0), first_fails.parse(&mut doc, 0));
    let second_fails = doc.pair(doc.tag("<"), doc.tag("x"));
    assert_eq!(Err(1), second_fails.parse(&mut doc, 0));
    let inner_fails = doc.pair(doc.tag("<"), doc.pair(doc.tag("doc"), doc.tag("x")));
    assert_eq!(Err(4), inner_fails.parse(&mut doc, 0));
}

#[test]
fn pair_threads_the_cursor_and_keeps_both_values() {
    let mut doc = session("key=value;");
    let parser = doc.pair(doc.take_until("="), doc.pair(doc.tag("="), doc.take_until(";")));
    assert_eq!(
        Ok((9, ("key".to_string(), ((), "value".to_string())))),
        parser.parse(&mut doc, 0)
    );
}

#[test]
fn tuple3_reports_the_first_failure() {
    let mut doc = session("<doc>");
    let first = doc.tuple3(doc.tag("x"), doc.tag("doc"), doc.tag(">"));
    assert_eq!(Err(0), first.parse(&mut doc, 0));
    let second = doc.tuple3(doc.tag("<"), doc.tag("x"), doc.tag(">"));
    assert_eq!(Err(1), second.parse(&mut doc, 0));
    let third = doc.tuple3(doc.tag("<"), doc.tag("doc"), doc.tag("x"));
    assert_eq!(Err(4), third.parse(&mut doc, 0));
}

#[test]
fn tuple3_is_a_pair_followed_by_a_third() {
    let mut doc = session("<doc>");
    let flat = doc.tuple3(doc.tag("<"), doc.take_until(">"), doc.tag(">"));
    let nested = doc.pair(doc.pair(doc.tag("<"), doc.take_until(">")), doc.tag(">"));
    assert_eq!(Ok((5, ((), "doc".to_string(), ()))), flat.parse(&mut doc, 0));
    assert_eq!(Ok((5, (((), "doc".to_string()), ()))), nested.parse(&mut doc, 0));
}

#[test]
fn delimited_keeps_the_value_of_the_body() {
    let mut doc = session("(abc)");
    let parser = doc.delimited(doc.tag("("), doc.take_until(")"), doc.tag(")"));
    assert_eq!(Ok((5, "abc".to_string())), parser.parse(&mut doc, 0));
    let body = doc.take_until(")");
    assert_eq!(Ok((4, "abc".to_string())), body.parse(&mut doc, 1));
}

#[test]
fn delimited_fails_where_any_part_fails() {
    let mut doc = session("(abc)");
    let open = doc.delimited(doc.tag("["), doc.take_until(")"), doc.tag(")"));
    assert_eq!(Err(0), open.parse(&mut doc, 0));
    let body = doc.delimited(doc.tag("("), doc.take_until("]"), doc.tag(")"));
    assert_eq!(Err(1), body.parse(&mut doc, 0));
    let close = doc.delimited(doc.tag("("), doc.take_until("c"), doc.tag(")"));
    assert_eq!(Err(3), close.parse(&mut doc, 0));
}

#[test]
fn many0_succeeds_with_nothing() {
    let mut doc = session("abc");
    let parser = doc.many0(doc.tag("x"));
    assert_eq!(Ok((0, vec![])), parser.parse(&mut doc, 0));
    assert_eq!(Ok((3, vec![])), parser.parse(&mut doc, 3));
    assert_eq!(Ok((17, vec![])), parser.parse(&mut doc, 17));
    let mut empty = session("");
    assert_eq!(Ok((0, vec![])), parser.parse(&mut empty, 0));
}

#[test]
fn many0_ends_at_the_first_failed_attempt() {
    let mut doc = session("ababax");
    let parser = doc.many0(doc.pair(doc.tag("a"), doc.tag("b")));
    assert_eq!(Ok((4, vec![((), ()), ((), ())])), parser.parse(&mut doc, 0));
    assert_eq!(Ok((4, vec![((), ())])), parser.parse(&mut doc, 2));
    assert_eq!(Ok((1, vec![])), parser.parse(&mut doc, 1));
}

#[test]
fn many0_collects_values_in_order() {
    let mut doc = session("a,bc,def,");
    let parser = doc.many0(doc.delimited(doc.tag(""), doc.take_until(","), doc.tag(",")));
    assert_eq!(
        Ok((9, vec!["a".to_string(), "bc".to_string(), "def".to_string()])),
        parser.parse(&mut doc, 0)
    );
}

#[test]
fn many0_never_ends_before_its_cursor() {
    let mut doc = session("<<<<>");
    let parser = doc.many0(doc.tag("<"));
    for cursor in 0..8 {
        match parser.parse(&mut doc, cursor) {
            Ok((next, _)) => assert!(next >= cursor),
            Err(_) => panic!("many0 failed"),
        }
    }
}

#[test]
fn many0_takes_a_success_that_stands_still_once() {
    let mut doc = session("abc");
    let stands_still = doc.many0(doc.tag(""));
    assert_eq!(Ok((1, vec![()])), stands_still.parse(&mut doc, 1));
    let mut other = session("xxy");
    let optional = other.many0(other.opt(other.tag("x")));
    assert_eq!(Ok((2, vec![Some(()), Some(()), None])), optional.parse(&mut other, 0));
}

#[test]
fn many1_takes_a_success_that_stands_still_once() {
    let mut doc = session("abc");
    let stands_still = doc.many1(doc.tag(""));
    assert_eq!(Ok((2, vec![()])), stands_still.parse(&mut doc, 2));
    let mut other = session("xy");
    let optional = other.many1(other.opt(other.tag("x")));
    assert_eq!(Ok((1, vec![Some(()), None])), optional.parse(&mut other, 0));
}

#[test]
fn many1_fails_exactly_where_its_parser_fails() {
    let mut doc = session("abac");
    let item = doc.pair(doc.tag("a"), doc.tag("b"));
    let parser = doc.many1(doc.pair(doc.tag("a"), doc.tag("b")));
    assert_eq!(Err(3), item.parse(&mut doc, 2));
    assert_eq!(Err(3), parser.parse(&mut doc, 2));
    assert_eq!(Err(1), item.parse(&mut doc, 1));
    assert_eq!(Err(1), parser.parse(&mut doc, 1));
    assert_eq!(Ok((2, ((), ()))), item.parse(&mut doc, 0));
    assert_eq!(Ok((2, vec![((), ())])), parser.parse(&mut doc, 0));
}

#[test]
fn many1_agrees_with_many0_after_a_first_success() {
    let mut doc = session("<<<<>");
    let one_or_more = doc.many1(doc.tag("<"));
    let zero_or_more = doc.many0(doc.tag("<"));
    for cursor in 0..4 {
        assert_eq!(
            zero_or_more.parse(&mut doc, cursor),
            one_or_more.parse(&mut doc, cursor)
        );
    }
    assert_eq!(Err(4), one_or_more.parse(&mut doc, 4));
}

#[test]
fn alt2_prefers_the_first_parser() {
    let mut doc = session("ab");
    let parser = doc.alt2(doc.tag("a"), doc.tag("ab"));
    assert_eq!(Ok((1, ())), parser.parse(&mut doc, 0));
    let values = doc.alt2(doc.value(doc.tag("a"), 1), doc.value(doc.tag("a"), 2));
    assert_eq!(Ok((1, 1)), values.parse(&mut doc, 0));
}

#[test]
fn alt2_tries_the_second_parser_from_the_same_cursor() {
    let mut doc = session("abd");
    let parser = doc.alt2(
        doc.value(doc.pair(doc.tag("ab"), doc.tag("c")), 1),
        doc.value(doc.tag("abd"), 2),
    );
    assert_eq!(Ok((3, 2)), parser.parse(&mut doc, 0));
}

#[test]
fn alt2_reports_the_failure_of_the_second_parser() {
    let mut doc = session("ax");
    let first = doc.pair(doc.tag("a"), doc.tag("b"));
    assert_eq!(Err(1), first.parse(&mut doc, 0));
    let first_deep = doc.alt2(
        doc.value(doc.pair(doc.tag("a"), doc.tag("b")), ()),
        doc.tag("c"),
    );
    assert_eq!(Err(0), first_deep.parse(&mut doc, 0));
    let second_deep = doc.alt2(
        doc.tag("c"),
        doc.value(doc.pair(doc.tag("a"), doc.tag("b")), ()),
    );
    assert_eq!(Err(1), second_deep.parse(&mut doc, 0));
}

#[test]
fn opt_never_fails() {
    let mut doc = session("AC");
    let parser = doc.opt(doc.tag("B"));
    for cursor in 0..5 {
        assert_eq!(Ok((cursor, None)), parser.parse(&mut doc, cursor));
    }
    assert_eq!(Ok((1, Some(()))), doc.opt(doc.tag("A")).parse(&mut doc, 0));
    assert_eq!(
        Ok((1, Some("A".to_string()))),
        doc.opt(doc.take_until("C")).parse(&mut doc, 0)
    );
}

#[test]
fn opt_keeps_the_cursor_where_its_parser_fails_late() {
    let mut doc = session("abx");
    let parser = doc.opt(doc.pair(doc.tag("ab"), doc.tag("c")));
    assert_eq!(Ok((0, None)), parser.parse(&mut doc, 0));
}

#[test]
fn map_passes_a_failure_through() {
    let mut doc = session("abc");
    let parser = doc.map(doc.pair(doc.tag("a"), doc.tag("x")), |_: ((), ())| 7);
    assert_eq!(Err(1), parser.parse(&mut doc, 0));
}

#[test]
fn map_keeps_the_cursor_and_changes_the_value() {
    let mut doc = session("12;");
    let parser = doc.map(doc.take_until(";"), |digits: String| digits.len() * 10);
    assert_eq!(Ok((2, 20)), parser.parse(&mut doc, 0));
    let twice = doc.map(
        doc.map(doc.take_until(";"), |digits: String| digits.len()),
        |n: usize| n + 1,
    );
    assert_eq!(Ok((2, 3)), twice.parse(&mut doc, 0));
}

#[test]
fn value_passes_a_failure_through() {
    let mut doc = session("AAA");
    let parser = doc.value(doc.tag("B"), "B");
    assert_eq!(Err(0), parser.parse(&mut doc, 0));
    assert_eq!(Err(3), parser.parse(&mut doc, 3));
}

#[test]
fn value_gives_the_constant_each_time() {
    let mut doc = session("AAA");
    let parser = doc.many0(doc.value(doc.tag("A"), "one".to_string()));
    assert_eq!(
        Ok((3, vec!["one".to_string(), "one".to_string(), "one".to_string()])),
        parser.parse(&mut doc, 0)
    );
}

#[test]
fn a_failure_consumes_nothing() {
    let mut doc = session("<doc>");
    let fresh = doc.take_until(">").parse(&mut doc, 1);
    let failing = doc.tuple3(doc.tag("d"), doc.tag("o"), doc.tag("x"));
    assert_eq!(Err(3), failing.parse(&mut doc, 1));
    assert_eq!("<doc>", doc.document);
    assert_eq!(fresh, doc.take_until(">").parse(&mut doc, 1));
    assert_eq!(Ok((4, "doc".to_string())), fresh);
    assert_eq!(Err(0), doc.none_of("<".to_string()).parse(&mut doc, 0));
    assert_eq!(Err(0), doc.take_until("?").parse(&mut doc, 0));
    assert_eq!(
        Err(0),
        doc.take_while_m_n(1, 2, |c: char| c == 'd').parse(&mut doc, 0)
    );
    assert_eq!(Err(0), doc.many1(doc.tag("d")).parse(&mut doc, 0));
    assert_eq!("<doc>", doc.document);
    assert_eq!(Ok((1, ())), doc.tag("<").parse(&mut doc, 0));
}
