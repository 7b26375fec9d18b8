use parser_core::error::ParseError;
use parser_core::mode::Mode;
use parser_core::parser::Parser;
use parser_core::primitive::{any, empty, end, filter, just, none_of, one_of};
use parser_core::stream::{Cursor, Stream};

fn cursor_of(text: &str) -> Cursor<char> {
    Cursor::new(Stream::of_text(text))
}

#[test]
fn just_matches_leading_text() {
    let mut cur = cursor_of("abc");
    let r = just("ab").go(&mut cur, Mode::Emit);
    assert_eq!(r, Ok(Some("ab")));
    assert_eq!(cur.position(), 2);
}

#[test]
fn just_fails_on_second_character() {
    let mut cur = cursor_of("abc");
    let r = just("ax").go(&mut cur, Mode::Emit);
    assert_eq!(r, Err(ParseError::create()));
}

#[test]
fn just_failure_leaves_cursor_mid_pattern() {
    // Just is not atomic: the matched prefix and the mismatching token stay
    // consumed; only a caller's checkpoint restores the entry position.
    let mut cur = cursor_of("abc");
    let before = cur.save();
    let r = just("ax").go(&mut cur, Mode::Emit);
    assert!(r.is_err());
    assert_eq!(cur.position(), 2);
    cur.rewind(before);
    assert_eq!(cur.position(), 0);
}

#[test]
fn just_fails_when_input_runs_out() {
    let mut cur = cursor_of("ab");
    let r = just("abc").go(&mut cur, Mode::Emit);
    assert!(r.is_err());
    assert_eq!(cur.position(), 2);
}

#[test]
fn just_of_single_token() {
    let mut cur = cursor_of("abc");
    let r = just('a').go(&mut cur, Mode::Emit);
    assert_eq!(r, Ok(Some('a')));
    assert_eq!(cur.position(), 1);
}

#[test]
fn just_of_vec_and_string_patterns() {
    let mut cur = cursor_of("abc");
    let r = just(vec!['a', 'b']).go(&mut cur, Mode::Emit);
    assert_eq!(r, Ok(Some(vec!['a', 'b'])));
    assert_eq!(cur.position(), 2);

    let mut cur = cursor_of("abc");
    let r = just(String::from("abc")).go(&mut cur, Mode::Emit);
    assert_eq!(r, Ok(Some(String::from("abc"))));
    assert_eq!(cur.position(), 3);
}

#[test]
fn just_empty_pattern_always_matches() {
    let mut cur = cursor_of("");
    let r = just("").go(&mut cur, Mode::Emit);
    assert_eq!(r, Ok(Some("")));
    assert_eq!(cur.position(), 0);
}

#[test]
fn one_of_accepts_member() {
    let mut cur = cursor_of("abc");
    let r = one_of(vec!['a', 'b', 'c']).go(&mut cur, Mode::Emit);
    assert_eq!(r, Ok(Some('a')));
    assert_eq!(cur.position(), 1);
}

#[test]
fn one_of_rejects_non_member() {
    let mut cur = cursor_of("zbc");
    let r = one_of(vec!['a', 'b', 'c']).go(&mut cur, Mode::Emit);
    assert!(r.is_err());
    // On failure the membership matcher leaves the cursor where it entered.
    assert_eq!(cur.position(), 0);
}

#[test]
fn one_of_fails_at_end_of_input() {
    let mut cur = cursor_of("");
    let r = one_of(vec!['a']).go(&mut cur, Mode::Emit);
    assert!(r.is_err());
    assert_eq!(cur.position(), 0);
}

#[test]
fn one_of_string_set() {
    let mut cur = cursor_of("b");
    let r = one_of("abc").go(&mut cur, Mode::Emit);
    assert_eq!(r, Ok(Some('b')));
}

#[test]
fn none_of_accepts_outsider() {
    let mut cur = cursor_of("z");
    let r = none_of(vec!['a', 'b', 'c']).go(&mut cur, Mode::Emit);
    assert_eq!(r, Ok(Some('z')));
    assert_eq!(cur.position(), 1);
}

#[test]
fn none_of_rejects_member() {
    let mut cur = cursor_of("b");
    let r = none_of(vec!['a', 'b', 'c']).go(&mut cur, Mode::Emit);
    assert!(r.is_err());
    // The inspected token stays consumed; the caller's checkpoint rewinds it.
    assert_eq!(cur.position(), 1);
}

#[test]
fn none_of_fails_on_empty_input() {
    let mut cur = cursor_of("");
    let r = none_of(vec!['a']).go(&mut cur, Mode::Emit);
    assert!(r.is_err());
    assert_eq!(cur.position(), 0);
}

#[test]
fn end_succeeds_only_at_end_of_input() {
    let mut cur = cursor_of("");
    let r = end().go(&mut cur, Mode::Emit);
    assert_eq!(r, Ok(Some(())));
    assert_eq!(cur.position(), 0);
}

#[test]
fn end_fails_without_consuming() {
    let mut cur = cursor_of("x");
    let r = end().go(&mut cur, Mode::Emit);
    assert!(r.is_err());
    assert_eq!(cur.position(), 0);
}

#[test]
fn end_succeeds_after_consuming_everything() {
    let mut cur = cursor_of("a");
    assert_eq!(any().go(&mut cur, Mode::Check), Ok(None));
    let r = end().go(&mut cur, Mode::Emit);
    assert_eq!(r, Ok(Some(())));
    assert_eq!(cur.position(), 1);
}

#[test]
fn empty_always_succeeds_without_consuming() {
    let mut cur = cursor_of("");
    let r = empty().go(&mut cur, Mode::Emit);
    assert_eq!(r, Ok(Some(())));
    assert_eq!(cur.position(), 0);

    let mut cur = cursor_of("abc");
    let r = empty().go(&mut cur, Mode::Emit);
    assert_eq!(r, Ok(Some(())));
    assert_eq!(cur.position(), 0);
}

#[test]
fn filter_accepts_when_predicate_holds() {
    let mut cur = cursor_of("7x");
    let digit = filter(|c: char| c.is_ascii_digit());
    let r = digit.go(&mut cur, Mode::Emit);
    assert_eq!(r, Ok(Some('7')));
    assert_eq!(cur.position(), 1);
}

#[test]
fn filter_rejects_when_predicate_fails() {
    let mut cur = cursor_of("x7");
    let digit = filter(|c: char| c.is_ascii_digit());
    let r = digit.go(&mut cur, Mode::Emit);
    assert!(r.is_err());
}

#[test]
fn filter_fails_on_empty_input() {
    let mut cur = cursor_of("");
    let digit = filter(|c: char| c.is_ascii_digit());
    let r = digit.go(&mut cur, Mode::Emit);
    assert!(r.is_err());
}

#[test]
fn any_consumes_one_token() {
    let mut cur = cursor_of("zy");
    let r = any().go(&mut cur, Mode::Emit);
    assert_eq!(r, Ok(Some('z')));
    assert_eq!(cur.position(), 1);
}

#[test]
fn any_fails_only_at_end_of_input() {
    let mut cur = cursor_of("");
    let r = any().go(&mut cur, Mode::Emit);
    assert!(r.is_err());
    assert_eq!(cur.position(), 0);
}

#[test]
fn byte_tokens_work_like_characters() {
    let mut cur = Cursor::new(Stream::new(vec![1u8, 2, 3]));
    let r = just(vec![1u8, 2]).go(&mut cur, Mode::Emit);
    assert_eq!(r, Ok(Some(vec![1u8, 2])));
    assert_eq!(cur.position(), 2);
    let r = one_of(vec![3u8, 4]).go(&mut cur, Mode::Emit);
    assert_eq!(r, Ok(Some(3u8)));
    assert_eq!(cur.position(), 3);
}
