use parser_core::choice::choice;
use parser_core::mode::Mode;
use parser_core::parser::Parser;
use parser_core::primitive::{any, just, one_of};
use parser_core::stream::{Cursor, Stream};

fn cursor_of(text: &str) -> Cursor<char> {
    Cursor::new(Stream::of_text(text))
}

#[test]
fn choice_commits_to_first_success() {
    let mut cur = cursor_of("b");
    let p = choice((just('a'), just('b')));
    let r = p.go(&mut cur, Mode::Emit);
    assert_eq!(r, Ok(Some('b')));
    assert_eq!(cur.position(), 1);
}

#[test]
fn choice_prefers_earlier_alternatives() {
    // Both alternatives match; the first one listed wins.
    let mut cur = cursor_of("ab");
    let p = choice((just("a"), just("ab")));
    let r = p.go(&mut cur, Mode::Emit);
    assert_eq!(r, Ok(Some("a")));
    assert_eq!(cur.position(), 1);
}

#[test]
fn choice_rewinds_failed_alternatives() {
    let mut cur = cursor_of("z");
    let p = choice((just('a'), just('b'), any()));
    let r = p.go(&mut cur, Mode::Emit);
    assert_eq!(r, Ok(Some('z')));
    assert_eq!(cur.position(), 1);
}

#[test]
fn choice_restores_entry_position_on_overall_failure() {
    let mut cur = cursor_of("zq");
    // Move off position 0 first, so the restored position is not trivially 0.
    assert_eq!(any().go(&mut cur, Mode::Check), Ok(None));
    let p = choice((just("qa"), just("qb")));
    let r = p.go(&mut cur, Mode::Emit);
    assert!(r.is_err());
    assert_eq!(cur.position(), 1);
}

#[test]
fn choice_over_partial_overlap_backtracks_fully() {
    // The first literal consumes two tokens before failing; the checkpoint
    // must bring the second literal back to the entry position.
    let mut cur = cursor_of("abx");
    let p = choice((just("aby"), just("abx")));
    let r = p.go(&mut cur, Mode::Emit);
    assert_eq!(r, Ok(Some("abx")));
    assert_eq!(cur.position(), 3);
}

#[test]
fn choice_over_four_alternatives_of_mixed_shape() {
    let mut cur = cursor_of("q");
    let p = choice((just('a'), one_of("xyz"), just('b'), any()));
    let r = p.go(&mut cur, Mode::Emit);
    assert_eq!(r, Ok(Some('q')));
    assert_eq!(cur.position(), 1);
}

#[test]
fn choice_over_vector_of_alternatives() {
    let mut cur = cursor_of("c");
    let p = choice(vec![just('a'), just('b'), just('c'), just('d')]);
    let r = p.go(&mut cur, Mode::Emit);
    assert_eq!(r, Ok(Some('c')));
    assert_eq!(cur.position(), 1);
}

#[test]
fn choice_over_vector_fails_when_all_fail() {
    let mut cur = cursor_of("z");
    let p = choice(vec![just('a'), just('b')]);
    let r = p.go(&mut cur, Mode::Emit);
    assert!(r.is_err());
    assert_eq!(cur.position(), 0);
}

#[test]
fn choice_over_empty_vector_fails() {
    let mut cur = cursor_of("z");
    let p = choice(Vec::<parser_core::primitive::Just<char>>::new());
    let r = p.go(&mut cur, Mode::Emit);
    assert!(r.is_err());
    assert_eq!(cur.position(), 0);
}

#[test]
fn check_and_emit_agree_on_outcome_and_position() {
    let inputs = ["", "a", "ab", "abc", "zq", "bba"];
    for text in inputs {
        let p = choice((just('a'), just('b'), one_of("xyz")));
        let mut check_cur = cursor_of(text);
        let mut emit_cur = cursor_of(text);
        let check_r = p.go(&mut check_cur, Mode::Check);
        let emit_r = p.go(&mut emit_cur, Mode::Emit);
        assert_eq!(check_r.is_ok(), emit_r.is_ok(), "outcome differs on {text:?}");
        assert_eq!(
            check_cur.position(),
            emit_cur.position(),
            "final position differs on {text:?}"
        );
        if let Ok(out) = check_r {
            assert_eq!(out, None);
        }
    }
}

#[test]
fn check_mode_builds_no_output() {
    let mut cur = cursor_of("abc");
    let r = just("abc").go(&mut cur, Mode::Check);
    assert_eq!(r, Ok(None));
    assert_eq!(cur.position(), 3);
}

#[test]
fn combinators_are_reusable_across_parses() {
    // One combinator value, many independent parses: no cross-call state.
    let p = just("ab");
    for _ in 0..3 {
        let mut cur = cursor_of("ab");
        assert_eq!(p.go(&mut cur, Mode::Emit), Ok(Some("ab")));
        assert_eq!(cur.position(), 2);
    }
}
