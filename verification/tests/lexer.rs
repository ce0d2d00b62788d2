use parser_core::lexer::CodeStorage;
use parser_core::lexer::Lexer;
use parser_core::Ignore;

#[test]
fn next_yields_the_characters_in_order() {
    let mut cs = CodeStorage::new("abc");
    assert_eq!(cs.next(), Some('a'));
    assert_eq!(cs.next(), Some('b'));
    assert_eq!(cs.next(), Some('c'));
    assert_eq!(cs.next(), None);
    assert_eq!(cs.next(), None);
}

#[test]
fn back_replays_the_last_character() {
    let mut cs = CodeStorage::new("ab");
    assert_eq!(cs.next(), Some('a'));
    assert_eq!(cs.back(), Some(()));
    assert_eq!(cs.next(), Some('a'));
    assert_eq!(cs.next(), Some('b'));
}

#[test]
fn back_before_any_read_reports_nothing() {
    let mut cs = CodeStorage::new("ab");
    assert_eq!(cs.back(), None);
    assert_eq!(cs.next(), Some('a'));
}

#[test]
fn empty_text_is_exhausted_at_once() {
    let mut cs = CodeStorage::new("");
    assert_eq!(cs.next(), None);
    assert_eq!(cs.back(), None);
}

#[test]
fn non_ascii_characters_come_through_whole() {
    let mut cs = CodeStorage::new("aßΩ");
    assert_eq!(cs.next(), Some('a'));
    assert_eq!(cs.next(), Some('ß'));
    assert_eq!(cs.next(), Some('Ω'));
    assert_eq!(cs.next(), None);
}

#[test]
fn lexer_wraps_a_character_stream() {
    let lexer = Lexer::new("fn main() {}");
    lexer.ignore();
}
