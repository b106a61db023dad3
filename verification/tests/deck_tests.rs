use ygopro::deck::{Deck, DeckLoader};

fn load(lines: &[&str]) -> Deck {
    let mut l = DeckLoader::new();
    for line in lines {
        l.feed_line(line);
    }
    l.finish()
}

#[test]
fn sections_collect_codes() {
    let d = load(&["#created by someone", "#main", "12345", "50", "#extra", "+200", "!side", "999"]);
    assert_eq!(d.main, vec![12345]);
    assert_eq!(d.extra, vec![200]);
    assert_eq!(d.side, vec![999]);
}

#[test]
fn codes_before_a_section_are_dropped() {
    let d = load(&["4242", "#main", "4243"]);
    assert_eq!(d.main, vec![4243]);
    assert!(d.extra.is_empty() && d.side.is_empty());
}

#[test]
fn small_and_negative_codes_are_dropped() {
    let d = load(&["#main", "100", "101", "-500", "-2147483648", "0"]);
    assert_eq!(d.main, vec![101]);
}

#[test]
fn lines_that_do_not_read_as_decimals_are_dropped() {
    let d = load(&["#main", "12a", "", "+", "-", " 123", "123\n", "2147483648", "99999999999", "2147483647"]);
    assert_eq!(d.main, vec![2147483647]);
}

#[test]
fn markers_must_match_exactly() {
    let d = load(&["#main\n", "1234", "#Main", "1235", "#main", "1236"]);
    assert_eq!(d.main, vec![1236]);
}

#[test]
fn section_can_be_reselected() {
    let d = load(&["#extra", "3000", "#main", "1000", "#extra", "3001"]);
    assert_eq!(d.main, vec![1000]);
    assert_eq!(d.extra, vec![3000, 3001]);
}

#[test]
fn new_loader_is_empty() {
    let l = DeckLoader::new();
    assert_eq!(l.section, -1);
    let d = l.finish();
    assert!(d.main.is_empty() && d.extra.is_empty() && d.side.is_empty());
}

use ygopro::deck::deck_from_content;

fn assert_empty(d: &Deck) {
    assert!(d.main.is_empty() && d.extra.is_empty() && d.side.is_empty());
}

#[test]
fn content_read_through_kept_buffer_gives_empty_deck() {
    assert_empty(&deck_from_content("#created by x\n#main\n101\n102\n#extra\n201\n!side\n301\n"));
    assert_empty(&deck_from_content("12345\n#main\n100\nabc\n101\n"));
    assert_empty(&deck_from_content("#extra\n201\n#main\n101\n#extra\n202\n"));
}

#[test]
fn content_without_line_break_is_one_buffer() {
    assert_empty(&deck_from_content("#main"));
    assert_empty(&deck_from_content("12345"));
    assert_empty(&deck_from_content(""));
}

#[test]
fn kept_buffer_matches_feeding_accumulated_lines() {
    let content = "#main\n4001\n!side\n4002";
    let mut l = DeckLoader::new();
    let mut buf = String::new();
    for piece in content.split_inclusive('\n') {
        buf.push_str(piece);
        l.feed_line(&buf);
    }
    let d = l.finish();
    let e = deck_from_content(content);
    assert_eq!((d.main, d.extra, d.side), (e.main, e.extra, e.side));
}
