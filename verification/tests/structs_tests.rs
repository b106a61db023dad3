use ygopro::deck::Deck;
use ygopro::structs::{
    CTOSEmpty, CTOSJoinGame, CTOSPlayerInfo, CTOSUpdateDeck, Duel, HostInfo, STOCChat,
    STOCHsPlayerEnter, STOCJoinGame, STOCTypeChange,
};
use ygopro::traits::IntoExdata;

fn utf16_le(s: &str) -> Vec<u8> {
    s.encode_utf16().flat_map(|u| u.to_le_bytes()).collect()
}

fn host_info_bytes() -> Vec<u8> {
    vec![
        0x78, 0x56, 0x34, 0x12, // lflist
        1, 2, 5, // rule, mode, duel_rule
        1, 0, // no_check_deck, no_shuffle_deck
        0, 0, 0, // padding
        0x40, 0x1f, 0, 0, // start_lp = 8000
        5, 1, // start_hand, draw_count
        0xb4, 0, // time_limit = 180
    ]
}

#[test]
fn empty_body_has_no_bytes() {
    assert!(CTOSEmpty.into_exdata().is_empty());
}

#[test]
fn player_info_layout() {
    let b = CTOSPlayerInfo::new("sktt1faker").into_exdata();
    assert_eq!(b.len(), 40);
    let mut expected = utf16_le("sktt1faker");
    expected.extend([0, 0]);
    while expected.len() < 40 {
        expected.extend([0xcc, 0xcc]);
    }
    assert_eq!(b, expected);
}

#[test]
fn player_info_long_name_is_cut() {
    let b = CTOSPlayerInfo::new("abcdefghijklmnopqrstuvwxyz").into_exdata();
    assert_eq!(b, utf16_le("abcdefghijklmnopqrst"));
}

#[test]
fn join_game_layout() {
    let b = CTOSJoinGame::new(4947, "TM999#ccc").into_exdata();
    assert_eq!(b.len(), 46);
    assert_eq!(&b[0..2], &[0x53, 0x13]);
    assert_eq!(&b[2..4], &[0, 0]);
    assert_eq!(&b[4..8], &[0, 0, 0, 0]);
    let mut pass = utf16_le("TM999#ccc");
    pass.extend([0, 0]);
    while pass.len() < 38 {
        pass.extend([0xcc, 0xcc]);
    }
    assert_eq!(&b[8..], &pass[..]);
}

#[test]
fn join_game_empty_password() {
    let b = CTOSJoinGame::new(4947, "").into_exdata();
    assert_eq!(b.len(), 46);
    assert_eq!(&b[0..10], &[0x53, 0x13, 0, 0, 0, 0, 0, 0, 0, 0]);
    assert!(b[10..].iter().all(|x| *x == 0xcc));
}

#[test]
fn join_game_body_keeps_first_nineteen_units() {
    let b = CTOSJoinGame::new(1, "abcdefghijklmnopqrst").into_exdata();
    assert_eq!(b.len(), 46);
    assert_eq!(&b[8..], &utf16_le("abcdefghijklmnopqrs")[..]);
}

#[test]
fn update_deck_layout() {
    let deck = Deck { main: vec![1001, -2], extra: vec![3003], side: vec![40004] };
    let b = CTOSUpdateDeck { inner: deck }.into_exdata();
    let words: [i32; 6] = [3, 1, 1001, -2, 3003, 40004];
    let expected: Vec<u8> = words.iter().flat_map(|w| w.to_le_bytes()).collect();
    assert_eq!(b, expected);
}

#[test]
fn update_deck_empty() {
    let b = CTOSUpdateDeck { inner: Deck::default() }.into_exdata();
    assert_eq!(b, vec![0; 8]);
}

#[test]
fn join_game_answer_reads_host_info() {
    let g = STOCJoinGame::from_exdata(host_info_bytes());
    let h = g.host_info;
    assert_eq!(h.lflist, 0x12345678);
    assert_eq!((h.rule, h.mode, h.duel_rule), (1, 2, 5));
    assert!(h.no_check_deck);
    assert!(!h.no_shuffle_deck);
    assert_eq!(h.start_lp, 8000);
    assert_eq!((h.start_hand, h.draw_count), (5, 1));
    assert_eq!(h.time_limit, 180);
}

#[test]
fn chat_reads_sender_and_message() {
    let mut b = vec![0x01, 0x02];
    b.extend(utf16_le("gl hf"));
    b.extend([0, 0, 0x41, 0]);
    let c = STOCChat::from_exdata(b);
    assert_eq!(c.player, 0x0201);
    assert_eq!(c.msg, "gl hf");
}

#[test]
fn chat_with_empty_message() {
    let c = STOCChat::from_exdata(vec![7, 0]);
    assert_eq!(c.player, 7);
    assert_eq!(c.msg, "");
}

#[test]
fn player_enter_reads_name_and_position() {
    let mut b = utf16_le("duelist");
    b.resize(40, 0);
    b.push(3);
    b.push(99);
    let e = STOCHsPlayerEnter::from_exdata(b);
    assert_eq!(e.name, "duelist");
    assert_eq!(e.pos, 3);
}

#[test]
fn player_enter_reads_name_sent_by_player_info() {
    let mut b = CTOSPlayerInfo::new("sktt1faker").into_exdata();
    b.push(1);
    let e = STOCHsPlayerEnter::from_exdata(b);
    assert_eq!(e.name, "sktt1faker");
    assert_eq!(e.pos, 1);
}

#[test]
fn type_change_reads_first_byte() {
    assert_eq!(STOCTypeChange::from_exdata(vec![0x11, 0x22]).type_, 0x11);
}

#[test]
fn defaults_are_zero() {
    let h = HostInfo::default();
    assert_eq!(h.lflist, 0);
    assert_eq!(h.start_lp, 0);
    assert_eq!(h.time_limit, 0);
    assert!(!h.no_check_deck && !h.no_shuffle_deck);
    let d = Duel::default();
    assert_eq!(d.host_info.rule, 0);
}
