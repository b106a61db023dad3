use ygopro::packet::{STOCMsg, YgoError};
use ygopro::session::{inspect_received, join_game_packet, join_home_step, player_info_packet, JoinEvent, VERSION};

fn utf16_le(s: &str) -> Vec<u8> {
    s.encode_utf16().flat_map(|u| u.to_le_bytes()).collect()
}

fn packet(proto: u8, exdata: &[u8]) -> Vec<u8> {
    let len = (exdata.len() + 1) as u16;
    let mut b = len.to_le_bytes().to_vec();
    b.push(proto);
    b.extend_from_slice(exdata);
    b.resize(4096, 0);
    b
}

fn host_info_bytes() -> Vec<u8> {
    vec![1, 0, 0, 0, 0, 1, 5, 0, 1, 0, 0, 0, 0x40, 0x1f, 0, 0, 5, 1, 0xb4, 0]
}

#[test]
fn version_constant() {
    assert_eq!(VERSION, 4947);
}

#[test]
fn player_info_packet_bytes() {
    let b = player_info_packet("sktt1faker");
    assert_eq!(b.len(), 43);
    assert_eq!(&b[0..3], &[41, 0, 16]);
    assert_eq!(&b[3..23], &utf16_le("sktt1faker")[..]);
    assert_eq!(&b[23..25], &[0, 0]);
    assert!(b[25..].iter().all(|x| *x == 0xcc));
}

#[test]
fn join_game_packet_bytes() {
    let b = join_game_packet(VERSION, "TM999#ccc");
    assert_eq!(b.len(), 49);
    assert_eq!(&b[0..5], &[47, 0, 18, 0x53, 0x13]);
    assert_eq!(&b[5..11], &[0, 0, 0, 0, 0, 0]);
    assert_eq!(&b[11..29], &utf16_le("TM999#ccc")[..]);
    assert_eq!(&b[29..31], &[0, 0]);
    assert!(b[31..].iter().all(|x| *x == 0xcc));
    assert_eq!(b[31..].len(), 18);
}

#[test]
fn nothing_received() {
    let buf = [0u8; 16];
    assert!(matches!(join_home_step(&buf, 0), Ok(JoinEvent::Nothing)));
    assert!(matches!(inspect_received(&buf, 0), Ok(None)));
}

#[test]
fn short_buffer_is_refused() {
    assert_eq!(join_home_step(&[1, 0], 2).err(), Some(YgoError::PacketTooShort(2)));
    assert_eq!(inspect_received(&[1], 1).err(), Some(YgoError::PacketTooShort(1)));
}

#[test]
fn chat_is_reported() {
    let mut ex = vec![2, 0];
    ex.extend(utf16_le("hello"));
    ex.extend([0, 0]);
    match join_home_step(&packet(25, &ex), 17) {
        Ok(JoinEvent::Chat(c)) => {
            assert_eq!(c.player, 2);
            assert_eq!(c.msg, "hello");
        }
        _ => panic!("expected a chat line"),
    }
}

#[test]
fn join_answer_gives_host_info() {
    match join_home_step(&packet(18, &host_info_bytes()), 23) {
        Ok(JoinEvent::Joined(h)) => {
            assert_eq!(h.lflist, 1);
            assert_eq!(h.mode, 1);
            assert!(h.no_shuffle_deck);
            assert!(!h.no_check_deck);
            assert_eq!(h.start_lp, 8000);
            assert_eq!(h.time_limit, 180);
        }
        _ => panic!("expected the room description"),
    }
}

#[test]
fn join_answer_too_short() {
    let r = join_home_step(&packet(18, &[0; 19]), 22);
    assert_eq!(r.err(), Some(YgoError::ExdataTooShort(19)));
}

#[test]
fn join_answer_with_bad_flag() {
    let mut ex = host_info_bytes();
    ex[7] = 2;
    assert_eq!(join_home_step(&packet(18, &ex), 23).err(), Some(YgoError::InvalidHostInfo));
}

#[test]
fn other_kinds_are_passed_over() {
    assert!(matches!(join_home_step(&packet(19, &[1]), 4), Ok(JoinEvent::Other(STOCMsg::TYPE_CHANGE))));
}

#[test]
fn unknown_kind_is_refused() {
    assert_eq!(join_home_step(&packet(99, &[]), 3).err(), Some(YgoError::UnknownProto(99)));
    assert_eq!(inspect_received(&packet(0, &[]), 3).err(), Some(YgoError::UnknownProto(0)));
}

#[test]
fn inspect_reads_packet_and_kind() {
    match inspect_received(&packet(32, &[9, 8, 7]), 6) {
        Ok(Some((p, k))) => {
            assert_eq!(k, STOCMsg::HS_PLAYER_ENTER);
            assert_eq!(p.packet_len, 4);
            assert_eq!(p.proto, 32);
            assert_eq!(p.exdata, vec![9, 8, 7]);
        }
        _ => panic!("expected a packet"),
    }
}
