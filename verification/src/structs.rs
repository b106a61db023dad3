//! The message bodies: the room description, client-to-server bodies laid
//! out as bytes, and server-to-client bodies read from bytes.
use vstd::prelude::*;
use vstd::utf8::is_char_boundary;
use vstd::string::StringSliceAdditionalSpecFns;
use crate::deck::Deck;
use crate::traits::IntoExdata;
use crate::utf16::{fill_limit, str_to_utf16_buffer, u8_utf16_buffer_to_str, utf16_buffer_text, utf16_fill};
use crate::wire::{
    i32s_le_bytes, le16, le32_at, push_i32s_le, push_le16, push_le32, push_u16s_le, read_le16,
    u16_le_bytes, u16s_le_bytes, u32_le_bytes,
};

verus! {

/// The code unit that fills a name or password buffer before text is written into it.
const FILLING_TOKEN: u16 = 0xcccc;

/// The number of UTF-16 units of a player name buffer.
const PLAYER_NAME_MAX_LEN: usize = 20;

/// The number of UTF-16 units of a password buffer.
const PASS_MAX_LEN: usize = 20;

/// A buffer of `n` filler units.
pub open spec fn filled_buffer(n: nat) -> Seq<u16> {
    Seq::new(n, |i: int| 0xccccu16)
}

/// The settings of a duel room.
#[derive(Debug)]
pub struct HostInfo {
    pub lflist: libc::c_uint,
    pub rule: libc::c_uchar,
    pub mode: libc::c_uchar,
    pub duel_rule: libc::c_uchar,
    pub no_check_deck: bool,
    pub no_shuffle_deck: bool,
    pub start_lp: libc::c_uint,
    pub start_hand: libc::c_uchar,
    pub draw_count: libc::c_uchar,
    pub time_limit: libc::c_ushort,
}

/// The all-zero room description.
pub open spec fn host_info_zero() -> HostInfo {
    HostInfo {
        lflist: 0,
        rule: 0,
        mode: 0,
        duel_rule: 0,
        no_check_deck: false,
        no_shuffle_deck: false,
        start_lp: 0,
        start_hand: 0,
        draw_count: 0,
        time_limit: 0,
    }
}

impl Default for HostInfo {
    /// All fields zero or false.
    fn default() -> (r: Self)
        ensures
            r == host_info_zero(),
    {
        HostInfo {
            lflist: 0,
            rule: 0,
            mode: 0,
            duel_rule: 0,
            no_check_deck: false,
            no_shuffle_deck: false,
            start_lp: 0,
            start_hand: 0,
            draw_count: 0,
            time_limit: 0,
        }
    }
}

/// A duel in progress.
#[derive(Debug)]
pub struct Duel {
    pub host_info: HostInfo,
}

impl Default for Duel {
    /// A duel in a room with the all-zero description.
    fn default() -> (r: Self)
        ensures
            r.host_info == host_info_zero(),
    {
        Duel { host_info: HostInfo::default() }
    }
}

// ----- CTOS -----

/// A body with no bytes.
pub struct CTOSEmpty;

impl IntoExdata for CTOSEmpty {
    open spec fn exdata_view(&self) -> Seq<u8> {
        Seq::<u8>::empty()
    }

    open spec fn exdata_ready(&self) -> bool {
        true
    }

    fn into_exdata(self) -> (r: Vec<u8>) {
        Vec::new()
    }
}

/// The player's name, as a buffer of UTF-16 units.
pub struct CTOSPlayerInfo {
    name: [u16; 20],
}

impl View for CTOSPlayerInfo {
    type V = Seq<u16>;

    /// The units of the name buffer.
    closed spec fn view(&self) -> Seq<u16> {
        self.name@
    }
}

impl CTOSPlayerInfo {
    /// A name buffer of filler units into which `name` is written (see
    /// `str_to_utf16_buffer`).
    pub fn new(name: &str) -> (r: Self)
        requires
            is_char_boundary(name.spec_bytes(), fill_limit(name@, 20)),
        ensures
            r@ == utf16_fill(filled_buffer(20), name@),
    {
        let mut s = Self { name: [FILLING_TOKEN; PLAYER_NAME_MAX_LEN] };
        assert(s.name@ =~= filled_buffer(20));
        str_to_utf16_buffer(name, &mut s.name);
        s
    }
}

impl IntoExdata for CTOSPlayerInfo {
    /// The units of the name, each as two little-endian bytes.
    open spec fn exdata_view(&self) -> Seq<u8> {
        u16s_le_bytes(self@)
    }

    open spec fn exdata_ready(&self) -> bool {
        true
    }

    fn into_exdata(self) -> (r: Vec<u8>) {
        let mut out: Vec<u8> = Vec::new();
        push_u16s_le(&mut out, &self.name);
        assert(out@ =~= u16s_le_bytes(self.name@));
        out
    }
}

/// A name buffer holds 20 units.
pub proof fn lemma_player_info_len(info: CTOSPlayerInfo)
    ensures
        info@.len() == 20,
{
}

/// A password buffer holds 20 units.
pub proof fn lemma_join_game_len(req: CTOSJoinGame)
    ensures
        req@.2.len() == 20,
{
}

/// A request to join a room: the client version, a game id (always 0) and
/// the room's password as a buffer of UTF-16 units.
pub struct CTOSJoinGame {
    version: u16,
    gameid: u32,
    pass: [u16; 20],
}

impl View for CTOSJoinGame {
    type V = (u16, u32, Seq<u16>);

    /// The version, the game id and the units of the password buffer.
    closed spec fn view(&self) -> (u16, u32, Seq<u16>) {
        (self.version, self.gameid, self.pass@)
    }
}

impl CTOSJoinGame {
    /// A request with the given version, game id 0, and a password buffer of
    /// filler units into which `passwd` is written (see `str_to_utf16_buffer`).
    pub fn new(version: u16, passwd: &str) -> (r: Self)
        requires
            is_char_boundary(passwd.spec_bytes(), fill_limit(passwd@, 20)),
        ensures
            r@ == (version, 0u32, utf16_fill(filled_buffer(20), passwd@)),
    {
        let mut s = Self { version, gameid: 0, pass: [FILLING_TOKEN; PASS_MAX_LEN] };
        assert(s.pass@ =~= filled_buffer(20));
        str_to_utf16_buffer(passwd, &mut s.pass);
        s
    }
}

impl IntoExdata for CTOSJoinGame {
    /// 46 bytes: the version (little-endian), two padding bytes (zero), the
    /// game id (little-endian), then the first 19 units of the password, each
    /// as two little-endian bytes (the body's length counts 2 + 4 + 40 bytes,
    /// so the last unit of the 48-byte layout falls outside it).
    open spec fn exdata_view(&self) -> Seq<u8> {
        u16_le_bytes(self@.0) + seq![0u8, 0u8] + u32_le_bytes(self@.1) + u16s_le_bytes(
            self@.2.take(19),
        )
    }

    open spec fn exdata_ready(&self) -> bool {
        true
    }

    fn into_exdata(self) -> (r: Vec<u8>) {
        let mut out: Vec<u8> = Vec::new();
        push_le16(&mut out, self.version);
        out.push(0);
        out.push(0);
        push_le32(&mut out, self.gameid);
        let pass: &[u16] = &self.pass;
        let head = vstd::slice::slice_subrange(pass, 0, PASS_MAX_LEN - 1);
        push_u16s_le(&mut out, head);
        assert(self.pass@.take(19) =~= head@);
        assert(out@ =~= u16_le_bytes(self.version) + seq![0u8, 0u8] + u32_le_bytes(self.gameid)
            + u16s_le_bytes(self.pass@.take(19)));
        out
    }
}

/// A deck submitted to the server.
#[derive(Debug)]
pub struct CTOSUpdateDeck {
    pub inner: Deck,
}

/// The numbers of a deck body: main plus extra count, side count (each
/// count converted with `as i32`), then the main, extra and side codes.
pub open spec fn update_deck_words(d: Deck) -> Seq<i32> {
    seq![
        ((d.main@.len() as i32) + (d.extra@.len() as i32)) as i32,
        d.side@.len() as i32,
    ] + d.main@ + d.extra@ + d.side@
}

impl IntoExdata for CTOSUpdateDeck {
    /// Each number of `update_deck_words` as four little-endian bytes.
    open spec fn exdata_view(&self) -> Seq<u8> {
        i32s_le_bytes(update_deck_words(self.inner))
    }

    /// The sum of the converted main and extra counts does not overflow an
    /// `i32`, and the bytes fit in memory.
    open spec fn exdata_ready(&self) -> bool {
        &&& i32::MIN <= (self.inner.main@.len() as i32) + (self.inner.extra@.len() as i32)
            <= i32::MAX
        &&& 4 * (2 + self.inner.main@.len() + self.inner.extra@.len() + self.inner.side@.len())
            <= usize::MAX
    }

    fn into_exdata(self) -> (r: Vec<u8>) {
        let ghost words = update_deck_words(self.inner);
        let mut v: Vec<i32> = Vec::new();
        v.push(self.inner.main.len() as i32 + self.inner.extra.len() as i32);
        v.push(self.inner.side.len() as i32);
        let mut main = self.inner.main;
        let mut extra = self.inner.extra;
        let mut side = self.inner.side;
        v.append(&mut main);
        v.append(&mut extra);
        v.append(&mut side);
        assert(v@ =~= words);
        let mut out: Vec<u8> = Vec::new();
        push_i32s_le(&mut out, v.as_slice());
        assert(out@ =~= i32s_le_bytes(words));
        out
    }
}

// ----- STOC -----

/// The room description laid out in the first 20 bytes of `b`: the list id
/// at 0, rule, mode and duel rule at 4..7, the two flags at 7 and 8 (1 is
/// true), the starting life points at 12, the starting hand and draw count
/// at 16 and 17, and the time limit at 18 (integers little-endian).
pub open spec fn host_info_from(b: Seq<u8>) -> HostInfo {
    HostInfo {
        lflist: le32_at(b, 0),
        rule: b[4],
        mode: b[5],
        duel_rule: b[6],
        no_check_deck: b[7] == 1,
        no_shuffle_deck: b[8] == 1,
        start_lp: le32_at(b, 12),
        start_hand: b[16],
        draw_count: b[17],
        time_limit: le16(b[18], b[19]),
    }
}

/// The bytes hold a room description: 20 bytes at least, with flag bytes 0 or 1.
pub open spec fn host_info_bytes_ok(b: Seq<u8>) -> bool {
    b.len() >= 20 && b[7] <= 1 && b[8] <= 1
}

/// The server's answer to a join request: the room's description.
pub struct STOCJoinGame {
    pub host_info: HostInfo,
}

fn read_le32(b: &Vec<u8>, i: usize) -> (r: u32)
    requires
        i + 4 <= b.len(),
    ensures
        r == le32_at(b@, i as int),
{
    b[i] as u32 + (b[i + 1] as u32) * 0x100 + (b[i + 2] as u32) * 0x1_0000 + (b[i + 3] as u32)
        * 0x100_0000
}

impl STOCJoinGame {
    /// Reads the room description from the payload.
    pub fn from_exdata(exdata: Vec<u8>) -> (r: Self)
        requires
            host_info_bytes_ok(exdata@),
        ensures
            r.host_info == host_info_from(exdata@),
    {
        let host_info = HostInfo {
            lflist: read_le32(&exdata, 0),
            rule: exdata[4],
            mode: exdata[5],
            duel_rule: exdata[6],
            no_check_deck: exdata[7] == 1,
            no_shuffle_deck: exdata[8] == 1,
            start_lp: read_le32(&exdata, 12),
            start_hand: exdata[16],
            draw_count: exdata[17],
            time_limit: read_le16(exdata[18], exdata[19]),
        };
        Self { host_info }
    }
}

/// A chat line: the position of the player who sent it, and the message.
#[derive(Debug)]
pub struct STOCChat {
    pub player: u16,
    pub msg: String,
}

impl STOCChat {
    /// Reads the sender (little-endian, bytes 0..2) and the message (the
    /// UTF-16 text of the bytes after them).
    pub fn from_exdata(exdata: Vec<u8>) -> (r: Self)
        requires
            exdata@.len() >= 2,
        ensures
            r.player == le16(exdata@[0], exdata@[1]),
            r.msg@ == utf16_buffer_text(exdata@.skip(2)),
    {
        let player = read_le16(exdata[0], exdata[1]);
        let rest = vstd::slice::slice_subrange(exdata.as_slice(), 2, exdata.len());
        assert(rest@ =~= exdata@.skip(2));
        let msg = u8_utf16_buffer_to_str(rest);
        Self { player, msg }
    }
}

/// A player entered the room: the player's name and position.
#[derive(Debug)]
pub struct STOCHsPlayerEnter {
    pub name: String,
    pub pos: libc::c_uchar,
}

impl STOCHsPlayerEnter {
    /// Reads the name (the UTF-16 text of bytes 0..40) and the position (byte 40).
    pub fn from_exdata(exdata: Vec<u8>) -> (r: Self)
        requires
            exdata@.len() > 40,
        ensures
            r.name@ == utf16_buffer_text(exdata@.take(40)),
            r.pos == exdata@[40],
    {
        let head = vstd::slice::slice_subrange(exdata.as_slice(), 0, PLAYER_NAME_MAX_LEN * 2);
        assert(head@ =~= exdata@.take(40));
        let name = u8_utf16_buffer_to_str(head);
        let pos = exdata[PLAYER_NAME_MAX_LEN * 2];
        Self { name, pos }
    }
}

/// The player's new role in the room.
#[derive(Debug)]
pub struct STOCTypeChange {
    pub type_: libc::c_uchar,
}

impl STOCTypeChange {
    /// Reads the role from byte 0.
    pub fn from_exdata(exdata: Vec<u8>) -> (r: Self)
        requires
            exdata@.len() >= 1,
        ensures
            r.type_ == exdata@[0],
    {
        Self { type_: exdata[0] }
    }
}

// ----- laws of the message bodies -----

proof fn lemma_le32_bytes(b0: u8, b1: u8, b2: u8, b3: u8)
    ensures
        ({
            let x = (b0 as int + 0x100 * (b1 as int) + 0x1_0000 * (b2 as int) + 0x100_0000 * (
            b3 as int)) as u32;
            &&& x as int == b0 as int + 0x100 * (b1 as int) + 0x1_0000 * (b2 as int) + 0x100_0000
                * (b3 as int)
            &&& (x % 256) as u8 == b0
            &&& ((x / 256) % 256) as u8 == b1
            &&& ((x / 0x1_0000) % 256) as u8 == b2
            &&& (x / 0x100_0000) as u8 == b3
        }),
{
    let v: int = b0 as int + 0x100 * (b1 as int) + 0x1_0000 * (b2 as int) + 0x100_0000 * (
    b3 as int);
    assert(0 <= v < 0x1_0000_0000);
    assert(v % 256 == b0) by (nonlinear_arith)
        requires
            v == b0 as int + 0x100 * (b1 as int) + 0x1_0000 * (b2 as int) + 0x100_0000 * (b3 as int),
            0 <= b0 < 256,
    ;
    assert(v / 256 == b1 as int + 0x100 * (b2 as int) + 0x1_0000 * (b3 as int)) by (nonlinear_arith)
        requires
            v == b0 as int + 0x100 * (b1 as int) + 0x1_0000 * (b2 as int) + 0x100_0000 * (b3 as int),
            0 <= b0 < 256,
    ;
    let w: int = b1 as int + 0x100 * (b2 as int) + 0x1_0000 * (b3 as int);
    assert(w % 256 == b1) by (nonlinear_arith)
        requires
            w == b1 as int + 0x100 * (b2 as int) + 0x1_0000 * (b3 as int),
            0 <= b1 < 256,
    ;
    assert(v / 0x1_0000 == b2 as int + 0x100 * (b3 as int)) by (nonlinear_arith)
        requires
            v == b0 as int + 0x100 * (b1 as int) + 0x1_0000 * (b2 as int) + 0x100_0000 * (b3 as int),
            0 <= b0 < 256,
            0 <= b1 < 256,
    ;
    let y: int = b2 as int + 0x100 * (b3 as int);
    assert(y % 256 == b2) by (nonlinear_arith)
        requires
            y == b2 as int + 0x100 * (b3 as int),
            0 <= b2 < 256,
    ;
    assert(v / 0x100_0000 == b3) by (nonlinear_arith)
        requires
            v == b0 as int + 0x100 * (b1 as int) + 0x1_0000 * (b2 as int) + 0x100_0000 * (b3 as int),
            0 <= b0 < 256,
            0 <= b1 < 256,
            0 <= b2 < 256,
    ;
}

/// Two bytes read as a little-endian `u16` and laid out again are the same
/// two bytes.
pub proof fn lemma_le16_bytes(lo: u8, hi: u8)
    ensures
        u16_le_bytes(le16(lo, hi)) == seq![lo, hi],
{
    let x = le16(lo, hi);
    assert(x as int == lo as int + 256 * (hi as int));
    assert(u16_le_bytes(x) =~= seq![lo, hi]);
}

/// The room description is the payload's bytes, field by field: each
/// integer field laid out little-endian gives back its payload bytes
/// (the list id bytes 0..4, the life points bytes 12..16, the time limit
/// bytes 18..20), each byte field is its payload byte, and each flag is
/// set exactly when its byte is 1.
pub proof fn law_host_info_fields(b: Seq<u8>)
    requires
        b.len() >= 20,
    ensures
        u32_le_bytes(host_info_from(b).lflist) == b.subrange(0, 4),
        host_info_from(b).rule == b[4],
        host_info_from(b).mode == b[5],
        host_info_from(b).duel_rule == b[6],
        host_info_from(b).no_check_deck == (b[7] == 1),
        host_info_from(b).no_shuffle_deck == (b[8] == 1),
        u32_le_bytes(host_info_from(b).start_lp) == b.subrange(12, 16),
        host_info_from(b).start_lp as int == b[12] as int + 256 * (b[13] as int) + 65536 * (
        b[14] as int) + 16777216 * (b[15] as int),
        host_info_from(b).start_hand == b[16],
        host_info_from(b).draw_count == b[17],
        u16_le_bytes(host_info_from(b).time_limit) == b.subrange(18, 20),
{
    lemma_le32_bytes(b[0], b[1], b[2], b[3]);
    lemma_le32_bytes(b[12], b[13], b[14], b[15]);
    lemma_le16_bytes(b[18], b[19]);
    assert(u32_le_bytes(host_info_from(b).lflist) =~= b.subrange(0, 4));
    assert(u32_le_bytes(host_info_from(b).start_lp) =~= b.subrange(12, 16));
    assert(u16_le_bytes(host_info_from(b).time_limit) =~= b.subrange(18, 20));
}

/// A room description is accepted whatever its rule, mode and other bytes
/// hold: only its length and its two flag bytes decide.
pub proof fn law_host_info_bytes_ok(b: Seq<u8>)
    ensures
        host_info_bytes_ok(b) <==> (b.len() >= 20 && b[7] <= 1 && b[8] <= 1),
{
}

/// The deck body counts what it carries: it holds 2 + main + extra + side
/// words, the first is the main count plus the extra count, the second is
/// the side count (bytes 4..8, little-endian), and the codes follow in
/// order: main, extra, side.
pub proof fn law_update_deck_counts(d: Deck)
    requires
        d.main@.len() + d.extra@.len() <= i32::MAX,
        d.side@.len() <= i32::MAX,
    ensures
        ({
            let w = update_deck_words(d);
            let m = d.main@.len() as int;
            let e = d.extra@.len() as int;
            let s = d.side@.len() as int;
            &&& w.len() == 2 + m + e + s
            &&& w[0] as int == m + e
            &&& w[1] as int == s
            &&& forall|i: int| 0 <= i < m ==> w[2 + i] == d.main@[i]
            &&& forall|i: int| 0 <= i < e ==> w[2 + m + i] == d.extra@[i]
            &&& forall|i: int| 0 <= i < s ==> w[2 + m + e + i] == d.side@[i]
            &&& i32s_le_bytes(w).len() == 4 * (2 + m + e + s)
            &&& i32s_le_bytes(w).subrange(4, 8) == u32_le_bytes(s as u32)
        }),
{
    let w = update_deck_words(d);
    let s = d.side@.len() as int;
    assert(w[1] == d.side@.len() as i32);
    assert(crate::wire::i32_bits(w[1]) == s as u32);
    assert(i32s_le_bytes(w).subrange(4, 8) =~= u32_le_bytes(s as u32));
}

} // verus!
