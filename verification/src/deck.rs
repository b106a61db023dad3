//! Decks: card codes in the main, extra and side sections.
use vstd::prelude::*;
use vstd::string::StrSliceExecFns;
use crate::utf16::string_push;

verus! {

/// A deck: the card codes of its three sections, in file order.
#[derive(Debug)]
pub struct Deck {
    pub main: Vec<i32>,
    pub extra: Vec<i32>,
    pub side: Vec<i32>,
}

impl Default for Deck {
    /// An empty deck.
    fn default() -> (r: Self)
        ensures
            r.main@ == Seq::<i32>::empty(),
            r.extra@ == Seq::<i32>::empty(),
            r.side@ == Seq::<i32>::empty(),
    {
        Deck { main: Vec::new(), extra: Vec::new(), side: Vec::new() }
    }
}

/// A decimal digit.
pub open spec fn is_digit(c: char) -> bool {
    48 <= (c as u32) <= 57
}

/// The value of a string of decimal digits.
pub open spec fn digits_value(d: Seq<char>) -> int
    decreases d.len(),
{
    if d.len() == 0 {
        0
    } else {
        10 * digits_value(d.drop_last()) + ((d.last() as u32) - 48)
    }
}

/// Every character of `d` is a decimal digit.
pub open spec fn all_digits(d: Seq<char>) -> bool {
    forall|i: int| 0 <= i < d.len() ==> is_digit(#[trigger] d[i])
}

/// The `i32` that `s` writes in decimal: an optional `+` or `-` sign
/// followed by one digit or more, with the value in range; none otherwise.
pub open spec fn parse_i32(s: Seq<char>) -> Option<i32> {
    let signed = s.len() > 0 && (s[0] == '+' || s[0] == '-');
    let digits = if signed {
        s.drop_first()
    } else {
        s
    };
    let value = if signed && s[0] == '-' {
        -digits_value(digits)
    } else {
        digits_value(digits)
    };
    if digits.len() == 0 || !all_digits(digits) {
        None
    } else if i32::MIN <= value <= i32::MAX {
        Some(value as i32)
    } else {
        None
    }
}

proof fn lemma_digits_value_mono(d: Seq<char>, j: int)
    requires
        0 <= j <= d.len(),
        all_digits(d),
    ensures
        digits_value(d.take(j)) <= digits_value(d),
        0 <= digits_value(d.take(j)),
    decreases d.len() - j,
{
    if j < d.len() {
        lemma_digits_value_mono(d, j + 1);
        assert(d.take(j + 1).drop_last() =~= d.take(j));
        assert(is_digit(d[j]));
    } else {
        assert(d.take(j) =~= d);
        lemma_digits_value_nonneg(d);
    }
}

proof fn lemma_digits_value_nonneg(d: Seq<char>)
    requires
        all_digits(d),
    ensures
        0 <= digits_value(d),
    decreases d.len(),
{
    if d.len() > 0 {
        assert(all_digits(d.drop_last()));
        lemma_digits_value_nonneg(d.drop_last());
        assert(is_digit(d[d.len() - 1]));
    }
}

/// Reads a decimal `i32` as `str::parse` does.
fn parse_decimal_i32(s: &str) -> (r: Option<i32>)
    ensures
        r == parse_i32(s@),
{
    let n = s.unicode_len();
    let mut start: usize = 0;
    let mut neg = false;
    if n > 0 {
        let first = s.get_char(0);
        if first == '+' || first == '-' {
            start = 1;
            neg = first == '-';
        }
    }
    let ghost digits = s@.skip(start as int);
    proof {
        if start == 1 {
            assert(digits =~= s@.drop_first());
        } else {
            assert(digits =~= s@);
        }
    }
    if start == n {
        return None;
    }
    let mut acc: u64 = 0;
    let mut j: usize = start;
    while j < n
        invariant
            n == s@.len(),
            start <= j <= n,
            start == 0 || start == 1,
            (start == 1) == (s@.len() > 0 && (s@[0] == '+' || s@[0] == '-')),
            neg == (start == 1 && s@[0] == '-'),
            digits == s@.skip(start as int),
            digits == (if start == 1 {
                s@.drop_first()
            } else {
                s@
            }),
            digits.len() > 0,
            all_digits(digits.take(j - start)),
            acc == digits_value(digits.take(j - start)),
            acc <= 0x8000_0000,
        decreases n - j,
    {
        let c = s.get_char(j);
        let code = c as u32;
        assert(c == digits[j - start]);
        if code < 48 || code > 57 {
            assert(!is_digit(digits[j - start]));
            return None;
        }
        let next = acc * 10 + (code - 48) as u64;
        assert(digits.take(j - start + 1).drop_last() =~= digits.take(j - start));
        assert(all_digits(digits.take(j - start + 1)));
        if next > 0x8000_0000 {
            proof {
                if all_digits(digits) {
                    lemma_digits_value_mono(digits, j - start + 1);
                }
            }
            return None;
        }
        acc = next;
        j = j + 1;
    }
    assert(digits.take(n - start) =~= digits);
    if neg {
        Some((0 - acc as i64) as i32)
    } else if acc <= 0x7fff_ffff {
        Some(acc as i32)
    } else {
        None
    }
}

/// `line` spells exactly the characters of `lit`.
fn spells(line: &str, lit: &[char]) -> (r: bool)
    ensures
        r == (line@ == lit@),
{
    let n = line.unicode_len();
    if n != lit.len() {
        return false;
    }
    let mut i: usize = 0;
    while i < n
        invariant
            n == line@.len(),
            n == lit@.len(),
            i <= n,
            forall|k: int| 0 <= k < i ==> line@[k] == lit@[k],
        decreases n - i,
    {
        if line.get_char(i) != lit[i] {
            return false;
        }
        i = i + 1;
    }
    assert(line@ =~= lit@);
    true
}

/// The line that starts the main section.
pub open spec fn main_marker() -> Seq<char> {
    seq!['#', 'm', 'a', 'i', 'n']
}

/// The line that starts the extra section.
pub open spec fn extra_marker() -> Seq<char> {
    seq!['#', 'e', 'x', 't', 'r', 'a']
}

/// The line that starts the side section.
pub open spec fn side_marker() -> Seq<char> {
    seq!['!', 's', 'i', 'd', 'e']
}

/// A deck reader part way through a deck file: the deck read so far and
/// the section being read (1 main, 2 extra, 3 side; -1 before any).
pub struct DeckLoader {
    pub deck: Deck,
    pub section: i32,
}

/// The section that a line selects, if it is a section marker.
pub open spec fn marker_section(line: Seq<char>) -> Option<i32> {
    if line == main_marker() {
        Some(1)
    } else if line == extra_marker() {
        Some(2)
    } else if line == side_marker() {
        Some(3)
    } else {
        None
    }
}

/// The card code that a line adds to `section`, if any: a line that is not a
/// marker and reads as a decimal above 100, while a section is selected.
pub open spec fn line_card(line: Seq<char>, section: i32) -> Option<i32> {
    if marker_section(line) is Some {
        None
    } else {
        match parse_i32(line) {
            Some(code) => if code > 100 && 1 <= section <= 3 {
                Some(code)
            } else {
                None
            },
            None => None,
        }
    }
}

/// Every code of the deck is above 100.
pub open spec fn codes_above_100(d: Deck) -> bool {
    &&& forall|i: int| 0 <= i < d.main@.len() ==> d.main@[i] > 100
    &&& forall|i: int| 0 <= i < d.extra@.len() ==> d.extra@[i] > 100
    &&& forall|i: int| 0 <= i < d.side@.len() ==> d.side@[i] > 100
}

/// The state of a deck reader: the main, extra and side codes read so far
/// and the selected section.
pub type LoaderState = (Seq<i32>, Seq<i32>, Seq<i32>, i32);

/// The state before any line: empty sections, none selected.
pub open spec fn loader_start() -> LoaderState {
    (Seq::<i32>::empty(), Seq::<i32>::empty(), Seq::<i32>::empty(), -1i32)
}

/// The state after one more line: a section marker selects its section;
/// a card code (see `line_card`) is added to the selected section.
pub open spec fn feed_step(st: LoaderState, line: Seq<char>) -> LoaderState {
    let section = match marker_section(line) {
        Some(k) => k,
        None => st.3,
    };
    match line_card(line, st.3) {
        Some(code) => if st.3 == 1 {
            (st.0.push(code), st.1, st.2, section)
        } else if st.3 == 2 {
            (st.0, st.1.push(code), st.2, section)
        } else {
            (st.0, st.1, st.2.push(code), section)
        },
        None => (st.0, st.1, st.2, section),
    }
}

/// The state after the given lines, in order.
pub open spec fn feed_all(st: LoaderState, lines: Seq<Seq<char>>) -> LoaderState
    decreases lines.len(),
{
    if lines.len() == 0 {
        st
    } else {
        feed_all(feed_step(st, lines[0]), lines.drop_first())
    }
}

/// What a line buffer holds after each `read_line` over `s`, when the buffer
/// is never cleared: each read appends the text up to and including the next
/// `\n` (or the rest of `s`), so the buffer after a read is the prefix of `s`
/// read so far. `i` is where the scan stands.
pub open spec fn read_prefixes_from(s: Seq<char>, i: int) -> Seq<Seq<char>>
    decreases s.len() - i,
{
    if i < 0 || i >= s.len() {
        Seq::<Seq<char>>::empty()
    } else if s[i] == '\n' {
        seq![s.take(i + 1)] + read_prefixes_from(s, i + 1)
    } else if i + 1 == s.len() {
        seq![s]
    } else {
        read_prefixes_from(s, i + 1)
    }
}

/// The buffers that successive `read_line` calls leave over the content `s`.
pub open spec fn read_prefixes(s: Seq<char>) -> Seq<Seq<char>> {
    read_prefixes_from(s, 0)
}

impl View for DeckLoader {
    type V = LoaderState;

    open spec fn view(&self) -> LoaderState {
        (self.deck.main@, self.deck.extra@, self.deck.side@, self.section)
    }
}

impl DeckLoader {
    /// A reader at the start of a file: an empty deck, no section selected.
    pub fn new() -> (r: Self)
        ensures
            r@ == loader_start(),
    {
        DeckLoader { deck: Deck::default(), section: -1 }
    }

    /// Takes in one line of the file: a section marker selects its section;
    /// any other line that reads as a decimal above 100 is a card code,
    /// added to the selected section; everything else is passed over.
    pub fn feed_line(&mut self, line: &str)
        ensures
            final(self)@ == feed_step(old(self)@, line@),
            codes_above_100(old(self).deck) ==> codes_above_100(final(self).deck),
    {
        if spells(line, &['#', 'm', 'a', 'i', 'n']) {
            self.section = 1;
        } else if spells(line, &['#', 'e', 'x', 't', 'r', 'a']) {
            self.section = 2;
        } else if spells(line, &['!', 's', 'i', 'd', 'e']) {
            self.section = 3;
        } else {
            if let Some(code) = parse_decimal_i32(line) {
                if code > 100 {
                    if self.section == 1 {
                        self.deck.main.push(code);
                    } else if self.section == 2 {
                        self.deck.extra.push(code);
                    } else if self.section == 3 {
                        self.deck.side.push(code);
                    }
                }
            }
        }
    }

    /// The deck read so far.
    pub fn finish(self) -> (r: Deck)
        ensures
            r == self.deck,
    {
        self.deck
    }
}


/// A card-code line (not a marker, a decimal above 100) while a section is
/// selected appends exactly that code to the selected section, whatever the
/// section already holds; the other sections and the selection stay.
pub proof fn law_card_line_appends(st: LoaderState, line: Seq<char>, code: i32)
    requires
        marker_section(line) is None,
        parse_i32(line) == Some(code),
        code > 100,
        1 <= st.3 <= 3,
    ensures
        st.3 == 1 ==> feed_step(st, line) == (st.0 + seq![code], st.1, st.2, st.3),
        st.3 == 2 ==> feed_step(st, line) == (st.0, st.1 + seq![code], st.2, st.3),
        st.3 == 3 ==> feed_step(st, line) == (st.0, st.1, st.2 + seq![code], st.3),
{
    assert(st.0.push(code) =~= st.0 + seq![code]);
    assert(st.1.push(code) =~= st.1 + seq![code]);
    assert(st.2.push(code) =~= st.2 + seq![code]);
}

/// A run of `k` copies of one card-code line in the main section adds `k`
/// copies of the code to the main section.
pub proof fn law_card_run_in_main(st: LoaderState, line: Seq<char>, code: i32, k: nat)
    requires
        marker_section(line) is None,
        parse_i32(line) == Some(code),
        code > 100,
        st.3 == 1,
    ensures
        feed_all(st, Seq::new(k, |i: int| line)) == (
            st.0 + Seq::new(k, |i: int| code),
            st.1,
            st.2,
            st.3,
        ),
    decreases k,
{
    let lines = Seq::new(k, |i: int| line);
    if k == 0 {
        assert(st.0 + Seq::new(k, |i: int| code) =~= st.0);
    } else {
        law_card_line_appends(st, line, code);
        let st1 = feed_step(st, line);
        assert(lines[0] == line);
        assert(lines.drop_first() =~= Seq::new((k - 1) as nat, |i: int| line));
        law_card_run_in_main(st1, line, code, (k - 1) as nat);
        assert(st.0 + seq![code] + Seq::new((k - 1) as nat, |i: int| code) =~= st.0 + Seq::new(
            k,
            |i: int| code,
        ));
    }
}

/// A single digit reads as its value.
pub proof fn law_parse_single_digit(c: char)
    requires
        48 <= (c as u32) <= 57,
    ensures
        parse_i32(seq![c]) == Some(((c as u32) - 48) as i32),
{
    let one = seq![c];
    assert(one[0] == c);
    assert(one.last() == c);
    assert(c != '+' && c != '-');
    assert(one.drop_last() =~= Seq::<char>::empty());
    assert(digits_value(one.drop_last()) == 0);
    assert(digits_value(one) == (c as u32) - 48);
    assert(all_digits(one));
}

/// One more digit after an unsigned digit string multiplies its value by
/// ten and adds the digit, while the result stays in range.
pub proof fn law_parse_next_digit(d: Seq<char>, c: char, v: i32)
    requires
        48 <= (c as u32) <= 57,
        d.len() > 0,
        (d[0] as u32) != 43,
        (d[0] as u32) != 45,
        parse_i32(d) == Some(v),
        10 * v + ((c as u32) - 48) <= i32::MAX,
    ensures
        v >= 0,
        parse_i32(d.push(c)) == Some((10 * v + ((c as u32) - 48)) as i32),
{
    let e = d.push(c);
    assert(e[0] == d[0]);
    assert(e.drop_last() =~= d);
    assert(all_digits(d));
    lemma_digits_value_nonneg(d);
    assert(all_digits(e)) by {
        assert forall|i: int| 0 <= i < e.len() implies is_digit(#[trigger] e[i]) by {
            if i < d.len() {
                assert(e[i] == d[i]);
            }
        }
    }
}

/// A sign before a digit string: `+` reads the same value, `-` its negation.
pub proof fn law_parse_sign(d: Seq<char>)
    requires
        d.len() > 0,
        all_digits(d),
        digits_value(d) <= i32::MAX,
    ensures
        parse_i32(d) == Some(digits_value(d) as i32),
        parse_i32(seq!['+'] + d) == Some(digits_value(d) as i32),
        parse_i32(seq!['-'] + d) == Some((-digits_value(d)) as i32),
{
    lemma_digits_value_nonneg(d);
    assert(d[0] != '+' && d[0] != '-') by {
        assert(is_digit(d[0]));
    }
    assert((seq!['+'] + d).drop_first() =~= d);
    assert((seq!['-'] + d).drop_first() =~= d);
}

/// A section marker selects its section (`#main` 1, `#extra` 2, `!side` 3)
/// and adds no code.
pub proof fn law_marker_selects(st: LoaderState)
    ensures
        feed_step(st, seq!['#', 'm', 'a', 'i', 'n']) == (st.0, st.1, st.2, 1i32),
        feed_step(st, seq!['#', 'e', 'x', 't', 'r', 'a']) == (st.0, st.1, st.2, 2i32),
        feed_step(st, seq!['!', 's', 'i', 'd', 'e']) == (st.0, st.1, st.2, 3i32),
{
    assert(seq!['#', 'e', 'x', 't', 'r', 'a'] != main_marker()) by {
        assert(seq!['#', 'e', 'x', 't', 'r', 'a'].len() != main_marker().len());
    }
    assert(seq!['!', 's', 'i', 'd', 'e'] != main_marker()) by {
        assert(seq!['!', 's', 'i', 'd', 'e'][0] != main_marker()[0]);
    }
    assert(seq!['!', 's', 'i', 'd', 'e'] != extra_marker()) by {
        assert(seq!['!', 's', 'i', 'd', 'e'].len() != extra_marker().len());
    }
}

/// A line that is not a marker and does not read as a decimal above 100,
/// or any line read while no section is selected, changes nothing but
/// (for a marker) the selection.
pub proof fn law_other_line_keeps(st: LoaderState, line: Seq<char>)
    requires
        marker_section(line) is None,
        !(1 <= st.3 <= 3) || (match parse_i32(line) {
            Some(code) => code <= 100,
            None => true,
        }),
    ensures
        feed_step(st, line) == st,
{
}

/// A line that holds a line break is neither a section marker nor a number.
proof fn lemma_feed_broken_line(st: LoaderState, line: Seq<char>, j: int)
    requires
        0 <= j < line.len(),
        line[j] == '\n',
    ensures
        feed_step(st, line) == st,
{
    if line == main_marker() {
        assert(main_marker()[j] != '\n');
    }
    if line == extra_marker() {
        assert(extra_marker()[j] != '\n');
    }
    if line == side_marker() {
        assert(side_marker()[j] != '\n');
    }
    let signed = line.len() > 0 && (line[0] == '+' || line[0] == '-');
    if signed {
        assert(j >= 1);
        assert(line.drop_first()[j - 1] == '\n');
        assert(!is_digit(line.drop_first()[j - 1]));
    } else {
        assert(!is_digit(line[j]));
    }
}

/// Every buffer is either the whole content or holds a line break.
proof fn lemma_read_prefixes_shape(s: Seq<char>, i: int, t: int)
    requires
        0 <= i,
        0 <= t < read_prefixes_from(s, i).len(),
    ensures
        read_prefixes_from(s, i)[t] == s || exists|j: int|
            0 <= j < read_prefixes_from(s, i)[t].len() && read_prefixes_from(s, i)[t][j] == '\n',
    decreases s.len() - i,
{
    if i >= s.len() {
    } else if s[i] == '\n' {
        let rest = read_prefixes_from(s, i + 1);
        if t == 0 {
            let e = s.take(i + 1);
            assert(read_prefixes_from(s, i)[0] == e);
            assert(e[i] == '\n');
        } else {
            lemma_read_prefixes_shape(s, i + 1, t - 1);
            assert(read_prefixes_from(s, i)[t] == rest[t - 1]);
        }
    } else if i + 1 == s.len() {
    } else {
        lemma_read_prefixes_shape(s, i + 1, t);
    }
}

/// What the reader keeps through the buffers of one content `s`: no code, and
/// a selected section only when `s` itself is a section marker.
pub open spec fn reads_nothing(st: LoaderState, s: Seq<char>) -> bool {
    &&& st.0.len() == 0
    &&& st.1.len() == 0
    &&& st.2.len() == 0
    &&& (st.3 == -1 || marker_section(s) is Some)
}

proof fn lemma_feed_all_nothing(st: LoaderState, s: Seq<char>, lines: Seq<Seq<char>>)
    requires
        reads_nothing(st, s),
        forall|t: int|
            0 <= t < lines.len() ==> lines[t] == s || exists|j: int|
                0 <= j < lines[t].len() && lines[t][j] == '\n',
    ensures
        reads_nothing(feed_all(st, lines), s),
    decreases lines.len(),
{
    if lines.len() > 0 {
        let line = lines[0];
        if line == s {
        } else {
            let j = choose|j: int| 0 <= j < line.len() && line[j] == '\n';
            lemma_feed_broken_line(st, line, j);
        }
        assert forall|t: int| 0 <= t < lines.drop_first().len() implies lines.drop_first()[t] == s
            || exists|j: int|
            0 <= j < lines.drop_first()[t].len() && lines.drop_first()[t][j] == '\n' by {
            assert(lines.drop_first()[t] == lines[t + 1]);
        }
        lemma_feed_all_nothing(feed_step(st, line), s, lines.drop_first());
    }
}

/// A deck read through a line buffer that is never cleared is empty: after
/// the first read the buffer keeps a line break, so it is never a section
/// marker nor a number, and the content without a line break is one buffer,
/// read while no section is selected.
pub proof fn law_read_deck_is_empty(s: Seq<char>)
    ensures
        ({
            let st = feed_all(loader_start(), read_prefixes(s));
            st.0.len() == 0 && st.1.len() == 0 && st.2.len() == 0
        }),
{
    let lines = read_prefixes(s);
    assert forall|t: int| 0 <= t < lines.len() implies lines[t] == s || exists|j: int|
        0 <= j < lines[t].len() && lines[t][j] == '\n' by {
        lemma_read_prefixes_shape(s, 0, t);
    }
    lemma_feed_all_nothing(loader_start(), s, lines);
}

/// The string of the given characters.
fn string_of_chars(cs: &Vec<char>, n: usize) -> (r: String)
    requires
        n <= cs@.len(),
    ensures
        r@ == cs@.take(n as int),
{
    let mut out = String::new();
    let mut i: usize = 0;
    while i < n
        invariant
            n <= cs@.len(),
            i <= n,
            out@ == cs@.take(i as int),
        decreases n - i,
    {
        string_push(&mut out, cs[i]);
        i = i + 1;
        assert(out@ =~= cs@.take(i as int));
    }
    out
}

/// Reads a deck from a file's content as `read_line` into one buffer that
/// is never cleared would: after each read (up to and including a `\n`, or
/// the rest of the content) the whole buffer read so far is taken in as a
/// line. Such a buffer is never a marker followed by codes, so the deck is
/// empty (see `law_read_deck_is_empty`).
pub fn deck_from_content(content: &str) -> (r: Deck)
    ensures
        (r.main@, r.extra@, r.side@) == ({
            let st = feed_all(loader_start(), read_prefixes(content@));
            (st.0, st.1, st.2)
        }),
        r.main@.len() == 0,
        r.extra@.len() == 0,
        r.side@.len() == 0,
{
    let n = content.unicode_len();
    let mut loader = DeckLoader::new();
    let mut buf: Vec<char> = Vec::new();
    let mut i: usize = 0;
    while i < n
        invariant
            n == content@.len(),
            i <= n,
            buf@ == content@.take(i as int),
            feed_all(loader_start(), read_prefixes(content@)) == feed_all(
                loader@,
                read_prefixes_from(content@, i as int),
            ),
        decreases n - i,
    {
        let c = content.get_char(i);
        let ghost ls = read_prefixes_from(content@, i as int);
        buf.push(c);
        assert(buf@ =~= content@.take(i + 1));
        if c == '\n' || i + 1 == n {
            let len = buf.len();
            let line = string_of_chars(&buf, len);
            assert(buf@.take(len as int) =~= buf@);
            proof {
                if c == '\n' {
                    assert(ls == seq![content@.take(i + 1)] + read_prefixes_from(content@, i + 1));
                } else {
                    assert(content@.take(i + 1) =~= content@);
                    assert(read_prefixes_from(content@, i + 1) == Seq::<Seq<char>>::empty());
                    assert(ls == seq![content@]);
                    assert(ls =~= seq![content@.take(i + 1)] + read_prefixes_from(content@, i + 1));
                }
                assert(ls[0] == line@);
                assert(ls.drop_first() =~= read_prefixes_from(content@, i + 1));
            }
            loader.feed_line(line.as_str());
        }
        i = i + 1;
    }
    proof {
        law_read_deck_is_empty(content@);
    }
    loader.finish()
}

} // verus!
