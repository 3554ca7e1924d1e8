//! The wire codec: newline-delimited frames. JSON frames carry the protocol
//! messages; three legacy text forms (`CMD:`, `BROADCAST::`, `ACK`) ride the
//! same framing.
use vstd::prelude::*;

verus! {

use crate::strutil::dec_u64;
use crate::strutil::starts_with;

/// The command frame: `CMD:<command_id>::<command>` and a newline.
pub open spec fn spec_cmd_line(command_id: Seq<char>, command: Seq<char>) -> Seq<char> {
    "CMD:"@ + command_id + "::"@ + command + "\n"@
}

/// The broadcast frame: `BROADCAST::<text>` and a newline.
pub open spec fn spec_broadcast_line(text: Seq<char>) -> Seq<char> {
    "BROADCAST::"@ + text + "\n"@
}

/// The heartbeat acknowledgement frame.
pub open spec fn spec_ack_line() -> Seq<char> {
    "ACK\n"@
}

/// The polite refusal sent when the connection cap is reached.
pub open spec fn spec_rejected_line() -> Seq<char> {
    "CONNECTION_REJECTED: Too many connections\n"@
}

pub fn cmd_line(command_id: &str, command: &str) -> (r: String)
    ensures
        r@ == spec_cmd_line(command_id@, command@),
{
    let mut s = String::from_str("CMD:");
    s.append(command_id);
    s.append("::");
    s.append(command);
    s.append("\n");
    s
}

pub fn broadcast_line(text: &str) -> (r: String)
    ensures
        r@ == spec_broadcast_line(text@),
{
    let mut s = String::from_str("BROADCAST::");
    s.append(text);
    s.append("\n");
    s
}

pub fn ack_line() -> (r: String)
    ensures
        r@ == spec_ack_line(),
{
    String::from_str("ACK\n")
}

pub fn rejected_line() -> (r: String)
    ensures
        r@ == spec_rejected_line(),
{
    String::from_str("CONNECTION_REJECTED: Too many connections\n")
}

/// Splits a byte stream into logical lines: a line ends at `\n`, carriage
/// returns are dropped, and what remains at end of stream is the last line.
pub struct LineBuffer {
    pub buf: Vec<u8>,
}

impl LineBuffer {
    pub fn new() -> (r: LineBuffer)
        ensures
            r.buf@ == Seq::<u8>::empty(),
    {
        LineBuffer { buf: Vec::new() }
    }

    /// Feeds one byte; returns the finished line at a newline, which never
    /// holds `\n` or `\r`.
    pub fn push_byte(&mut self, b: u8) -> (r: Option<Vec<u8>>)
        ensures
            b == 10 ==> (r matches Some(line) && line@ == old(self).buf@ && final(self).buf@
                == Seq::<u8>::empty()),
            b == 13 ==> r is None && final(self).buf@ == old(self).buf@,
            b != 10 && b != 13 ==> r is None && final(self).buf@ == old(self).buf@.push(b),
    {
        if b == 10 {
            let mut line: Vec<u8> = Vec::new();
            core::mem::swap(&mut line, &mut self.buf);
            Some(line)
        } else if b == 13 {
            None
        } else {
            self.buf.push(b);
            None
        }
    }

    /// What remains unterminated at end of stream; empty means nothing held.
    pub fn take_remainder(&mut self) -> (r: Vec<u8>)
        ensures
            r@ == old(self).buf@,
            final(self).buf@ == Seq::<u8>::empty(),
    {
        let mut line: Vec<u8> = Vec::new();
        core::mem::swap(&mut line, &mut self.buf);
        line
    }
}

/// Whether the trimmed line begins with `CMD:`, the loopback defence on the
/// server's read path.
pub open spec fn spec_is_cmd_echo(line: Seq<char>) -> bool {
    starts_with(crate::security::trim_sp(line), "CMD:"@)
}

pub fn is_cmd_echo(line: &Vec<char>) -> (r: bool)
    ensures
        r == spec_is_cmd_echo(line@),
{
    let t = crate::security::trim_sp_chars(line);
    let p = crate::strutil::str_to_chars("CMD:");
    crate::strutil::begins_with(&t, &p)
}


/// A decimal digit.
pub open spec fn is_digit(c: char) -> bool {
    '0' <= c && c <= '9'
}

/// Its value.
pub open spec fn digit_val(c: char) -> int {
    c as u32 - 48
}

/// A hexadecimal digit, either case.
pub open spec fn is_hex(c: char) -> bool {
    is_digit(c) || ('a' <= c && c <= 'f') || ('A' <= c && c <= 'F')
}

/// Its value.
pub open spec fn hex_val(c: char) -> int {
    if is_digit(c) {
        c as u32 - 48
    } else if 'a' <= c && c <= 'f' {
        c as u32 - 87
    } else {
        c as u32 - 55
    }
}

/// How one character is written inside a JSON string: quotes, backslashes
/// and control characters are escaped, everything else stands as itself.
pub open spec fn esc_char(c: char) -> Seq<char> {
    if c == '"' {
        seq!['\\', '"']
    } else if c == '\\' {
        seq!['\\', '\\']
    } else if c == '\n' {
        seq!['\\', 'n']
    } else if c == '\r' {
        seq!['\\', 'r']
    } else if c == '\t' {
        seq!['\\', 't']
    } else if (c as u32) < 0x20 {
        seq!['\\', 'u', '0', '0', crate::ext::hex_digit((c as u32) as int / 16), crate::ext::hex_digit((c as u32) as int % 16)]
    } else {
        seq![c]
    }
}

/// A string's characters, escaped.
pub open spec fn esc(x: Seq<char>) -> Seq<char>
    decreases x.len(),
{
    if x.len() == 0 {
        Seq::empty()
    } else {
        esc_char(x[0]) + esc(x.drop_first())
    }
}

/// A JSON string literal: quoted and escaped.
pub open spec fn enc_json_string(x: Seq<char>) -> Seq<char> {
    seq!['"'] + esc(x) + seq!['"']
}

/// What an escape letter stands for.
pub open spec fn esc_unmap(c: char) -> Option<char> {
    if c == '"' {
        Some('"')
    } else if c == '\\' {
        Some('\\')
    } else if c == '/' {
        Some('/')
    } else if c == 'n' {
        Some('\n')
    } else if c == 'r' {
        Some('\r')
    } else if c == 't' {
        Some('\t')
    } else if c == 'b' {
        Some('\u{0008}')
    } else if c == 'f' {
        Some('\u{000c}')
    } else {
        None
    }
}

/// The characters of a JSON string body starting at `i` (just inside the
/// opening quote), and the position after the closing quote.
pub open spec fn p_str_body(s: Seq<char>, i: int) -> Option<(Seq<char>, int)>
    decreases s.len() - i,
    when 0 <= i <= s.len()
{
    if i >= s.len() {
        None
    } else if s[i] == '"' {
        Some((Seq::empty(), i + 1))
    } else if s[i] == '\\' {
        if i + 1 >= s.len() {
            None
        } else if s[i + 1] == 'u' {
            if i + 6 > s.len() {
                None
            } else if !(is_hex(s[i + 2]) && is_hex(s[i + 3]) && is_hex(s[i + 4]) && is_hex(
                s[i + 5],
            )) {
                None
            } else {
                let v = hex_val(s[i + 2]) * 4096 + hex_val(s[i + 3]) * 256 + hex_val(s[i + 4]) * 16
                    + hex_val(s[i + 5]);
                if 0xD800 <= v < 0xE000 {
                    None
                } else {
                    match p_str_body(s, i + 6) {
                        Some((rest, j)) => Some((seq![(v as u32) as char] + rest, j)),
                        None => None,
                    }
                }
            }
        } else {
            match esc_unmap(s[i + 1]) {
                Some(ch) => match p_str_body(s, i + 2) {
                    Some((rest, j)) => Some((seq![ch] + rest, j)),
                    None => None,
                },
                None => None,
            }
        }
    } else if (s[i] as u32) < 0x20 {
        None
    } else {
        match p_str_body(s, i + 1) {
            Some((rest, j)) => Some((seq![s[i]] + rest, j)),
            None => None,
        }
    }
}

/// A JSON string starting at `i`: an opening quote, then its body.
pub open spec fn p_string(s: Seq<char>, i: int) -> Option<(Seq<char>, int)> {
    if 0 <= i < s.len() && s[i] == '"' {
        p_str_body(s, i + 1)
    } else {
        None
    }
}

/// Whether `lit` sits at position `i`; on a match, the position after it.
pub open spec fn p_lit(s: Seq<char>, i: int, lit: Seq<char>) -> Option<int> {
    if 0 <= i && i + lit.len() <= s.len() && s.subrange(i, i + lit.len()) == lit {
        Some(i + lit.len())
    } else {
        None
    }
}

/// The end of the digit run starting at `i`.
pub open spec fn digits_end(s: Seq<char>, i: int) -> int
    decreases s.len() - i,
    when 0 <= i <= s.len()
{
    if i >= s.len() {
        i
    } else if !is_digit(s[i]) {
        i
    } else {
        digits_end(s, i + 1)
    }
}

/// The number the digit characters denote.
pub open spec fn digits_val(d: Seq<char>) -> int
    decreases d.len(),
{
    if d.len() == 0 {
        0
    } else {
        digits_val(d.drop_last()) * 10 + digit_val(d.last())
    }
}

/// An unsigned 64-bit decimal starting at `i`: the maximal digit run, which
/// must be non-empty and fit.
pub open spec fn p_u64(s: Seq<char>, i: int) -> Option<(u64, int)> {
    if 0 <= i <= s.len() {
        let e = digits_end(s, i);
        if e == i {
            None
        } else if digits_val(s.subrange(i, e)) > u64::MAX {
            None
        } else {
            Some((digits_val(s.subrange(i, e)) as u64, e))
        }
    } else {
        None
    }
}

/// A signed 32-bit decimal: an optional minus sign, then digits, in range.
pub open spec fn p_i32(s: Seq<char>, i: int) -> Option<(i32, int)> {
    if 0 <= i < s.len() && s[i] == '-' {
        match p_u64(s, i + 1) {
            Some((m, j)) => if m <= 0x8000_0000u64 {
                Some(((-(m as int)) as i32, j))
            } else {
                None
            },
            None => None,
        }
    } else {
        match p_u64(s, i) {
            Some((m, j)) => if m <= 0x7FFF_FFFFu64 {
                Some((m as i32, j))
            } else {
                None
            },
            None => None,
        }
    }
}

/// A JSON boolean.
pub open spec fn p_bool(s: Seq<char>, i: int) -> Option<(bool, int)> {
    if p_lit(s, i, "true"@) is Some {
        Some((true, p_lit(s, i, "true"@)->Some_0))
    } else if p_lit(s, i, "false"@) is Some {
        Some((false, p_lit(s, i, "false"@)->Some_0))
    } else {
        None
    }
}

/// CPU usage in hundredths of a percent: an integer part, then up to two
/// fractional digits are kept and any further ones ignored. No sign and no
/// exponent are accepted.
pub open spec fn p_centi(s: Seq<char>, i: int) -> Option<(u64, int)> {
    match p_u64(s, i) {
        None => None,
        Some((ip, j)) => {
            if j < s.len() && s[j] == '.' {
                let e = digits_end(s, j + 1);
                if e == j + 1 {
                    None
                } else {
                    let d1 = digit_val(s[j + 1]);
                    let d2 = if e > j + 2 {
                        digit_val(s[j + 2])
                    } else {
                        0
                    };
                    if ip * 100 + d1 * 10 + d2 > u64::MAX {
                        None
                    } else {
                        Some(((ip * 100 + d1 * 10 + d2) as u64, e))
                    }
                }
            } else {
                if ip * 100 > u64::MAX {
                    None
                } else {
                    Some(((ip * 100) as u64, j))
                }
            }
        },
    }
}

/// CPU usage written back out: the whole percent, a dot, two digits.
pub open spec fn enc_centi(c: u64) -> Seq<char> {
    crate::strutil::dec_u64(c as int / 100) + seq!['.', crate::strutil::dec_digit(
        (c as int % 100) / 10,
    ), crate::strutil::dec_digit(c as int % 10)]
}

/// A wall-clock stamp: either the seconds-and-nanoseconds object existing
/// agents send, or a bare number of seconds.
pub open spec fn p_ts(s: Seq<char>, i: int) -> Option<(crate::model::Timestamp, int)> {
    match p_lit(s, i, "{\"secs_since_epoch\":"@) {
        Some(j1) => match p_u64(s, j1) {
            Some((secs, j2)) => match p_lit(s, j2, ",\"nanos_since_epoch\":"@) {
                Some(j3) => match p_u64(s, j3) {
                    Some((nanos, j4)) => if nanos < 1_000_000_000 && p_lit(s, j4, "}"@) is Some {
                        Some(
                            (
                                crate::model::Timestamp { secs, nanos: nanos as u32 },
                                p_lit(s, j4, "}"@)->Some_0,
                            ),
                        )
                    } else {
                        None
                    },
                    None => None,
                },
                None => None,
            },
            None => None,
        },
        None => match p_u64(s, i) {
            Some((secs, j)) => Some((crate::model::Timestamp { secs, nanos: 0u32 }, j)),
            None => None,
        },
    }
}

/// A stamp written back out, in the object form agents use.
pub open spec fn enc_ts(t: crate::model::Timestamp) -> Seq<char> {
    "{\"secs_since_epoch\":"@ + crate::strutil::dec_u64(t.secs as int)
        + ",\"nanos_since_epoch\":"@ + crate::strutil::dec_u64(t.nanos as int) + "}"@
}


/// Escaping distributes over concatenation.
pub proof fn lemma_esc_add(a: Seq<char>, b: Seq<char>)
    ensures
        esc(a + b) == esc(a) + esc(b),
    decreases a.len(),
{
    if a.len() == 0 {
        assert(a + b =~= b);
        assert(esc(a) + esc(b) =~= esc(b));
    } else {
        assert((a + b).drop_first() =~= a.drop_first() + b);
        lemma_esc_add(a.drop_first(), b);
        assert((a + b)[0] == a[0]);
        assert(esc_char(a[0]) + (esc(a.drop_first()) + esc(b)) =~= (esc_char(a[0]) + esc(
            a.drop_first(),
        )) + esc(b));
    }
}

/// One character's escape, emitted.
fn push_esc_char(out: &mut Vec<char>, c: char)
    ensures
        final(out)@ == old(out)@ + esc_char(c),
{
    let ghost pre = out@;
    if c == '"' {
        out.push('\\');
        out.push('"');
    } else if c == '\\' {
        out.push('\\');
        out.push('\\');
    } else if c == '\n' {
        out.push('\\');
        out.push('n');
    } else if c == '\r' {
        out.push('\\');
        out.push('r');
    } else if c == '\t' {
        out.push('\\');
        out.push('t');
    } else if (c as u32) < 0x20 {
        out.push('\\');
        out.push('u');
        out.push('0');
        out.push('0');
        let v: u32 = c as u32;
        out.push(hex_digit_char((v / 16) as u64));
        out.push(hex_digit_char((v % 16) as u64));
    } else {
        out.push(c);
    }
    proof {
        assert(final(out)@ =~= pre + esc_char(c));
    }
}

/// The lowercase hexadecimal digit character for a value in 0..16.
fn hex_digit_char(d: u64) -> (r: char)
    requires
        d < 16,
    ensures
        r == crate::ext::hex_digit(d as int),
{
    if d == 0 {
        '0'
    } else if d == 1 {
        '1'
    } else if d == 2 {
        '2'
    } else if d == 3 {
        '3'
    } else if d == 4 {
        '4'
    } else if d == 5 {
        '5'
    } else if d == 6 {
        '6'
    } else if d == 7 {
        '7'
    } else if d == 8 {
        '8'
    } else if d == 9 {
        '9'
    } else if d == 10 {
        'a'
    } else if d == 11 {
        'b'
    } else if d == 12 {
        'c'
    } else if d == 13 {
        'd'
    } else if d == 14 {
        'e'
    } else {
        'f'
    }
}

/// A whole string escaped and quoted, emitted.
fn push_json_string(out: &mut Vec<char>, x: &str)
    ensures
        final(out)@ == old(out)@ + enc_json_string(x@),
{
    let cs = crate::strutil::str_to_chars(x);
    out.push('"');
    let ghost base = out@;
    let mut k: usize = 0;
    while k < cs.len()
        invariant
            k <= cs@.len(),
            cs@ == x@,
            out@ == base + esc(cs@.take(k as int)),
        decreases cs@.len() - k,
    {
        push_esc_char(out, cs[k]);
        proof {
            assert(cs@.take(k as int + 1) =~= cs@.take(k as int) + seq![cs@[k as int]]);
            lemma_esc_add(cs@.take(k as int), seq![cs@[k as int]]);
            assert(seq![cs@[k as int]].drop_first() =~= Seq::<char>::empty());
            assert(seq![cs@[k as int]][0] == cs@[k as int]);
            assert(esc(Seq::<char>::empty()) == Seq::<char>::empty());
            assert(esc(seq![cs@[k as int]]) == esc_char(cs@[k as int]) + esc(
                seq![cs@[k as int]].drop_first(),
            ));
            assert(esc(seq![cs@[k as int]]) =~= esc_char(cs@[k as int]));
            assert(base + esc(cs@.take(k as int)) + esc_char(cs@[k as int]) =~= base + esc(
                cs@.take(k as int + 1),
            ));
        }
        k = k + 1;
    }
    proof {
        assert(cs@.take(cs@.len() as int) =~= cs@);
    }
    out.push('"');
    proof {
        assert(final(out)@ =~= old(out)@ + enc_json_string(x@));
    }
}

/// A literal chunk of the frame, emitted.
fn push_lit(out: &mut Vec<char>, lit: &str)
    ensures
        final(out)@ == old(out)@ + lit@,
{
    let cs = crate::strutil::str_to_chars(lit);
    let ghost base = out@;
    let mut k: usize = 0;
    while k < cs.len()
        invariant
            k <= cs@.len(),
            cs@ == lit@,
            out@ =~= base + cs@.take(k as int),
        decreases cs@.len() - k,
    {
        out.push(cs[k]);
        k = k + 1;
        proof {
            assert(out@ =~= base + cs@.take(k as int));
        }
    }
    proof {
        assert(cs@.take(cs@.len() as int) =~= cs@);
    }
}

/// An unsigned decimal, emitted.
fn push_u64(out: &mut Vec<char>, n: u64)
    ensures
        final(out)@ == old(out)@ + crate::strutil::dec_u64(n as int),
{
    let mut d = crate::strutil::u64_to_dec(n);
    out.append(&mut d);
}

/// A signed decimal, emitted.
fn push_i32(out: &mut Vec<char>, n: i32)
    ensures
        final(out)@ == old(out)@ + crate::strutil::dec_i64(n as int),
{
    let mut d = crate::strutil::i64_to_dec(n as i64);
    out.append(&mut d);
}

/// CPU hundredths, emitted as a two-place decimal.
fn push_centi(out: &mut Vec<char>, c: u64)
    ensures
        final(out)@ == old(out)@ + enc_centi(c),
{
    push_u64(out, c / 100);
    out.push('.');
    out.push(crate::strutil::digit_char((c % 100) / 10));
    out.push(crate::strutil::digit_char(c % 10));
    proof {
        assert(final(out)@ =~= old(out)@ + enc_centi(c));
    }
}

/// A stamp in object form, emitted.
fn push_ts(out: &mut Vec<char>, t: &crate::model::Timestamp)
    ensures
        final(out)@ == old(out)@ + enc_ts(*t),
{
    push_lit(out, "{\"secs_since_epoch\":");
    push_u64(out, t.secs);
    push_lit(out, ",\"nanos_since_epoch\":");
    push_u64(out, t.nanos as u64);
    push_lit(out, "}");
    proof {
        assert(final(out)@ =~= old(out)@ + enc_ts(*t));
    }
}

/// Whether `lit` sits at `i`, executably.
fn e_lit(s: &Vec<char>, i: usize, lit: &Vec<char>) -> (r: Option<usize>)
    ensures
        match r {
            Some(j) => p_lit(s@, i as int, lit@) == Some(j as int),
            None => p_lit(s@, i as int, lit@) is None,
        },
{
    if i > s.len() || lit.len() > s.len() - i {
        return None;
    }
    if crate::strutil::eq_at(s, lit, i) {
        Some(i + lit.len())
    } else {
        None
    }
}

fn e_digit(c: char) -> (r: bool)
    ensures
        r == is_digit(c),
{
    '0' <= c && c <= '9'
}

fn e_hex(c: char) -> (r: bool)
    ensures
        r == is_hex(c),
{
    ('0' <= c && c <= '9') || ('a' <= c && c <= 'f') || ('A' <= c && c <= 'F')
}

fn e_hex_val(c: char) -> (r: u32)
    requires
        is_hex(c),
    ensures
        r == hex_val(c),
{
    if '0' <= c && c <= '9' {
        (c as u32) - 48
    } else if 'a' <= c && c <= 'f' {
        (c as u32) - 87
    } else {
        (c as u32) - 55
    }
}

/// The body of a JSON string, executably.
fn e_str_body(s: &Vec<char>, i: usize) -> (r: Option<(Vec<char>, usize)>)
    requires
        i <= s@.len(),
    ensures
        match r {
            Some((x, j)) => p_str_body(s@, i as int) == Some((x@, j as int)),
            None => p_str_body(s@, i as int) is None,
        },
    decreases s@.len() - i,
{
    if i >= s.len() {
        return None;
    }
    let c = s[i];
    if c == '"' {
        let empty_out: Vec<char> = Vec::new();
        proof {
            assert(empty_out@ =~= Seq::<char>::empty());
        }
        return Some((empty_out, i + 1));
    }
    if c == '\\' {
        if i + 1 >= s.len() {
            return None;
        }
        let e = s[i + 1];
        if e == 'u' {
            if s.len() - i < 6 {
                return None;
            }
            if !(e_hex(s[i + 2]) && e_hex(s[i + 3]) && e_hex(s[i + 4]) && e_hex(s[i + 5])) {
                return None;
            }
            let v: u32 = e_hex_val(s[i + 2]) * 4096 + e_hex_val(s[i + 3]) * 256 + e_hex_val(
                s[i + 4],
            ) * 16 + e_hex_val(s[i + 5]);
            if 0xD800 <= v && v < 0xE000 {
                return None;
            }
            let ch = match crate::strutil::char_from_u32_checked(v) {
                Some(ch) => ch,
                None => {
                    proof {
                        assert(vstd::utf8::is_scalar(v));
                    }
                    return None;
                },
            };
            match e_str_body(s, i + 6) {
                Some((mut rest, j)) => {
                    rest.insert(0, ch);
                    proof {
                        assert(rest@ =~= seq![(v as u32) as char]
                            + p_str_body(s@, i as int + 6)->Some_0.0);
                    }
                    Some((rest, j))
                },
                None => None,
            }
        } else {
            let unmapped = if e == '"' {
                Some('"')
            } else if e == '\\' {
                Some('\\')
            } else if e == '/' {
                Some('/')
            } else if e == 'n' {
                Some('\n')
            } else if e == 'r' {
                Some('\r')
            } else if e == 't' {
                Some('\t')
            } else if e == 'b' {
                Some('\u{0008}')
            } else if e == 'f' {
                Some('\u{000c}')
            } else {
                None
            };
            match unmapped {
                Some(ch) => match e_str_body(s, i + 2) {
                    Some((mut rest, j)) => {
                        rest.insert(0, ch);
                        proof {
                            assert(rest@ =~= seq![ch] + p_str_body(s@, i as int + 2)->Some_0.0);
                        }
                        Some((rest, j))
                    },
                    None => None,
                },
                None => None,
            }
        }
    } else if (c as u32) < 0x20 {
        None
    } else {
        match e_str_body(s, i + 1) {
            Some((mut rest, j)) => {
                rest.insert(0, c);
                proof {
                    assert(rest@ =~= seq![c] + p_str_body(s@, i as int + 1)->Some_0.0);
                }
                Some((rest, j))
            },
            None => None,
        }
    }
}

/// A JSON string, executably; yields its characters as a `String`.
fn e_string(s: &Vec<char>, i: usize) -> (r: Option<(String, usize)>)
    requires
        i <= s@.len(),
    ensures
        match r {
            Some((x, j)) => p_string(s@, i as int) == Some((x@, j as int)),
            None => p_string(s@, i as int) is None,
        },
{
    if i < s.len() && s[i] == '"' {
        match e_str_body(s, i + 1) {
            Some((x, j)) => Some((crate::strutil::chars_to_string(&x), j)),
            None => None,
        }
    } else {
        None
    }
}

fn e_digits_end(s: &Vec<char>, i: usize) -> (r: usize)
    requires
        i <= s@.len(),
    ensures
        r == digits_end(s@, i as int),
        i <= r <= s@.len(),
{
    let n = s.len();
    let mut j: usize = i;
    loop
        invariant
            i <= j <= n,
            n == s@.len(),
            digits_end(s@, i as int) == digits_end(s@, j as int),
        decreases n - j,
    {
        if j >= n {
            return j;
        }
        if !e_digit(s[j]) {
            return j;
        }
        j = j + 1;
    }
}

/// Digit values never shrink a number: dropping trailing digits cannot make
/// it larger.
proof fn lemma_digits_val_prefix(d: Seq<char>, k: int)
    requires
        0 <= k <= d.len(),
        forall|m: int| 0 <= m < d.len() ==> is_digit(#[trigger] d[m]),
    ensures
        digits_val(d.take(k)) <= digits_val(d),
        digits_val(d) >= 0,
    decreases d.len(),
{
    if d.len() == 0 {
    } else {
        assert(forall|m: int| 0 <= m < d.len() - 1 ==> d.drop_last()[m] == d[m]);
        lemma_digits_val_prefix(d.drop_last(), if k <= d.len() - 1 {
            k
        } else {
            d.len() - 1
        });
        assert(digit_val(d.last()) >= 0);
        if k <= d.len() - 1 {
            assert(d.take(k) =~= d.drop_last().take(k));
        } else {
            assert(d.take(k) =~= d);
        }
    }
}

/// An unsigned decimal, executably.
fn e_u64(s: &Vec<char>, i: usize) -> (r: Option<(u64, usize)>)
    requires
        i <= s@.len(),
    ensures
        match r {
            Some((v, j)) => p_u64(s@, i as int) == Some((v, j as int)),
            None => p_u64(s@, i as int) is None,
        },
{
    let e = e_digits_end(s, i);
    if e == i {
        return None;
    }
    proof {
        lemma_digits_end_digits(s@, i as int);
    }
    let ghost d = s@.subrange(i as int, e as int);
    let mut acc: u64 = 0;
    let mut over: bool = false;
    let mut k: usize = i;
    while k < e
        invariant
            i <= k <= e <= s@.len(),
            e == digits_end(s@, i as int),
            d == s@.subrange(i as int, e as int),
            forall|m: int| 0 <= m < d.len() ==> is_digit(#[trigger] d[m]),
            !over ==> acc == digits_val(d.take(k - i)),
            over ==> digits_val(d.take(k - i)) > u64::MAX,
        decreases e - k,
    {
        proof {
            assert(d[k - i] == s@[k as int]);
            assert(is_digit(d[k - i]));
            assert('0' as u32 <= s@[k as int] as u32 <= '9' as u32);
        }
        let dv: u64 = (s[k] as u32 as u64) - 48;
        proof {
            assert(d.take(k - i + 1).drop_last() =~= d.take(k - i));
            assert(d.take(k - i + 1).last() == d[k - i]);
            lemma_digits_val_prefix(d.take(k - i + 1), k - i);
        }
        let wide: u128 = (acc as u128) * 10 + (dv as u128);
        if over || wide > 0xFFFF_FFFF_FFFF_FFFFu128 {
            proof {
                if !over {
                    assert(digits_val(d.take(k - i + 1)) == acc * 10 + dv);
                }
            }
            over = true;
            acc = 0;
        } else {
            acc = (wide as u64);
        }
        k = k + 1;
    }
    proof {
        assert(d.take(e - i) =~= d);
    }
    if over {
        proof {
            lemma_digits_val_prefix(d, d.len() as int);
        }
        None
    } else {
        Some((acc, e))
    }
}

/// All characters before the digit-run end are digits.
proof fn lemma_digits_end_digits(s: Seq<char>, i: int)
    requires
        0 <= i <= s.len(),
    ensures
        i <= digits_end(s, i) <= s.len(),
        forall|k: int| i <= k < digits_end(s, i) ==> is_digit(#[trigger] s[k]),
        digits_end(s, i) < s.len() ==> !is_digit(s[digits_end(s, i)]),
    decreases s.len() - i,
{
    if i < s.len() && is_digit(s[i]) {
        lemma_digits_end_digits(s, i + 1);
    }
}

/// A signed decimal, executably.
pub(crate) fn e_i32(s: &Vec<char>, i: usize) -> (r: Option<(i32, usize)>)
    requires
        i <= s@.len(),
    ensures
        match r {
            Some((v, j)) => p_i32(s@, i as int) == Some((v, j as int)),
            None => p_i32(s@, i as int) is None,
        },
{
    if i < s.len() && s[i] == '-' {
        match e_u64(s, i + 1) {
            Some((m, j)) => {
                if m <= 0x8000_0000u64 {
                    let v: i32 = (-(m as i64)) as i32;
                    Some((v, j))
                } else {
                    None
                }
            },
            None => None,
        }
    } else {
        match e_u64(s, i) {
            Some((m, j)) => {
                if m <= 0x7FFF_FFFFu64 {
                    Some((m as i32, j))
                } else {
                    None
                }
            },
            None => None,
        }
    }
}

/// A JSON boolean, executably.
fn e_bool(s: &Vec<char>, i: usize) -> (r: Option<(bool, usize)>)
    ensures
        match r {
            Some((v, j)) => p_bool(s@, i as int) == Some((v, j as int)),
            None => p_bool(s@, i as int) is None,
        },
{
    let t = crate::strutil::str_to_chars("true");
    match e_lit(s, i, &t) {
        Some(j) => Some((true, j)),
        None => {
            let f = crate::strutil::str_to_chars("false");
            match e_lit(s, i, &f) {
                Some(j) => Some((false, j)),
                None => None,
            }
        },
    }
}

/// CPU hundredths, executably.
fn e_centi(s: &Vec<char>, i: usize) -> (r: Option<(u64, usize)>)
    requires
        i <= s@.len(),
    ensures
        match r {
            Some((v, j)) => p_centi(s@, i as int) == Some((v, j as int)),
            None => p_centi(s@, i as int) is None,
        },
{
    match e_u64(s, i) {
        None => None,
        Some((ip, j)) => {
            if j < s.len() && s[j] == '.' {
                let e = e_digits_end(s, j + 1);
                if e == j + 1 {
                    return None;
                }
                proof {
                    lemma_digits_end_digits(s@, j as int + 1);
                }
                proof {
                    assert(is_digit(s@[j as int + 1]));
                    assert('0' as u32 <= s@[j as int + 1] as u32 <= '9' as u32);
                    if e > j + 2 {
                        assert(is_digit(s@[j as int + 2]));
                        assert('0' as u32 <= s@[j as int + 2] as u32 <= '9' as u32);
                    }
                }
                let d1: u64 = (s[j + 1] as u32 as u64) - 48;
                let d2: u64 = if e > j + 2 {
                    (s[j + 2] as u32 as u64) - 48
                } else {
                    0
                };
                let wide: u128 = (ip as u128) * 100 + (d1 as u128) * 10 + (d2 as u128);
                if wide > 0xFFFF_FFFF_FFFF_FFFFu128 {
                    None
                } else {
                    Some(((wide as u64), e))
                }
            } else {
                let wide: u128 = (ip as u128) * 100;
                if wide > 0xFFFF_FFFF_FFFF_FFFFu128 {
                    None
                } else {
                    Some(((wide as u64), j))
                }
            }
        },
    }
}

/// A wall-clock stamp, executably.
fn e_ts(s: &Vec<char>, i: usize) -> (r: Option<(crate::model::Timestamp, usize)>)
    requires
        i <= s@.len(),
    ensures
        match r {
            Some((v, j)) => p_ts(s@, i as int) == Some((v, j as int)) && v.wf(),
            None => p_ts(s@, i as int) is None,
        },
{
    let lit1 = crate::strutil::str_to_chars("{\"secs_since_epoch\":");
    match e_lit(s, i, &lit1) {
        Some(j1) => {
            proof {
                assert(j1 <= s@.len());
            }
            match e_u64(s, j1) {
                Some((secs, j2)) => {
                    let lit2 = crate::strutil::str_to_chars(",\"nanos_since_epoch\":");
                    proof {
                        lemma_p_u64_bounds(s@, j1 as int);
                    }
                    match e_lit(s, j2, &lit2) {
                        Some(j3) => {
                            proof {
                                assert(j3 <= s@.len());
                            }
                            match e_u64(s, j3) {
                                Some((nanos, j4)) => {
                                    proof {
                                        lemma_p_u64_bounds(s@, j3 as int);
                                    }
                                    let close = crate::strutil::str_to_chars("}");
                                    if nanos < 1_000_000_000 {
                                        match e_lit(s, j4, &close) {
                                            Some(j5) => Some(
                                                (
                                                    crate::model::Timestamp {
                                                        secs,
                                                        nanos: nanos as u32,
                                                    },
                                                    j5,
                                                ),
                                            ),
                                            None => None,
                                        }
                                    } else {
                                        None
                                    }
                                },
                                None => None,
                            }
                        },
                        None => None,
                    }
                },
                None => None,
            }
        },
        None => match e_u64(s, i) {
            Some((secs, j)) => Some((crate::model::Timestamp { secs, nanos: 0u32 }, j)),
            None => None,
        },
    }
}

/// A parsed position lies within the input.
pub proof fn lemma_p_u64_bounds(s: Seq<char>, i: int)
    requires
        0 <= i <= s.len(),
        p_u64(s, i) is Some,
    ensures
        i < p_u64(s, i)->Some_0.1 <= s.len(),
{
    lemma_digits_end_digits(s, i);
}


/// One protocol frame, as the server reads and writes them. The
/// discriminator on the wire is the `data_type` field.
#[derive(Debug)]
pub enum Frame {
    ClientInfo {
        client_id: String,
        system_info: crate::model::HostInfo,
        version_info: Vec<crate::model::VersionInfo>,
        app_info: Vec<crate::model::AppInfo>,
        last_seen: crate::model::Timestamp,
    },
    CommandResponse {
        command_id: String,
        client_id: String,
        command: String,
        output: String,
        error_output: String,
        exit_code: i32,
        executed_at: crate::model::Timestamp,
    },
    AuthChallenge { nonce: String, timestamp: u64 },
    AuthResponse { client_id: String, nonce: String, response_hash: String, timestamp: u64 },
    AuthResult { success: bool, message: String },
}

pub ghost enum FrameV {
    ClientInfo {
        client_id: Seq<char>,
        system_info: crate::model::HostInfoV,
        version_info: Seq<crate::model::VersionInfoV>,
        app_info: Seq<crate::model::AppInfoV>,
        last_seen: crate::model::Timestamp,
    },
    CommandResponse {
        command_id: Seq<char>,
        client_id: Seq<char>,
        command: Seq<char>,
        output: Seq<char>,
        error_output: Seq<char>,
        exit_code: i32,
        executed_at: crate::model::Timestamp,
    },
    AuthChallenge { nonce: Seq<char>, timestamp: u64 },
    AuthResponse { client_id: Seq<char>, nonce: Seq<char>, response_hash: Seq<char>, timestamp: u64 },
    AuthResult { success: bool, message: Seq<char> },
}

impl View for Frame {
    type V = FrameV;

    open spec fn view(&self) -> FrameV {
        match self {
            Frame::ClientInfo { client_id, system_info, version_info, app_info, last_seen } => {
                FrameV::ClientInfo {
                    client_id: client_id@,
                    system_info: system_info@,
                    version_info: version_info@.map_values(|v: crate::model::VersionInfo| v@),
                    app_info: app_info@.map_values(|a: crate::model::AppInfo| a@),
                    last_seen: *last_seen,
                }
            },
            Frame::CommandResponse {
                command_id,
                client_id,
                command,
                output,
                error_output,
                exit_code,
                executed_at,
            } => FrameV::CommandResponse {
                command_id: command_id@,
                client_id: client_id@,
                command: command@,
                output: output@,
                error_output: error_output@,
                exit_code: *exit_code,
                executed_at: *executed_at,
            },
            Frame::AuthChallenge { nonce, timestamp } => FrameV::AuthChallenge {
                nonce: nonce@,
                timestamp: *timestamp,
            },
            Frame::AuthResponse { client_id, nonce, response_hash, timestamp } => {
                FrameV::AuthResponse {
                    client_id: client_id@,
                    nonce: nonce@,
                    response_hash: response_hash@,
                    timestamp: *timestamp,
                }
            },
            Frame::AuthResult { success, message } => FrameV::AuthResult {
                success: *success,
                message: message@,
            },
        }
    }
}

/// An optional string field: `null` or the string.
pub open spec fn enc_opt_string(o: Option<Seq<char>>) -> Seq<char> {
    match o {
        None => "null"@,
        Some(x) => enc_json_string(x),
    }
}

pub open spec fn p_opt_string(s: Seq<char>, i: int) -> Option<(Option<Seq<char>>, int)> {
    match p_lit(s, i, "null"@) {
        Some(j) => Some((None, j)),
        None => match p_string(s, i) {
            Some((x, j)) => Some((Some(x), j)),
            None => None,
        },
    }
}

/// A service status: the two bare variants as plain strings, `Running` as a
/// one-field object carrying the pid.
pub open spec fn enc_ss(v: crate::model::ServiceStatusV) -> Seq<char> {
    match v {
        crate::model::ServiceStatusV::Stopped => "\"Stopped\""@,
        crate::model::ServiceStatusV::Unknown => "\"Unknown\""@,
        crate::model::ServiceStatusV::Running(pid) => "{\"Running\":"@ + enc_json_string(pid)
            + "}"@,
    }
}

pub open spec fn p_ss(s: Seq<char>, i: int) -> Option<(crate::model::ServiceStatusV, int)> {
    match p_lit(s, i, "\"Stopped\""@) {
        Some(j) => Some((crate::model::ServiceStatusV::Stopped, j)),
        None => match p_lit(s, i, "\"Unknown\""@) {
            Some(j) => Some((crate::model::ServiceStatusV::Unknown, j)),
            None => match p_lit(s, i, "{\"Running\":"@) {
                Some(j1) => match p_string(s, j1) {
                    Some((pid, j2)) => match p_lit(s, j2, "}"@) {
                        Some(j3) => Some((crate::model::ServiceStatusV::Running(pid), j3)),
                        None => None,
                    },
                    None => None,
                },
                None => None,
            },
        },
    }
}

pub open spec fn enc_version(v: crate::model::VersionInfoV) -> Seq<char> {
    "{\"app\":"@ + enc_json_string(v.app) + ",\"created_time\":"@ + enc_json_string(v.created_time)
        + "}"@
}

pub open spec fn p_version(s: Seq<char>, i: int) -> Option<(crate::model::VersionInfoV, int)> {
    match p_lit(s, i, "{\"app\":"@) {
        Some(j1) => match p_string(s, j1) {
            Some((app, j2)) => match p_lit(s, j2, ",\"created_time\":"@) {
                Some(j3) => match p_string(s, j3) {
                    Some((created_time, j4)) => match p_lit(s, j4, "}"@) {
                        Some(j5) => Some(
                            (crate::model::VersionInfoV { app, created_time }, j5),
                        ),
                        None => None,
                    },
                    None => None,
                },
                None => None,
            },
            None => None,
        },
        None => None,
    }
}

pub open spec fn enc_app(a: crate::model::AppInfoV) -> Seq<char> {
    "{\"name\":"@ + enc_json_string(a.name) + ",\"version\":"@ + enc_json_string(a.version)
        + ",\"deploy_time\":"@ + enc_json_string(a.deploy_time) + ",\"branch\":"@ + enc_opt_string(
        a.branch,
    ) + ",\"commit\":"@ + enc_opt_string(a.commit) + ",\"service_status\":"@ + enc_ss(
        a.service_status,
    ) + "}"@
}

pub open spec fn p_app(s: Seq<char>, i: int) -> Option<(crate::model::AppInfoV, int)> {
    match p_lit(s, i, "{\"name\":"@) {
        Some(j1) => match p_string(s, j1) {
            Some((name, j2)) => match p_lit(s, j2, ",\"version\":"@) {
                Some(j3) => match p_string(s, j3) {
                    Some((version, j4)) => match p_lit(s, j4, ",\"deploy_time\":"@) {
                        Some(j5) => match p_string(s, j5) {
                            Some((deploy_time, j6)) => match p_lit(s, j6, ",\"branch\":"@) {
                                Some(j7) => match p_opt_string(s, j7) {
                                    Some((branch, j8)) => match p_lit(s, j8, ",\"commit\":"@) {
                                        Some(j9) => match p_opt_string(s, j9) {
                                            Some((commit, j10)) => match p_lit(
                                                s,
                                                j10,
                                                ",\"service_status\":"@,
                                            ) {
                                                Some(j11) => match p_ss(s, j11) {
                                                    Some((service_status, j12)) => match p_lit(
                                                        s,
                                                        j12,
                                                        "}"@,
                                                    ) {
                                                        Some(j13) => Some(
                                                            (
                                                                crate::model::AppInfoV {
                                                                    name,
                                                                    version,
                                                                    deploy_time,
                                                                    branch,
                                                                    commit,
                                                                    service_status,
                                                                },
                                                                j13,
                                                            ),
                                                        ),
                                                        None => None,
                                                    },
                                                    None => None,
                                                },
                                                None => None,
                                            },
                                            None => None,
                                        },
                                        None => None,
                                    },
                                    None => None,
                                },
                                None => None,
                            },
                            None => None,
                        },
                        None => None,
                    },
                    None => None,
                },
                None => None,
            },
            None => None,
        },
        None => None,
    }
}

/// The items of a string array, joined by commas.
pub open spec fn enc_str_items(l: Seq<Seq<char>>) -> Seq<char>
    decreases l.len(),
{
    if l.len() == 0 {
        Seq::empty()
    } else if l.len() == 1 {
        enc_json_string(l[0])
    } else {
        enc_json_string(l[0]) + ","@ + enc_str_items(l.drop_first())
    }
}

pub open spec fn enc_str_list(l: Seq<Seq<char>>) -> Seq<char> {
    "["@ + enc_str_items(l) + "]"@
}

/// One or more string items up to the closing bracket.
pub open spec fn p_str_items(s: Seq<char>, i: int) -> Option<(Seq<Seq<char>>, int)>
    decreases s.len() - i,
    when 0 <= i <= s.len()
{
    match p_string(s, i) {
        None => None,
        Some((x, j)) => {
            if !(i < j <= s.len()) {
                None
            } else if j < s.len() && s[j] == ',' {
                match p_str_items(s, j + 1) {
                    Some((rest, k)) => Some((seq![x] + rest, k)),
                    None => None,
                }
            } else if j < s.len() && s[j] == ']' {
                Some((seq![x], j + 1))
            } else {
                None
            }
        },
    }
}

pub open spec fn p_str_list(s: Seq<char>, i: int) -> Option<(Seq<Seq<char>>, int)> {
    match p_lit(s, i, "[]"@) {
        Some(j) => Some((Seq::empty(), j)),
        None => match p_lit(s, i, "["@) {
            Some(j) => p_str_items(s, j),
            None => None,
        },
    }
}

pub open spec fn enc_version_items(l: Seq<crate::model::VersionInfoV>) -> Seq<char>
    decreases l.len(),
{
    if l.len() == 0 {
        Seq::empty()
    } else if l.len() == 1 {
        enc_version(l[0])
    } else {
        enc_version(l[0]) + ","@ + enc_version_items(l.drop_first())
    }
}

pub open spec fn enc_version_list(l: Seq<crate::model::VersionInfoV>) -> Seq<char> {
    "["@ + enc_version_items(l) + "]"@
}

pub open spec fn p_version_items(s: Seq<char>, i: int) -> Option<
    (Seq<crate::model::VersionInfoV>, int),
>
    decreases s.len() - i,
    when 0 <= i <= s.len()
{
    match p_version(s, i) {
        None => None,
        Some((x, j)) => {
            if !(i < j <= s.len()) {
                None
            } else if j < s.len() && s[j] == ',' {
                match p_version_items(s, j + 1) {
                    Some((rest, k)) => Some((seq![x] + rest, k)),
                    None => None,
                }
            } else if j < s.len() && s[j] == ']' {
                Some((seq![x], j + 1))
            } else {
                None
            }
        },
    }
}

pub open spec fn p_version_list(s: Seq<char>, i: int) -> Option<
    (Seq<crate::model::VersionInfoV>, int),
> {
    match p_lit(s, i, "[]"@) {
        Some(j) => Some((Seq::empty(), j)),
        None => match p_lit(s, i, "["@) {
            Some(j) => p_version_items(s, j),
            None => None,
        },
    }
}

pub open spec fn enc_app_items(l: Seq<crate::model::AppInfoV>) -> Seq<char>
    decreases l.len(),
{
    if l.len() == 0 {
        Seq::empty()
    } else if l.len() == 1 {
        enc_app(l[0])
    } else {
        enc_app(l[0]) + ","@ + enc_app_items(l.drop_first())
    }
}

pub open spec fn enc_app_list(l: Seq<crate::model::AppInfoV>) -> Seq<char> {
    "["@ + enc_app_items(l) + "]"@
}

pub open spec fn p_app_items(s: Seq<char>, i: int) -> Option<(Seq<crate::model::AppInfoV>, int)>
    decreases s.len() - i,
    when 0 <= i <= s.len()
{
    match p_app(s, i) {
        None => None,
        Some((x, j)) => {
            if !(i < j <= s.len()) {
                None
            } else if j < s.len() && s[j] == ',' {
                match p_app_items(s, j + 1) {
                    Some((rest, k)) => Some((seq![x] + rest, k)),
                    None => None,
                }
            } else if j < s.len() && s[j] == ']' {
                Some((seq![x], j + 1))
            } else {
                None
            }
        },
    }
}

pub open spec fn p_app_list(s: Seq<char>, i: int) -> Option<(Seq<crate::model::AppInfoV>, int)> {
    match p_lit(s, i, "[]"@) {
        Some(j) => Some((Seq::empty(), j)),
        None => match p_lit(s, i, "["@) {
            Some(j) => p_app_items(s, j),
            None => None,
        },
    }
}

pub open spec fn enc_host(h: crate::model::HostInfoV) -> Seq<char> {
    "{\"hostname\":"@ + enc_json_string(h.hostname) + ",\"cpu_model\":"@ + enc_json_string(
        h.cpu_model,
    ) + ",\"cpu_usage\":"@ + enc_centi(h.cpu_usage_centi) + ",\"total_memory\":"@
        + crate::strutil::dec_u64(h.total_memory as int) + ",\"free_memory\":"@
        + crate::strutil::dec_u64(h.free_memory as int) + ",\"used_memory\":"@
        + crate::strutil::dec_u64(h.used_memory as int) + ",\"ip_addresses\":"@ + enc_str_list(
        h.ip_addresses,
    ) + "}"@
}

pub open spec fn p_host(s: Seq<char>, i: int) -> Option<(crate::model::HostInfoV, int)> {
    match p_lit(s, i, "{\"hostname\":"@) {
        Some(j1) => match p_string(s, j1) {
            Some((hostname, j2)) => match p_lit(s, j2, ",\"cpu_model\":"@) {
                Some(j3) => match p_string(s, j3) {
                    Some((cpu_model, j4)) => match p_lit(s, j4, ",\"cpu_usage\":"@) {
                        Some(j5) => match p_centi(s, j5) {
                            Some((cpu_usage_centi, j6)) => match p_lit(s, j6, ",\"total_memory\":"@) {
                                Some(j7) => match p_u64(s, j7) {
                                    Some((total_memory, j8)) => match p_lit(
                                        s,
                                        j8,
                                        ",\"free_memory\":"@,
                                    ) {
                                        Some(j9) => match p_u64(s, j9) {
                                            Some((free_memory, j10)) => match p_lit(
                                                s,
                                                j10,
                                                ",\"used_memory\":"@,
                                            ) {
                                                Some(j11) => match p_u64(s, j11) {
                                                    Some((used_memory, j12)) => match p_lit(
                                                        s,
                                                        j12,
                                                        ",\"ip_addresses\":"@,
                                                    ) {
                                                        Some(j13) => match p_str_list(s, j13) {
                                                            Some((ip_addresses, j14)) => match p_lit(
                                                                s,
                                                                j14,
                                                                "}"@,
                                                            ) {
                                                                Some(j15) => Some(
                                                                    (
                                                                        crate::model::HostInfoV {
                                                                            hostname,
                                                                            cpu_model,
                                                                            cpu_usage_centi,
                                                                            total_memory,
                                                                            free_memory,
                                                                            used_memory,
                                                                            ip_addresses,
                                                                        },
                                                                        j15,
                                                                    ),
                                                                ),
                                                                None => None,
                                                            },
                                                            None => None,
                                                        },
                                                        None => None,
                                                    },
                                                    None => None,
                                                },
                                                None => None,
                                            },
                                            None => None,
                                        },
                                        None => None,
                                    },
                                    None => None,
                                },
                                None => None,
                            },
                            None => None,
                        },
                        None => None,
                    },
                    None => None,
                },
                None => None,
            },
            None => None,
        },
        None => None,
    }
}

/// The whole frame an encoded line carries.
pub open spec fn enc_frame(f: FrameV) -> Seq<char> {
    match f {
        FrameV::ClientInfo { client_id, system_info, version_info, app_info, last_seen } => {
            "{\"data_type\":\"client_info\",\"client_id\":"@ + enc_json_string(client_id)
                + ",\"system_info\":"@ + enc_host(system_info) + ",\"version_info\":"@
                + enc_version_list(version_info) + ",\"app_info\":"@ + enc_app_list(app_info)
                + ",\"last_seen\":"@ + enc_ts(last_seen) + "}"@
        },
        FrameV::CommandResponse {
            command_id,
            client_id,
            command,
            output,
            error_output,
            exit_code,
            executed_at,
        } => {
            "{\"data_type\":\"command_response\",\"command_id\":"@ + enc_json_string(command_id)
                + ",\"client_id\":"@ + enc_json_string(client_id) + ",\"command\":"@
                + enc_json_string(command) + ",\"output\":"@ + enc_json_string(output)
                + ",\"error_output\":"@ + enc_json_string(error_output) + ",\"exit_code\":"@
                + crate::strutil::dec_i64(exit_code as int) + ",\"executed_at\":"@ + enc_ts(
                executed_at,
            ) + "}"@
        },
        FrameV::AuthChallenge { nonce, timestamp } => {
            "{\"data_type\":\"auth_challenge\",\"nonce\":"@ + enc_json_string(nonce)
                + ",\"timestamp\":"@ + crate::strutil::dec_u64(timestamp as int) + "}"@
        },
        FrameV::AuthResponse { client_id, nonce, response_hash, timestamp } => {
            "{\"data_type\":\"auth_response\",\"client_id\":"@ + enc_json_string(client_id)
                + ",\"nonce\":"@ + enc_json_string(nonce) + ",\"response_hash\":"@
                + enc_json_string(response_hash) + ",\"timestamp\":"@ + crate::strutil::dec_u64(
                timestamp as int,
            ) + "}"@
        },
        FrameV::AuthResult { success, message } => {
            "{\"data_type\":\"auth_result\",\"success\":"@ + (if success {
                "true"@
            } else {
                "false"@
            }) + ",\"message\":"@ + enc_json_string(message) + "}"@
        },
    }
}

pub open spec fn sp_client_info(s: Seq<char>, i: int) -> Option<(FrameV, int)> {
    match p_string(s, i) {
        Some((client_id, j1)) => match p_lit(s, j1, ",\"system_info\":"@) {
            Some(j2) => match p_host(s, j2) {
                Some((system_info, j3)) => match p_lit(s, j3, ",\"version_info\":"@) {
                    Some(j4) => match p_version_list(s, j4) {
                        Some((version_info, j5)) => match p_lit(s, j5, ",\"app_info\":"@) {
                            Some(j6) => match p_app_list(s, j6) {
                                Some((app_info, j7)) => match p_lit(s, j7, ",\"last_seen\":"@) {
                                    Some(j8) => match p_ts(s, j8) {
                                        Some((last_seen, j9)) => match p_lit(s, j9, "}"@) {
                                            Some(j10) => Some(
                                                (
                                                    FrameV::ClientInfo {
                                                        client_id,
                                                        system_info,
                                                        version_info,
                                                        app_info,
                                                        last_seen,
                                                    },
                                                    j10,
                                                ),
                                            ),
                                            None => None,
                                        },
                                        None => None,
                                    },
                                    None => None,
                                },
                                None => None,
                            },
                            None => None,
                        },
                        None => None,
                    },
                    None => None,
                },
                None => None,
            },
            None => None,
        },
        None => None,
    }
}

pub open spec fn sp_command_response(s: Seq<char>, i: int) -> Option<(FrameV, int)> {
    match p_string(s, i) {
        Some((command_id, j1)) => match p_lit(s, j1, ",\"client_id\":"@) {
            Some(j2) => match p_string(s, j2) {
                Some((client_id, j3)) => match p_lit(s, j3, ",\"command\":"@) {
                    Some(j4) => match p_string(s, j4) {
                        Some((command, j5)) => match p_lit(s, j5, ",\"output\":"@) {
                            Some(j6) => match p_string(s, j6) {
                                Some((output, j7)) => match p_lit(s, j7, ",\"error_output\":"@) {
                                    Some(j8) => match p_string(s, j8) {
                                        Some((error_output, j9)) => match p_lit(
                                            s,
                                            j9,
                                            ",\"exit_code\":"@,
                                        ) {
                                            Some(j10) => match p_i32(s, j10) {
                                                Some((exit_code, j11)) => match p_lit(
                                                    s,
                                                    j11,
                                                    ",\"executed_at\":"@,
                                                ) {
                                                    Some(j12) => match p_ts(s, j12) {
                                                        Some((executed_at, j13)) => match p_lit(
                                                            s,
                                                            j13,
                                                            "}"@,
                                                        ) {
                                                            Some(j14) => Some(
                                                                (
                                                                    FrameV::CommandResponse {
                                                                        command_id,
                                                                        client_id,
                                                                        command,
                                                                        output,
                                                                        error_output,
                                                                        exit_code,
                                                                        executed_at,
                                                                    },
                                                                    j14,
                                                                ),
                                                            ),
                                                            None => None,
                                                        },
                                                        None => None,
                                                    },
                                                    None => None,
                                                },
                                                None => None,
                                            },
                                            None => None,
                                        },
                                        None => None,
                                    },
                                    None => None,
                                },
                                None => None,
                            },
                            None => None,
                        },
                        None => None,
                    },
                    None => None,
                },
                None => None,
            },
            None => None,
        },
        None => None,
    }
}

pub open spec fn sp_challenge_body(s: Seq<char>, i: int) -> Option<(Seq<char>, u64, int)> {
    match p_string(s, i) {
        Some((nonce, j1)) => match p_lit(s, j1, ",\"timestamp\":"@) {
            Some(j2) => match p_u64(s, j2) {
                Some((timestamp, j3)) => match p_lit(s, j3, "}"@) {
                    Some(j4) => Some((nonce, timestamp, j4)),
                    None => None,
                },
                None => None,
            },
            None => None,
        },
        None => None,
    }
}

pub open spec fn sp_response_body(s: Seq<char>, i: int) -> Option<
    (Seq<char>, Seq<char>, Seq<char>, u64, int),
> {
    match p_string(s, i) {
        Some((client_id, j1)) => match p_lit(s, j1, ",\"nonce\":"@) {
            Some(j2) => match p_string(s, j2) {
                Some((nonce, j3)) => match p_lit(s, j3, ",\"response_hash\":"@) {
                    Some(j4) => match p_string(s, j4) {
                        Some((response_hash, j5)) => match p_lit(s, j5, ",\"timestamp\":"@) {
                            Some(j6) => match p_u64(s, j6) {
                                Some((timestamp, j7)) => match p_lit(s, j7, "}"@) {
                                    Some(j8) => Some(
                                        (client_id, nonce, response_hash, timestamp, j8),
                                    ),
                                    None => None,
                                },
                                None => None,
                            },
                            None => None,
                        },
                        None => None,
                    },
                    None => None,
                },
                None => None,
            },
            None => None,
        },
        None => None,
    }
}

pub open spec fn sp_result_body(s: Seq<char>, i: int) -> Option<(bool, Seq<char>, int)> {
    match p_bool(s, i) {
        Some((success, j1)) => match p_lit(s, j1, ",\"message\":"@) {
            Some(j2) => match p_string(s, j2) {
                Some((message, j3)) => match p_lit(s, j3, "}"@) {
                    Some(j4) => Some((success, message, j4)),
                    None => None,
                },
                None => None,
            },
            None => None,
        },
        None => None,
    }
}

/// The frame a whole line denotes, dispatching on the `data_type` value;
/// every character of the line must be consumed.
pub open spec fn sp_frame(s: Seq<char>) -> Option<FrameV> {
    if p_lit(s, 0, "{\"data_type\":\"client_info\",\"client_id\":"@) is Some {
        match sp_client_info(s, p_lit(s, 0, "{\"data_type\":\"client_info\",\"client_id\":"@)->Some_0) {
            Some((f, j)) => if j == s.len() {
                Some(f)
            } else {
                None
            },
            None => None,
        }
    } else if p_lit(s, 0, "{\"data_type\":\"command_response\",\"command_id\":"@) is Some {
        match sp_command_response(
            s,
            p_lit(s, 0, "{\"data_type\":\"command_response\",\"command_id\":"@)->Some_0,
        ) {
            Some((f, j)) => if j == s.len() {
                Some(f)
            } else {
                None
            },
            None => None,
        }
    } else if p_lit(s, 0, "{\"data_type\":\"auth_challenge\",\"nonce\":"@) is Some {
        match sp_challenge_body(
            s,
            p_lit(s, 0, "{\"data_type\":\"auth_challenge\",\"nonce\":"@)->Some_0,
        ) {
            Some((nonce, timestamp, j)) => if j == s.len() {
                Some(FrameV::AuthChallenge { nonce, timestamp })
            } else {
                None
            },
            None => None,
        }
    } else if p_lit(s, 0, "{\"data_type\":\"auth_response\",\"client_id\":"@) is Some {
        match sp_response_body(
            s,
            p_lit(s, 0, "{\"data_type\":\"auth_response\",\"client_id\":"@)->Some_0,
        ) {
            Some((client_id, nonce, response_hash, timestamp, j)) => if j == s.len() {
                Some(FrameV::AuthResponse { client_id, nonce, response_hash, timestamp })
            } else {
                None
            },
            None => None,
        }
    } else if p_lit(s, 0, "{\"data_type\":\"auth_result\",\"success\":"@) is Some {
        match sp_result_body(s, p_lit(s, 0, "{\"data_type\":\"auth_result\",\"success\":"@)->Some_0) {
            Some((success, message, j)) => if j == s.len() {
                Some(FrameV::AuthResult { success, message })
            } else {
                None
            },
            None => None,
        }
    } else {
        None
    }
}

/// The authentication handshake messages, tagged by `auth_type`.
pub open spec fn enc_auth_message(m: crate::tcp_auth::TcpAuthMessageV) -> Seq<char> {
    match m {
        crate::tcp_auth::TcpAuthMessageV::Challenge { nonce, timestamp } => {
            "{\"auth_type\":\"challenge\",\"nonce\":"@ + enc_json_string(nonce)
                + ",\"timestamp\":"@ + crate::strutil::dec_u64(timestamp as int) + "}"@
        },
        crate::tcp_auth::TcpAuthMessageV::Response { client_id, nonce, response_hash, timestamp } => {
            "{\"auth_type\":\"response\",\"client_id\":"@ + enc_json_string(client_id)
                + ",\"nonce\":"@ + enc_json_string(nonce) + ",\"response_hash\":"@
                + enc_json_string(response_hash) + ",\"timestamp\":"@ + crate::strutil::dec_u64(
                timestamp as int,
            ) + "}"@
        },
        crate::tcp_auth::TcpAuthMessageV::AuthResult { success, message } => {
            "{\"auth_type\":\"result\",\"success\":"@ + (if success {
                "true"@
            } else {
                "false"@
            }) + ",\"message\":"@ + enc_json_string(message) + "}"@
        },
    }
}

pub open spec fn sp_auth_message(s: Seq<char>) -> Option<crate::tcp_auth::TcpAuthMessageV> {
    if p_lit(s, 0, "{\"auth_type\":\"challenge\",\"nonce\":"@) is Some {
        match sp_challenge_body(s, p_lit(s, 0, "{\"auth_type\":\"challenge\",\"nonce\":"@)->Some_0) {
            Some((nonce, timestamp, j)) => if j == s.len() {
                Some(crate::tcp_auth::TcpAuthMessageV::Challenge { nonce, timestamp })
            } else {
                None
            },
            None => None,
        }
    } else if p_lit(s, 0, "{\"auth_type\":\"response\",\"client_id\":"@) is Some {
        match sp_response_body(s, p_lit(s, 0, "{\"auth_type\":\"response\",\"client_id\":"@)->Some_0) {
            Some((client_id, nonce, response_hash, timestamp, j)) => if j == s.len() {
                Some(
                    crate::tcp_auth::TcpAuthMessageV::Response {
                        client_id,
                        nonce,
                        response_hash,
                        timestamp,
                    },
                )
            } else {
                None
            },
            None => None,
        }
    } else if p_lit(s, 0, "{\"auth_type\":\"result\",\"success\":"@) is Some {
        match sp_result_body(s, p_lit(s, 0, "{\"auth_type\":\"result\",\"success\":"@)->Some_0) {
            Some((success, message, j)) => if j == s.len() {
                Some(crate::tcp_auth::TcpAuthMessageV::AuthResult { success, message })
            } else {
                None
            },
            None => None,
        }
    } else {
        None
    }
}


/// A parsed string body ends inside the input, past where it began.
pub proof fn lemma_p_str_body_bounds(s: Seq<char>, i: int)
    requires
        0 <= i <= s.len(),
        p_str_body(s, i) is Some,
    ensures
        i < p_str_body(s, i)->Some_0.1 <= s.len(),
    decreases s.len() - i,
{
    if i < s.len() && s[i] != '"' {
        if s[i] == '\\' {
            if i + 1 < s.len() && s[i + 1] == 'u' {
                lemma_p_str_body_bounds(s, i + 6);
            } else if i + 1 < s.len() {
                lemma_p_str_body_bounds(s, i + 2);
            }
        } else if (s[i] as u32) >= 0x20 {
            lemma_p_str_body_bounds(s, i + 1);
        }
    }
}

/// A parsed string ends inside the input, past where it began.
pub proof fn lemma_p_string_bounds(s: Seq<char>, i: int)
    requires
        p_string(s, i) is Some,
    ensures
        i < p_string(s, i)->Some_0.1 <= s.len(),
{
    lemma_p_str_body_bounds(s, i + 1);
}

/// A parsed stamp ends inside the input, past where it began.
pub proof fn lemma_p_ts_bounds(s: Seq<char>, i: int)
    requires
        0 <= i <= s.len(),
        p_ts(s, i) is Some,
    ensures
        i < p_ts(s, i)->Some_0.1 <= s.len(),
{
    match p_lit(s, i, "{\"secs_since_epoch\":"@) {
        Some(j1) => {
            lemma_p_u64_bounds(s, j1);
            let j2 = p_u64(s, j1)->Some_0.1;
            match p_lit(s, j2, ",\"nanos_since_epoch\":"@) {
                Some(j3) => {
                    lemma_p_u64_bounds(s, j3);
                },
                None => {},
            }
        },
        None => {
            lemma_p_u64_bounds(s, i);
        },
    }
}

/// A parsed number with an optional fraction ends inside the input.
pub proof fn lemma_p_centi_bounds(s: Seq<char>, i: int)
    requires
        0 <= i <= s.len(),
        p_centi(s, i) is Some,
    ensures
        i < p_centi(s, i)->Some_0.1 <= s.len(),
{
    lemma_p_u64_bounds(s, i);
    let j = p_u64(s, i)->Some_0.1;
    if j < s.len() && s[j] == '.' {
        lemma_digits_end_digits(s, j + 1);
    }
}

/// A JSON string, executably, with its end position bounded.
pub(crate) fn e_string_b(s: &Vec<char>, i: usize) -> (r: Option<(String, usize)>)
    requires
        i <= s@.len(),
    ensures
        match r {
            Some((x, j)) => p_string(s@, i as int) == Some((x@, j as int)) && i < j <= s@.len(),
            None => p_string(s@, i as int) is None,
        },
{
    let r = e_string(s, i);
    proof {
        if p_string(s@, i as int) is Some {
            lemma_p_string_bounds(s@, i as int);
        }
    }
    r
}

/// A literal, executably, with its end position bounded.
fn e_lit_b(s: &Vec<char>, i: usize, lit: &Vec<char>) -> (r: Option<usize>)
    ensures
        match r {
            Some(j) => p_lit(s@, i as int, lit@) == Some(j as int) && i <= j <= s@.len(),
            None => p_lit(s@, i as int, lit@) is None,
        },
{
    e_lit(s, i, lit)
}

/// An optional string field, executably.
fn e_opt_string(s: &Vec<char>, i: usize) -> (r: Option<(Option<String>, usize)>)
    requires
        i <= s@.len(),
    ensures
        match r {
            Some((x, j)) => p_opt_string(s@, i as int) == Some(
                (crate::model::opt_view(x), j as int),
            ) && i < j <= s@.len(),
            None => p_opt_string(s@, i as int) is None,
        },
{
    let null_lit = crate::strutil::str_to_chars("null");
    match e_lit_b(s, i, &null_lit) {
        Some(j) => {
            proof {
                reveal_strlit("null");
            }
            Some((None, j))
        },
        None => match e_string_b(s, i) {
            Some((x, j)) => Some((Some(x), j)),
            None => None,
        },
    }
}

/// A service status, executably.
fn e_ss(s: &Vec<char>, i: usize) -> (r: Option<(crate::model::ServiceStatus, usize)>)
    requires
        i <= s@.len(),
    ensures
        match r {
            Some((x, j)) => p_ss(s@, i as int) == Some((x@, j as int)) && i < j <= s@.len(),
            None => p_ss(s@, i as int) is None,
        },
{
    proof {
        reveal_strlit("\"Stopped\"");
        reveal_strlit("\"Unknown\"");
        reveal_strlit("{\"Running\":");
    }
    let stopped = crate::strutil::str_to_chars("\"Stopped\"");
    match e_lit_b(s, i, &stopped) {
        Some(j) => {
            return Some((crate::model::ServiceStatus::Stopped, j));
        },
        None => {},
    }
    let unknown = crate::strutil::str_to_chars("\"Unknown\"");
    match e_lit_b(s, i, &unknown) {
        Some(j) => {
            return Some((crate::model::ServiceStatus::Unknown, j));
        },
        None => {},
    }
    let running = crate::strutil::str_to_chars("{\"Running\":");
    match e_lit_b(s, i, &running) {
        Some(j1) => match e_string_b(s, j1) {
            Some((pid, j2)) => {
                let close = crate::strutil::str_to_chars("}");
                match e_lit_b(s, j2, &close) {
                    Some(j3) => {
                        proof {
                            reveal_strlit("}");
                        }
                        Some((crate::model::ServiceStatus::Running(pid), j3))
                    },
                    None => None,
                }
            },
            None => None,
        },
        None => None,
    }
}

/// One version entry, executably.
fn e_version(s: &Vec<char>, i: usize) -> (r: Option<(crate::model::VersionInfo, usize)>)
    requires
        i <= s@.len(),
    ensures
        match r {
            Some((x, j)) => p_version(s@, i as int) == Some((x@, j as int)) && i < j <= s@.len(),
            None => p_version(s@, i as int) is None,
        },
{
    proof {
        reveal_strlit("{\"app\":");
        reveal_strlit(",\"created_time\":");
        reveal_strlit("}");
    }
    let l1 = crate::strutil::str_to_chars("{\"app\":");
    match e_lit_b(s, i, &l1) {
        Some(j1) => match e_string_b(s, j1) {
            Some((app, j2)) => {
                let l2 = crate::strutil::str_to_chars(",\"created_time\":");
                match e_lit_b(s, j2, &l2) {
                    Some(j3) => match e_string_b(s, j3) {
                        Some((created_time, j4)) => {
                            let close = crate::strutil::str_to_chars("}");
                            match e_lit_b(s, j4, &close) {
                                Some(j5) => Some(
                                    (crate::model::VersionInfo { app, created_time }, j5),
                                ),
                                None => None,
                            }
                        },
                        None => None,
                    },
                    None => None,
                }
            },
            None => None,
        },
        None => None,
    }
}

/// One application entry, executably.
fn e_app(s: &Vec<char>, i: usize) -> (r: Option<(crate::model::AppInfo, usize)>)
    requires
        i <= s@.len(),
    ensures
        match r {
            Some((x, j)) => p_app(s@, i as int) == Some((x@, j as int)) && i < j <= s@.len(),
            None => p_app(s@, i as int) is None,
        },
{
    proof {
        reveal_strlit("{\"name\":");
        reveal_strlit(",\"version\":");
        reveal_strlit(",\"deploy_time\":");
        reveal_strlit(",\"branch\":");
        reveal_strlit(",\"commit\":");
        reveal_strlit(",\"service_status\":");
        reveal_strlit("}");
    }
    let l1 = crate::strutil::str_to_chars("{\"name\":");
    let j1 = match e_lit_b(s, i, &l1) {
        Some(j) => j,
        None => {
            return None;
        },
    };
    let (name, j2) = match e_string_b(s, j1) {
        Some(v) => v,
        None => {
            return None;
        },
    };
    let l2 = crate::strutil::str_to_chars(",\"version\":");
    let j3 = match e_lit_b(s, j2, &l2) {
        Some(j) => j,
        None => {
            return None;
        },
    };
    let (version, j4) = match e_string_b(s, j3) {
        Some(v) => v,
        None => {
            return None;
        },
    };
    let l3 = crate::strutil::str_to_chars(",\"deploy_time\":");
    let j5 = match e_lit_b(s, j4, &l3) {
        Some(j) => j,
        None => {
            return None;
        },
    };
    let (deploy_time, j6) = match e_string_b(s, j5) {
        Some(v) => v,
        None => {
            return None;
        },
    };
    let l4 = crate::strutil::str_to_chars(",\"branch\":");
    let j7 = match e_lit_b(s, j6, &l4) {
        Some(j) => j,
        None => {
            return None;
        },
    };
    let (branch, j8) = match e_opt_string(s, j7) {
        Some(v) => v,
        None => {
            return None;
        },
    };
    let l5 = crate::strutil::str_to_chars(",\"commit\":");
    let j9 = match e_lit_b(s, j8, &l5) {
        Some(j) => j,
        None => {
            return None;
        },
    };
    let (commit, j10) = match e_opt_string(s, j9) {
        Some(v) => v,
        None => {
            return None;
        },
    };
    let l6 = crate::strutil::str_to_chars(",\"service_status\":");
    let j11 = match e_lit_b(s, j10, &l6) {
        Some(j) => j,
        None => {
            return None;
        },
    };
    let (service_status, j12) = match e_ss(s, j11) {
        Some(v) => v,
        None => {
            return None;
        },
    };
    let close = crate::strutil::str_to_chars("}");
    let j13 = match e_lit_b(s, j12, &close) {
        Some(j) => j,
        None => {
            return None;
        },
    };
    Some(
        (
            crate::model::AppInfo { name, version, deploy_time, branch, commit, service_status },
            j13,
        ),
    )
}

/// The items of a string array, executably.
fn e_str_items(s: &Vec<char>, i: usize) -> (r: Option<(Vec<String>, usize)>)
    requires
        i <= s@.len(),
    ensures
        match r {
            Some((x, j)) => p_str_items(s@, i as int) == Some(
                (crate::strutil::views_of(x@), j as int),
            ) && i < j <= s@.len(),
            None => p_str_items(s@, i as int) is None,
        },
    decreases s@.len() - i,
{
    let (x, j) = match e_string_b(s, i) {
        Some(v) => v,
        None => {
            return None;
        },
    };
    if j < s.len() && s[j] == ',' {
        match e_str_items(s, j + 1) {
            Some((mut rest, k)) => {
                rest.insert(0, x);
                proof {
                    assert(crate::strutil::views_of(rest@) =~= seq![
                        p_string(s@, i as int)->Some_0.0] + p_str_items(
                        s@,
                        j as int + 1,
                    )->Some_0.0);
                }
                Some((rest, k))
            },
            None => None,
        }
    } else if j < s.len() && s[j] == ']' {
        let mut one: Vec<String> = Vec::new();
        one.push(x);
        proof {
            assert(crate::strutil::views_of(one@) =~= seq![p_string(s@, i as int)->Some_0.0]);
        }
        Some((one, j + 1))
    } else {
        None
    }
}

/// A string array, executably.
fn e_str_list(s: &Vec<char>, i: usize) -> (r: Option<(Vec<String>, usize)>)
    requires
        i <= s@.len(),
    ensures
        match r {
            Some((x, j)) => p_str_list(s@, i as int) == Some(
                (crate::strutil::views_of(x@), j as int),
            ) && i < j <= s@.len(),
            None => p_str_list(s@, i as int) is None,
        },
{
    proof {
        reveal_strlit("[]");
        reveal_strlit("[");
    }
    let empty_lit = crate::strutil::str_to_chars("[]");
    match e_lit_b(s, i, &empty_lit) {
        Some(j) => {
            let none: Vec<String> = Vec::new();
            proof {
                assert(crate::strutil::views_of(none@) =~= Seq::<Seq<char>>::empty());
            }
            return Some((none, j));
        },
        None => {},
    }
    let open_lit = crate::strutil::str_to_chars("[");
    match e_lit_b(s, i, &open_lit) {
        Some(j) => e_str_items(s, j),
        None => None,
    }
}

/// The items of a version array, executably.
fn e_version_items(s: &Vec<char>, i: usize) -> (r: Option<(Vec<crate::model::VersionInfo>, usize)>)
    requires
        i <= s@.len(),
    ensures
        match r {
            Some((x, j)) => p_version_items(s@, i as int) == Some(
                (x@.map_values(|v: crate::model::VersionInfo| v@), j as int),
            ) && i < j <= s@.len(),
            None => p_version_items(s@, i as int) is None,
        },
    decreases s@.len() - i,
{
    let (x, j) = match e_version(s, i) {
        Some(v) => v,
        None => {
            return None;
        },
    };
    if j < s.len() && s[j] == ',' {
        match e_version_items(s, j + 1) {
            Some((mut rest, k)) => {
                rest.insert(0, x);
                proof {
                    assert(rest@.map_values(|v: crate::model::VersionInfo| v@) =~= seq![
                        p_version(s@, i as int)->Some_0.0] + p_version_items(
                        s@,
                        j as int + 1,
                    )->Some_0.0);
                }
                Some((rest, k))
            },
            None => None,
        }
    } else if j < s.len() && s[j] == ']' {
        let mut one: Vec<crate::model::VersionInfo> = Vec::new();
        one.push(x);
        proof {
            assert(one@.map_values(|v: crate::model::VersionInfo| v@) =~= seq![
                p_version(s@, i as int)->Some_0.0]);
        }
        Some((one, j + 1))
    } else {
        None
    }
}

/// A version array, executably.
fn e_version_list(s: &Vec<char>, i: usize) -> (r: Option<(Vec<crate::model::VersionInfo>, usize)>)
    requires
        i <= s@.len(),
    ensures
        match r {
            Some((x, j)) => p_version_list(s@, i as int) == Some(
                (x@.map_values(|v: crate::model::VersionInfo| v@), j as int),
            ) && i < j <= s@.len(),
            None => p_version_list(s@, i as int) is None,
        },
{
    proof {
        reveal_strlit("[]");
        reveal_strlit("[");
    }
    let empty_lit = crate::strutil::str_to_chars("[]");
    match e_lit_b(s, i, &empty_lit) {
        Some(j) => {
            let none: Vec<crate::model::VersionInfo> = Vec::new();
            proof {
                assert(none@.map_values(|v: crate::model::VersionInfo| v@) =~= Seq::<
                    crate::model::VersionInfoV,
                >::empty());
            }
            return Some((none, j));
        },
        None => {},
    }
    let open_lit = crate::strutil::str_to_chars("[");
    match e_lit_b(s, i, &open_lit) {
        Some(j) => e_version_items(s, j),
        None => None,
    }
}

/// The items of an application array, executably.
fn e_app_items(s: &Vec<char>, i: usize) -> (r: Option<(Vec<crate::model::AppInfo>, usize)>)
    requires
        i <= s@.len(),
    ensures
        match r {
            Some((x, j)) => p_app_items(s@, i as int) == Some(
                (x@.map_values(|v: crate::model::AppInfo| v@), j as int),
            ) && i < j <= s@.len(),
            None => p_app_items(s@, i as int) is None,
        },
    decreases s@.len() - i,
{
    let (x, j) = match e_app(s, i) {
        Some(v) => v,
        None => {
            return None;
        },
    };
    if j < s.len() && s[j] == ',' {
        match e_app_items(s, j + 1) {
            Some((mut rest, k)) => {
                rest.insert(0, x);
                proof {
                    assert(rest@.map_values(|v: crate::model::AppInfo| v@) =~= seq![
                        p_app(s@, i as int)->Some_0.0] + p_app_items(s@, j as int + 1)->Some_0.0);
                }
                Some((rest, k))
            },
            None => None,
        }
    } else if j < s.len() && s[j] == ']' {
        let mut one: Vec<crate::model::AppInfo> = Vec::new();
        one.push(x);
        proof {
            assert(one@.map_values(|v: crate::model::AppInfo| v@) =~= seq![
                p_app(s@, i as int)->Some_0.0]);
        }
        Some((one, j + 1))
    } else {
        None
    }
}

/// An application array, executably.
fn e_app_list(s: &Vec<char>, i: usize) -> (r: Option<(Vec<crate::model::AppInfo>, usize)>)
    requires
        i <= s@.len(),
    ensures
        match r {
            Some((x, j)) => p_app_list(s@, i as int) == Some(
                (x@.map_values(|v: crate::model::AppInfo| v@), j as int),
            ) && i < j <= s@.len(),
            None => p_app_list(s@, i as int) is None,
        },
{
    proof {
        reveal_strlit("[]");
        reveal_strlit("[");
    }
    let empty_lit = crate::strutil::str_to_chars("[]");
    match e_lit_b(s, i, &empty_lit) {
        Some(j) => {
            let none: Vec<crate::model::AppInfo> = Vec::new();
            proof {
                assert(none@.map_values(|v: crate::model::AppInfo| v@) =~= Seq::<
                    crate::model::AppInfoV,
                >::empty());
            }
            return Some((none, j));
        },
        None => {},
    }
    let open_lit = crate::strutil::str_to_chars("[");
    match e_lit_b(s, i, &open_lit) {
        Some(j) => e_app_items(s, j),
        None => None,
    }
}

/// The host-metrics object, executably.
fn e_host(s: &Vec<char>, i: usize) -> (r: Option<(crate::model::HostInfo, usize)>)
    requires
        i <= s@.len(),
    ensures
        match r {
            Some((x, j)) => p_host(s@, i as int) == Some((x@, j as int)) && i < j <= s@.len(),
            None => p_host(s@, i as int) is None,
        },
{
    let l1 = crate::strutil::str_to_chars("{\"hostname\":");
    let j1 = match e_lit_b(s, i, &l1) {
        Some(j) => j,
        None => {
            return None;
        },
    };
    let (hostname, j2) = match e_string_b(s, j1) {
        Some(v) => v,
        None => {
            return None;
        },
    };
    let l2 = crate::strutil::str_to_chars(",\"cpu_model\":");
    let j3 = match e_lit_b(s, j2, &l2) {
        Some(j) => j,
        None => {
            return None;
        },
    };
    let (cpu_model, j4) = match e_string_b(s, j3) {
        Some(v) => v,
        None => {
            return None;
        },
    };
    let l3 = crate::strutil::str_to_chars(",\"cpu_usage\":");
    let j5 = match e_lit_b(s, j4, &l3) {
        Some(j) => j,
        None => {
            return None;
        },
    };
    let (cpu_usage_centi, j6) = match e_centi(s, j5) {
        Some(v) => v,
        None => {
            return None;
        },
    };
    proof {
        lemma_p_centi_bounds(s@, j5 as int);
    }
    let l4 = crate::strutil::str_to_chars(",\"total_memory\":");
    let j7 = match e_lit_b(s, j6, &l4) {
        Some(j) => j,
        None => {
            return None;
        },
    };
    let (total_memory, j8) = match e_u64(s, j7) {
        Some(v) => v,
        None => {
            return None;
        },
    };
    proof {
        lemma_p_u64_bounds(s@, j7 as int);
    }
    let l5 = crate::strutil::str_to_chars(",\"free_memory\":");
    let j9 = match e_lit_b(s, j8, &l5) {
        Some(j) => j,
        None => {
            return None;
        },
    };
    let (free_memory, j10) = match e_u64(s, j9) {
        Some(v) => v,
        None => {
            return None;
        },
    };
    proof {
        lemma_p_u64_bounds(s@, j9 as int);
    }
    let l6 = crate::strutil::str_to_chars(",\"used_memory\":");
    let j11 = match e_lit_b(s, j10, &l6) {
        Some(j) => j,
        None => {
            return None;
        },
    };
    let (used_memory, j12) = match e_u64(s, j11) {
        Some(v) => v,
        None => {
            return None;
        },
    };
    proof {
        lemma_p_u64_bounds(s@, j11 as int);
    }
    let l7 = crate::strutil::str_to_chars(",\"ip_addresses\":");
    let j13 = match e_lit_b(s, j12, &l7) {
        Some(j) => j,
        None => {
            return None;
        },
    };
    let (ip_addresses, j14) = match e_str_list(s, j13) {
        Some(v) => v,
        None => {
            return None;
        },
    };
    let close = crate::strutil::str_to_chars("}");
    let j15 = match e_lit_b(s, j14, &close) {
        Some(j) => j,
        None => {
            return None;
        },
    };
    Some(
        (
            crate::model::HostInfo {
                hostname,
                cpu_model,
                cpu_usage_centi,
                total_memory,
                free_memory,
                used_memory,
                ip_addresses,
            },
            j15,
        ),
    )
}


/// One whole line parsed as a frame; `None` when the line is not a frame the
/// server understands, in which case it is dropped and the session goes on.
pub fn parse_frame(line: &Vec<char>) -> (r: Option<Frame>)
    ensures
        match r {
            Some(f) => sp_frame(line@) == Some(f@),
            None => sp_frame(line@) is None,
        },
{
    let s = line;
    let n = s.len();
    let ci_lit = crate::strutil::str_to_chars("{\"data_type\":\"client_info\",\"client_id\":");
    match e_lit_b(s, 0, &ci_lit) {
        Some(i) => {
            let (client_id, j1) = match e_string_b(s, i) {
                Some(v) => v,
                None => {
                    return None;
                },
            };
            let l1 = crate::strutil::str_to_chars(",\"system_info\":");
            let j2 = match e_lit_b(s, j1, &l1) {
                Some(j) => j,
                None => {
                    return None;
                },
            };
            let (system_info, j3) = match e_host(s, j2) {
                Some(v) => v,
                None => {
                    return None;
                },
            };
            let l2 = crate::strutil::str_to_chars(",\"version_info\":");
            let j4 = match e_lit_b(s, j3, &l2) {
                Some(j) => j,
                None => {
                    return None;
                },
            };
            let (version_info, j5) = match e_version_list(s, j4) {
                Some(v) => v,
                None => {
                    return None;
                },
            };
            let l3 = crate::strutil::str_to_chars(",\"app_info\":");
            let j6 = match e_lit_b(s, j5, &l3) {
                Some(j) => j,
                None => {
                    return None;
                },
            };
            let (app_info, j7) = match e_app_list(s, j6) {
                Some(v) => v,
                None => {
                    return None;
                },
            };
            let l4 = crate::strutil::str_to_chars(",\"last_seen\":");
            let j8 = match e_lit_b(s, j7, &l4) {
                Some(j) => j,
                None => {
                    return None;
                },
            };
            let (last_seen, j9) = match e_ts(s, j8) {
                Some(v) => v,
                None => {
                    return None;
                },
            };
            proof {
                lemma_p_ts_bounds(s@, j8 as int);
            }
            let close = crate::strutil::str_to_chars("}");
            let j10 = match e_lit_b(s, j9, &close) {
                Some(j) => j,
                None => {
                    return None;
                },
            };
            if j10 == n {
                Some(
                    Frame::ClientInfo { client_id, system_info, version_info, app_info, last_seen },
                )
            } else {
                None
            }
        },
        None => {
            let cr_lit = crate::strutil::str_to_chars(
                "{\"data_type\":\"command_response\",\"command_id\":",
            );
            match e_lit_b(s, 0, &cr_lit) {
                Some(i) => {
                    let (command_id, j1) = match e_string_b(s, i) {
                        Some(v) => v,
                        None => {
                            return None;
                        },
                    };
                    let l1 = crate::strutil::str_to_chars(",\"client_id\":");
                    let j2 = match e_lit_b(s, j1, &l1) {
                        Some(j) => j,
                        None => {
                            return None;
                        },
                    };
                    let (client_id, j3) = match e_string_b(s, j2) {
                        Some(v) => v,
                        None => {
                            return None;
                        },
                    };
                    let l2 = crate::strutil::str_to_chars(",\"command\":");
                    let j4 = match e_lit_b(s, j3, &l2) {
                        Some(j) => j,
                        None => {
                            return None;
                        },
                    };
                    let (command, j5) = match e_string_b(s, j4) {
                        Some(v) => v,
                        None => {
                            return None;
                        },
                    };
                    let l3 = crate::strutil::str_to_chars(",\"output\":");
                    let j6 = match e_lit_b(s, j5, &l3) {
                        Some(j) => j,
                        None => {
                            return None;
                        },
                    };
                    let (output, j7) = match e_string_b(s, j6) {
                        Some(v) => v,
                        None => {
                            return None;
                        },
                    };
                    let l4 = crate::strutil::str_to_chars(",\"error_output\":");
                    let j8 = match e_lit_b(s, j7, &l4) {
                        Some(j) => j,
                        None => {
                            return None;
                        },
                    };
                    let (error_output, j9) = match e_string_b(s, j8) {
                        Some(v) => v,
                        None => {
                            return None;
                        },
                    };
                    let l5 = crate::strutil::str_to_chars(",\"exit_code\":");
                    let j10 = match e_lit_b(s, j9, &l5) {
                        Some(j) => j,
                        None => {
                            return None;
                        },
                    };
                    let (exit_code, j11) = match e_i32(s, j10) {
                        Some(v) => v,
                        None => {
                            return None;
                        },
                    };
                    proof {
                        if s@[j10 as int] == '-' {
                            lemma_p_u64_bounds(s@, j10 as int + 1);
                        } else {
                            lemma_p_u64_bounds(s@, j10 as int);
                        }
                    }
                    let l6 = crate::strutil::str_to_chars(",\"executed_at\":");
                    let j12 = match e_lit_b(s, j11, &l6) {
                        Some(j) => j,
                        None => {
                            return None;
                        },
                    };
                    let (executed_at, j13) = match e_ts(s, j12) {
                        Some(v) => v,
                        None => {
                            return None;
                        },
                    };
                    proof {
                        lemma_p_ts_bounds(s@, j12 as int);
                    }
                    let close = crate::strutil::str_to_chars("}");
                    let j14 = match e_lit_b(s, j13, &close) {
                        Some(j) => j,
                        None => {
                            return None;
                        },
                    };
                    if j14 == n {
                        Some(
                            Frame::CommandResponse {
                                command_id,
                                client_id,
                                command,
                                output,
                                error_output,
                                exit_code,
                                executed_at,
                            },
                        )
                    } else {
                        None
                    }
                },
                None => {
                    let ac_lit = crate::strutil::str_to_chars(
                        "{\"data_type\":\"auth_challenge\",\"nonce\":",
                    );
                    match e_lit_b(s, 0, &ac_lit) {
                        Some(i) => {
                            match e_challenge_body(s, i) {
                                Some((nonce, timestamp, j)) => {
                                    if j == n {
                                        Some(Frame::AuthChallenge { nonce, timestamp })
                                    } else {
                                        None
                                    }
                                },
                                None => None,
                            }
                        },
                        None => {
                            let ar_lit = crate::strutil::str_to_chars(
                                "{\"data_type\":\"auth_response\",\"client_id\":",
                            );
                            match e_lit_b(s, 0, &ar_lit) {
                                Some(i) => {
                                    match e_response_body(s, i) {
                                        Some((client_id, nonce, response_hash, timestamp, j)) => {
                                            if j == n {
                                                Some(
                                                    Frame::AuthResponse {
                                                        client_id,
                                                        nonce,
                                                        response_hash,
                                                        timestamp,
                                                    },
                                                )
                                            } else {
                                                None
                                            }
                                        },
                                        None => None,
                                    }
                                },
                                None => {
                                    let au_lit = crate::strutil::str_to_chars(
                                        "{\"data_type\":\"auth_result\",\"success\":",
                                    );
                                    match e_lit_b(s, 0, &au_lit) {
                                        Some(i) => {
                                            match e_result_body(s, i) {
                                                Some((success, message, j)) => {
                                                    if j == n {
                                                        Some(Frame::AuthResult { success, message })
                                                    } else {
                                                        None
                                                    }
                                                },
                                                None => None,
                                            }
                                        },
                                        None => None,
                                    }
                                },
                            }
                        },
                    }
                },
            }
        },
    }
}

/// The body shared by both challenge forms: nonce, timestamp, brace.
fn e_challenge_body(s: &Vec<char>, i: usize) -> (r: Option<(String, u64, usize)>)
    requires
        i <= s@.len(),
    ensures
        match r {
            Some((nonce, timestamp, j)) => sp_challenge_body(s@, i as int) == Some(
                (nonce@, timestamp, j as int),
            ) && j <= s@.len(),
            None => sp_challenge_body(s@, i as int) is None,
        },
{
    let (nonce, j1) = match e_string_b(s, i) {
        Some(v) => v,
        None => {
            return None;
        },
    };
    let l1 = crate::strutil::str_to_chars(",\"timestamp\":");
    let j2 = match e_lit_b(s, j1, &l1) {
        Some(j) => j,
        None => {
            return None;
        },
    };
    let (timestamp, j3) = match e_u64(s, j2) {
        Some(v) => v,
        None => {
            return None;
        },
    };
    proof {
        lemma_p_u64_bounds(s@, j2 as int);
    }
    let close = crate::strutil::str_to_chars("}");
    let j4 = match e_lit_b(s, j3, &close) {
        Some(j) => j,
        None => {
            return None;
        },
    };
    Some((nonce, timestamp, j4))
}

/// The body shared by both response forms.
fn e_response_body(s: &Vec<char>, i: usize) -> (r: Option<(String, String, String, u64, usize)>)
    requires
        i <= s@.len(),
    ensures
        match r {
            Some((client_id, nonce, response_hash, timestamp, j)) => sp_response_body(
                s@,
                i as int,
            ) == Some((client_id@, nonce@, response_hash@, timestamp, j as int)) && j <= s@.len(),
            None => sp_response_body(s@, i as int) is None,
        },
{
    let (client_id, j1) = match e_string_b(s, i) {
        Some(v) => v,
        None => {
            return None;
        },
    };
    let l1 = crate::strutil::str_to_chars(",\"nonce\":");
    let j2 = match e_lit_b(s, j1, &l1) {
        Some(j) => j,
        None => {
            return None;
        },
    };
    let (nonce, j3) = match e_string_b(s, j2) {
        Some(v) => v,
        None => {
            return None;
        },
    };
    let l2 = crate::strutil::str_to_chars(",\"response_hash\":");
    let j4 = match e_lit_b(s, j3, &l2) {
        Some(j) => j,
        None => {
            return None;
        },
    };
    let (response_hash, j5) = match e_string_b(s, j4) {
        Some(v) => v,
        None => {
            return None;
        },
    };
    let l3 = crate::strutil::str_to_chars(",\"timestamp\":");
    let j6 = match e_lit_b(s, j5, &l3) {
        Some(j) => j,
        None => {
            return None;
        },
    };
    let (timestamp, j7) = match e_u64(s, j6) {
        Some(v) => v,
        None => {
            return None;
        },
    };
    proof {
        lemma_p_u64_bounds(s@, j6 as int);
    }
    let close = crate::strutil::str_to_chars("}");
    let j8 = match e_lit_b(s, j7, &close) {
        Some(j) => j,
        None => {
            return None;
        },
    };
    Some((client_id, nonce, response_hash, timestamp, j8))
}

/// The body shared by both result forms.
fn e_result_body(s: &Vec<char>, i: usize) -> (r: Option<(bool, String, usize)>)
    requires
        i <= s@.len(),
    ensures
        match r {
            Some((success, message, j)) => sp_result_body(s@, i as int) == Some(
                (success, message@, j as int),
            ) && j <= s@.len(),
            None => sp_result_body(s@, i as int) is None,
        },
{
    let (success, j1) = match e_bool(s, i) {
        Some(v) => v,
        None => {
            return None;
        },
    };
    proof {
        reveal_strlit("true");
        reveal_strlit("false");
    }
    let l1 = crate::strutil::str_to_chars(",\"message\":");
    let j2 = match e_lit_b(s, j1, &l1) {
        Some(j) => j,
        None => {
            return None;
        },
    };
    let (message, j3) = match e_string_b(s, j2) {
        Some(v) => v,
        None => {
            return None;
        },
    };
    let close = crate::strutil::str_to_chars("}");
    let j4 = match e_lit_b(s, j3, &close) {
        Some(j) => j,
        None => {
            return None;
        },
    };
    Some((success, message, j4))
}

/// One whole line parsed as an authentication message.
pub fn parse_auth_message(line: &Vec<char>) -> (r: Option<crate::tcp_auth::TcpAuthMessage>)
    ensures
        match r {
            Some(m) => sp_auth_message(line@) == Some(m@),
            None => sp_auth_message(line@) is None,
        },
{
    let s = line;
    let n = s.len();
    let ch_lit = crate::strutil::str_to_chars("{\"auth_type\":\"challenge\",\"nonce\":");
    match e_lit_b(s, 0, &ch_lit) {
        Some(i) => {
            match e_challenge_body(s, i) {
                Some((nonce, timestamp, j)) => {
                    if j == n {
                        Some(crate::tcp_auth::TcpAuthMessage::Challenge { nonce, timestamp })
                    } else {
                        None
                    }
                },
                None => None,
            }
        },
        None => {
            let re_lit = crate::strutil::str_to_chars("{\"auth_type\":\"response\",\"client_id\":");
            match e_lit_b(s, 0, &re_lit) {
                Some(i) => {
                    match e_response_body(s, i) {
                        Some((client_id, nonce, response_hash, timestamp, j)) => {
                            if j == n {
                                Some(
                                    crate::tcp_auth::TcpAuthMessage::Response {
                                        client_id,
                                        nonce,
                                        response_hash,
                                        timestamp,
                                    },
                                )
                            } else {
                                None
                            }
                        },
                        None => None,
                    }
                },
                None => {
                    let rs_lit = crate::strutil::str_to_chars("{\"auth_type\":\"result\",\"success\":");
                    match e_lit_b(s, 0, &rs_lit) {
                        Some(i) => {
                            match e_result_body(s, i) {
                                Some((success, message, j)) => {
                                    if j == n {
                                        Some(
                                            crate::tcp_auth::TcpAuthMessage::AuthResult {
                                                success,
                                                message,
                                            },
                                        )
                                    } else {
                                        None
                                    }
                                },
                                None => None,
                            }
                        },
                        None => None,
                    }
                },
            }
        },
    }
}

/// The exact line for one frame, newline excluded.
pub fn encode_frame(f: &Frame) -> (r: String)
    ensures
        r@ == enc_frame(f@),
{
    let mut out: Vec<char> = Vec::new();
    match f {
        Frame::ClientInfo { client_id, system_info, version_info, app_info, last_seen } => {
            push_lit(&mut out, "{\"data_type\":\"client_info\",\"client_id\":");
            push_json_string(&mut out, client_id.as_str());
            push_lit(&mut out, ",\"system_info\":");
            push_host(&mut out, system_info);
            push_lit(&mut out, ",\"version_info\":");
            push_version_list(&mut out, version_info);
            push_lit(&mut out, ",\"app_info\":");
            push_app_list(&mut out, app_info);
            push_lit(&mut out, ",\"last_seen\":");
            push_ts(&mut out, last_seen);
            push_lit(&mut out, "}");
        },
        Frame::CommandResponse {
            command_id,
            client_id,
            command,
            output,
            error_output,
            exit_code,
            executed_at,
        } => {
            push_lit(&mut out, "{\"data_type\":\"command_response\",\"command_id\":");
            push_json_string(&mut out, command_id.as_str());
            push_lit(&mut out, ",\"client_id\":");
            push_json_string(&mut out, client_id.as_str());
            push_lit(&mut out, ",\"command\":");
            push_json_string(&mut out, command.as_str());
            push_lit(&mut out, ",\"output\":");
            push_json_string(&mut out, output.as_str());
            push_lit(&mut out, ",\"error_output\":");
            push_json_string(&mut out, error_output.as_str());
            push_lit(&mut out, ",\"exit_code\":");
            push_i32(&mut out, *exit_code);
            push_lit(&mut out, ",\"executed_at\":");
            push_ts(&mut out, executed_at);
            push_lit(&mut out, "}");
        },
        Frame::AuthChallenge { nonce, timestamp } => {
            push_lit(&mut out, "{\"data_type\":\"auth_challenge\",\"nonce\":");
            push_json_string(&mut out, nonce.as_str());
            push_lit(&mut out, ",\"timestamp\":");
            push_u64(&mut out, *timestamp);
            push_lit(&mut out, "}");
        },
        Frame::AuthResponse { client_id, nonce, response_hash, timestamp } => {
            push_lit(&mut out, "{\"data_type\":\"auth_response\",\"client_id\":");
            push_json_string(&mut out, client_id.as_str());
            push_lit(&mut out, ",\"nonce\":");
            push_json_string(&mut out, nonce.as_str());
            push_lit(&mut out, ",\"response_hash\":");
            push_json_string(&mut out, response_hash.as_str());
            push_lit(&mut out, ",\"timestamp\":");
            push_u64(&mut out, *timestamp);
            push_lit(&mut out, "}");
        },
        Frame::AuthResult { success, message } => {
            push_lit(&mut out, "{\"data_type\":\"auth_result\",\"success\":");
            if *success {
                push_lit(&mut out, "true");
            } else {
                push_lit(&mut out, "false");
            }
            push_lit(&mut out, ",\"message\":");
            push_json_string(&mut out, message.as_str());
            push_lit(&mut out, "}");
        },
    }
    proof {
        assert(out@ =~= enc_frame(f@));
    }
    crate::strutil::chars_to_string(&out)
}

/// The exact line for one authentication message, newline excluded.
pub fn encode_auth_message(m: &crate::tcp_auth::TcpAuthMessage) -> (r: String)
    ensures
        r@ == enc_auth_message(m@),
{
    let mut out: Vec<char> = Vec::new();
    match m {
        crate::tcp_auth::TcpAuthMessage::Challenge { nonce, timestamp } => {
            push_lit(&mut out, "{\"auth_type\":\"challenge\",\"nonce\":");
            push_json_string(&mut out, nonce.as_str());
            push_lit(&mut out, ",\"timestamp\":");
            push_u64(&mut out, *timestamp);
            push_lit(&mut out, "}");
        },
        crate::tcp_auth::TcpAuthMessage::Response { client_id, nonce, response_hash, timestamp } => {
            push_lit(&mut out, "{\"auth_type\":\"response\",\"client_id\":");
            push_json_string(&mut out, client_id.as_str());
            push_lit(&mut out, ",\"nonce\":");
            push_json_string(&mut out, nonce.as_str());
            push_lit(&mut out, ",\"response_hash\":");
            push_json_string(&mut out, response_hash.as_str());
            push_lit(&mut out, ",\"timestamp\":");
            push_u64(&mut out, *timestamp);
            push_lit(&mut out, "}");
        },
        crate::tcp_auth::TcpAuthMessage::AuthResult { success, message } => {
            push_lit(&mut out, "{\"auth_type\":\"result\",\"success\":");
            if *success {
                push_lit(&mut out, "true");
            } else {
                push_lit(&mut out, "false");
            }
            push_lit(&mut out, ",\"message\":");
            push_json_string(&mut out, message.as_str());
            push_lit(&mut out, "}");
        },
    }
    proof {
        assert(out@ =~= enc_auth_message(m@));
    }
    crate::strutil::chars_to_string(&out)
}

/// A host object, emitted.
fn push_host(out: &mut Vec<char>, h: &crate::model::HostInfo)
    ensures
        final(out)@ == old(out)@ + enc_host(h@),
{
    push_lit(out, "{\"hostname\":");
    push_json_string(out, h.hostname.as_str());
    push_lit(out, ",\"cpu_model\":");
    push_json_string(out, h.cpu_model.as_str());
    push_lit(out, ",\"cpu_usage\":");
    push_centi(out, h.cpu_usage_centi);
    push_lit(out, ",\"total_memory\":");
    push_u64(out, h.total_memory);
    push_lit(out, ",\"free_memory\":");
    push_u64(out, h.free_memory);
    push_lit(out, ",\"used_memory\":");
    push_u64(out, h.used_memory);
    push_lit(out, ",\"ip_addresses\":");
    push_str_list(out, &h.ip_addresses);
    push_lit(out, "}");
    proof {
        assert(final(out)@ =~= old(out)@ + enc_host(h@));
    }
}

/// An optional string field, emitted.
fn push_opt_string(out: &mut Vec<char>, o: &Option<String>)
    ensures
        final(out)@ == old(out)@ + enc_opt_string(crate::model::opt_view(*o)),
{
    match o {
        None => push_lit(out, "null"),
        Some(x) => push_json_string(out, x.as_str()),
    }
}

/// A service status, emitted.
fn push_ss(out: &mut Vec<char>, v: &crate::model::ServiceStatus)
    ensures
        final(out)@ == old(out)@ + enc_ss(v@),
{
    match v {
        crate::model::ServiceStatus::Stopped => push_lit(out, "\"Stopped\""),
        crate::model::ServiceStatus::Unknown => push_lit(out, "\"Unknown\""),
        crate::model::ServiceStatus::Running(pid) => {
            push_lit(out, "{\"Running\":");
            push_json_string(out, pid.as_str());
            push_lit(out, "}");
            proof {
                assert(final(out)@ =~= old(out)@ + enc_ss(v@));
            }
        },
    }
}

/// A version entry, emitted.
fn push_version(out: &mut Vec<char>, v: &crate::model::VersionInfo)
    ensures
        final(out)@ == old(out)@ + enc_version(v@),
{
    push_lit(out, "{\"app\":");
    push_json_string(out, v.app.as_str());
    push_lit(out, ",\"created_time\":");
    push_json_string(out, v.created_time.as_str());
    push_lit(out, "}");
    proof {
        assert(final(out)@ =~= old(out)@ + enc_version(v@));
    }
}

/// An application entry, emitted.
fn push_app(out: &mut Vec<char>, a: &crate::model::AppInfo)
    ensures
        final(out)@ == old(out)@ + enc_app(a@),
{
    push_lit(out, "{\"name\":");
    push_json_string(out, a.name.as_str());
    push_lit(out, ",\"version\":");
    push_json_string(out, a.version.as_str());
    push_lit(out, ",\"deploy_time\":");
    push_json_string(out, a.deploy_time.as_str());
    push_lit(out, ",\"branch\":");
    push_opt_string(out, &a.branch);
    push_lit(out, ",\"commit\":");
    push_opt_string(out, &a.commit);
    push_lit(out, ",\"service_status\":");
    push_ss(out, &a.service_status);
    push_lit(out, "}");
    proof {
        assert(final(out)@ =~= old(out)@ + enc_app(a@));
    }
}

/// The items after position `k` of a string array, emitted.
fn push_str_items_from(out: &mut Vec<char>, l: &Vec<String>, k: usize)
    requires
        k <= l@.len(),
    ensures
        final(out)@ == old(out)@ + enc_str_items(crate::strutil::views_of(l@).skip(k as int)),
    decreases l@.len() - k,
{
    let ghost items = crate::strutil::views_of(l@).skip(k as int);
    if k == l.len() {
        proof {
            assert(items.len() == 0);
            assert(final(out)@ =~= old(out)@ + enc_str_items(items));
        }
    } else if k + 1 == l.len() {
        push_json_string(out, l[k].as_str());
        proof {
            assert(items.len() == 1);
            assert(items[0] == l@[k as int]@);
            assert(final(out)@ =~= old(out)@ + enc_str_items(items));
        }
    } else {
        push_json_string(out, l[k].as_str());
        push_lit(out, ",");
        push_str_items_from(out, l, k + 1);
        proof {
            assert(items.len() > 1);
            assert(items[0] == l@[k as int]@);
            assert(items.drop_first() =~= crate::strutil::views_of(l@).skip(k as int + 1));
            assert(final(out)@ =~= old(out)@ + enc_str_items(items));
        }
    }
}

/// A string array, emitted.
fn push_str_list(out: &mut Vec<char>, l: &Vec<String>)
    ensures
        final(out)@ == old(out)@ + enc_str_list(crate::strutil::views_of(l@)),
{
    push_lit(out, "[");
    push_str_items_from(out, l, 0);
    push_lit(out, "]");
    proof {
        assert(crate::strutil::views_of(l@).skip(0) =~= crate::strutil::views_of(l@));
        assert(final(out)@ =~= old(out)@ + enc_str_list(crate::strutil::views_of(l@)));
    }
}

/// The items after position `k` of a version array, emitted.
fn push_version_items_from(out: &mut Vec<char>, l: &Vec<crate::model::VersionInfo>, k: usize)
    requires
        k <= l@.len(),
    ensures
        final(out)@ == old(out)@ + enc_version_items(
            l@.map_values(|v: crate::model::VersionInfo| v@).skip(k as int),
        ),
    decreases l@.len() - k,
{
    let ghost items = l@.map_values(|v: crate::model::VersionInfo| v@).skip(k as int);
    if k == l.len() {
        proof {
            assert(items.len() == 0);
            assert(final(out)@ =~= old(out)@ + enc_version_items(items));
        }
    } else if k + 1 == l.len() {
        push_version(out, &l[k]);
        proof {
            assert(items.len() == 1);
            assert(items[0] == l@[k as int]@);
            assert(final(out)@ =~= old(out)@ + enc_version_items(items));
        }
    } else {
        push_version(out, &l[k]);
        push_lit(out, ",");
        push_version_items_from(out, l, k + 1);
        proof {
            assert(items.len() > 1);
            assert(items[0] == l@[k as int]@);
            assert(items.drop_first() =~= l@.map_values(|v: crate::model::VersionInfo| v@).skip(
                k as int + 1,
            ));
            assert(final(out)@ =~= old(out)@ + enc_version_items(items));
        }
    }
}

/// A version array, emitted.
fn push_version_list(out: &mut Vec<char>, l: &Vec<crate::model::VersionInfo>)
    ensures
        final(out)@ == old(out)@ + enc_version_list(
            l@.map_values(|v: crate::model::VersionInfo| v@),
        ),
{
    push_lit(out, "[");
    push_version_items_from(out, l, 0);
    push_lit(out, "]");
    proof {
        assert(l@.map_values(|v: crate::model::VersionInfo| v@).skip(0) =~= l@.map_values(
            |v: crate::model::VersionInfo| v@,
        ));
        assert(final(out)@ =~= old(out)@ + enc_version_list(
            l@.map_values(|v: crate::model::VersionInfo| v@),
        ));
    }
}

/// The items after position `k` of an application array, emitted.
#[verifier::rlimit(60)]
fn push_app_items_from(out: &mut Vec<char>, l: &Vec<crate::model::AppInfo>, k: usize)
    requires
        k <= l@.len(),
    ensures
        final(out)@ == old(out)@ + enc_app_items(
            l@.map_values(|v: crate::model::AppInfo| v@).skip(k as int),
        ),
    decreases l@.len() - k,
{
    let ghost items = l@.map_values(|v: crate::model::AppInfo| v@).skip(k as int);
    if k == l.len() {
        proof {
            assert(items.len() == 0);
            assert(final(out)@ =~= old(out)@ + enc_app_items(items));
        }
    } else if k + 1 == l.len() {
        push_app(out, &l[k]);
        proof {
            assert(items.len() == 1);
            assert(items[0] == l@[k as int]@);
            assert(final(out)@ =~= old(out)@ + enc_app_items(items));
        }
    } else {
        push_app(out, &l[k]);
        push_lit(out, ",");
        push_app_items_from(out, l, k + 1);
        proof {
            assert(items.len() > 1);
            assert(items[0] == l@[k as int]@);
            assert(items.drop_first() =~= l@.map_values(|v: crate::model::AppInfo| v@).skip(
                k as int + 1,
            ));
            assert(final(out)@ =~= old(out)@ + enc_app_items(items));
        }
    }
}

/// An application array, emitted.
fn push_app_list(out: &mut Vec<char>, l: &Vec<crate::model::AppInfo>)
    ensures
        final(out)@ == old(out)@ + enc_app_list(l@.map_values(|v: crate::model::AppInfo| v@)),
{
    push_lit(out, "[");
    push_app_items_from(out, l, 0);
    push_lit(out, "]");
    proof {
        assert(l@.map_values(|v: crate::model::AppInfo| v@).skip(0) =~= l@.map_values(
            |v: crate::model::AppInfo| v@,
        ));
        assert(final(out)@ =~= old(out)@ + enc_app_list(
            l@.map_values(|v: crate::model::AppInfo| v@),
        ));
    }
}


/// `chunk` sits in `s` exactly at position `i`.
pub open spec fn chunk_at(s: Seq<char>, i: int, chunk: Seq<char>) -> bool {
    0 <= i && i + chunk.len() <= s.len() && s.subrange(i, i + chunk.len()) == chunk
}

/// A chunk of two parts splits into a chunk and a chunk after it.
pub proof fn lemma_chunk_split(s: Seq<char>, i: int, a: Seq<char>, b: Seq<char>)
    requires
        chunk_at(s, i, a + b),
    ensures
        chunk_at(s, i, a),
        chunk_at(s, i + a.len(), b),
{
    assert forall|k: int| 0 <= k < a.len() implies s.subrange(i, i + a.len())[k] == a[k] by {
        assert(s.subrange(i, i + (a + b).len())[k] == (a + b)[k]);
    }
    assert(s.subrange(i, i + a.len()) =~= a);
    assert forall|k: int|
        0 <= k < b.len() implies s.subrange(i + a.len(), i + a.len() + b.len())[k] == b[k] by {
        assert(s.subrange(i, i + (a + b).len())[k + a.len()] == (a + b)[k + a.len()]);
    }
    assert(s.subrange(i + a.len(), i + a.len() + b.len()) =~= b);
}

/// Each character of a chunk is the character of `s` at its offset.
pub proof fn lemma_chunk_index(s: Seq<char>, i: int, chunk: Seq<char>, k: int)
    requires
        chunk_at(s, i, chunk),
        0 <= k < chunk.len(),
    ensures
        s[i + k] == chunk[k],
{
    assert(s.subrange(i, i + chunk.len())[k] == chunk[k]);
}

/// A literal chunk parses as that literal.
pub proof fn lemma_inv_lit(s: Seq<char>, i: int, lit: Seq<char>)
    requires
        chunk_at(s, i, lit),
    ensures
        p_lit(s, i, lit) == Some(i + lit.len()),
{
}

/// An escaped body followed by its closing quote parses back to the original
/// characters, stopping exactly at the quote.
pub proof fn lemma_inv_str_body(s: Seq<char>, i: int, x: Seq<char>)
    requires
        chunk_at(s, i, esc(x) + seq!['"']),
    ensures
        p_str_body(s, i) == Some((x, i + esc(x).len() + 1)),
    decreases x.len(),
{
    if x.len() == 0 {
        assert(esc(x) + seq!['"'] =~= seq!['"']);
        lemma_chunk_index(s, i, seq!['"'], 0);
        assert(p_str_body(s, i) == Some((Seq::<char>::empty(), i + 1)));
        assert(Seq::<char>::empty() =~= x);
    } else {
        let c = x[0];
        let rest = x.drop_first();
        assert(esc(x) == esc_char(c) + esc(rest));
        assert(esc(x) + seq!['"'] =~= esc_char(c) + (esc(rest) + seq!['"']));
        lemma_chunk_split(s, i, esc_char(c), esc(rest) + seq!['"']);
        let i2 = i + esc_char(c).len();
        let ec = esc_char(c);
        if c == '"' || c == '\\' || c == '\n' || c == '\r' || c == '\t' {
            lemma_chunk_index(s, i, ec, 0);
            lemma_chunk_index(s, i, ec, 1);
            assert(s[i] == '\\');
            assert(s[i + 1] != 'u');
            assert(esc_unmap(s[i + 1]) == Some(c));
            lemma_inv_str_body(s, i + 2, rest);
            assert(p_str_body(s, i) == Some((seq![c] + rest, i + 2 + esc(rest).len() + 1)));
            assert(seq![c] + rest =~= x);
        } else if (c as u32) < 0x20 {
            let v = c as u32;
            lemma_chunk_index(s, i, ec, 0);
            lemma_chunk_index(s, i, ec, 1);
            lemma_chunk_index(s, i, ec, 2);
            lemma_chunk_index(s, i, ec, 3);
            lemma_chunk_index(s, i, ec, 4);
            lemma_chunk_index(s, i, ec, 5);
            assert(s[i] == '\\' && s[i + 1] == 'u' && s[i + 2] == '0' && s[i + 3] == '0');
            assert(s[i + 4] == crate::ext::hex_digit(v as int / 16));
            assert(s[i + 5] == crate::ext::hex_digit(v as int % 16));
            lemma_hex_digit_val(v as int / 16);
            lemma_hex_digit_val(v as int % 16);
            assert(is_hex('0') && hex_val('0') == 0);
            let w = hex_val(s[i + 2]) * 4096 + hex_val(s[i + 3]) * 256 + hex_val(s[i + 4]) * 16
                + hex_val(s[i + 5]);
            assert(w == v);
            assert(!(0xD800 <= w < 0xE000));
            lemma_inv_str_body(s, i + 6, rest);
            vstd::utf8::char_u32_cast(c, v);
            assert(p_str_body(s, i) == Some((seq![c] + rest, i + 6 + esc(rest).len() + 1)));
            assert(seq![c] + rest =~= x);
        } else {
            lemma_chunk_index(s, i, ec, 0);
            assert(s[i] == c);
            assert(c != '"' && c != '\\' && (c as u32) >= 0x20);
            lemma_inv_str_body(s, i + 1, rest);
            assert(p_str_body(s, i) == Some((seq![c] + rest, i + 1 + esc(rest).len() + 1)));
            assert(seq![c] + rest =~= x);
        }
    }
}

/// A hexadecimal digit character denotes its value.
pub proof fn lemma_hex_digit_val(d: int)
    requires
        0 <= d < 16,
    ensures
        is_hex(crate::ext::hex_digit(d)),
        hex_val(crate::ext::hex_digit(d)) == d,
{
}

/// An encoded JSON string parses back to its characters.
pub proof fn lemma_inv_string(s: Seq<char>, i: int, x: Seq<char>)
    requires
        chunk_at(s, i, enc_json_string(x)),
    ensures
        p_string(s, i) == Some((x, i + enc_json_string(x).len())),
{
    assert(enc_json_string(x) =~= seq!['"'] + (esc(x) + seq!['"']));
    lemma_chunk_split(s, i, seq!['"'], esc(x) + seq!['"']);
    lemma_chunk_index(s, i, seq!['"'], 0);
    lemma_inv_str_body(s, i + 1, x);
}

/// Decimal printing produces digit characters only.
pub proof fn lemma_dec_digits(n: int)
    requires
        n >= 0,
    ensures
        forall|k: int|
            0 <= k < crate::strutil::dec_u64(n).len() ==> is_digit(
                #[trigger] crate::strutil::dec_u64(n)[k],
            ),
        crate::strutil::dec_u64(n).len() >= 1,
    decreases n,
{
    if n >= 10 {
        lemma_dec_digits(n / 10);
        assert(forall|k: int|
            0 <= k < crate::strutil::dec_u64(n / 10).len() ==> crate::strutil::dec_u64(n)[k]
                == crate::strutil::dec_u64(n / 10)[k]);
    }
}

/// The digit run from `i` ends exactly at the first non-digit.
pub proof fn lemma_digits_end_exact(s: Seq<char>, i: int, e: int)
    requires
        0 <= i <= e <= s.len(),
        forall|k: int| i <= k < e ==> is_digit(#[trigger] s[k]),
        e < s.len() ==> !is_digit(s[e]),
    ensures
        digits_end(s, i) == e,
    decreases e - i,
{
    if i < e {
        lemma_digits_end_exact(s, i + 1, e);
    }
}

/// Each digit character denotes its digit.
pub proof fn lemma_dec_digit_val(d: int)
    requires
        0 <= d < 10,
    ensures
        digit_val(crate::strutil::dec_digit(d)) == d,
        is_digit(crate::strutil::dec_digit(d)),
{
}

/// The decimal digits of `n` denote `n`.
pub proof fn lemma_digits_val_dec(n: int)
    requires
        n >= 0,
    ensures
        digits_val(crate::strutil::dec_u64(n)) == n,
    decreases n,
{
    if n < 10 {
        lemma_dec_digit_val(n);
        assert(crate::strutil::dec_u64(n) == seq![crate::strutil::dec_digit(n)]);
        assert(seq![crate::strutil::dec_digit(n)].drop_last() =~= Seq::<char>::empty());
        assert(digits_val(Seq::<char>::empty()) == 0);
        assert(seq![crate::strutil::dec_digit(n)].last() == crate::strutil::dec_digit(n));
    } else {
        lemma_digits_val_dec(n / 10);
        lemma_dec_digit_val(n % 10);
        assert(crate::strutil::dec_u64(n).drop_last() =~= crate::strutil::dec_u64(n / 10));
        assert(crate::strutil::dec_u64(n).last() == crate::strutil::dec_digit(n % 10));
    }
}

/// An encoded unsigned number followed by a non-digit parses back to itself.
pub proof fn lemma_inv_u64(s: Seq<char>, i: int, n: u64)
    requires
        chunk_at(s, i, crate::strutil::dec_u64(n as int)),
        i + crate::strutil::dec_u64(n as int).len() == s.len() || !is_digit(
            s[i + crate::strutil::dec_u64(n as int).len()],
        ),
    ensures
        p_u64(s, i) == Some((n, i + crate::strutil::dec_u64(n as int).len())),
{
    let d = crate::strutil::dec_u64(n as int);
    lemma_dec_digits(n as int);
    assert(forall|k: int| i <= k < i + d.len() ==> is_digit(#[trigger] s[k])) by {
        assert(forall|k: int|
            i <= k < i + d.len() ==> s.subrange(i, i + d.len())[k - i] == #[trigger] s[k]);
    }
    lemma_digits_end_exact(s, i, i + d.len());
    lemma_digits_val_dec(n as int);
    assert(s.subrange(i, i + d.len()) == d);
}

/// An encoded signed number followed by a non-digit parses back to itself.
pub proof fn lemma_inv_i32(s: Seq<char>, i: int, v: i32)
    requires
        chunk_at(s, i, crate::strutil::dec_i64(v as int)),
        i + crate::strutil::dec_i64(v as int).len() == s.len() || !is_digit(
            s[i + crate::strutil::dec_i64(v as int).len()],
        ),
    ensures
        p_i32(s, i) == Some((v, i + crate::strutil::dec_i64(v as int).len())),
{
    if v < 0 {
        let m = -(v as int);
        assert(crate::strutil::dec_i64(v as int) == seq!['-'] + crate::strutil::dec_u64(m));
        lemma_chunk_split(s, i, seq!['-'], crate::strutil::dec_u64(m));
        lemma_chunk_index(s, i, seq!['-'], 0);
        lemma_inv_u64(s, i + 1, m as u64);
        assert(m <= 0x8000_0000);
        assert((-(m)) as i32 == v);
    } else {
        lemma_dec_digits(v as int);
        lemma_chunk_index(s, i, crate::strutil::dec_u64(v as int), 0);
        assert(is_digit(s[i]));
        assert(s[i] != '-');
        lemma_inv_u64(s, i, v as u64);
        assert(v as u64 <= 0x7FFF_FFFFu64);
    }
}

/// An encoded boolean parses back to itself.
pub proof fn lemma_inv_bool(s: Seq<char>, i: int, b: bool)
    requires
        chunk_at(s, i, if b { "true"@ } else { "false"@ }),
    ensures
        p_bool(s, i) == Some((b, i + if b { 4int } else { 5int })),
{
    reveal_strlit("true");
    reveal_strlit("false");
    if b {
        lemma_inv_lit(s, i, "true"@);
    } else {
        lemma_inv_lit(s, i, "false"@);
        if p_lit(s, i, "true"@) is Some {
            lemma_chunk_index(s, i, "false"@, 0);
            assert(s.subrange(i, i + 4)[0] == s[i]);
            assert(false);
        }
    }
}

/// Encoded CPU hundredths parse back to the same count.
pub proof fn lemma_inv_centi(s: Seq<char>, i: int, c: u64)
    requires
        chunk_at(s, i, enc_centi(c)),
        i + enc_centi(c).len() == s.len() || !is_digit(s[i + enc_centi(c).len()]),
    ensures
        p_centi(s, i) == Some((c, i + enc_centi(c).len())),
{
    let ip = crate::strutil::dec_u64(c as int / 100);
    let frac = seq!['.', crate::strutil::dec_digit((c as int % 100) / 10), crate::strutil::dec_digit(
        c as int % 10,
    )];
    assert(enc_centi(c) =~= ip + frac);
    lemma_chunk_split(s, i, ip, frac);
    let j = i + ip.len();
    lemma_chunk_index(s, i + ip.len(), frac, 0);
    lemma_chunk_index(s, i + ip.len(), frac, 1);
    lemma_chunk_index(s, i + ip.len(), frac, 2);
    assert(s[j] == '.');
    assert(!is_digit('.'));
    lemma_inv_u64(s, i, (c / 100) as u64);
    assert(s[j + 1] == crate::strutil::dec_digit((c as int % 100) / 10));
    assert(s[j + 2] == crate::strutil::dec_digit(c as int % 10));
    assert(is_digit(s[j + 1]) && is_digit(s[j + 2]));
    lemma_digits_end_exact(s, j + 1, j + 3);
    assert(digit_val(s[j + 1]) == (c as int % 100) / 10);
    assert(digit_val(s[j + 2]) == c as int % 10);
    assert((c as int / 100) * 100 + ((c as int % 100) / 10) * 10 + (c as int % 10) == c as int)
        by (nonlinear_arith);
    assert(p_centi(s, i) == Some((c, j + 3)));
}

/// An encoded stamp parses back to itself.
pub proof fn lemma_inv_ts(s: Seq<char>, i: int, t: crate::model::Timestamp)
    requires
        chunk_at(s, i, enc_ts(t)),
        t.wf(),
    ensures
        p_ts(s, i) == Some((t, i + enc_ts(t).len())),
{
    let c1 = "{\"secs_since_epoch\":"@;
    let d1 = crate::strutil::dec_u64(t.secs as int);
    let c2 = ",\"nanos_since_epoch\":"@;
    let d2 = crate::strutil::dec_u64(t.nanos as int);
    let c3 = "}"@;
    assert(enc_ts(t) =~= c1 + (d1 + (c2 + (d2 + c3))));
    lemma_chunk_split(s, i, c1, d1 + (c2 + (d2 + c3)));
    lemma_inv_lit(s, i, c1);
    let i1 = i + c1.len();
    lemma_chunk_split(s, i1, d1, c2 + (d2 + c3));
    let i2 = i1 + d1.len();
    lemma_chunk_split(s, i2, c2, d2 + c3);
    let i3 = i2 + c2.len();
    lemma_chunk_split(s, i3, d2, c3);
    let i4 = i3 + d2.len();
    reveal_strlit(",\"nanos_since_epoch\":");
    reveal_strlit("}");
    lemma_chunk_index(s, i2, c2, 0);
    assert(!is_digit(s[i2]));
    lemma_inv_u64(s, i1, t.secs);
    lemma_chunk_index(s, i4, c3, 0);
    assert(!is_digit(s[i4]));
    lemma_inv_u64(s, i3, t.nanos as u64);
    lemma_inv_lit(s, i2, c2);
    lemma_inv_lit(s, i4, c3);
    assert(p_ts(s, i) == Some((crate::model::Timestamp { secs: t.secs, nanos: t.nanos }, i4 + 1)));
    assert((crate::model::Timestamp { secs: t.secs, nanos: t.nanos }) == t);
}


/// A literal cannot parse where some character differs.
pub proof fn lemma_lit_differs(s: Seq<char>, i: int, lit: Seq<char>, k: int)
    requires
        0 <= i,
        0 <= k < lit.len(),
        i + k < s.len(),
        s[i + k] != lit[k],
    ensures
        p_lit(s, i, lit) is None,
{
    if p_lit(s, i, lit) is Some {
        assert(s.subrange(i, i + lit.len())[k] == lit[k]);
    }
}

/// An encoded optional string parses back to itself.
pub proof fn lemma_inv_opt_string(s: Seq<char>, i: int, o: Option<Seq<char>>)
    requires
        chunk_at(s, i, enc_opt_string(o)),
    ensures
        p_opt_string(s, i) == Some((o, i + enc_opt_string(o).len())),
{
    reveal_strlit("null");
    match o {
        None => {
            lemma_inv_lit(s, i, "null"@);
        },
        Some(x) => {
            assert(enc_json_string(x)[0] == '"') by {
                assert(enc_json_string(x) =~= seq!['"'] + (esc(x) + seq!['"']));
            }
            lemma_chunk_index(s, i, enc_json_string(x), 0);
            lemma_lit_differs(s, i, "null"@, 0);
            lemma_inv_string(s, i, x);
        },
    }
}

/// An encoded service status parses back to itself.
pub proof fn lemma_inv_ss(s: Seq<char>, i: int, v: crate::model::ServiceStatusV)
    requires
        chunk_at(s, i, enc_ss(v)),
    ensures
        p_ss(s, i) == Some((v, i + enc_ss(v).len())),
{
    reveal_strlit("\"Stopped\"");
    reveal_strlit("\"Unknown\"");
    reveal_strlit("{\"Running\":");
    reveal_strlit("}");
    match v {
        crate::model::ServiceStatusV::Stopped => {
            lemma_inv_lit(s, i, "\"Stopped\""@);
        },
        crate::model::ServiceStatusV::Unknown => {
            lemma_chunk_index(s, i, "\"Unknown\""@, 1);
            lemma_lit_differs(s, i, "\"Stopped\""@, 1);
            lemma_inv_lit(s, i, "\"Unknown\""@);
        },
        crate::model::ServiceStatusV::Running(pid) => {
            let c1 = "{\"Running\":"@;
            let e1 = enc_json_string(pid);
            let c3 = "}"@;
            assert(enc_ss(v) =~= c1 + (e1 + c3));
            lemma_chunk_split(s, i, c1, e1 + c3);
            lemma_chunk_index(s, i, c1, 0);
            lemma_lit_differs(s, i, "\"Stopped\""@, 0);
            lemma_lit_differs(s, i, "\"Unknown\""@, 0);
            lemma_inv_lit(s, i, c1);
            let i1 = i + c1.len();
            lemma_chunk_split(s, i1, e1, c3);
            lemma_inv_string(s, i1, pid);
            lemma_inv_lit(s, i1 + e1.len(), c3);
        },
    }
}

/// An encoded version entry parses back to itself.
pub proof fn lemma_inv_version(s: Seq<char>, i: int, v: crate::model::VersionInfoV)
    requires
        chunk_at(s, i, enc_version(v)),
    ensures
        p_version(s, i) == Some((v, i + enc_version(v).len())),
{
    let c1 = "{\"app\":"@;
    let e1 = enc_json_string(v.app);
    let c2 = ",\"created_time\":"@;
    let e2 = enc_json_string(v.created_time);
    let c3 = "}"@;
    assert(enc_version(v) =~= c1 + (e1 + (c2 + (e2 + c3))));
    lemma_chunk_split(s, i, c1, e1 + (c2 + (e2 + c3)));
    lemma_inv_lit(s, i, c1);
    let i1 = i + c1.len();
    lemma_chunk_split(s, i1, e1, c2 + (e2 + c3));
    lemma_inv_string(s, i1, v.app);
    let i2 = i1 + e1.len();
    lemma_chunk_split(s, i2, c2, e2 + c3);
    lemma_inv_lit(s, i2, c2);
    let i3 = i2 + c2.len();
    lemma_chunk_split(s, i3, e2, c3);
    lemma_inv_string(s, i3, v.created_time);
    lemma_inv_lit(s, i3 + e2.len(), c3);
    assert((crate::model::VersionInfoV { app: v.app, created_time: v.created_time }) == v);
}

/// An encoded application entry parses back to itself.
#[verifier::rlimit(100)]
#[verifier::spinoff_prover]
pub proof fn lemma_inv_app(s: Seq<char>, i: int, a: crate::model::AppInfoV)
    requires
        chunk_at(s, i, enc_app(a)),
    ensures
        p_app(s, i) == Some((a, i + enc_app(a).len())),
{
    let c1 = "{\"name\":"@;
    let e1 = enc_json_string(a.name);
    let c2 = ",\"version\":"@;
    let e2 = enc_json_string(a.version);
    let c3 = ",\"deploy_time\":"@;
    let e3 = enc_json_string(a.deploy_time);
    let c4 = ",\"branch\":"@;
    let e4 = enc_opt_string(a.branch);
    let c5 = ",\"commit\":"@;
    let e5 = enc_opt_string(a.commit);
    let c6 = ",\"service_status\":"@;
    let e6 = enc_ss(a.service_status);
    let c7 = "}"@;
    assert(enc_app(a) =~= c1 + (e1 + (c2 + (e2 + (c3 + (e3 + (c4 + (e4 + (c5 + (e5 + (c6 + (e6
        + c7))))))))))));
    lemma_chunk_split(s, i, c1, e1 + (c2 + (e2 + (c3 + (e3 + (c4 + (e4 + (c5 + (e5 + (c6 + (e6
        + c7)))))))))));
    lemma_inv_lit(s, i, c1);
    let i1 = i + c1.len();
    lemma_chunk_split(s, i1, e1, c2 + (e2 + (c3 + (e3 + (c4 + (e4 + (c5 + (e5 + (c6 + (e6
        + c7))))))))));
    lemma_inv_string(s, i1, a.name);
    let i2 = i1 + e1.len();
    lemma_chunk_split(s, i2, c2, e2 + (c3 + (e3 + (c4 + (e4 + (c5 + (e5 + (c6 + (e6 + c7)))))))));
    lemma_inv_lit(s, i2, c2);
    let i3 = i2 + c2.len();
    lemma_chunk_split(s, i3, e2, c3 + (e3 + (c4 + (e4 + (c5 + (e5 + (c6 + (e6 + c7))))))));
    lemma_inv_string(s, i3, a.version);
    let i4 = i3 + e2.len();
    lemma_chunk_split(s, i4, c3, e3 + (c4 + (e4 + (c5 + (e5 + (c6 + (e6 + c7)))))));
    lemma_inv_lit(s, i4, c3);
    let i5 = i4 + c3.len();
    lemma_chunk_split(s, i5, e3, c4 + (e4 + (c5 + (e5 + (c6 + (e6 + c7))))));
    lemma_inv_string(s, i5, a.deploy_time);
    let i6 = i5 + e3.len();
    lemma_chunk_split(s, i6, c4, e4 + (c5 + (e5 + (c6 + (e6 + c7)))));
    lemma_inv_lit(s, i6, c4);
    let i7 = i6 + c4.len();
    lemma_chunk_split(s, i7, e4, c5 + (e5 + (c6 + (e6 + c7))));
    lemma_inv_opt_string(s, i7, a.branch);
    let i8 = i7 + e4.len();
    lemma_chunk_split(s, i8, c5, e5 + (c6 + (e6 + c7)));
    lemma_inv_lit(s, i8, c5);
    let i9 = i8 + c5.len();
    lemma_chunk_split(s, i9, e5, c6 + (e6 + c7));
    lemma_inv_opt_string(s, i9, a.commit);
    let i10 = i9 + e5.len();
    lemma_chunk_split(s, i10, c6, e6 + c7);
    lemma_inv_lit(s, i10, c6);
    let i11 = i10 + c6.len();
    lemma_chunk_split(s, i11, e6, c7);
    lemma_inv_ss(s, i11, a.service_status);
    lemma_inv_lit(s, i11 + e6.len(), c7);
    assert((crate::model::AppInfoV {
        name: a.name,
        version: a.version,
        deploy_time: a.deploy_time,
        branch: a.branch,
        commit: a.commit,
        service_status: a.service_status,
    }) == a);
}

/// An encoded non-empty item run followed by the closing bracket parses back.
pub proof fn lemma_inv_str_items(s: Seq<char>, i: int, l: Seq<Seq<char>>)
    requires
        l.len() >= 1,
        chunk_at(s, i, enc_str_items(l) + "]"@),
    ensures
        p_str_items(s, i) == Some((l, i + enc_str_items(l).len() + 1)),
    decreases l.len(),
{
    reveal_strlit("]");
    reveal_strlit(",");
    if l.len() == 1 {
        assert(enc_str_items(l) + "]"@ =~= enc_json_string(l[0]) + "]"@);
        lemma_chunk_split(s, i, enc_json_string(l[0]), "]"@);
        lemma_inv_string(s, i, l[0]);
        let j = i + enc_json_string(l[0]).len();
        lemma_chunk_index(s, j, "]"@, 0);
        lemma_p_string_bounds(s, i);
        assert(seq![l[0]] =~= l);
    } else {
        assert(enc_str_items(l) + "]"@ =~= enc_json_string(l[0]) + (","@ + (enc_str_items(
            l.drop_first(),
        ) + "]"@)));
        lemma_chunk_split(s, i, enc_json_string(l[0]), ","@ + (enc_str_items(l.drop_first())
            + "]"@));
        lemma_inv_string(s, i, l[0]);
        let j = i + enc_json_string(l[0]).len();
        lemma_chunk_split(s, j, ","@, enc_str_items(l.drop_first()) + "]"@);
        lemma_chunk_index(s, j, ","@, 0);
        lemma_p_string_bounds(s, i);
        lemma_inv_str_items(s, j + 1, l.drop_first());
        assert(seq![l[0]] + l.drop_first() =~= l);
    }
}

/// An encoded string array parses back to itself.
pub proof fn lemma_inv_str_list(s: Seq<char>, i: int, l: Seq<Seq<char>>)
    requires
        chunk_at(s, i, enc_str_list(l)),
    ensures
        p_str_list(s, i) == Some((l, i + enc_str_list(l).len())),
{
    reveal_strlit("[]");
    reveal_strlit("[");
    reveal_strlit("]");
    if l.len() == 0 {
        assert(enc_str_items(l) == Seq::<char>::empty());
        assert(enc_str_list(l) =~= "[]"@);
        lemma_inv_lit(s, i, "[]"@);
        assert(Seq::<Seq<char>>::empty() =~= l);
    } else {
        assert(enc_str_list(l) =~= "["@ + (enc_str_items(l) + "]"@));
        lemma_chunk_split(s, i, "["@, enc_str_items(l) + "]"@);
        lemma_chunk_split(s, i + 1, enc_str_items(l), "]"@);
        assert(enc_str_items(l)[0] == '"') by {
            if l.len() == 1 {
                assert(enc_str_items(l) == enc_json_string(l[0]));
            }
            assert(enc_json_string(l[0]) =~= seq!['"'] + (esc(l[0]) + seq!['"']));
        }
        lemma_chunk_index(s, i + 1, enc_str_items(l), 0);
        lemma_lit_differs(s, i, "[]"@, 1);
        lemma_inv_lit(s, i, "["@);
        lemma_inv_str_items(s, i + 1, l);
    }
}

/// An encoded non-empty version run followed by the bracket parses back.
pub proof fn lemma_inv_version_items(s: Seq<char>, i: int, l: Seq<crate::model::VersionInfoV>)
    requires
        l.len() >= 1,
        chunk_at(s, i, enc_version_items(l) + "]"@),
    ensures
        p_version_items(s, i) == Some((l, i + enc_version_items(l).len() + 1)),
    decreases l.len(),
{
    reveal_strlit("]");
    reveal_strlit(",");
    if l.len() == 1 {
        assert(enc_version_items(l) + "]"@ =~= enc_version(l[0]) + "]"@);
        lemma_chunk_split(s, i, enc_version(l[0]), "]"@);
        lemma_inv_version(s, i, l[0]);
        let j = i + enc_version(l[0]).len();
        lemma_chunk_index(s, j, "]"@, 0);
        assert(enc_version(l[0]).len() >= 1);
        assert(seq![l[0]] =~= l);
    } else {
        assert(enc_version_items(l) + "]"@ =~= enc_version(l[0]) + (","@ + (enc_version_items(
            l.drop_first(),
        ) + "]"@)));
        lemma_chunk_split(s, i, enc_version(l[0]), ","@ + (enc_version_items(l.drop_first())
            + "]"@));
        lemma_inv_version(s, i, l[0]);
        let j = i + enc_version(l[0]).len();
        lemma_chunk_split(s, j, ","@, enc_version_items(l.drop_first()) + "]"@);
        lemma_chunk_index(s, j, ","@, 0);
        assert(enc_version(l[0]).len() >= 1);
        lemma_inv_version_items(s, j + 1, l.drop_first());
        assert(seq![l[0]] + l.drop_first() =~= l);
    }
}

/// An encoded version array parses back to itself.
pub proof fn lemma_inv_version_list(s: Seq<char>, i: int, l: Seq<crate::model::VersionInfoV>)
    requires
        chunk_at(s, i, enc_version_list(l)),
    ensures
        p_version_list(s, i) == Some((l, i + enc_version_list(l).len())),
{
    reveal_strlit("[]");
    reveal_strlit("[");
    reveal_strlit("]");
    reveal_strlit("{\"app\":");
    if l.len() == 0 {
        assert(enc_version_items(l) == Seq::<char>::empty());
        assert(enc_version_list(l) =~= "[]"@);
        lemma_inv_lit(s, i, "[]"@);
        assert(Seq::<crate::model::VersionInfoV>::empty() =~= l);
    } else {
        assert(enc_version_list(l) =~= "["@ + (enc_version_items(l) + "]"@));
        lemma_chunk_split(s, i, "["@, enc_version_items(l) + "]"@);
        lemma_chunk_split(s, i + 1, enc_version_items(l), "]"@);
        assert(enc_version_items(l)[0] == '{') by {
            if l.len() == 1 {
                assert(enc_version_items(l) == enc_version(l[0]));
            }
            assert(enc_version(l[0])[0] == "{\"app\":"@[0]);
        }
        lemma_chunk_index(s, i + 1, enc_version_items(l), 0);
        lemma_lit_differs(s, i, "[]"@, 1);
        lemma_inv_lit(s, i, "["@);
        lemma_inv_version_items(s, i + 1, l);
    }
}

/// An encoded non-empty application run followed by the bracket parses back.
#[verifier::rlimit(100)]
#[verifier::spinoff_prover]
pub proof fn lemma_inv_app_items(s: Seq<char>, i: int, l: Seq<crate::model::AppInfoV>)
    requires
        l.len() >= 1,
        chunk_at(s, i, enc_app_items(l) + "]"@),
    ensures
        p_app_items(s, i) == Some((l, i + enc_app_items(l).len() + 1)),
    decreases l.len(),
{
    reveal_strlit("]");
    reveal_strlit(",");
    if l.len() == 1 {
        assert(enc_app_items(l) + "]"@ =~= enc_app(l[0]) + "]"@);
        lemma_chunk_split(s, i, enc_app(l[0]), "]"@);
        lemma_inv_app(s, i, l[0]);
        let j = i + enc_app(l[0]).len();
        lemma_chunk_index(s, j, "]"@, 0);
        assert(enc_app(l[0]).len() >= 1);
        assert(seq![l[0]] =~= l);
    } else {
        assert(enc_app_items(l) + "]"@ =~= enc_app(l[0]) + (","@ + (enc_app_items(l.drop_first())
            + "]"@)));
        lemma_chunk_split(s, i, enc_app(l[0]), ","@ + (enc_app_items(l.drop_first()) + "]"@));
        lemma_inv_app(s, i, l[0]);
        let j = i + enc_app(l[0]).len();
        lemma_chunk_split(s, j, ","@, enc_app_items(l.drop_first()) + "]"@);
        lemma_chunk_index(s, j, ","@, 0);
        assert(enc_app(l[0]).len() >= 1);
        lemma_inv_app_items(s, j + 1, l.drop_first());
        assert(seq![l[0]] + l.drop_first() =~= l);
    }
}

/// An encoded application array parses back to itself.
#[verifier::rlimit(100)]
#[verifier::spinoff_prover]
pub proof fn lemma_inv_app_list(s: Seq<char>, i: int, l: Seq<crate::model::AppInfoV>)
    requires
        chunk_at(s, i, enc_app_list(l)),
    ensures
        p_app_list(s, i) == Some((l, i + enc_app_list(l).len())),
{
    reveal_strlit("[]");
    reveal_strlit("[");
    reveal_strlit("]");
    reveal_strlit("{\"name\":");
    if l.len() == 0 {
        assert(enc_app_items(l) == Seq::<char>::empty());
        assert(enc_app_list(l) =~= "[]"@);
        lemma_inv_lit(s, i, "[]"@);
        assert(Seq::<crate::model::AppInfoV>::empty() =~= l);
    } else {
        assert(enc_app_list(l) =~= "["@ + (enc_app_items(l) + "]"@));
        lemma_chunk_split(s, i, "["@, enc_app_items(l) + "]"@);
        lemma_chunk_split(s, i + 1, enc_app_items(l), "]"@);
        assert(enc_app_items(l)[0] == '{') by {
            if l.len() == 1 {
                assert(enc_app_items(l) == enc_app(l[0]));
            }
            assert(enc_app(l[0])[0] == "{\"name\":"@[0]);
        }
        lemma_chunk_index(s, i + 1, enc_app_items(l), 0);
        lemma_lit_differs(s, i, "[]"@, 1);
        lemma_inv_lit(s, i, "["@);
        lemma_inv_app_items(s, i + 1, l);
    }
}

/// An encoded host object parses back to itself.
#[verifier::rlimit(100)]
#[verifier::spinoff_prover]
pub proof fn lemma_inv_host(s: Seq<char>, i: int, h: crate::model::HostInfoV)
    requires
        chunk_at(s, i, enc_host(h)),
    ensures
        p_host(s, i) == Some((h, i + enc_host(h).len())),
{
    let c1 = "{\"hostname\":"@;
    let e1 = enc_json_string(h.hostname);
    let c2 = ",\"cpu_model\":"@;
    let e2 = enc_json_string(h.cpu_model);
    let c3 = ",\"cpu_usage\":"@;
    let e3 = enc_centi(h.cpu_usage_centi);
    let c4 = ",\"total_memory\":"@;
    let e4 = crate::strutil::dec_u64(h.total_memory as int);
    let c5 = ",\"free_memory\":"@;
    let e5 = crate::strutil::dec_u64(h.free_memory as int);
    let c6 = ",\"used_memory\":"@;
    let e6 = crate::strutil::dec_u64(h.used_memory as int);
    let c7 = ",\"ip_addresses\":"@;
    let e7 = enc_str_list(h.ip_addresses);
    let c8 = "}"@;
    reveal_strlit(",\"total_memory\":");
    reveal_strlit(",\"free_memory\":");
    reveal_strlit(",\"used_memory\":");
    reveal_strlit(",\"ip_addresses\":");
    assert(enc_host(h) =~= c1 + (e1 + (c2 + (e2 + (c3 + (e3 + (c4 + (e4 + (c5 + (e5 + (c6 + (e6 + (
    c7 + (e7 + c8))))))))))))));
    lemma_chunk_split(s, i, c1, e1 + (c2 + (e2 + (c3 + (e3 + (c4 + (e4 + (c5 + (e5 + (c6 + (e6 + (c7
        + (e7 + c8)))))))))))));
    lemma_inv_lit(s, i, c1);
    let i1 = i + c1.len();
    lemma_chunk_split(s, i1, e1, c2 + (e2 + (c3 + (e3 + (c4 + (e4 + (c5 + (e5 + (c6 + (e6 + (c7 + (
    e7 + c8))))))))))));
    lemma_inv_string(s, i1, h.hostname);
    let i2 = i1 + e1.len();
    lemma_chunk_split(s, i2, c2, e2 + (c3 + (e3 + (c4 + (e4 + (c5 + (e5 + (c6 + (e6 + (c7 + (e7
        + c8)))))))))));
    lemma_inv_lit(s, i2, c2);
    let i3 = i2 + c2.len();
    lemma_chunk_split(s, i3, e2, c3 + (e3 + (c4 + (e4 + (c5 + (e5 + (c6 + (e6 + (c7 + (e7
        + c8))))))))));
    lemma_inv_string(s, i3, h.cpu_model);
    let i4 = i3 + e2.len();
    lemma_chunk_split(s, i4, c3, e3 + (c4 + (e4 + (c5 + (e5 + (c6 + (e6 + (c7 + (e7 + c8)))))))));
    lemma_inv_lit(s, i4, c3);
    let i5 = i4 + c3.len();
    lemma_chunk_split(s, i5, e3, c4 + (e4 + (c5 + (e5 + (c6 + (e6 + (c7 + (e7 + c8))))))));
    let i6 = i5 + e3.len();
    lemma_chunk_split(s, i6, c4, e4 + (c5 + (e5 + (c6 + (e6 + (c7 + (e7 + c8)))))));
    lemma_chunk_index(s, i6, c4, 0);
    assert(!is_digit(s[i6]));
    lemma_inv_centi(s, i5, h.cpu_usage_centi);
    lemma_inv_lit(s, i6, c4);
    let i7 = i6 + c4.len();
    lemma_chunk_split(s, i7, e4, c5 + (e5 + (c6 + (e6 + (c7 + (e7 + c8))))));
    let i8 = i7 + e4.len();
    lemma_chunk_split(s, i8, c5, e5 + (c6 + (e6 + (c7 + (e7 + c8)))));
    lemma_chunk_index(s, i8, c5, 0);
    assert(!is_digit(s[i8]));
    lemma_inv_u64(s, i7, h.total_memory);
    lemma_inv_lit(s, i8, c5);
    let i9 = i8 + c5.len();
    lemma_chunk_split(s, i9, e5, c6 + (e6 + (c7 + (e7 + c8))));
    let i10 = i9 + e5.len();
    lemma_chunk_split(s, i10, c6, e6 + (c7 + (e7 + c8)));
    lemma_chunk_index(s, i10, c6, 0);
    assert(!is_digit(s[i10]));
    lemma_inv_u64(s, i9, h.free_memory);
    lemma_inv_lit(s, i10, c6);
    let i11 = i10 + c6.len();
    lemma_chunk_split(s, i11, e6, c7 + (e7 + c8));
    let i12 = i11 + e6.len();
    lemma_chunk_split(s, i12, c7, e7 + c8);
    lemma_chunk_index(s, i12, c7, 0);
    assert(!is_digit(s[i12]));
    lemma_inv_u64(s, i11, h.used_memory);
    lemma_inv_lit(s, i12, c7);
    let i13 = i12 + c7.len();
    lemma_chunk_split(s, i13, e7, c8);
    lemma_inv_str_list(s, i13, h.ip_addresses);
    lemma_inv_lit(s, i13 + e7.len(), c8);
    assert((crate::model::HostInfoV {
        hostname: h.hostname,
        cpu_model: h.cpu_model,
        cpu_usage_centi: h.cpu_usage_centi,
        total_memory: h.total_memory,
        free_memory: h.free_memory,
        used_memory: h.used_memory,
        ip_addresses: h.ip_addresses,
    }) == h);
}



/// Concatenation re-associated, five parts.
#[verifier::spinoff_prover]
pub proof fn lemma_assoc5(s1: Seq<char>, s2: Seq<char>, s3: Seq<char>, s4: Seq<char>, s5: Seq<char>)
    ensures
        s1 + s2 + s3 + s4 + s5 == s1 + (s2 + (s3 + (s4 + s5))),
{
    assert(s1 + s2 + s3 + s4 + s5 =~= s1 + (s2 + (s3 + (s4 + s5))));
}

/// Concatenation re-associated, seven parts.
#[verifier::spinoff_prover]
pub proof fn lemma_assoc7(
    s1: Seq<char>,
    s2: Seq<char>,
    s3: Seq<char>,
    s4: Seq<char>,
    s5: Seq<char>,
    s6: Seq<char>,
    s7: Seq<char>,
)
    ensures
        s1 + s2 + s3 + s4 + s5 + s6 + s7 == s1 + (s2 + (s3 + (s4 + (s5 + (s6 + s7))))),
{
    assert(s1 + s2 + s3 + s4 + s5 + s6 + s7 =~= s1 + (s2 + (s3 + (s4 + (s5 + (s6 + s7))))));
}

/// Concatenation re-associated, nine parts.
#[verifier::spinoff_prover]
#[verifier::rlimit(100)]
pub proof fn lemma_assoc9(
    s1: Seq<char>,
    s2: Seq<char>,
    s3: Seq<char>,
    s4: Seq<char>,
    s5: Seq<char>,
    s6: Seq<char>,
    s7: Seq<char>,
    s8: Seq<char>,
    s9: Seq<char>,
)
    ensures
        s1 + s2 + s3 + s4 + s5 + s6 + s7 + s8 + s9 == s1 + (s2 + (s3 + (s4 + (s5 + (s6 + (s7 + (s8
            + s9))))))),
{
    assert(s1 + s2 + s3 + s4 + s5 + s6 + s7 + s8 + s9 =~= s1 + (s2 + (s3 + (s4 + (s5 + (s6 + (s7 + (
    s8 + s9))))))));
}

/// Concatenation re-associated, eleven parts.
#[verifier::spinoff_prover]
#[verifier::rlimit(100)]
pub proof fn lemma_assoc11(
    s1: Seq<char>,
    s2: Seq<char>,
    s3: Seq<char>,
    s4: Seq<char>,
    s5: Seq<char>,
    s6: Seq<char>,
    s7: Seq<char>,
    s8: Seq<char>,
    s9: Seq<char>,
    s10: Seq<char>,
    s11: Seq<char>,
)
    ensures
        s1 + s2 + s3 + s4 + s5 + s6 + s7 + s8 + s9 + s10 + s11 == s1 + (s2 + (s3 + (s4 + (s5 + (s6
            + (s7 + (s8 + (s9 + (s10 + s11))))))))),
{
    assert(s1 + s2 + s3 + s4 + s5 + s6 + s7 + s8 + s9 + s10 + s11 =~= s1 + (s2 + (s3 + (s4 + (s5 + (
    s6 + (s7 + (s8 + (s9 + (s10 + s11))))))))));
}

/// Concatenation re-associated, fifteen parts.
#[verifier::spinoff_prover]
#[verifier::rlimit(100)]
pub proof fn lemma_assoc15(
    s1: Seq<char>,
    s2: Seq<char>,
    s3: Seq<char>,
    s4: Seq<char>,
    s5: Seq<char>,
    s6: Seq<char>,
    s7: Seq<char>,
    s8: Seq<char>,
    s9: Seq<char>,
    s10: Seq<char>,
    s11: Seq<char>,
    s12: Seq<char>,
    s13: Seq<char>,
    s14: Seq<char>,
    s15: Seq<char>,
)
    ensures
        s1 + s2 + s3 + s4 + s5 + s6 + s7 + s8 + s9 + s10 + s11 + s12 + s13 + s14 + s15 == s1 + (s2
            + (s3 + (s4 + (s5 + (s6 + (s7 + (s8 + (s9 + (s10 + (s11 + (s12 + (s13 + (s14
            + s15))))))))))))),
{
    assert(s1 + s2 + s3 + s4 + s5 + s6 + s7 + s8 + s9 + s10 + s11 + s12 + s13 + s14 + s15 =~= s1 + (
    s2 + (s3 + (s4 + (s5 + (s6 + (s7 + (s8 + (s9 + (s10 + (s11 + (s12 + (s13 + (s14
        + s15))))))))))))));
}


/// The four other frame discriminators cannot match a line whose
/// distinguishing characters are those of the result frame.
#[verifier::spinoff_prover]
#[verifier::rlimit(100)]
proof fn lemma_dispatch_auth_result(s: Seq<char>)
    requires
        s.len() > 22,
        s[14] == 'a',
        s[19] == 'r',
        s[22] == 'u',
    ensures
        p_lit(s, 0, "{\"data_type\":\"client_info\",\"client_id\":"@) is None,
        p_lit(s, 0, "{\"data_type\":\"command_response\",\"command_id\":"@) is None,
        p_lit(s, 0, "{\"data_type\":\"auth_challenge\",\"nonce\":"@) is None,
        p_lit(s, 0, "{\"data_type\":\"auth_response\",\"client_id\":"@) is None,
{
    reveal_strlit("{\"data_type\":\"client_info\",\"client_id\":");
    reveal_strlit("{\"data_type\":\"command_response\",\"command_id\":");
    reveal_strlit("{\"data_type\":\"auth_challenge\",\"nonce\":");
    reveal_strlit("{\"data_type\":\"auth_response\",\"client_id\":");
    lemma_lit_differs(s, 0, "{\"data_type\":\"client_info\",\"client_id\":"@, 14);
    lemma_lit_differs(s, 0, "{\"data_type\":\"command_response\",\"command_id\":"@, 14);
    lemma_lit_differs(s, 0, "{\"data_type\":\"auth_challenge\",\"nonce\":"@, 19);
    lemma_lit_differs(s, 0, "{\"data_type\":\"auth_response\",\"client_id\":"@, 22);
}

/// The other two handshake discriminators cannot match a line whose
/// distinguishing characters are those of the result message.
#[verifier::spinoff_prover]
#[verifier::rlimit(100)]
proof fn lemma_dispatch_auth_message_result(s: Seq<char>)
    requires
        s.len() > 17,
        s[14] == 'r',
        s[17] == 'u',
    ensures
        p_lit(s, 0, "{\"auth_type\":\"challenge\",\"nonce\":"@) is None,
        p_lit(s, 0, "{\"auth_type\":\"response\",\"client_id\":"@) is None,
{
    reveal_strlit("{\"auth_type\":\"challenge\",\"nonce\":");
    reveal_strlit("{\"auth_type\":\"response\",\"client_id\":");
    lemma_lit_differs(s, 0, "{\"auth_type\":\"challenge\",\"nonce\":"@, 14);
    lemma_lit_differs(s, 0, "{\"auth_type\":\"response\",\"client_id\":"@, 17);
}

/// The well-formedness a frame needs for its stamps to survive the wire.
pub open spec fn frame_wf(f: FrameV) -> bool {
    match f {
        FrameV::ClientInfo { last_seen, .. } => last_seen.wf(),
        FrameV::CommandResponse { executed_at, .. } => executed_at.wf(),
        _ => true,
    }
}

/// The challenge body round trip.
proof fn lemma_inv_challenge_body(s: Seq<char>, i: int, nonce: Seq<char>, timestamp: u64)
    requires
        chunk_at(
            s,
            i,
            enc_json_string(nonce) + (",\"timestamp\":"@ + (crate::strutil::dec_u64(
                timestamp as int,
            ) + "}"@)),
        ),
    ensures
        sp_challenge_body(s, i) == Some(
            (
                nonce,
                timestamp,
                i + enc_json_string(nonce).len() + ",\"timestamp\":"@.len()
                    + crate::strutil::dec_u64(timestamp as int).len() + 1,
            ),
        ),
{
    reveal_strlit(",\"timestamp\":");
    reveal_strlit("}");
    let e1 = enc_json_string(nonce);
    let c2 = ",\"timestamp\":"@;
    let d = crate::strutil::dec_u64(timestamp as int);
    let c3 = "}"@;
    lemma_chunk_split(s, i, e1, c2 + (d + c3));
    lemma_inv_string(s, i, nonce);
    let i1 = i + e1.len();
    lemma_chunk_split(s, i1, c2, d + c3);
    lemma_inv_lit(s, i1, c2);
    let i2 = i1 + c2.len();
    lemma_chunk_split(s, i2, d, c3);
    let i3 = i2 + d.len();
    lemma_chunk_index(s, i3, c3, 0);
    assert(!is_digit(s[i3]));
    lemma_inv_u64(s, i2, timestamp);
    lemma_inv_lit(s, i3, c3);
}

/// The response body round trip.
#[verifier::rlimit(100)]
#[verifier::spinoff_prover]
proof fn lemma_inv_response_body(
    s: Seq<char>,
    i: int,
    client_id: Seq<char>,
    nonce: Seq<char>,
    response_hash: Seq<char>,
    timestamp: u64,
)
    requires
        chunk_at(
            s,
            i,
            enc_json_string(client_id) + (",\"nonce\":"@ + (enc_json_string(nonce) + (
            ",\"response_hash\":"@ + (enc_json_string(response_hash) + (",\"timestamp\":"@ + (
            crate::strutil::dec_u64(timestamp as int) + "}"@)))))),
        ),
    ensures
        sp_response_body(s, i) == Some(
            (
                client_id,
                nonce,
                response_hash,
                timestamp,
                i + enc_json_string(client_id).len() + ",\"nonce\":"@.len() + enc_json_string(
                    nonce,
                ).len() + ",\"response_hash\":"@.len() + enc_json_string(response_hash).len()
                    + ",\"timestamp\":"@.len() + crate::strutil::dec_u64(timestamp as int).len()
                    + 1,
            ),
        ),
{
    reveal_strlit(",\"nonce\":");
    reveal_strlit(",\"response_hash\":");
    reveal_strlit(",\"timestamp\":");
    reveal_strlit("}");
    let e1 = enc_json_string(client_id);
    let c2 = ",\"nonce\":"@;
    let e2 = enc_json_string(nonce);
    let c3 = ",\"response_hash\":"@;
    let e3 = enc_json_string(response_hash);
    let c4 = ",\"timestamp\":"@;
    let d = crate::strutil::dec_u64(timestamp as int);
    let c5 = "}"@;
    lemma_chunk_split(s, i, e1, c2 + (e2 + (c3 + (e3 + (c4 + (d + c5))))));
    lemma_inv_string(s, i, client_id);
    let i1 = i + e1.len();
    lemma_chunk_split(s, i1, c2, e2 + (c3 + (e3 + (c4 + (d + c5)))));
    lemma_inv_lit(s, i1, c2);
    let i2 = i1 + c2.len();
    lemma_chunk_split(s, i2, e2, c3 + (e3 + (c4 + (d + c5))));
    lemma_inv_string(s, i2, nonce);
    let i3 = i2 + e2.len();
    lemma_chunk_split(s, i3, c3, e3 + (c4 + (d + c5)));
    lemma_inv_lit(s, i3, c3);
    let i4 = i3 + c3.len();
    lemma_chunk_split(s, i4, e3, c4 + (d + c5));
    lemma_inv_string(s, i4, response_hash);
    let i5 = i4 + e3.len();
    lemma_chunk_split(s, i5, c4, d + c5);
    lemma_inv_lit(s, i5, c4);
    let i6 = i5 + c4.len();
    lemma_chunk_split(s, i6, d, c5);
    let i7 = i6 + d.len();
    lemma_chunk_index(s, i7, c5, 0);
    assert(!is_digit(s[i7]));
    lemma_inv_u64(s, i6, timestamp);
    lemma_inv_lit(s, i7, c5);
}

/// The result body round trip.
proof fn lemma_inv_result_body(s: Seq<char>, i: int, success: bool, message: Seq<char>)
    requires
        chunk_at(
            s,
            i,
            (if success {
                "true"@
            } else {
                "false"@
            }) + (",\"message\":"@ + (enc_json_string(message) + "}"@)),
        ),
    ensures
        sp_result_body(s, i) == Some(
            (
                success,
                message,
                i + (if success {
                    4int
                } else {
                    5int
                }) + ",\"message\":"@.len() + enc_json_string(message).len() + 1,
            ),
        ),
{
    reveal_strlit(",\"message\":");
    reveal_strlit("}");
    let b = if success {
        "true"@
    } else {
        "false"@
    };
    let c2 = ",\"message\":"@;
    let e = enc_json_string(message);
    let c3 = "}"@;
    lemma_chunk_split(s, i, b, c2 + (e + c3));
    lemma_inv_bool(s, i, success);
    let i1 = i + b.len();
    lemma_chunk_split(s, i1, c2, e + c3);
    lemma_inv_lit(s, i1, c2);
    let i2 = i1 + c2.len();
    lemma_chunk_split(s, i2, e, c3);
    lemma_inv_string(s, i2, message);
    lemma_inv_lit(s, i2 + e.len(), c3);
}


/// The client-info body round trip.
#[verifier::rlimit(100)]
#[verifier::spinoff_prover]
proof fn lemma_inv_client_info_body(
    s: Seq<char>,
    i: int,
    client_id: Seq<char>,
    system_info: crate::model::HostInfoV,
    version_info: Seq<crate::model::VersionInfoV>,
    app_info: Seq<crate::model::AppInfoV>,
    last_seen: crate::model::Timestamp,
)
    requires
        last_seen.wf(),
        chunk_at(
            s,
            i,
            enc_json_string(client_id) + (",\"system_info\":"@ + (enc_host(system_info) + (
            ",\"version_info\":"@ + (enc_version_list(version_info) + (",\"app_info\":"@ + (
            enc_app_list(app_info) + (",\"last_seen\":"@ + (enc_ts(last_seen) + "}"@)))))))),
        ),
    ensures
        sp_client_info(s, i) == Some(
            (
                FrameV::ClientInfo { client_id, system_info, version_info, app_info, last_seen },
                i + (enc_json_string(client_id) + ",\"system_info\":"@ + enc_host(system_info)
                    + ",\"version_info\":"@ + enc_version_list(version_info) + ",\"app_info\":"@
                    + enc_app_list(app_info) + ",\"last_seen\":"@ + enc_ts(last_seen)
                    + "}"@).len(),
            ),
        ),
{
    let e1 = enc_json_string(client_id);
    let c2 = ",\"system_info\":"@;
    let e2 = enc_host(system_info);
    let c3 = ",\"version_info\":"@;
    let e3 = enc_version_list(version_info);
    let c4 = ",\"app_info\":"@;
    let e4 = enc_app_list(app_info);
    let c5 = ",\"last_seen\":"@;
    let e5 = enc_ts(last_seen);
    let c6 = "}"@;
    lemma_chunk_split(s, i, e1, c2 + (e2 + (c3 + (e3 + (c4 + (e4 + (c5 + (e5 + c6))))))));
    lemma_inv_string(s, i, client_id);
    let i2 = i + e1.len();
    lemma_chunk_split(s, i2, c2, e2 + (c3 + (e3 + (c4 + (e4 + (c5 + (e5 + c6)))))));
    lemma_inv_lit(s, i2, c2);
    let i3 = i2 + c2.len();
    lemma_chunk_split(s, i3, e2, c3 + (e3 + (c4 + (e4 + (c5 + (e5 + c6))))));
    lemma_inv_host(s, i3, system_info);
    let i4 = i3 + e2.len();
    lemma_chunk_split(s, i4, c3, e3 + (c4 + (e4 + (c5 + (e5 + c6)))));
    lemma_inv_lit(s, i4, c3);
    let i5 = i4 + c3.len();
    lemma_chunk_split(s, i5, e3, c4 + (e4 + (c5 + (e5 + c6))));
    lemma_inv_version_list(s, i5, version_info);
    let i6 = i5 + e3.len();
    lemma_chunk_split(s, i6, c4, e4 + (c5 + (e5 + c6)));
    lemma_inv_lit(s, i6, c4);
    let i7 = i6 + c4.len();
    lemma_chunk_split(s, i7, e4, c5 + (e5 + c6));
    lemma_inv_app_list(s, i7, app_info);
    let i8 = i7 + e4.len();
    lemma_chunk_split(s, i8, c5, e5 + c6);
    lemma_inv_lit(s, i8, c5);
    let i9 = i8 + c5.len();
    lemma_chunk_split(s, i9, e5, c6);
    lemma_inv_ts(s, i9, last_seen);
    let i10 = i9 + e5.len();
    lemma_inv_lit(s, i10, c6);
}

/// The command-response body round trip.
#[verifier::rlimit(100)]
#[verifier::spinoff_prover]
proof fn lemma_inv_command_response_body(
    s: Seq<char>,
    i: int,
    command_id: Seq<char>,
    client_id: Seq<char>,
    command: Seq<char>,
    output: Seq<char>,
    error_output: Seq<char>,
    exit_code: i32,
    executed_at: crate::model::Timestamp,
)
    requires
        executed_at.wf(),
        chunk_at(
            s,
            i,
            enc_json_string(command_id) + (",\"client_id\":"@ + (enc_json_string(client_id) + (
            ",\"command\":"@ + (enc_json_string(command) + (",\"output\":"@ + (enc_json_string(
                output,
            ) + (",\"error_output\":"@ + (enc_json_string(error_output) + (",\"exit_code\":"@
                + (crate::strutil::dec_i64(exit_code as int) + (",\"executed_at\":"@ + (enc_ts(
                executed_at,
            ) + "}"@)))))))))))),
        ),
    ensures
        sp_command_response(s, i) == Some(
            (
                FrameV::CommandResponse {
                    command_id,
                    client_id,
                    command,
                    output,
                    error_output,
                    exit_code,
                    executed_at,
                },
                i + (enc_json_string(command_id) + ",\"client_id\":"@ + enc_json_string(
                    client_id,
                ) + ",\"command\":"@ + enc_json_string(command) + ",\"output\":"@
                    + enc_json_string(output) + ",\"error_output\":"@ + enc_json_string(
                    error_output,
                ) + ",\"exit_code\":"@ + crate::strutil::dec_i64(exit_code as int)
                    + ",\"executed_at\":"@ + enc_ts(executed_at) + "}"@).len(),
            ),
        ),
{
    let e1 = enc_json_string(command_id);
    let c2 = ",\"client_id\":"@;
    let e2 = enc_json_string(client_id);
    let c3 = ",\"command\":"@;
    let e3 = enc_json_string(command);
    let c4 = ",\"output\":"@;
    let e4 = enc_json_string(output);
    let c5 = ",\"error_output\":"@;
    let e5 = enc_json_string(error_output);
    let c6 = ",\"exit_code\":"@;
    let d = crate::strutil::dec_i64(exit_code as int);
    let c7 = ",\"executed_at\":"@;
    let e7 = enc_ts(executed_at);
    let c8 = "}"@;
    reveal_strlit(",\"executed_at\":");
    lemma_chunk_split(s, i, e1, c2 + (e2 + (c3 + (e3 + (c4 + (e4 + (c5 + (e5 + (c6 + (d + (c7 + (e7
        + c8))))))))))));
    lemma_inv_string(s, i, command_id);
    let i2 = i + e1.len();
    lemma_chunk_split(s, i2, c2, e2 + (c3 + (e3 + (c4 + (e4 + (c5 + (e5 + (c6 + (d + (c7 + (e7
        + c8)))))))))));
    lemma_inv_lit(s, i2, c2);
    let i3 = i2 + c2.len();
    lemma_chunk_split(s, i3, e2, c3 + (e3 + (c4 + (e4 + (c5 + (e5 + (c6 + (d + (c7 + (e7
        + c8))))))))));
    lemma_inv_string(s, i3, client_id);
    let i4 = i3 + e2.len();
    lemma_chunk_split(s, i4, c3, e3 + (c4 + (e4 + (c5 + (e5 + (c6 + (d + (c7 + (e7 + c8)))))))));
    lemma_inv_lit(s, i4, c3);
    let i5 = i4 + c3.len();
    lemma_chunk_split(s, i5, e3, c4 + (e4 + (c5 + (e5 + (c6 + (d + (c7 + (e7 + c8))))))));
    lemma_inv_string(s, i5, command);
    let i6 = i5 + e3.len();
    lemma_chunk_split(s, i6, c4, e4 + (c5 + (e5 + (c6 + (d + (c7 + (e7 + c8)))))));
    lemma_inv_lit(s, i6, c4);
    let i7 = i6 + c4.len();
    lemma_chunk_split(s, i7, e4, c5 + (e5 + (c6 + (d + (c7 + (e7 + c8))))));
    lemma_inv_string(s, i7, output);
    let i8 = i7 + e4.len();
    lemma_chunk_split(s, i8, c5, e5 + (c6 + (d + (c7 + (e7 + c8)))));
    lemma_inv_lit(s, i8, c5);
    let i9 = i8 + c5.len();
    lemma_chunk_split(s, i9, e5, c6 + (d + (c7 + (e7 + c8))));
    lemma_inv_string(s, i9, error_output);
    let i10 = i9 + e5.len();
    lemma_chunk_split(s, i10, c6, d + (c7 + (e7 + c8)));
    lemma_inv_lit(s, i10, c6);
    let i11 = i10 + c6.len();
    lemma_chunk_split(s, i11, d, c7 + (e7 + c8));
    let i12 = i11 + d.len();
    lemma_chunk_split(s, i12, c7, e7 + c8);
    lemma_chunk_index(s, i12, c7, 0);
    assert(!is_digit(s[i12]));
    lemma_inv_i32(s, i11, exit_code);
    lemma_inv_lit(s, i12, c7);
    let i13 = i12 + c7.len();
    lemma_chunk_split(s, i13, e7, c8);
    lemma_inv_ts(s, i13, executed_at);
    let i14 = i13 + e7.len();
    lemma_inv_lit(s, i14, c8);
}

#[verifier::rlimit(100)]
#[verifier::spinoff_prover]
proof fn lemma_rt_client_info(f: FrameV)
    requires
        f is ClientInfo,
        frame_wf(f),
    ensures
        sp_frame(enc_frame(f)) == Some(f),
{
    let s = enc_frame(f);
    assert(chunk_at(s, 0, s)) by {
        assert(s.subrange(0, s.len() as int) =~= s);
    }
    let ci = "{\"data_type\":\"client_info\",\"client_id\":"@;
    let cr = "{\"data_type\":\"command_response\",\"command_id\":"@;
    let ac = "{\"data_type\":\"auth_challenge\",\"nonce\":"@;
    let ar = "{\"data_type\":\"auth_response\",\"client_id\":"@;
    let au = "{\"data_type\":\"auth_result\",\"success\":"@;
    match f {
        FrameV::ClientInfo { client_id, system_info, version_info, app_info, last_seen } => {
            let body = enc_json_string(client_id) + (",\"system_info\":"@ + (enc_host(system_info)
                + (",\"version_info\":"@ + (enc_version_list(version_info) + (",\"app_info\":"@
                + (enc_app_list(app_info) + (",\"last_seen\":"@ + (enc_ts(last_seen)
                + "}"@))))))));
            lemma_assoc11(
                ci,
                enc_json_string(client_id),
                ",\"system_info\":"@,
                enc_host(system_info),
                ",\"version_info\":"@,
                enc_version_list(version_info),
                ",\"app_info\":"@,
                enc_app_list(app_info),
                ",\"last_seen\":"@,
                enc_ts(last_seen),
                "}"@,
            );
            assert(s == ci + body);
            lemma_chunk_split(s, 0, ci, body);
            lemma_inv_lit(s, 0, ci);
            lemma_inv_client_info_body(
                s,
                ci.len() as int,
                client_id,
                system_info,
                version_info,
                app_info,
                last_seen,
            );
        },
        _ => {},
    }
}

#[verifier::rlimit(100)]
#[verifier::spinoff_prover]
proof fn lemma_rt_command_response(f: FrameV)
    requires
        f is CommandResponse,
        frame_wf(f),
    ensures
        sp_frame(enc_frame(f)) == Some(f),
{
    let s = enc_frame(f);
    assert(chunk_at(s, 0, s)) by {
        assert(s.subrange(0, s.len() as int) =~= s);
    }
    let ci = "{\"data_type\":\"client_info\",\"client_id\":"@;
    let cr = "{\"data_type\":\"command_response\",\"command_id\":"@;
    let ac = "{\"data_type\":\"auth_challenge\",\"nonce\":"@;
    let ar = "{\"data_type\":\"auth_response\",\"client_id\":"@;
    let au = "{\"data_type\":\"auth_result\",\"success\":"@;
    reveal_strlit("{\"data_type\":\"client_info\",\"client_id\":");
    reveal_strlit("{\"data_type\":\"command_response\",\"command_id\":");
    match f {
        FrameV::CommandResponse {
            command_id,
            client_id,
            command,
            output,
            error_output,
            exit_code,
            executed_at,
        } => {
            let body = enc_json_string(command_id) + (",\"client_id\":"@ + (enc_json_string(
                client_id,
            ) + (",\"command\":"@ + (enc_json_string(command) + (",\"output\":"@ + (
            enc_json_string(output) + (",\"error_output\":"@ + (enc_json_string(error_output) + (
            ",\"exit_code\":"@ + (crate::strutil::dec_i64(exit_code as int) + (
            ",\"executed_at\":"@ + (enc_ts(executed_at) + "}"@))))))))))));
            lemma_assoc15(
                cr,
                enc_json_string(command_id),
                ",\"client_id\":"@,
                enc_json_string(client_id),
                ",\"command\":"@,
                enc_json_string(command),
                ",\"output\":"@,
                enc_json_string(output),
                ",\"error_output\":"@,
                enc_json_string(error_output),
                ",\"exit_code\":"@,
                crate::strutil::dec_i64(exit_code as int),
                ",\"executed_at\":"@,
                enc_ts(executed_at),
                "}"@,
            );
            assert(s == cr + body);
            lemma_chunk_split(s, 0, cr, body);
            lemma_chunk_index(s, 0, cr, 15);
            lemma_lit_differs(s, 0, ci, 15);
            lemma_inv_lit(s, 0, cr);
            lemma_inv_command_response_body(
                s,
                cr.len() as int,
                command_id,
                client_id,
                command,
                output,
                error_output,
                exit_code,
                executed_at,
            );
        },
        _ => {},
    }
}

#[verifier::rlimit(100)]
#[verifier::spinoff_prover]
proof fn lemma_rt_auth_challenge(f: FrameV)
    requires
        f is AuthChallenge,
        frame_wf(f),
    ensures
        sp_frame(enc_frame(f)) == Some(f),
{
    let s = enc_frame(f);
    assert(chunk_at(s, 0, s)) by {
        assert(s.subrange(0, s.len() as int) =~= s);
    }
    let ci = "{\"data_type\":\"client_info\",\"client_id\":"@;
    let cr = "{\"data_type\":\"command_response\",\"command_id\":"@;
    let ac = "{\"data_type\":\"auth_challenge\",\"nonce\":"@;
    let ar = "{\"data_type\":\"auth_response\",\"client_id\":"@;
    let au = "{\"data_type\":\"auth_result\",\"success\":"@;
    reveal_strlit("{\"data_type\":\"client_info\",\"client_id\":");
    reveal_strlit("{\"data_type\":\"command_response\",\"command_id\":");
    reveal_strlit("{\"data_type\":\"auth_challenge\",\"nonce\":");
    match f {
        FrameV::AuthChallenge { nonce, timestamp } => {
            let body = enc_json_string(nonce) + (",\"timestamp\":"@ + (crate::strutil::dec_u64(
                timestamp as int,
            ) + "}"@));
            reveal_strlit(",\"timestamp\":");
            reveal_strlit("}");
            lemma_assoc5(
                ac,
                enc_json_string(nonce),
                ",\"timestamp\":"@,
                crate::strutil::dec_u64(timestamp as int),
                "}"@,
            );
            assert(s == ac + body);
            lemma_chunk_split(s, 0, ac, body);
            lemma_chunk_index(s, 0, ac, 14);
            lemma_lit_differs(s, 0, ci, 14);
            lemma_lit_differs(s, 0, cr, 14);
            lemma_inv_lit(s, 0, ac);
            lemma_inv_challenge_body(s, ac.len() as int, nonce, timestamp);
        },
        _ => {},
    }
}

#[verifier::rlimit(100)]
#[verifier::spinoff_prover]
proof fn lemma_rt_auth_response(f: FrameV)
    requires
        f is AuthResponse,
        frame_wf(f),
    ensures
        sp_frame(enc_frame(f)) == Some(f),
{
    let s = enc_frame(f);
    assert(chunk_at(s, 0, s)) by {
        assert(s.subrange(0, s.len() as int) =~= s);
    }
    let ci = "{\"data_type\":\"client_info\",\"client_id\":"@;
    let cr = "{\"data_type\":\"command_response\",\"command_id\":"@;
    let ac = "{\"data_type\":\"auth_challenge\",\"nonce\":"@;
    let ar = "{\"data_type\":\"auth_response\",\"client_id\":"@;
    let au = "{\"data_type\":\"auth_result\",\"success\":"@;
    reveal_strlit("{\"data_type\":\"client_info\",\"client_id\":");
    reveal_strlit("{\"data_type\":\"command_response\",\"command_id\":");
    reveal_strlit("{\"data_type\":\"auth_challenge\",\"nonce\":");
    reveal_strlit("{\"data_type\":\"auth_response\",\"client_id\":");
    match f {
        FrameV::AuthResponse { client_id, nonce, response_hash, timestamp } => {
            let body = enc_json_string(client_id) + (",\"nonce\":"@ + (enc_json_string(nonce) + (
            ",\"response_hash\":"@ + (enc_json_string(response_hash) + (",\"timestamp\":"@ + (
            crate::strutil::dec_u64(timestamp as int) + "}"@))))));
            reveal_strlit(",\"nonce\":");
            reveal_strlit(",\"response_hash\":");
            reveal_strlit(",\"timestamp\":");
            reveal_strlit("}");
            lemma_assoc9(
                ar,
                enc_json_string(client_id),
                ",\"nonce\":"@,
                enc_json_string(nonce),
                ",\"response_hash\":"@,
                enc_json_string(response_hash),
                ",\"timestamp\":"@,
                crate::strutil::dec_u64(timestamp as int),
                "}"@,
            );
            assert(s == ar + body);
            lemma_chunk_split(s, 0, ar, body);
            lemma_chunk_index(s, 0, ar, 14);
            lemma_chunk_index(s, 0, ar, 19);
            lemma_lit_differs(s, 0, ci, 14);
            lemma_lit_differs(s, 0, cr, 14);
            lemma_lit_differs(s, 0, ac, 19);
            lemma_inv_lit(s, 0, ar);
            lemma_inv_response_body(s, ar.len() as int, client_id, nonce, response_hash, timestamp);
        },
        _ => {},
    }
}

#[verifier::rlimit(100)]
#[verifier::spinoff_prover]
proof fn lemma_rt_auth_result(f: FrameV)
    requires
        f is AuthResult,
        frame_wf(f),
    ensures
        sp_frame(enc_frame(f)) == Some(f),
{
    let s = enc_frame(f);
    assert(chunk_at(s, 0, s)) by {
        assert(s.subrange(0, s.len() as int) =~= s);
    }
    let au = "{\"data_type\":\"auth_result\",\"success\":"@;
    reveal_strlit("{\"data_type\":\"auth_result\",\"success\":");
    match f {
        FrameV::AuthResult { success, message } => {
            let body = (if success {
                "true"@
            } else {
                "false"@
            }) + (",\"message\":"@ + (enc_json_string(message) + "}"@));
            reveal_strlit(",\"message\":");
            reveal_strlit("}");
            reveal_strlit("true");
            reveal_strlit("false");
            lemma_assoc5(
                au,
                if success {
                    "true"@
                } else {
                    "false"@
                },
                ",\"message\":"@,
                enc_json_string(message),
                "}"@,
            );
            assert(s == au + body);
            lemma_chunk_split(s, 0, au, body);
            lemma_chunk_index(s, 0, au, 14);
            lemma_chunk_index(s, 0, au, 19);
            lemma_chunk_index(s, 0, au, 22);
            lemma_dispatch_auth_result(s);
            lemma_inv_lit(s, 0, au);
            lemma_inv_result_body(s, au.len() as int, success, message);
            assert(body.len() == (if success {
                4int
            } else {
                5int
            }) + ",\"message\":"@.len() + enc_json_string(message).len() + 1);
            assert(s.len() == au.len() + body.len());
            assert(sp_result_body(s, au.len() as int) == Some(
                (success, message, s.len() as int),
            ));
            assert(sp_frame(s) is Some);
        },
        _ => {},
    }
}

/// Encoding any frame and parsing the line back yields the same frame: the
/// round trip is the identity on frames with well-formed stamps.
pub proof fn lemma_frame_round_trip(f: FrameV)
    requires
        frame_wf(f),
    ensures
        sp_frame(enc_frame(f)) == Some(f),
{
    match f {
        FrameV::ClientInfo { .. } => lemma_rt_client_info(f),
        FrameV::CommandResponse { .. } => lemma_rt_command_response(f),
        FrameV::AuthChallenge { .. } => lemma_rt_auth_challenge(f),
        FrameV::AuthResponse { .. } => lemma_rt_auth_response(f),
        FrameV::AuthResult { .. } => lemma_rt_auth_result(f),
    }
}

/// Encoding any authentication message and parsing the line back yields the
/// same message.
#[verifier::rlimit(100)]
#[verifier::spinoff_prover]
pub proof fn lemma_auth_message_round_trip(m: crate::tcp_auth::TcpAuthMessageV)
    ensures
        sp_auth_message(enc_auth_message(m)) == Some(m),
{
    let s = enc_auth_message(m);
    assert(chunk_at(s, 0, s)) by {
        assert(s.subrange(0, s.len() as int) =~= s);
    }
    let ch = "{\"auth_type\":\"challenge\",\"nonce\":"@;
    let re = "{\"auth_type\":\"response\",\"client_id\":"@;
    let rs = "{\"auth_type\":\"result\",\"success\":"@;
    match m {
        crate::tcp_auth::TcpAuthMessageV::Challenge { nonce, timestamp } => {
            let body = enc_json_string(nonce) + (",\"timestamp\":"@ + (crate::strutil::dec_u64(
                timestamp as int,
            ) + "}"@));
            reveal_strlit(",\"timestamp\":");
            reveal_strlit("}");
            lemma_assoc5(
                ch,
                enc_json_string(nonce),
                ",\"timestamp\":"@,
                crate::strutil::dec_u64(timestamp as int),
                "}"@,
            );
            assert(s == ch + body);
            lemma_chunk_split(s, 0, ch, body);
            lemma_inv_lit(s, 0, ch);
            lemma_inv_challenge_body(s, ch.len() as int, nonce, timestamp);
        },
        crate::tcp_auth::TcpAuthMessageV::Response { client_id, nonce, response_hash, timestamp } => {
            let body = enc_json_string(client_id) + (",\"nonce\":"@ + (enc_json_string(nonce) + (
            ",\"response_hash\":"@ + (enc_json_string(response_hash) + (",\"timestamp\":"@ + (
            crate::strutil::dec_u64(timestamp as int) + "}"@))))));
            reveal_strlit("{\"auth_type\":\"challenge\",\"nonce\":");
            reveal_strlit("{\"auth_type\":\"response\",\"client_id\":");
            reveal_strlit(",\"nonce\":");
            reveal_strlit(",\"response_hash\":");
            reveal_strlit(",\"timestamp\":");
            reveal_strlit("}");
            lemma_assoc9(
                re,
                enc_json_string(client_id),
                ",\"nonce\":"@,
                enc_json_string(nonce),
                ",\"response_hash\":"@,
                enc_json_string(response_hash),
                ",\"timestamp\":"@,
                crate::strutil::dec_u64(timestamp as int),
                "}"@,
            );
            assert(s == re + body);
            lemma_chunk_split(s, 0, re, body);
            lemma_chunk_index(s, 0, re, 14);
            lemma_lit_differs(s, 0, ch, 14);
            lemma_inv_lit(s, 0, re);
            lemma_inv_response_body(s, re.len() as int, client_id, nonce, response_hash, timestamp);
        },
        crate::tcp_auth::TcpAuthMessageV::AuthResult { success, message } => {
            let body = (if success {
                "true"@
            } else {
                "false"@
            }) + (",\"message\":"@ + (enc_json_string(message) + "}"@));
            reveal_strlit("{\"auth_type\":\"result\",\"success\":");
            reveal_strlit(",\"message\":");
            reveal_strlit("}");
            reveal_strlit("true");
            reveal_strlit("false");
            lemma_assoc5(
                rs,
                if success {
                    "true"@
                } else {
                    "false"@
                },
                ",\"message\":"@,
                enc_json_string(message),
                "}"@,
            );
            assert(s == rs + body);
            lemma_chunk_split(s, 0, rs, body);
            lemma_chunk_index(s, 0, rs, 14);
            lemma_chunk_index(s, 0, rs, 17);
            lemma_dispatch_auth_message_result(s);
            lemma_inv_lit(s, 0, rs);
            lemma_inv_result_body(s, rs.len() as int, success, message);
            assert(body.len() == (if success {
                4int
            } else {
                5int
            }) + ",\"message\":"@.len() + enc_json_string(message).len() + 1);
            assert(s.len() == rs.len() + body.len());
            assert(sp_result_body(s, rs.len() as int) == Some(
                (success, message, s.len() as int),
            ));
            assert(sp_auth_message(s) is Some);
        },
    }
}

} // verus!
