//! The guest bridge's wire protocol.
//!
//! Handshake: `CONNECT <port>\n`, answered by a reply starting with `OK`.
//! Command request: the argv joined by spaces, a space, and the port the
//! guest must connect back to, ended by a newline.  An empty payload is a
//! handshake probe.
use vstd::prelude::*;

use crate::text::{
    chars_of, chars_to_string, dec_str, dec_val, digit_val, is_digit, all_digits, join_chars,
    join_on, parse_u32, parse_u32_spec, split_chars, split_on, subrange_chars, u64_to_dec,
};

verus! {

/// Whitespace that ends-of-payload trimming removes.
pub open spec fn is_trim_ws(c: char) -> bool {
    c == ' ' || c == '\n' || c == '\t' || c == '\r'
}

/// `s` without its trailing whitespace.
pub open spec fn trim_end(s: Seq<char>) -> Seq<char>
    decreases s.len(),
{
    if s.len() > 0 && is_trim_ws(s.last()) {
        trim_end(s.drop_last())
    } else {
        s
    }
}

/// One request received on the guest's command port.
pub enum ParsedRequest {
    /// An empty payload: the host only probed the connection.
    Probe,
    /// A command to execute and the port to tunnel its stdio back to.
    Command(String, u32),
}

/// The command part of a non-empty payload: everything before the last
/// space-separated token.
pub open spec fn request_cmd(t: Seq<char>) -> Seq<char> {
    join_on(split_on(t, ' ').drop_last(), ' ')
}

/// The port part of a non-empty payload: the last space-separated token
/// as a 32-bit integer, `0` when it is no such number.
pub open spec fn request_port(t: Seq<char>) -> u32 {
    match parse_u32_spec(split_on(t, ' ').last()) {
        Some(p) => p,
        None => 0u32,
    }
}

/// Protocol parsing: split the payload on ASCII space, read the last
/// token as the exec port, and keep the rest as the command; a payload
/// that is empty after trimming is a handshake probe.
pub fn parse_request(payload: &str) -> (r: ParsedRequest)
    ensures
        trim_end(payload@).len() == 0 ==> r is Probe,
        trim_end(payload@).len() > 0 ==> (r matches ParsedRequest::Command(c, p) && c@
            == request_cmd(trim_end(payload@)) && p == request_port(trim_end(payload@))),
{
    let v = chars_of(payload);
    let t = trim_end_exec(&v);
    if t.len() == 0 {
        return ParsedRequest::Probe;
    }
    let parts = split_chars(&t, ' ');
    let last = subrange_chars(&parts[parts.len() - 1], 0, parts[parts.len() - 1].len());
    proof {
        assert(last@ =~= split_on(t@, ' ').last());
    }
    let port = match parse_u32(&last) {
        Some(p) => p,
        None => 0u32,
    };
    let n = parts.len();
    let head = subrange_blocks(&parts, n - 1);
    let cmd = join_chars(&head, ' ');
    proof {
        assert(head.deep_view() =~= split_on(t@, ' ').drop_last());
    }
    ParsedRequest::Command(chars_to_string(&cmd), port)
}

/// The first `n` parts, copied.
fn subrange_blocks(parts: &Vec<Vec<char>>, n: usize) -> (r: Vec<Vec<char>>)
    requires
        n <= parts@.len(),
    ensures
        r.deep_view() == parts.deep_view().subrange(0, n as int),
{
    let mut r: Vec<Vec<char>> = Vec::new();
    let mut i: usize = 0;
    while i < n
        invariant
            i <= n <= parts@.len(),
            r.deep_view() == parts.deep_view().subrange(0, i as int),
        decreases n - i,
    {
        let p = subrange_chars(&parts[i], 0, parts[i].len());
        proof {
            assert(p@ =~= parts.deep_view()[i as int]);
        }
        let ghost r0 = r.deep_view();
        r.push(p);
        proof {
            assert(r.deep_view() =~~= r0.push(parts.deep_view()[i as int]));
            assert(r.deep_view() =~~= parts.deep_view().subrange(0, i + 1 as int));
        }
        i += 1;
    }
    r
}

/// Whether trimming removes this character.
fn is_trim_ws_exec(c: char) -> (r: bool)
    ensures
        r == is_trim_ws(c),
{
    c == ' ' || c == '\n' || c == '\t' || c == '\r'
}

/// Remove trailing whitespace.
fn trim_end_exec(v: &Vec<char>) -> (r: Vec<char>)
    ensures
        r@ == trim_end(v@),
{
    let mut end: usize = v.len();
    proof {
        assert(v@.subrange(0, v@.len() as int) =~= v@);
    }
    while end > 0 && is_trim_ws_exec(v[end - 1])
        invariant
            end <= v@.len(),
            trim_end(v@) == trim_end(v@.subrange(0, end as int)),
        decreases end,
    {
        proof {
            let cur = v@.subrange(0, end as int);
            assert(cur.last() == v@[end - 1]);
            assert(cur.drop_last() =~= v@.subrange(0, end - 1 as int));
        }
        end -= 1;
    }
    let r = subrange_chars(v, 0, end);
    proof {
        let cur = v@.subrange(0, end as int);
        if end > 0 {
            assert(cur.last() == v@[end - 1]);
            assert(!is_trim_ws(cur.last()));
        }
        assert(trim_end(cur) == cur);
        assert(r@ == trim_end(v@));
    }
    r
}

/// The handshake line: `CONNECT <port>\n`.
pub fn connect_line(port: u32) -> (r: String)
    ensures
        r@ == "CONNECT "@ + dec_str(port as nat) + "\n"@,
{
    let digits = u64_to_dec(port as u64);
    let mut s = "CONNECT ".to_owned();
    s.append(chars_to_string(&digits).as_str());
    s.append("\n");
    s
}

/// Whether a handshake reply accepts: it starts with `OK`.
pub fn is_ok_reply(reply: &str) -> (r: bool)
    ensures
        r == crate::text::starts_with(reply@, "OK"@),
{
    let v = chars_of(reply);
    proof {
        reveal_strlit("OK");
    }
    if v.len() < 2 {
        return false;
    }
    let r = v[0] == 'O' && v[1] == 'K';
    proof {
        if r {
            assert(reply@.subrange(0, 2) =~= "OK"@);
        } else {
            if reply@[0] != 'O' {
                assert(reply@.subrange(0, 2)[0] != "OK"@[0]);
            } else {
                assert(reply@.subrange(0, 2)[1] != "OK"@[1]);
            }
            assert(reply@.subrange(0, 2) != "OK"@);
        }
    }
    r
}

/// The command request sent to the guest: the argv joined by spaces, one
/// space, the exec port, and a newline.
pub fn command_request_line(run: &Vec<String>, exec_port: u32) -> (r: String)
    ensures
        r@ == join_on(run.deep_view(), ' ') + " "@ + dec_str(exec_port as nat) + "\n"@,
{
    let mut parts: Vec<Vec<char>> = Vec::new();
    let mut i: usize = 0;
    while i < run.len()
        invariant
            i <= run@.len(),
            parts.deep_view() == run.deep_view().subrange(0, i as int),
        decreases run@.len() - i,
    {
        let p = chars_of(run[i].as_str());
        proof {
            assert(p@ =~= run.deep_view()[i as int]);
        }
        let ghost p0 = parts.deep_view();
        parts.push(p);
        proof {
            assert(parts.deep_view() =~~= p0.push(run.deep_view()[i as int]));
            assert(parts.deep_view() =~~= run.deep_view().subrange(0, i + 1 as int));
        }
        i += 1;
    }
    proof {
        assert(run.deep_view().subrange(0, run.deep_view().len() as int) =~= run.deep_view());
    }
    let joined = join_chars(&parts, ' ');
    let digits = u64_to_dec(exec_port as u64);
    let mut s = chars_to_string(&joined);
    s.append(" ");
    s.append(chars_to_string(&digits).as_str());
    s.append("\n");
    s
}

/// Joining the parts of a split restores the text.
pub proof fn lemma_join_split(s: Seq<char>, c: char)
    ensures
        join_on(split_on(s, c), c) == s,
    decreases s.len(),
{
    match crate::text::find_char(s, c) {
        None => {
            assert(join_on(split_on(s, c), c) =~= s);
        },
        Some(i) => {
            crate::text::lemma_find_char_some(s, c);
            let tail = s.subrange(i + 1, s.len() as int);
            lemma_join_split(tail, c);
            let parts = split_on(s, c);
            assert(parts == seq![s.subrange(0, i)].add(split_on(tail, c)));
            assert(parts.len() >= 2);
            assert(parts[0] == s.subrange(0, i));
            assert(parts.drop_first() =~= split_on(tail, c));
            assert(join_on(parts, c) == parts[0].push(c).add(join_on(parts.drop_first(), c)));
            assert(join_on(split_on(s, c), c) =~= s);
        },
    }
}

/// Rendering a value in decimal and parsing it back returns the value.
pub proof fn lemma_dec_round_trip(n: u32)
    ensures
        parse_u32_spec(dec_str(n as nat)) == Some(n),
{
    lemma_dec_str_digits(n as nat);
    lemma_dec_val_of_str(n as nat);
}

/// Decimal renderings are non-empty digit strings.
proof fn lemma_dec_str_digits(n: nat)
    ensures
        dec_str(n).len() > 0,
        all_digits(dec_str(n)),
    decreases n,
{
    if n < 10 {
        assert(is_digit(dec_str(n)[0]));
    } else {
        lemma_dec_str_digits(n / 10);
        assert(is_digit(dec_str(n).last()));
        assert(forall|i: int|
            0 <= i < dec_str(n).len() - 1 ==> dec_str(n)[i] == dec_str(n / 10)[i]);
        assert(all_digits(dec_str(n)));
    }
}

/// The value of a decimal rendering is the rendered value.
proof fn lemma_dec_val_of_str(n: nat)
    ensures
        dec_val(dec_str(n)) == n,
    decreases n,
{
    if n < 10 {
        let s = dec_str(n);
        assert(s.drop_last() =~= Seq::<char>::empty());
        lemma_digit_char_val(n);
        assert(dec_val(Seq::<char>::empty()) == 0);
        assert(dec_val(s) == dec_val(s.drop_last()) * 10 + digit_val(s.last()));
        assert(digit_val(s.last()) == n);
    } else {
        lemma_dec_val_of_str(n / 10);
        let s = dec_str(n);
        assert(s.drop_last() =~= dec_str(n / 10));
        lemma_digit_char_val(n % 10);
        assert(digit_val(s.last()) == n % 10);
        assert(dec_val(s) == dec_val(s.drop_last()) * 10 + digit_val(s.last()));
        assert((n / 10) * 10 + n % 10 == n) by (nonlinear_arith);
    }
}

/// A digit character carries its digit's value.
proof fn lemma_digit_char_val(n: nat)
    requires
        n < 10,
    ensures
        digit_val(crate::text::digit_char(n)) == n,
        is_digit(crate::text::digit_char(n)),
{
    let b = (48 + n) as u8;
    let c = b as char;
    assert(c as u32 == 48 + n);
}

/// Protocol round trip: a command request line built from an argv and a
/// port parses back to exactly that command and port.  The command must
/// be non-empty and not end in whitespace, as a joined argv of plain
/// tokens is.
pub proof fn lemma_request_round_trip(cmd: Seq<char>, port: u32)
    requires
        cmd.len() > 0,
        !is_trim_ws(cmd.last()),
        forall|i: int| 0 <= i < cmd.len() ==> !is_trim_ws_except_space(#[trigger] cmd[i]),
    ensures
        ({
            let payload = cmd + " "@ + dec_str(port as nat) + "\n"@;
            &&& trim_end(payload).len() > 0
            &&& request_cmd(trim_end(payload)) == cmd
            &&& request_port(trim_end(payload)) == port
        }),
{
    reveal_strlit(" ");
    reveal_strlit("\n");
    let digits = dec_str(port as nat);
    lemma_dec_str_digits(port as nat);
    lemma_dec_round_trip(port);
    let payload = cmd + " "@ + digits + "\n"@;
    let line = cmd + " "@ + digits;
    assert(payload.last() == '\n');
    assert(payload.drop_last() =~= line);
    assert(line.last() == digits.last());
    assert(is_digit(digits[digits.len() - 1]));
    assert(!is_trim_ws(line.last())) by {
        assert(' ' as u32 == 32 && '\n' as u32 == 10 && '\t' as u32 == 9 && '\r' as u32
            == 13);
        assert((line.last() as u32) >= 48);
    }
    assert(is_trim_ws('\n'));
    assert(trim_end(payload) == trim_end(line));
    assert(trim_end(line) == line);
    lemma_split_line(cmd, digits);
    let parts = split_on(line, ' ');
    assert(parts.last() == digits);
    assert(parts.drop_last() =~= split_on(cmd, ' '));
    lemma_join_split(cmd, ' ');
}

/// Whitespace other than the space the protocol splits on.
pub open spec fn is_trim_ws_except_space(c: char) -> bool {
    c == '\n' || c == '\t' || c == '\r'
}

/// Splitting `cmd + " " + digits` on space gives the splits of `cmd`
/// followed by `digits`.
proof fn lemma_split_line(cmd: Seq<char>, digits: Seq<char>)
    requires
        digits.len() > 0,
        all_digits(digits),
    ensures
        split_on(cmd + " "@ + digits, ' ') == split_on(cmd, ' ').push(digits),
    decreases cmd.len(),
{
    reveal_strlit(" ");
    let line = cmd + " "@ + digits;
    assert(line[cmd.len() as int] == ' ');
    assert(exists|j: int| 0 <= j < line.len() && line[j] == ' ') by {
        assert(line[cmd.len() as int] == ' ');
    }
    crate::text::lemma_find_char_some(line, ' ');
    assert(forall|i: int| 0 <= i < digits.len() ==> is_digit(#[trigger] digits[i]));
    assert(forall|i: int| 0 <= i < digits.len() ==> (' ' as u32 == 32 && #[trigger] digits[i]
        != ' '));
    match crate::text::find_char(cmd, ' ') {
        None => {
            // the first space of the line is the separator
            let i = crate::text::find_char(line, ' ').unwrap();
            assert(forall|j: int| 0 <= j < cmd.len() ==> line[j] == cmd[j]);
            assert(line[cmd.len() as int] == ' ');
            assert(i == cmd.len());
            assert(line.subrange(0, i) =~= cmd);
            let tail = line.subrange(i + 1, line.len() as int);
            assert(tail =~= digits);
            lemma_split_all_digits(digits);
            assert(split_on(line, ' ') =~= split_on(cmd, ' ').push(digits));
        },
        Some(k) => {
            // the first space lies inside cmd; recurse on its tail
            crate::text::lemma_find_char_some(cmd, ' ');
            let i = crate::text::find_char(line, ' ').unwrap();
            assert(line[k] == cmd[k]);
            assert(line[k] == ' ');
            assert(forall|j: int| 0 <= j < k ==> line[j] == cmd[j] && line[j] != ' ');
            assert(i == k) by {
                if i < k {
                    assert(line[i] == ' ');
                } else if k < i {
                    assert(line[k] == ' ');
                }
            }
            let ctail = cmd.subrange(k + 1, cmd.len() as int);
            let ltail = line.subrange(i + 1, line.len() as int);
            assert(ltail =~= ctail + " "@ + digits);
            lemma_split_line(ctail, digits);
            assert(line.subrange(0, i) =~= cmd.subrange(0, k));
            assert(split_on(line, ' ') =~= split_on(cmd, ' ').push(digits));
        },
    }
}

/// A digit string splits into itself alone.
proof fn lemma_split_all_digits(digits: Seq<char>)
    requires
        all_digits(digits),
    ensures
        split_on(digits, ' ') == seq![digits],
{
    assert(forall|i: int| 0 <= i < digits.len() ==> is_digit(#[trigger] digits[i]));
    assert(forall|i: int| 0 <= i < digits.len() ==> digits[i] != ' ');
    match crate::text::find_char(digits, ' ') {
        None => {},
        Some(i) => {
            crate::text::lemma_find_char_some(digits, ' ');
        },
    }
}


/// One readiness event the stdio pump observes on a descriptor it
/// watches.
pub enum PumpEvent {
    /// A read returned this many bytes; zero is end of file.
    ReadBytes(usize),
    /// The read itself failed.
    ReadFailed,
}

/// What the pump does with an event: forward the bytes to the opposite
/// side, or stop the exchange.
#[derive(Clone, Copy, Debug, PartialEq, Eq, Structural)]
pub enum PumpAction {
    Forward(usize),
    Stop,
}

/// The stdio pump's per-event decision: data is forwarded unchanged to
/// the opposite side; end of file on either side, and any failed read,
/// end the exchange.
pub fn pump_step(event: &PumpEvent) -> (r: PumpAction)
    ensures
        r == (match event {
            PumpEvent::ReadBytes(n) => if n > 0 {
                PumpAction::Forward(n as usize)
            } else {
                PumpAction::Stop
            },
            PumpEvent::ReadFailed => PumpAction::Stop,
        }),
{
    match event {
        PumpEvent::ReadBytes(n) => {
            if *n == 0 {
                PumpAction::Stop
            } else {
                PumpAction::Forward(*n)
            }
        },
        PumpEvent::ReadFailed => PumpAction::Stop,
    }
}

} // verus!
