//! Wire protocol codec: text-based, line-delimited serialization of the
//! request and response vocabulary.
//!
//! Requests arrive as UTF-8 lines holding a bare variant name (`Ping`,
//! `Pang`, `Speechless`, `Error`); responses are written in the same
//! structured literal form (`Pong(3)`, `Pung("...")`, `TooBusy`, ...).
//! Everything works on bytes, which is how the transport hands the data over.

use vstd::prelude::*;

verus! {

/// Requests a client may send, one per line.
#[derive(Clone, Copy, Debug, PartialEq, Eq, Structural)]
pub enum ClientMessages {
    Ping,
    Pang,
    Speechless,
    Error,
}

/// A line that matched no request variant; carries the offending text.
#[derive(Clone, Debug)]
pub struct DecodeError {
    pub line: Vec<u8>,
}

/// The wire text of `Ping`.
pub open spec fn ping_text() -> Seq<u8> {
    seq!['P' as u8, 'i' as u8, 'n' as u8, 'g' as u8]
}

/// The wire text of `Pang`.
pub open spec fn pang_text() -> Seq<u8> {
    seq!['P' as u8, 'a' as u8, 'n' as u8, 'g' as u8]
}

/// The wire text of `Speechless`.
pub open spec fn speechless_text() -> Seq<u8> {
    seq![
        'S' as u8,
        'p' as u8,
        'e' as u8,
        'e' as u8,
        'c' as u8,
        'h' as u8,
        'l' as u8,
        'e' as u8,
        's' as u8,
        's' as u8,
    ]
}

/// The wire text of `Error`.
pub open spec fn error_text() -> Seq<u8> {
    seq!['E' as u8, 'r' as u8, 'r' as u8, 'o' as u8, 'r' as u8]
}

/// The one line that encodes a given request.
pub open spec fn client_text(m: ClientMessages) -> Seq<u8> {
    match m {
        ClientMessages::Ping => ping_text(),
        ClientMessages::Pang => pang_text(),
        ClientMessages::Speechless => speechless_text(),
        ClientMessages::Error => error_text(),
    }
}

/// What a single (newline-free, nonempty) line decodes to: the request whose
/// text it is, or nothing.
pub open spec fn decoded(line: Seq<u8>) -> Option<ClientMessages> {
    if line == ping_text() {
        Some(ClientMessages::Ping)
    } else if line == pang_text() {
        Some(ClientMessages::Pang)
    } else if line == speechless_text() {
        Some(ClientMessages::Speechless)
    } else if line == error_text() {
        Some(ClientMessages::Error)
    } else {
        None
    }
}

/// Compares two byte slices.
fn bytes_eq(a: &[u8], b: &[u8]) -> (r: bool)
    ensures
        r == (a@ == b@),
{
    if a.len() != b.len() {
        assert(a@.len() != b@.len());
        return false;
    }
    let n = a.len();
    let mut i: usize = 0;
    while i < n
        invariant
            n == a@.len() == b@.len(),
            0 <= i <= n,
            forall|j: int| 0 <= j < i ==> a@[j] == b@[j],
        decreases n - i,
    {
        if a[i] != b[i] {
            return false;
        }
        i += 1;
    }
    proof {
        assert(a@ =~= b@);
    }
    true
}

/// The wire text of `Ping`, as an owned value.
fn ping_bytes() -> (v: Vec<u8>)
    ensures
        v@ == ping_text(),
{
    let mut v: Vec<u8> = Vec::new();
    v.push('P' as u8);
    v.push('i' as u8);
    v.push('n' as u8);
    v.push('g' as u8);
    proof {
        assert(v@ =~= ping_text());
    }
    v
}

/// The wire text of `Pang`, as an owned value.
fn pang_bytes() -> (v: Vec<u8>)
    ensures
        v@ == pang_text(),
{
    let mut v: Vec<u8> = Vec::new();
    v.push('P' as u8);
    v.push('a' as u8);
    v.push('n' as u8);
    v.push('g' as u8);
    proof {
        assert(v@ =~= pang_text());
    }
    v
}

/// The wire text of `Speechless`, as an owned value.
fn speechless_bytes() -> (v: Vec<u8>)
    ensures
        v@ == speechless_text(),
{
    let mut v: Vec<u8> = Vec::new();
    v.push('S' as u8);
    v.push('p' as u8);
    v.push('e' as u8);
    v.push('e' as u8);
    v.push('c' as u8);
    v.push('h' as u8);
    v.push('l' as u8);
    v.push('e' as u8);
    v.push('s' as u8);
    v.push('s' as u8);
    proof {
        assert(v@ =~= speechless_text());
    }
    v
}

/// The wire text of `Error`, as an owned value.
fn error_bytes() -> (v: Vec<u8>)
    ensures
        v@ == error_text(),
{
    let mut v: Vec<u8> = Vec::new();
    v.push('E' as u8);
    v.push('r' as u8);
    v.push('r' as u8);
    v.push('o' as u8);
    v.push('r' as u8);
    proof {
        assert(v@ =~= error_text());
    }
    v
}

/// Parses one nonempty line (without its newline) into a request.
/// A line that matches no variant is returned unparsed inside the error.
pub fn decode_client_message(line: &[u8]) -> (r: Result<ClientMessages, DecodeError>)
    ensures
        match r {
            Ok(m) => decoded(line@) == Some(m),
            Err(e) => decoded(line@) is None && e.line@ == line@,
        },
{
    if bytes_eq(line, ping_bytes().as_slice()) {
        Ok(ClientMessages::Ping)
    } else if bytes_eq(line, pang_bytes().as_slice()) {
        Ok(ClientMessages::Pang)
    } else if bytes_eq(line, speechless_bytes().as_slice()) {
        Ok(ClientMessages::Speechless)
    } else if bytes_eq(line, error_bytes().as_slice()) {
        Ok(ClientMessages::Error)
    } else {
        Err(DecodeError { line: vstd::slice::slice_to_vec(line) })
    }
}

/// Writes a request in its wire form; the inverse of
/// [`decode_client_message`], kept for symmetry (production traffic only
/// encodes responses).
pub fn encode_client_message(m: &ClientMessages) -> (v: Vec<u8>)
    ensures
        v@ == client_text(*m),
{
    match m {
        ClientMessages::Ping => ping_bytes(),
        ClientMessages::Pang => pang_bytes(),
        ClientMessages::Speechless => speechless_bytes(),
        ClientMessages::Error => error_bytes(),
    }
}

/// Round trip: every request survives encoding and decoding unchanged.
pub proof fn lemma_client_round_trip(m: ClientMessages)
    ensures
        decoded(client_text(m)) == Some(m),
{
    assert(pang_text()[1] != ping_text()[1]);
    assert(speechless_text().len() != ping_text().len());
    assert(speechless_text().len() != pang_text().len());
    assert(error_text().len() != ping_text().len());
    assert(error_text().len() != pang_text().len());
    assert(error_text().len() != speechless_text().len());
}

/// Responses the server may produce for one event. `NoAnswer` is a sentinel
/// meaning "suppress the response": it never reaches the wire, and the
/// encoder refuses it.
#[derive(Clone, Debug)]
pub enum ServerMessages {
    Pong(u64),
    Pung(Vec<u8>),
    NoAnswer,
    TooBusy,
    UnknownMessage(Vec<u8>),
    ProcessorError(Vec<u8>),
    ShuttingDown,
}

/// Mathematical shadow of [`ServerMessages`], with payloads as sequences.
pub enum ServerMsgView {
    Pong(u64),
    Pung(Seq<u8>),
    NoAnswer,
    TooBusy,
    UnknownMessage(Seq<u8>),
    ProcessorError(Seq<u8>),
    ShuttingDown,
}

impl View for ServerMessages {
    type V = ServerMsgView;

    open spec fn view(&self) -> ServerMsgView {
        match self {
            ServerMessages::Pong(n) => ServerMsgView::Pong(*n),
            ServerMessages::Pung(p) => ServerMsgView::Pung(p@),
            ServerMessages::NoAnswer => ServerMsgView::NoAnswer,
            ServerMessages::TooBusy => ServerMsgView::TooBusy,
            ServerMessages::UnknownMessage(r) => ServerMsgView::UnknownMessage(r@),
            ServerMessages::ProcessorError(r) => ServerMsgView::ProcessorError(r@),
            ServerMessages::ShuttingDown => ServerMsgView::ShuttingDown,
        }
    }
}

/// The decimal digits of `n`, most significant first.
pub open spec fn dec_text(n: nat) -> Seq<u8>
    decreases n,
{
    if n < 10 {
        seq![(48 + n) as u8]
    } else {
        dec_text(n / 10).push((48 + n % 10) as u8)
    }
}

/// One nibble as a lowercase hexadecimal digit.
pub open spec fn hex_digit(n: u8) -> u8 {
    if n < 10 {
        (48 + n) as u8
    } else {
        (87 + n) as u8
    }
}

/// One byte of payload text as it appears inside a quoted literal: quotes
/// and backslashes get a backslash in front; newline, carriage return and
/// tab become their two-character escapes; the remaining control bytes are
/// written out as `\u{..}` with two hex digits. Everything else stands as it
/// is — in particular, no raw newline survives, which keeps encoded
/// responses line-separable whatever the payload holds.
pub open spec fn escaped_byte(b: u8) -> Seq<u8> {
    if b == '"' as u8 || b == '\\' as u8 {
        seq!['\\' as u8, b]
    } else if b == '\n' as u8 {
        seq!['\\' as u8, 'n' as u8]
    } else if b == '\r' as u8 {
        seq!['\\' as u8, 'r' as u8]
    } else if b == '\t' as u8 {
        seq!['\\' as u8, 't' as u8]
    } else if b < 32 || b == 127 {
        seq![
            '\\' as u8,
            'u' as u8,
            '{' as u8,
            hex_digit(b / 16),
            hex_digit(b % 16),
            '}' as u8,
        ]
    } else {
        seq![b]
    }
}

/// Payload text as it appears inside a quoted literal.
pub open spec fn escaped(s: Seq<u8>) -> Seq<u8>
    decreases s.len(),
{
    if s.len() == 0 {
        seq![]
    } else {
        escaped(s.drop_last()) + escaped_byte(s.last())
    }
}

/// Writes `n` in decimal.
pub(crate) fn push_dec(out: &mut Vec<u8>, n: u64)
    ensures
        final(out)@ == old(out)@ + dec_text(n as nat),
    decreases n,
{
    if n < 10 {
        out.push(48 + n as u8);
        proof {
            assert(out@ =~= old(out)@ + dec_text(n as nat));
        }
    } else {
        push_dec(out, n / 10);
        out.push(48 + (n % 10) as u8);
        proof {
            assert(out@ =~= old(out)@ + dec_text(n as nat));
        }
    }
}

/// Appends `s` as it is.
pub fn push_bytes(out: &mut Vec<u8>, s: &[u8])
    ensures
        final(out)@ == old(out)@ + s@,
{
    let n = s.len();
    let mut i: usize = 0;
    proof {
        assert(out@ =~= old(out)@ + s@.take(0));
    }
    while i < n
        invariant
            n == s@.len(),
            0 <= i <= n,
            out@ == old(out)@ + s@.take(i as int),
        decreases n - i,
    {
        out.push(s[i]);
        proof {
            assert(out@ =~= old(out)@ + s@.take(i + 1));
        }
        i += 1;
    }
    proof {
        assert(s@.take(n as int) =~= s@);
    }
}

/// Writes `s` with quotes, backslashes and control bytes escaped, as
/// [`escaped`] prescribes.
fn push_escaped(out: &mut Vec<u8>, s: &[u8])
    ensures
        final(out)@ == old(out)@ + escaped(s@),
{
    let n = s.len();
    let mut i: usize = 0;
    proof {
        assert(s@.take(0) =~= Seq::<u8>::empty());
        assert(out@ =~= old(out)@ + escaped(s@.take(0)));
    }
    while i < n
        invariant
            n == s@.len(),
            0 <= i <= n,
            out@ == old(out)@ + escaped(s@.take(i as int)),
        decreases n - i,
    {
        let b = s[i];
        if b == '"' as u8 || b == '\\' as u8 {
            out.push('\\' as u8);
            out.push(b);
        } else if b == '\n' as u8 {
            out.push('\\' as u8);
            out.push('n' as u8);
        } else if b == '\r' as u8 {
            out.push('\\' as u8);
            out.push('r' as u8);
        } else if b == '\t' as u8 {
            out.push('\\' as u8);
            out.push('t' as u8);
        } else if b < 32 || b == 127 {
            out.push('\\' as u8);
            out.push('u' as u8);
            out.push('{' as u8);
            let hi = b / 16;
            let lo = b % 16;
            out.push(if hi < 10 { 48 + hi } else { 87 + hi });
            out.push(if lo < 10 { 48 + lo } else { 87 + lo });
            out.push('}' as u8);
        } else {
            out.push(b);
        }
        proof {
            assert(s@.take(i + 1).drop_last() =~= s@.take(i as int));
            assert(s@.take(i + 1).last() == s@[i as int]);
            assert(out@ =~= old(out)@ + escaped(s@.take(i + 1)));
        }
        i += 1;
    }
    proof {
        assert(s@.take(n as int) =~= s@);
    }
}

/// The text `Pong(`.
pub open spec fn pong_open() -> Seq<u8> {
    seq!['P' as u8, 'o' as u8, 'n' as u8, 'g' as u8, '(' as u8]
}

/// The text `Pung("`.
pub open spec fn pung_open() -> Seq<u8> {
    seq!['P' as u8, 'u' as u8, 'n' as u8, 'g' as u8, '(' as u8, '"' as u8]
}

/// The text `TooBusy`.
pub open spec fn too_busy_text() -> Seq<u8> {
    seq!['T' as u8, 'o' as u8, 'o' as u8, 'B' as u8, 'u' as u8, 's' as u8, 'y' as u8]
}

/// The text `UnknownMessage("`.
pub open spec fn unknown_open() -> Seq<u8> {
    seq![
        'U' as u8,
        'n' as u8,
        'k' as u8,
        'n' as u8,
        'o' as u8,
        'w' as u8,
        'n' as u8,
        'M' as u8,
        'e' as u8,
        's' as u8,
        's' as u8,
        'a' as u8,
        'g' as u8,
        'e' as u8,
        '(' as u8,
        '"' as u8,
    ]
}

/// The text `ProcessorError("`.
pub open spec fn processor_error_open() -> Seq<u8> {
    seq![
        'P' as u8,
        'r' as u8,
        'o' as u8,
        'c' as u8,
        'e' as u8,
        's' as u8,
        's' as u8,
        'o' as u8,
        'r' as u8,
        'E' as u8,
        'r' as u8,
        'r' as u8,
        'o' as u8,
        'r' as u8,
        '(' as u8,
        '"' as u8,
    ]
}

/// The text `ShuttingDown`.
pub open spec fn shutting_down_text() -> Seq<u8> {
    seq![
        'S' as u8,
        'h' as u8,
        'u' as u8,
        't' as u8,
        't' as u8,
        'i' as u8,
        'n' as u8,
        'g' as u8,
        'D' as u8,
        'o' as u8,
        'w' as u8,
        'n' as u8,
    ]
}

/// The text `")` that closes a quoted payload.
pub open spec fn quote_close() -> Seq<u8> {
    seq!['"' as u8, ')' as u8]
}

/// The full wire line of a response, newline included. `NoAnswer` has no wire
/// form; the encoder refuses it, and this gives it the empty sequence.
pub open spec fn server_line(m: ServerMsgView) -> Seq<u8> {
    match m {
        ServerMsgView::Pong(n) => pong_open() + dec_text(n as nat) + seq![')' as u8, '\n' as u8],
        ServerMsgView::Pung(p) => pung_open() + escaped(p) + quote_close() + seq!['\n' as u8],
        ServerMsgView::NoAnswer => seq![],
        ServerMsgView::TooBusy => too_busy_text() + seq!['\n' as u8],
        ServerMsgView::UnknownMessage(r) => unknown_open() + escaped(r) + quote_close()
            + seq!['\n' as u8],
        ServerMsgView::ProcessorError(r) => processor_error_open() + escaped(r) + quote_close()
            + seq!['\n' as u8],
        ServerMsgView::ShuttingDown => shutting_down_text() + seq!['\n' as u8],
    }
}

/// Escaping leaves no raw newline behind, whatever the payload holds.
pub proof fn lemma_escaped_newline_free(s: Seq<u8>)
    ensures
        forall|i: int| 0 <= i < escaped(s).len() ==> escaped(s)[i] != '\n' as u8,
    decreases s.len(),
{
    if s.len() > 0 {
        let rest = s.drop_last();
        lemma_escaped_newline_free(rest);
        let tail = escaped_byte(s.last());
        assert(forall|j: int| 0 <= j < tail.len() ==> tail[j] != '\n' as u8);
        assert(escaped(s) == escaped(rest) + tail);
        assert forall|i: int| 0 <= i < escaped(s).len() implies escaped(s)[i] != '\n' as u8 by {
            if i < escaped(rest).len() {
                assert(escaped(s)[i] == escaped(rest)[i]);
            } else {
                assert(escaped(s)[i] == tail[i - escaped(rest).len()]);
            }
        }
    }
}

/// Decimal text is made of digits only.
pub proof fn lemma_dec_text_digits(n: nat)
    ensures
        forall|i: int| 0 <= i < dec_text(n).len() ==> 48 <= #[trigger] dec_text(n)[i] <= 57,
    decreases n,
{
    if n >= 10 {
        lemma_dec_text_digits(n / 10);
        assert forall|i: int| 0 <= i < dec_text(n).len() implies 48 <= #[trigger] dec_text(
            n,
        )[i] <= 57 by {
            if i < dec_text(n / 10).len() {
                assert(dec_text(n)[i] == dec_text(n / 10)[i]);
            } else {
                assert(dec_text(n)[i] == (48 + n % 10) as u8);
            }
        }
    } else {
        assert(dec_text(n)[0] == (48 + n) as u8);
    }
}

/// Line separability: every encoded response is exactly one line — it ends
/// with the one newline it contains, so consecutive responses written to a
/// stream can always be split apart again.
pub proof fn lemma_server_line_separable(m: ServerMsgView)
    requires
        !(m is NoAnswer),
    ensures
        server_line(m).len() > 0,
        server_line(m).last() == '\n' as u8,
        forall|i: int| 0 <= i < server_line(m).len() - 1 ==> server_line(m)[i] != '\n' as u8,
{
    let line = server_line(m);
    match m {
        ServerMsgView::Pong(n) => {
            lemma_dec_text_digits(n as nat);
            assert forall|i: int| 0 <= i < line.len() - 1 implies line[i] != '\n' as u8 by {
                if i >= pong_open().len() && i < pong_open().len() + dec_text(n as nat).len() {
                    assert(line[i] == dec_text(n as nat)[i - pong_open().len()]);
                }
            }
        },
        ServerMsgView::Pung(p) => {
            lemma_escaped_newline_free(p);
            assert forall|i: int| 0 <= i < line.len() - 1 implies line[i] != '\n' as u8 by {
                if i >= pung_open().len() && i < pung_open().len() + escaped(p).len() {
                    assert(line[i] == escaped(p)[i - pung_open().len()]);
                }
            }
        },
        ServerMsgView::NoAnswer => {
        },
        ServerMsgView::TooBusy => {
        },
        ServerMsgView::UnknownMessage(r) => {
            lemma_escaped_newline_free(r);
            assert forall|i: int| 0 <= i < line.len() - 1 implies line[i] != '\n' as u8 by {
                if i >= unknown_open().len() && i < unknown_open().len() + escaped(r).len() {
                    assert(line[i] == escaped(r)[i - unknown_open().len()]);
                }
            }
        },
        ServerMsgView::ProcessorError(r) => {
            lemma_escaped_newline_free(r);
            assert forall|i: int| 0 <= i < line.len() - 1 implies line[i] != '\n' as u8 by {
                if i >= processor_error_open().len() && i < processor_error_open().len() + escaped(
                    r,
                ).len() {
                    assert(line[i] == escaped(r)[i - processor_error_open().len()]);
                }
            }
        },
        ServerMsgView::ShuttingDown => {
        },
    }
}

/// Serializes a response to its wire line, newline-terminated so that several
/// responses stay line-separable. The suppression sentinel must be filtered
/// out before this point: encoding it is a contract violation.
pub fn encode_server_message(m: &ServerMessages) -> (v: Vec<u8>)
    requires
        !(m@ is NoAnswer),
    ensures
        v@ == server_line(m@),
{
    let mut v: Vec<u8> = Vec::new();
    match m {
        ServerMessages::Pong(n) => {
            v.push('P' as u8);
            v.push('o' as u8);
            v.push('n' as u8);
            v.push('g' as u8);
            v.push('(' as u8);
            proof {
                assert(v@ =~= pong_open());
            }
            push_dec(&mut v, *n);
            v.push(')' as u8);
            v.push('\n' as u8);
            proof {
                assert(v@ =~= server_line(m@));
            }
        },
        ServerMessages::Pung(p) => {
            v.push('P' as u8);
            v.push('u' as u8);
            v.push('n' as u8);
            v.push('g' as u8);
            v.push('(' as u8);
            v.push('"' as u8);
            proof {
                assert(v@ =~= pung_open());
            }
            push_escaped(&mut v, p.as_slice());
            v.push('"' as u8);
            v.push(')' as u8);
            v.push('\n' as u8);
            proof {
                assert(v@ =~= server_line(m@));
            }
        },
        ServerMessages::NoAnswer => {
            proof {
                assert(false);
            }
        },
        ServerMessages::TooBusy => {
            v.push('T' as u8);
            v.push('o' as u8);
            v.push('o' as u8);
            v.push('B' as u8);
            v.push('u' as u8);
            v.push('s' as u8);
            v.push('y' as u8);
            v.push('\n' as u8);
            proof {
                assert(v@ =~= server_line(m@));
            }
        },
        ServerMessages::UnknownMessage(r) => {
            v.push('U' as u8);
            v.push('n' as u8);
            v.push('k' as u8);
            v.push('n' as u8);
            v.push('o' as u8);
            v.push('w' as u8);
            v.push('n' as u8);
            v.push('M' as u8);
            v.push('e' as u8);
            v.push('s' as u8);
            v.push('s' as u8);
            v.push('a' as u8);
            v.push('g' as u8);
            v.push('e' as u8);
            v.push('(' as u8);
            v.push('"' as u8);
            proof {
                assert(v@ =~= unknown_open());
            }
            push_escaped(&mut v, r.as_slice());
            v.push('"' as u8);
            v.push(')' as u8);
            v.push('\n' as u8);
            proof {
                assert(v@ =~= server_line(m@));
            }
        },
        ServerMessages::ProcessorError(r) => {
            v.push('P' as u8);
            v.push('r' as u8);
            v.push('o' as u8);
            v.push('c' as u8);
            v.push('e' as u8);
            v.push('s' as u8);
            v.push('s' as u8);
            v.push('o' as u8);
            v.push('r' as u8);
            v.push('E' as u8);
            v.push('r' as u8);
            v.push('r' as u8);
            v.push('o' as u8);
            v.push('r' as u8);
            v.push('(' as u8);
            v.push('"' as u8);
            proof {
                assert(v@ =~= processor_error_open());
            }
            push_escaped(&mut v, r.as_slice());
            v.push('"' as u8);
            v.push(')' as u8);
            v.push('\n' as u8);
            proof {
                assert(v@ =~= server_line(m@));
            }
        },
        ServerMessages::ShuttingDown => {
            v.push('S' as u8);
            v.push('h' as u8);
            v.push('u' as u8);
            v.push('t' as u8);
            v.push('t' as u8);
            v.push('i' as u8);
            v.push('n' as u8);
            v.push('g' as u8);
            v.push('D' as u8);
            v.push('o' as u8);
            v.push('w' as u8);
            v.push('n' as u8);
            v.push('\n' as u8);
            proof {
                assert(v@ =~= server_line(m@));
            }
        },
    }
    v
}

/// The nonempty fragments of `s` between newline bytes, `cur` being the
/// fragment already begun to the left of `s`.
pub open spec fn split_acc(s: Seq<u8>, cur: Seq<u8>) -> Seq<Seq<u8>>
    decreases s.len(),
{
    if s.len() == 0 {
        if cur.len() > 0 {
            seq![cur]
        } else {
            seq![]
        }
    } else if s[0] == '\n' as u8 {
        (if cur.len() > 0 {
            seq![cur]
        } else {
            seq![]
        }) + split_acc(s.skip(1), seq![])
    } else {
        split_acc(s.skip(1), cur.push(s[0]))
    }
}

/// The messages carried by one read: the nonempty fragments between newline
/// bytes, in order. Empty fragments are discarded.
pub open spec fn message_lines(s: Seq<u8>) -> Seq<Seq<u8>> {
    split_acc(s, seq![])
}

/// Splits one read into its messages: fragments between newline bytes, in
/// order, empty fragments discarded.
pub fn split_lines(data: &[u8]) -> (lines: Vec<Vec<u8>>)
    ensures
        lines@.map_values(|l: Vec<u8>| l@) == message_lines(data@),
{
    let n = data.len();
    let mut out: Vec<Vec<u8>> = Vec::new();
    let mut cur: Vec<u8> = Vec::new();
    let mut i: usize = 0;
    proof {
        assert(data@.skip(0) =~= data@);
        assert(out@.map_values(|l: Vec<u8>| l@) =~= Seq::<Seq<u8>>::empty());
        assert(message_lines(data@) =~= out@.map_values(|l: Vec<u8>| l@) + split_acc(
            data@.skip(0),
            cur@,
        ));
    }
    while i < n
        invariant
            n == data@.len(),
            0 <= i <= n,
            message_lines(data@) == out@.map_values(|l: Vec<u8>| l@) + split_acc(
                data@.skip(i as int),
                cur@,
            ),
        decreases n - i,
    {
        proof {
            assert(data@.skip(i as int).len() > 0);
            assert(data@.skip(i as int)[0] == data@[i as int]);
            assert(data@.skip(i as int).skip(1) =~= data@.skip(i + 1));
        }
        let b = data[i];
        if b == '\n' as u8 {
            if cur.len() > 0 {
                let ghost prev_out = out@;
                let ghost prev_cur = cur@;
                out.push(cur);
                cur = Vec::new();
                proof {
                    assert(out@.map_values(|l: Vec<u8>| l@) =~= prev_out.map_values(
                        |l: Vec<u8>| l@,
                    ) + seq![prev_cur]);
                    assert(message_lines(data@) =~= out@.map_values(|l: Vec<u8>| l@) + split_acc(
                        data@.skip(i + 1),
                        cur@,
                    ));
                }
            } else {
                proof {
                    assert(split_acc(data@.skip(i as int), cur@) =~= split_acc(
                        data@.skip(i + 1),
                        Seq::<u8>::empty(),
                    ));
                    assert(cur@ =~= Seq::<u8>::empty());
                }
            }
        } else {
            cur.push(b);
        }
        i += 1;
    }
    proof {
        assert(data@.skip(n as int) =~= Seq::<u8>::empty());
    }
    if cur.len() > 0 {
        let ghost prev_out = out@;
        let ghost prev_cur = cur@;
        out.push(cur);
        proof {
            assert(out@.map_values(|l: Vec<u8>| l@) =~= prev_out.map_values(|l: Vec<u8>| l@)
                + seq![prev_cur]);
            assert(out@.map_values(|l: Vec<u8>| l@) =~= message_lines(data@));
        }
    } else {
        proof {
            assert(out@.map_values(|l: Vec<u8>| l@) =~= message_lines(data@));
        }
    }
    out
}

} // verus!
