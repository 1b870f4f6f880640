//! Line framing for stream sources: HTTP chunked bodies are reframed into
//! `\n`-terminated lines, WebSocket frames are split into lines, TCP URLs
//! lose their scheme prefix.

use vstd::prelude::*;
use vstd::string::StringSliceAdditionalSpecFns;
use vstd::utf8::encode_utf8;

verus! {

/// ASCII whitespace, as stripped from the ends of a framed line.
pub open spec fn bspace(b: u8) -> bool {
    b == 32 || b == 9 || b == 10 || b == 13 || b == 11 || b == 12
}

/// First non-whitespace position at or after `j`.
pub open spec fn trim_lo(s: Seq<u8>, j: int) -> int
    decreases s.len() - j,
{
    if j < 0 || j >= s.len() {
        j
    } else if bspace(s[j]) {
        trim_lo(s, j + 1)
    } else {
        j
    }
}

/// Position after the last non-whitespace byte before `e`.
pub open spec fn trim_hi(s: Seq<u8>, e: int) -> int
    decreases e,
{
    if e <= 0 || e > s.len() {
        e
    } else if bspace(s[e - 1]) {
        trim_hi(s, e - 1)
    } else {
        e
    }
}

/// The line with ASCII whitespace stripped from both ends.
pub open spec fn trim_bytes(s: Seq<u8>) -> Seq<u8> {
    let lo = trim_lo(s, 0);
    let hi = trim_hi(s, s.len() as int);
    if lo < hi {
        s.subrange(lo, hi)
    } else {
        Seq::<u8>::empty()
    }
}

/// Index of the first newline byte at or after `j`, if any.
pub open spec fn nl_from(s: Seq<u8>, j: int) -> Option<int>
    decreases s.len() - j,
{
    if j < 0 || j >= s.len() {
        None
    } else if s[j] == 10 {
        Some(j)
    } else {
        nl_from(s, j + 1)
    }
}

/// The bytes decode as UTF-8 (whether `String::from_utf8` accepts them).
pub uninterp spec fn utf8_ok(bytes: Seq<u8>) -> bool;

/// The characters that the bytes decode to, when they decode.
pub uninterp spec fn utf8_chars(bytes: Seq<u8>) -> Seq<char>;

/// Relies on String::from_utf8: it succeeds exactly on UTF-8 input, and the
/// resulting string holds exactly the given bytes.
#[verifier::external_body]
pub fn bytes_to_string(bytes: Vec<u8>) -> (r: Option<String>)
    ensures
        r is Some <==> utf8_ok(bytes@),
        r matches Some(s) ==> encode_utf8(s@) == bytes@ && s@ == utf8_chars(bytes@),
{
    String::from_utf8(bytes).ok()
}

/// The lines a buffer's complete (newline-terminated) part yields, in
/// order: each is trimmed, and dropped when empty or not UTF-8.
pub open spec fn emitted_lines(data: Seq<u8>, i: int) -> Seq<Seq<u8>>
    decreases data.len() - i,
{
    if i < 0 || i >= data.len() {
        Seq::<Seq<u8>>::empty()
    } else {
        match nl_from(data, i) {
            Option::Some(p) => {
                if i <= p < data.len() {
                    let t = trim_bytes(data.subrange(i, p));
                    (if t.len() > 0 && utf8_ok(t) {
                        seq![t]
                    } else {
                        Seq::<Seq<u8>>::empty()
                    }) + emitted_lines(data, p + 1)
                } else {
                    Seq::<Seq<u8>>::empty()
                }
            },
            Option::None => Seq::<Seq<u8>>::empty(),
        }
    }
}

/// Start of the buffer's incomplete tail: one past the last newline.
pub open spec fn rest_start(data: Seq<u8>, i: int) -> int
    decreases data.len() - i,
{
    if i < 0 || i > data.len() {
        i
    } else {
        match nl_from(data, i) {
            Option::Some(p) => {
                if i <= p < data.len() {
                    rest_start(data, p + 1)
                } else {
                    i
                }
            },
            Option::None => i,
        }
    }
}

/// `nl_from` finds exactly the first newline.
proof fn lemma_nl_from_props(s: Seq<u8>, j: int)
    requires
        0 <= j <= s.len(),
    ensures
        match nl_from(s, j) {
            Option::Some(p) => j <= p < s.len() && s[p] == 10 && (forall|l: int|
                j <= l < p ==> s[l] != 10),
            Option::None => forall|l: int| j <= l < s.len() ==> s[l] != 10,
        },
    decreases s.len() - j,
{
    if j < s.len() && s[j] != 10 {
        lemma_nl_from_props(s, j + 1);
    }
}

/// Reframes a byte stream into lines: bytes arrive in chunks, and each
/// `\n`-terminated line is emitted once, trimmed, with empty and non-UTF-8
/// lines discarded.  Bytes after the last newline wait in the buffer.
pub struct LineFramer {
    pub buffer: Vec<u8>,
}

impl LineFramer {
    pub fn new() -> (r: Self)
        ensures
            r.buffer@ == Seq::<u8>::empty(),
    {
        LineFramer { buffer: Vec::new() }
    }

    /// Take one chunk of bytes; give back the complete lines it finishes.
    #[verifier::loop_isolation(false)]
    #[verifier::rlimit(60)]
    pub fn push_chunk(&mut self, chunk: &[u8]) -> (r: Vec<String>)
        ensures
            ({
                let data = old(self).buffer@ + chunk@;
                &&& final(self).buffer@ == data.subrange(rest_start(data, 0), data.len() as int)
                &&& 0 <= rest_start(data, 0) <= data.len()
                &&& r@.len() == emitted_lines(data, 0).len()
                &&& forall|i: int|
                    0 <= i < r@.len() ==> encode_utf8((#[trigger] r@[i])@) == emitted_lines(
                        data,
                        0,
                    )[i]
            }),
    {
        self.buffer.extend_from_slice(chunk);
        let ghost data = self.buffer@;
        let n = self.buffer.len();
        let mut out: Vec<String> = Vec::new();
        let mut start: usize = 0;
        let mut pos: usize = 0;
        while pos < n
            invariant
                0 <= start <= pos <= n,
                self.buffer@ == data,
                forall|l: int| start <= l < pos ==> data[l] != 10,
                emitted_lines(data, 0) =~= spec_bytes_of(out@) + emitted_lines(data, start as int),
                rest_start(data, 0) == rest_start(data, start as int),
            decreases n - pos,
        {
            if self.buffer[pos] == 10 {
                proof {
                    lemma_nl_from_props(data, start as int);
                    assert(nl_from(data, start as int) == Some(pos as int));
                }
                // Extract and trim the line data[start..pos].
                let mut lo: usize = start;
                while lo < pos && is_bspace(self.buffer[lo])
                    invariant
                        start <= lo <= pos,
                        trim_lo(data.subrange(start as int, pos as int), 0) == trim_lo(
                            data.subrange(start as int, pos as int),
                            lo - start,
                        ),
                    decreases pos - lo,
                {
                    lo += 1;
                }
                let mut hi: usize = pos;
                while hi > lo && is_bspace(self.buffer[hi - 1])
                    invariant
                        lo <= hi <= pos,
                        lo >= pos || !bspace(data[lo as int]),
                        lo < hi || lo == pos,
                        trim_hi(data.subrange(start as int, pos as int), pos - start) == trim_hi(
                            data.subrange(start as int, pos as int),
                            hi - start,
                        ),
                    decreases hi,
                {
                    hi -= 1;
                }
                let ghost line = data.subrange(start as int, pos as int);
                proof {
                    assert(trim_lo(line, lo - start) == lo - start);
                    if hi > lo {
                        assert(trim_hi(line, hi - start) == hi - start);
                        assert(trim_bytes(line) =~= data.subrange(lo as int, hi as int));
                    } else {
                        assert(lo == pos);
                        assert(trim_lo(line, 0) == line.len());
                        lemma_trim_hi_bounds(line, line.len() as int);
                        assert(trim_bytes(line) =~= Seq::<u8>::empty());
                    }
                }
                if hi > lo {
                    let mut piece: Vec<u8> = Vec::new();
                    let mut l: usize = lo;
                    while l < hi
                        invariant
                            lo <= l <= hi,
                            piece@ =~= data.subrange(lo as int, l as int),
                        decreases hi - l,
                    {
                        piece.push(self.buffer[l]);
                        l += 1;
                    }
                    proof {
                        assert(piece@ =~= trim_bytes(line));
                    }
                    let ghost pre_out = out@;
                    match bytes_to_string(piece) {
                        Option::Some(s) => {
                            out.push(s);
                            proof {
                                assert(spec_bytes_of(out@) =~= spec_bytes_of(pre_out) + seq![
                                    trim_bytes(line),
                                ]);
                            }
                        },
                        Option::None => {},
                    }
                }
                proof {
                    assert(emitted_lines(data, start as int) == (if trim_bytes(line).len() > 0
                        && utf8_ok(trim_bytes(line)) {
                        seq![trim_bytes(line)]
                    } else {
                        Seq::<Seq<u8>>::empty()
                    }) + emitted_lines(data, pos + 1));
                    assert(rest_start(data, start as int) == rest_start(data, pos + 1));
                }
                start = pos + 1;
            }
            pos += 1;
        }
        proof {
            lemma_nl_from_props(data, start as int);
            assert(nl_from(data, start as int) is None);
            assert(emitted_lines(data, start as int) =~= Seq::<Seq<u8>>::empty());
            assert(rest_start(data, start as int) == start);
            assert(emitted_lines(data, 0) =~= spec_bytes_of(out@));
            assert(data == old(self).buffer@ + chunk@);
            assert(spec_bytes_of(out@).len() == out@.len());
            assert forall|i: int| 0 <= i < out@.len() implies encode_utf8(
                (#[trigger] out@[i])@,
            ) == emitted_lines(data, 0)[i] by {
                assert(spec_bytes_of(out@)[i] == encode_utf8(out@[i]@));
            }
        }
        // Keep only the incomplete tail.
        let mut rest: Vec<u8> = Vec::new();
        let mut l: usize = start;
        while l < n
            invariant
                start <= l <= n,
                self.buffer@ == data,
                rest@ =~= data.subrange(start as int, l as int),
            decreases n - l,
        {
            rest.push(self.buffer[l]);
            l += 1;
        }
        self.buffer = rest;
        out
    }
}

/// The byte contents of a list of strings.
pub open spec fn spec_bytes_of(v: Seq<String>) -> Seq<Seq<u8>> {
    v.map_values(|s: String| encode_utf8(s@))
}

/// Whether the byte is ASCII whitespace.
fn is_bspace(b: u8) -> (r: bool)
    ensures
        r == bspace(b),
{
    b == 32 || b == 9 || b == 10 || b == 13 || b == 11 || b == 12
}

/// The right trim scan stays within `[0, e]`.
proof fn lemma_trim_hi_bounds(s: Seq<u8>, e: int)
    requires
        0 <= e <= s.len(),
    ensures
        0 <= trim_hi(s, e) <= e,
    decreases e,
{
    if e > 0 && bspace(s[e - 1]) {
        lemma_trim_hi_bounds(s, e - 1);
    }
}

/// Index of the first newline character at or after `j`, if any.
pub open spec fn cnl_from(s: Seq<char>, j: int) -> Option<int>
    decreases s.len() - j,
{
    if j < 0 || j >= s.len() {
        None
    } else if s[j] == '\n' {
        Some(j)
    } else {
        cnl_from(s, j + 1)
    }
}

/// A line with its trailing carriage return removed.
pub open spec fn strip_cr(l: Seq<char>) -> Seq<char> {
    if l.len() > 0 && l[l.len() - 1] == '\r' {
        l.drop_last()
    } else {
        l
    }
}

/// The lines of a text from position `i` on, split at `\n` with a trailing
/// `\r` stripped from each; a trailing newline ends the last line instead
/// of opening an empty one.
pub open spec fn text_lines(s: Seq<char>, i: int) -> Seq<Seq<char>>
    decreases s.len() - i,
{
    if i < 0 || i >= s.len() {
        Seq::<Seq<char>>::empty()
    } else {
        match cnl_from(s, i) {
            Option::Some(p) => {
                if i <= p < s.len() {
                    seq![strip_cr(s.subrange(i, p))] + text_lines(s, p + 1)
                } else {
                    Seq::<Seq<char>>::empty()
                }
            },
            Option::None => seq![strip_cr(s.subrange(i, s.len() as int))],
        }
    }
}

/// `cnl_from` finds exactly the first newline character.
proof fn lemma_cnl_from_props(s: Seq<char>, j: int)
    requires
        0 <= j <= s.len(),
    ensures
        match cnl_from(s, j) {
            Option::Some(p) => j <= p < s.len() && s[p] == '\n' && (forall|l: int|
                j <= l < p ==> s[l] != '\n'),
            Option::None => forall|l: int| j <= l < s.len() ==> s[l] != '\n',
        },
    decreases s.len() - j,
{
    if j < s.len() && s[j] != '\n' {
        lemma_cnl_from_props(s, j + 1);
    }
}

/// The character contents of a list of strings.
pub open spec fn views_of(v: Seq<String>) -> Seq<Seq<char>> {
    v.map_values(|s: String| s@)
}

/// Split a text frame into lines at `\n`, stripping a trailing `\r` from
/// each line.
#[verifier::loop_isolation(false)]
#[verifier::rlimit(30)]
pub fn split_lines(text: &str) -> (r: Vec<String>)
    ensures
        views_of(r@) == text_lines(text@, 0),
{
    let chars = crate::matching::str_chars_vec(text);
    let n = chars.len();
    let mut out: Vec<String> = Vec::new();
    let mut start: usize = 0;
    let mut pos: usize = 0;
    while pos < n
        invariant
            0 <= start <= pos <= n,
            forall|l: int| start <= l < pos ==> chars@[l] != '\n',
            text_lines(chars@, 0) =~= views_of(out@) + text_lines(chars@, start as int),
        decreases n - pos,
    {
        if chars[pos] == '\n' {
            proof {
                lemma_cnl_from_props(chars@, start as int);
                assert(cnl_from(chars@, start as int) == Some(pos as int));
            }
            let piece = copy_stripped(&chars, start, pos);
            let ghost pre_out = out@;
            out.push(piece);
            proof {
                assert(views_of(out@) =~= views_of(pre_out) + seq![
                    strip_cr(chars@.subrange(start as int, pos as int)),
                ]);
                assert((views_of(pre_out) + seq![
                    strip_cr(chars@.subrange(start as int, pos as int)),
                ]) + text_lines(chars@, pos + 1) =~= views_of(pre_out) + (seq![
                    strip_cr(chars@.subrange(start as int, pos as int)),
                ] + text_lines(chars@, pos + 1)));
            }
            start = pos + 1;
        }
        pos += 1;
    }
    if start < n {
        proof {
            lemma_cnl_from_props(chars@, start as int);
        }
        let piece = copy_stripped(&chars, start, n);
        let ghost pre_out = out@;
        out.push(piece);
        proof {
            assert(views_of(out@) =~= views_of(pre_out) + seq![
                strip_cr(chars@.subrange(start as int, n as int)),
            ]);
            assert(text_lines(chars@, start as int) =~= seq![
                strip_cr(chars@.subrange(start as int, n as int)),
            ]);
        }
    } else {
        proof {
            assert(text_lines(chars@, start as int) =~= Seq::<Seq<char>>::empty());
        }
    }
    proof {
        assert(views_of(out@) =~= text_lines(chars@, 0));
    }
    out
}

/// Copy `chars[start..stop]` into a string, dropping a trailing `\r`.
fn copy_stripped(chars: &Vec<char>, start: usize, stop: usize) -> (r: String)
    requires
        start <= stop <= chars@.len(),
    ensures
        r@ == strip_cr(chars@.subrange(start as int, stop as int)),
{
    let mut stop = stop;
    if stop > start && chars[stop - 1] == '\r' {
        stop = stop - 1;
        proof {
            assert(chars@.subrange(start as int, stop as int) =~= strip_cr(
                chars@.subrange(start as int, stop + 1),
            ));
        }
    }
    let mut piece: Vec<char> = Vec::new();
    let mut l: usize = start;
    while l < stop
        invariant
            start <= l <= stop <= chars@.len(),
            piece@ =~= chars@.subrange(start as int, l as int),
        decreases stop - l,
    {
        piece.push(chars[l]);
        l += 1;
    }
    crate::matching::chars_to_string(&piece)
}

/// One frame, as a WebSocket transport hands it over.
pub enum WsFrame {
    Text(String),
    Binary(Vec<u8>),
    Close,
    Control,
}

/// What to do with one WebSocket frame.
pub enum WsStep {
    /// Feed these lines through the rules.
    Lines(Vec<String>),
    /// The server closed the connection: reconnect.
    Reconnect,
    /// Nothing to do (pings, pongs, undecodable binary).
    Ignore,
}

/// Decide one WebSocket frame: text frames split into lines; binary frames
/// decode as UTF-8 first and are dropped when they do not; a close frame
/// asks for a reconnect; control frames are ignored.
pub fn ws_frame_step(frame: WsFrame) -> (r: WsStep)
    ensures
        match frame {
            WsFrame::Text(t) => r matches WsStep::Lines(ls) && views_of(ls@) == text_lines(t@, 0),
            WsFrame::Binary(b) => if utf8_ok(b@) {
                r matches WsStep::Lines(ls) && views_of(ls@) == text_lines(utf8_chars(b@), 0)
            } else {
                r is Ignore
            },
            WsFrame::Close => r is Reconnect,
            WsFrame::Control => r is Ignore,
        },
{
    match frame {
        WsFrame::Text(t) => WsStep::Lines(split_lines(t.as_str())),
        WsFrame::Binary(b) => match bytes_to_string(b) {
            Option::Some(t) => WsStep::Lines(split_lines(t.as_str())),
            Option::None => WsStep::Ignore,
        },
        WsFrame::Close => WsStep::Reconnect,
        WsFrame::Control => WsStep::Ignore,
    }
}

/// Strip a leading "tcp://" scheme from a TCP source URL, leaving bare
/// `host:port` addresses as they are.
pub fn strip_tcp_scheme(url: &str) -> (r: String)
    ensures
        url@.len() >= 6 && url@.subrange(0, 6) == "tcp://"@ ==> r@ == url@.skip(6),
        !(url@.len() >= 6 && url@.subrange(0, 6) == "tcp://"@) ==> r@ == url@,
{
    let chars = crate::matching::str_chars_vec(url);
    proof {
        reveal_strlit("tcp://");
    }
    if chars.len() >= 6 && chars[0] == 't' && chars[1] == 'c' && chars[2] == 'p' && chars[3] == ':'
        && chars[4] == '/' && chars[5] == '/' {
        proof {
            assert(url@.subrange(0, 6) =~= "tcp://"@);
        }
        let mut rest: Vec<char> = Vec::new();
        let mut l: usize = 6;
        while l < chars.len()
            invariant
                6 <= l <= chars@.len(),
                rest@ =~= chars@.subrange(6, l as int),
            decreases chars@.len() - l,
        {
            rest.push(chars[l]);
            l += 1;
        }
        proof {
            assert(rest@ =~= url@.skip(6));
        }
        crate::matching::chars_to_string(&rest)
    } else {
        proof {
            if url@.len() >= 6 {
                assert(url@.subrange(0, 6) != "tcp://"@) by {
                    if url@.subrange(0, 6) == "tcp://"@ {
                        assert(url@[0] == 't' && url@[1] == 'c' && url@[2] == 'p' && url@[3] == ':'
                            && url@[4] == '/' && url@[5] == '/') by {
                            assert(url@.subrange(0, 6)[0] == url@[0]);
                            assert(url@.subrange(0, 6)[1] == url@[1]);
                            assert(url@.subrange(0, 6)[2] == url@[2]);
                            assert(url@.subrange(0, 6)[3] == url@[3]);
                            assert(url@.subrange(0, 6)[4] == url@[4]);
                            assert(url@.subrange(0, 6)[5] == url@[5]);
                        }
                    }
                }
            }
        }
        crate::matching::chars_to_string(&chars)
    }
}

} // verus!
