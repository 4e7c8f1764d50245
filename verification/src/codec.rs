//! The incremental protocol codec: it extracts at most one complete
//! `#`-separated, `%`-terminated frame per call from the accumulating
//! receive buffer, consuming exactly that frame's bytes and leaving
//! everything behind it — a second frame, or the start of a partial one —
//! untouched for the next call; and it writes outgoing commands back as
//! wire bytes.

use vstd::prelude::*;
use vstd::slice::slice_to_vec;
use vstd::utf8::{decode_utf8, valid_utf8};

use crate::bufext::{buf_advance, buf_bytes, buf_extend, buf_reserve, buf_to_vec};
use crate::command::{
    spec_server_args, spec_server_ident, wire_to_command, ClientCommand, CommandError,
    CommandErrorV, ServerCommand,
};
use crate::text::push_char;

verus! {

/// The field separator byte, `#`.
pub const MAGIC_SEPARATOR: u8 = 0x23;

/// The frame terminator byte, `%`.
pub const MAGIC_END: u8 = 0x25;

/// Index of the first occurrence of `x` in `b`, or `b.len()` when there is
/// none.
pub open spec fn scan_byte(b: Seq<u8>, x: u8) -> nat
    decreases b.len(),
{
    if b.len() == 0 {
        0
    } else if b[0] == x {
        0
    } else {
        1 + scan_byte(b.skip(1), x)
    }
}

/// [`scan_byte`] finds `i` when `b[i]` is the first occurrence of `x`, and
/// the length when there is none.
pub proof fn lemma_scan_byte_is(b: Seq<u8>, x: u8, i: int)
    requires
        0 <= i <= b.len(),
        forall|j: int| 0 <= j < i ==> b[j] != x,
        i < b.len() ==> b[i] == x,
    ensures
        scan_byte(b, x) == i,
    decreases b.len(),
{
    if b.len() > 0 {
        if i == 0 {
            if b[0] != x {
                assert(b.len() == 0);
            }
        } else {
            assert(b[0] != x);
            let t = b.skip(1);
            assert forall|j: int| 0 <= j < i - 1 implies t[j] != x by {
                assert(t[j] == b[j + 1]);
            }
            assert(i - 1 < t.len() ==> t[i - 1] == x);
            lemma_scan_byte_is(t, x, i - 1);
        }
    }
}

/// The `#`-separated fields of a byte range: splitting on every separator,
/// one field more than there are separators.
pub open spec fn split_fields(b: Seq<u8>) -> Seq<Seq<u8>>
    decreases b.len(),
{
    let i = scan_byte(b, MAGIC_SEPARATOR);
    if i < b.len() {
        seq![b.take(i as int)] + split_fields(b.skip(i as int + 1))
    } else {
        seq![b]
    }
}

pub proof fn lemma_split_fields_nonempty(b: Seq<u8>)
    ensures
        split_fields(b).len() >= 1,
{
}

/// Parse of one frame body (the bytes before the terminator byte): the
/// identifier before the first separator and the fields after it, with the
/// final terminator field discarded. A body without any separator is
/// malformed.
pub open spec fn spec_parse_frame(body: Seq<u8>) -> Option<(Seq<u8>, Seq<Seq<u8>>)> {
    let h = scan_byte(body, MAGIC_SEPARATOR);
    if h < body.len() {
        let fields = split_fields(body.skip(h as int + 1));
        Some((body.take(h as int), fields.take(fields.len() - 1)))
    } else {
        None
    }
}

/// What `String::from_utf8_lossy` decodes the bytes to; a function of the
/// bytes alone.
pub uninterp spec fn lossy_of(bytes: Seq<u8>) -> Seq<char>;

/// Relies on std's `String::from_utf8_lossy`: the result depends on the
/// bytes alone, and valid UTF-8 decodes exactly.
#[verifier::external_body]
fn utf8_lossy(v: &[u8]) -> (r: String)
    ensures
        r@ == lossy_of(v@),
        valid_utf8(v@) ==> r@ == decode_utf8(v@),
{
    String::from_utf8_lossy(v).into_owned()
}

/// The characters left after dropping every replacement character.
pub open spec fn strip_replacement(s: Seq<char>) -> Seq<char>
    decreases s.len(),
{
    if s.len() == 0 {
        Seq::empty()
    } else if s[0] == '\u{fffd}' {
        strip_replacement(s.skip(1))
    } else {
        seq![s[0]] + strip_replacement(s.skip(1))
    }
}

/// How one wire field reads as text: decoded permissively, with the
/// replacement characters left by invalid sequences dropped rather than
/// kept.
pub open spec fn field_str(bytes: Seq<u8>) -> Seq<char> {
    strip_replacement(lossy_of(bytes))
}

/// Text of one wire field: invalid byte sequences are dropped, not
/// substituted, since the protocol never intentionally carries non-text
/// bytes.
pub fn ignore_ill_utf8(v: &[u8]) -> (r: String)
    ensures
        r@ == field_str(v@),
        valid_utf8(v@) ==> r@ == strip_replacement(decode_utf8(v@)),
{
    let s = utf8_lossy(v);
    let n = s.as_str().unicode_len();
    let mut out = String::new();
    let mut i: usize = 0;
    proof {
        assert(s@.skip(0) =~= s@);
    }
    while i < n
        invariant
            0 <= i <= n,
            n == s@.len(),
            strip_replacement(s@) == out@ + strip_replacement(s@.skip(i as int)),
        decreases n - i,
    {
        let c = s.as_str().get_char(i);
        proof {
            let rest = s@.skip(i as int);
            assert(rest[0] == s@[i as int]);
            assert(rest.skip(1) =~= s@.skip(i + 1));
        }
        if c != '\u{fffd}' {
            push_char(&mut out, c);
            proof {
                assert(out@ + strip_replacement(s@.skip(i + 1)) =~= strip_replacement(s@));
            }
        }
        i += 1;
    }
    proof {
        assert(s@.skip(n as int) =~= Seq::<char>::empty());
        assert(out@ =~= strip_replacement(s@));
    }
    out
}

/// Why one frame failed to decode: malformed byte layout, or schema
/// validation.
#[derive(Debug)]
pub enum DecodeError {
    /// No field separator in a complete frame.
    Framing,
    /// The identifier or a positional value failed validation.
    Command(CommandError),
}

/// Mathematical image of [`DecodeError`].
pub enum DecodeErrorV {
    Framing,
    Command(CommandErrorV),
}

impl View for DecodeError {
    type V = DecodeErrorV;

    open spec fn view(&self) -> DecodeErrorV {
        match self {
            DecodeError::Framing => DecodeErrorV::Framing,
            DecodeError::Command(e) => DecodeErrorV::Command(e@),
        }
    }
}

/// One decoded message.
#[derive(Debug)]
pub struct AOMessage {
    pub command: ClientCommand,
}

/// The stateless codec: all decoding state lives in the buffer.
pub struct AOMessageCodec;

/// First index of `x` in `v` within `[from, to)`, or `to` when absent.
fn scan_range(v: &Vec<u8>, from: usize, to: usize, x: u8) -> (p: usize)
    requires
        from <= to <= v@.len(),
    ensures
        from <= p <= to,
        scan_byte(v@.subrange(from as int, to as int), x) == p - from,
{
    let mut p = from;
    loop
        invariant_except_break
            from <= p <= to <= v@.len(),
            forall|j: int| from <= j < p ==> v@[j] != x,
        ensures
            from <= p <= to <= v@.len(),
            forall|j: int| from <= j < p ==> v@[j] != x,
            p < to ==> v@[p as int] == x,
        decreases to - p,
    {
        if p == to {
            break ;
        }
        if v[p] == x {
            break ;
        }
        p += 1;
    }
    proof {
        let s = v@.subrange(from as int, to as int);
        assert forall|j: int| 0 <= j < p - from implies s[j] != x by {
            assert(s[j] == v@[from + j]);
        }
        if p < to {
            assert(s[p - from] == v@[p as int]);
        }
        lemma_scan_byte_is(s, x, p - from);
    }
    p
}

impl AOMessageCodec {
    /// Extracts at most one complete frame from the receive buffer. Without
    /// a terminator byte the buffer stays untouched and there is no message
    /// yet; with one, exactly the first frame's bytes are consumed —
    /// whatever follows them stays for the next call — and the frame either
    /// decodes to a command or reports how it is malformed.
    pub fn decode(&mut self, src: &mut bytes::BytesMut) -> (r: Result<
        Option<ClientCommand>,
        DecodeError,
    >)
        ensures
            ({
                let b = buf_bytes(*old(src));
                let t = scan_byte(b, MAGIC_END) as int;
                if t == b.len() {
                    &&& buf_bytes(*final(src)) == b
                    &&& r matches Ok(None)
                } else {
                    &&& buf_bytes(*final(src)) == b.skip(t + 1)
                    &&& match spec_parse_frame(b.take(t)) {
                        None => r matches Err(DecodeError::Framing),
                        Some(f) => {
                            let id = field_str(f.0);
                            let args = f.1.map_values(|fb: Seq<u8>| field_str(fb));
                            match wire_to_command(id, args) {
                                Ok(cv) => r matches Ok(Some(c)) && c@ == cv,
                                Err(ev) => r matches Err(DecodeError::Command(e)) && e@ == ev,
                            }
                        },
                    }
                }
            }),
    {
        let v = buf_to_vec(src);
        let n = v.len();
        let t = scan_range(&v, 0, n, MAGIC_END);
        proof {
            assert(v@.subrange(0, n as int) =~= v@);
        }
        if t == n {
            return Ok(None);
        }
        let ghost body = buf_bytes(*old(src)).take(t as int);
        let h = scan_range(&v, 0, t, MAGIC_SEPARATOR);
        proof {
            assert(v@.subrange(0, t as int) =~= body);
        }
        if h == t {
            buf_advance(src, t + 1);
            return Err(DecodeError::Framing);
        }
        let ident = ignore_ill_utf8(&v.as_slice()[0..h]);
        proof {
            assert(v@.subrange(0, h as int) =~= body.take(h as int));
        }
        // Split the range between the first separator and the terminator
        // into fields; the final field belongs to the terminator.
        let ghost rng = v@.subrange(h + 1, t as int);
        let mut segs: Vec<Vec<u8>> = Vec::new();
        let mut start: usize = h + 1;
        proof {
            assert(rng.skip(0) =~= rng);
            assert(segs.deep_view() =~= Seq::<Seq<u8>>::empty());
        }
        loop
            invariant_except_break
                h + 1 <= start <= t,
                t < n == v@.len(),
                rng == v@.subrange(h + 1, t as int),
                split_fields(rng) == segs.deep_view() + split_fields(
                    rng.skip(start - (h + 1) as int),
                ),
            ensures
                split_fields(rng) == segs.deep_view(),
            decreases t - start,
        {
            let p = scan_range(&v, start, t, MAGIC_SEPARATOR);
            let seg = slice_to_vec(&v.as_slice()[start..p]);
            proof {
                let off = start - (h + 1) as int;
                let tail = rng.skip(off);
                assert(tail =~= v@.subrange(start as int, t as int));
                assert(scan_byte(tail, MAGIC_SEPARATOR) == p - start);
                assert(seg@ =~= tail.take(p - start));
            }
            let ghost old_segs = segs.deep_view();
            proof {
                assert(seg.deep_view() =~= seg@);
            }
            segs.push(seg);
            proof {
                let off = start - (h + 1) as int;
                let tail = rng.skip(off);
                assert(segs.deep_view() =~= old_segs.push(seg@));
                if p == t {
                    assert(scan_byte(tail, MAGIC_SEPARATOR) == tail.len());
                    assert(split_fields(tail) == seq![tail]);
                    assert(seg@ =~= tail);
                    assert(segs.deep_view() + split_fields(rng.skip(t - (h + 1) as int))
                        =~= segs.deep_view() + split_fields(rng.skip(t - (h + 1) as int)));
                    assert(split_fields(rng) =~= segs.deep_view());
                } else {
                    assert(split_fields(tail) == seq![tail.take(p - start)] + split_fields(
                        tail.skip(p - start + 1),
                    ));
                    assert(tail.skip(p - start + 1) =~= rng.skip(p + 1 - (h + 1) as int));
                    assert(split_fields(rng) =~= segs.deep_view() + split_fields(
                        rng.skip(p + 1 - (h + 1) as int),
                    ));
                }
            }
            if p == t {
                break ;
            }
            start = p + 1;
        }
        proof {
            lemma_split_fields_nonempty(rng);
        }
        let popped = segs.pop();
        let ghost fields = split_fields(rng).take(split_fields(rng).len() - 1);
        proof {
            assert(segs.deep_view() =~= fields);
        }
        let mut args: Vec<String> = Vec::new();
        let m = segs.len();
        let mut i: usize = 0;
        while i < m
            invariant
                0 <= i <= m,
                m == segs@.len(),
                segs.deep_view() == fields,
                args.deep_view() =~= fields.take(i as int).map_values(
                    |fb: Seq<u8>| field_str(fb),
                ),
            decreases m - i,
        {
            let ghost old_args = args.deep_view();
            let s = ignore_ill_utf8(segs[i].as_slice());
            args.push(s);
            proof {
                assert(segs.deep_view()[i as int] =~= segs@[i as int]@);
                assert(s@ == field_str(fields[i as int]));
                assert(args.deep_view() =~= old_args.push(s@));
                assert(args.deep_view() =~= fields.take(i + 1).map_values(
                    |fb: Seq<u8>| field_str(fb),
                ));
            }
            i += 1;
        }
        proof {
            assert(fields.take(m as int) =~= fields);
            assert(args.deep_view() =~= fields.map_values(|fb: Seq<u8>| field_str(fb)));
            assert(body.skip(h + 1) =~= rng);
            assert(spec_parse_frame(body) == Some((body.take(h as int), fields)));
        }
        buf_advance(src, t + 1);
        match ClientCommand::from_wire(ident.as_str(), &args) {
            Ok(c) => Ok(Some(c)),
            Err(e) => Err(DecodeError::Command(e)),
        }
    }
}

/// The `#`-separated, `#`-terminated encoding of the argument fields.
pub open spec fn encode_fields(args: Seq<Seq<char>>) -> Seq<u8>
    decreases args.len(),
{
    if args.len() == 0 {
        Seq::empty()
    } else {
        vstd::utf8::encode_utf8(args[0]) + seq![MAGIC_SEPARATOR] + encode_fields(args.skip(1))
    }
}

/// One whole wire frame: identifier, separator, every argument followed by
/// a separator, and the terminator.
pub open spec fn spec_wire_frame(id: Seq<char>, args: Seq<Seq<char>>) -> Seq<u8> {
    vstd::utf8::encode_utf8(id) + seq![MAGIC_SEPARATOR] + encode_fields(args) + seq![MAGIC_END]
}

/// The exact bytes a server command is sent as.
pub open spec fn spec_encoded_command(c: crate::command::ServerCommandV) -> Seq<u8> {
    spec_wire_frame(
        spec_server_ident(c),
        match spec_server_args(c) {
            Some(a) => a,
            None => Seq::empty(),
        },
    )
}

impl AOMessageCodec {
    /// Appends the wire frame of one outgoing command to the send buffer,
    /// pre-sizing it to the exact byte length required. Encoding never
    /// fails; the one bound keeps the buffer within address range.
    pub fn encode(&mut self, item: ServerCommand, dst: &mut bytes::BytesMut)
        requires
            buf_bytes(*old(dst)).len() + spec_encoded_command(item@).len() <= usize::MAX,
        ensures
            buf_bytes(*final(dst)) == buf_bytes(*old(dst)) + spec_encoded_command(item@),
    {
        let ghost goal = spec_encoded_command(item@);
        let mut frame: Vec<u8> = Vec::new();
        let ident = item.ident();
        frame.extend_from_slice(ident.as_bytes());
        frame.push(MAGIC_SEPARATOR);
        proof {
            assert(frame@ =~= vstd::utf8::encode_utf8(ident@) + seq![MAGIC_SEPARATOR]);
        }
        match item.extract_args() {
            Some(args) => {
                let ghost av = args.deep_view();
                let m = args.len();
                let mut i: usize = 0;
                proof {
                    assert(av.skip(0) =~= av);
                }
                while i < m
                    invariant
                        0 <= i <= m,
                        m == args@.len(),
                        av == args.deep_view(),
                        spec_server_args(item@) == Some(av),
                        goal == spec_encoded_command(item@),
                        goal == frame@ + encode_fields(av.skip(i as int)) + seq![MAGIC_END],
                    decreases m - i,
                {
                    let a = args[i];
                    frame.extend_from_slice(a.as_bytes());
                    frame.push(MAGIC_SEPARATOR);
                    proof {
                        let tail = av.skip(i as int);
                        assert(tail[0] == a@);
                        assert(tail.skip(1) =~= av.skip(i + 1));
                        assert(encode_fields(tail) == vstd::utf8::encode_utf8(a@) + seq![
                            MAGIC_SEPARATOR,
                        ] + encode_fields(av.skip(i + 1)));
                        assert(goal =~= frame@ + encode_fields(av.skip(i + 1)) + seq![MAGIC_END]);
                    }
                    i += 1;
                }
                proof {
                    assert(av.skip(m as int) =~= Seq::<Seq<char>>::empty());
                }
            },
            None => {
                proof {
                    assert(goal =~= frame@ + encode_fields(Seq::<Seq<char>>::empty()) + seq![
                        MAGIC_END,
                    ]);
                }
            },
        }
        frame.push(MAGIC_END);
        proof {
            assert(frame@ =~= goal);
        }
        buf_reserve(dst, frame.len());
        buf_extend(dst, frame.as_slice());
    }
}

/// A buffer without a terminator byte holds no complete frame: decoding
/// returns no message and leaves the buffer exactly as it was, ready for
/// more bytes to be appended.
pub proof fn lemma_partial_frame_stays(b: Seq<u8>)
    requires
        forall|j: int| 0 <= j < b.len() ==> b[j] != MAGIC_END,
    ensures
        scan_byte(b, MAGIC_END) == b.len(),
{
    lemma_scan_byte_is(b, MAGIC_END, b.len() as int);
}

/// Two complete frames back-to-back decode across two successive calls:
/// the first call sees exactly the first frame's body and consumes exactly
/// the first frame's bytes, leaving the second frame — no byte lost or
/// duplicated — for the next call.
pub proof fn lemma_two_frames(f1: Seq<u8>, f2: Seq<u8>)
    requires
        f1.len() > 0,
        f1[f1.len() - 1] == MAGIC_END,
        forall|j: int| 0 <= j < f1.len() - 1 ==> f1[j] != MAGIC_END,
    ensures
        scan_byte(f1 + f2, MAGIC_END) == f1.len() - 1,
        (f1 + f2).skip(f1.len() as int) == f2,
        (f1 + f2).take(f1.len() - 1) == f1.take(f1.len() - 1),
{
    let b = f1 + f2;
    assert forall|j: int| 0 <= j < f1.len() - 1 implies b[j] != MAGIC_END by {
        assert(b[j] == f1[j]);
    }
    assert(b[f1.len() - 1] == MAGIC_END);
    lemma_scan_byte_is(b, MAGIC_END, f1.len() - 1);
    assert((f1 + f2).skip(f1.len() as int) =~= f2);
    assert((f1 + f2).take(f1.len() - 1) =~= f1.take(f1.len() - 1));
}

} // verus!
