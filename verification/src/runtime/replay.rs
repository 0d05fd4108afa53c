//! Raw-output capture and replay: the byte form in which raw subprocess lines
//! are stored, and its split back into lines.
//!
//! Captured bytes are the raw lines joined by `\n` with no trailing newline;
//! replay splits on `\n` and decodes each segment lossily as UTF-8. An empty
//! capture replays as zero lines.

use vstd::prelude::*;
use vstd::utf8::{decode_utf8, encode_utf8, valid_utf8, encode_scalar};

use crate::text::strs_view;

verus! {

/// What `String::from_utf8_lossy(bytes)` yields for bytes that are not valid UTF-8.
pub uninterp spec fn utf8_lossy(bytes: Seq<u8>) -> Seq<char>;

/// Lossy UTF-8 decoding: valid UTF-8 decodes to the characters it encodes;
/// other bytes decode as `String::from_utf8_lossy` does (invalid sequences
/// replaced by U+FFFD).
pub open spec fn lossy_decoded(bytes: Seq<u8>) -> Seq<char> {
    if valid_utf8(bytes) { decode_utf8(bytes) } else { utf8_lossy(bytes) }
}

/// Decodes `bytes` with `String::from_utf8_lossy`. Valid UTF-8 decodes to
/// the characters it encodes; for other bytes the result is named
/// `utf8_lossy`, the replacement rules being left unstated.
#[verifier::external_body]
pub(crate) fn decode_lossy(bytes: &[u8]) -> (s: String)
    ensures
        valid_utf8(bytes@) ==> s@ == decode_utf8(bytes@),
        !valid_utf8(bytes@) ==> s@ == utf8_lossy(bytes@),
{
    String::from_utf8_lossy(bytes).into_owned()
}

/// The pieces of `b` between `\n` bytes (`[b]` when there is none).
pub open spec fn byte_segments(b: Seq<u8>) -> Seq<Seq<u8>>
    decreases b.len(),
{
    if b.len() == 0 {
        seq![Seq::empty()]
    } else if b.last() == 10u8 {
        byte_segments(b.drop_last()).push(Seq::empty())
    } else {
        let s = byte_segments(b.drop_last());
        s.update(s.len() - 1, s.last().push(b.last()))
    }
}

/// Longest raw line kept whole, in bytes; longer lines are cut to this length.
pub const MAX_LINE_BYTES: usize = 1048576;

/// The marker appended to a line that was cut at `MAX_LINE_BYTES`.
pub open spec fn line_truncated_suffix() -> Seq<char> {
    " [lacon: line truncated]"@
}

/// The raw line a live run reads from one chunk of output (the bytes up to
/// and including a `\n`, or the final bytes): cut to `MAX_LINE_BYTES`,
/// decoded lossily, one trailing `\n` removed, and the cut marked.
pub open spec fn raw_line_text(buf: Seq<u8>) -> Seq<char> {
    let cut = buf.len() > MAX_LINE_BYTES;
    let t = if cut { buf.take(MAX_LINE_BYTES as int) } else { buf };
    let d = lossy_decoded(t);
    let s = if d.len() > 0 && d.last() == '\n' { d.drop_last() } else { d };
    if cut { s + line_truncated_suffix() } else { s }
}

/// Turns one chunk read from the command's output into a raw line (see
/// `raw_line_text`).
pub fn raw_line(buf: &[u8]) -> (s: String)
    ensures
        s@ == raw_line_text(buf@),
{
    let cut = buf.len() > MAX_LINE_BYTES;
    let t: &[u8] = if cut { vstd::slice::slice_subrange(buf, 0, MAX_LINE_BYTES) } else { buf };
    proof {
        if cut {
            assert(t@ =~= buf@.take(MAX_LINE_BYTES as int));
        }
    }
    let d = decode_lossy(t);
    let cs = crate::text::to_chars(d.as_str());
    let n = cs.len();
    let mut s = if n > 0 && cs[n - 1] == '\n' {
        let head = vstd::slice::slice_subrange(cs.as_slice(), 0, n - 1);
        assert(head@ =~= d@.drop_last());
        crate::text::from_chars(head)
    } else {
        d
    };
    if cut {
        s.append(" [lacon: line truncated]");
    }
    s
}

/// The segments replay decodes: none for empty input, else the `\n`-separated pieces.
pub open spec fn replay_segments(b: Seq<u8>) -> Seq<Seq<u8>> {
    if b.len() == 0 {
        Seq::empty()
    } else {
        byte_segments(b)
    }
}

/// The lines replay yields for `b`: each replay segment, lossily decoded.
pub open spec fn replayed_lines(b: Seq<u8>) -> Seq<Seq<char>> {
    replay_segments(b).map_values(|seg: Seq<u8>| lossy_decoded(seg))
}

/// The capture form of raw lines: their UTF-8 encodings joined by `\n`.
pub open spec fn joined_bytes(lines: Seq<Seq<char>>) -> Seq<u8>
    decreases lines.len(),
{
    if lines.len() == 0 {
        Seq::empty()
    } else if lines.len() == 1 {
        encode_utf8(lines[0])
    } else {
        joined_bytes(lines.drop_last()) + seq![10u8] + encode_utf8(lines.last())
    }
}

proof fn lemma_byte_segments_nonempty(b: Seq<u8>)
    ensures
        byte_segments(b).len() >= 1,
    decreases b.len(),
{
    if b.len() > 0 {
        lemma_byte_segments_nonempty(b.drop_last());
    }
}

/// Splits stored merged bytes into lines, lossily decoding UTF-8. Empty input
/// yields no lines; otherwise one line per `\n`-separated segment.
pub fn split_merged_bytes(merged_bytes: &[u8]) -> (lines: Vec<String>)
    ensures
        strs_view(lines@) == replayed_lines(merged_bytes@),
        lines@.len() == replay_segments(merged_bytes@).len(),
        forall|k: int|
            0 <= k < lines@.len() ==> #[trigger] lines@[k]@ == lossy_decoded(replay_segments(merged_bytes@)[k]),
{
    let ghost b = merged_bytes@;
    let mut lines: Vec<String> = Vec::new();
    if merged_bytes.len() == 0 {
        assert(strs_view(lines@) =~= replayed_lines(b));
        return lines;
    }
    let mut cur: Vec<u8> = Vec::new();
    let mut i: usize = 0;
    assert(b.take(0) =~= Seq::<u8>::empty());
    while i < merged_bytes.len()
        invariant
            b == merged_bytes@,
            i <= b.len(),
            byte_segments(b.take(i as int)).len() == lines@.len() + 1,
            byte_segments(b.take(i as int)).last() == cur@,
            forall|k: int|
                0 <= k < lines@.len() ==> #[trigger] lines@[k]@ == lossy_decoded(byte_segments(b.take(i as int))[k]),
        decreases b.len() - i,
    {
        let ghost segs = byte_segments(b.take(i as int));
        assert(b.take(i + 1).drop_last() =~= b.take(i as int));
        assert(b.take(i + 1).last() == b[i as int]);
        proof { lemma_byte_segments_nonempty(b.take(i as int)); }
        if merged_bytes[i] == 10u8 {
            let line = decode_lossy(cur.as_slice());
            lines.push(line);
            cur = Vec::new();
            assert(cur@ =~= Seq::<u8>::empty());
        } else {
            cur.push(merged_bytes[i]);
        }
        i = i + 1;
    }
    assert(b.take(b.len() as int) =~= b);
    let line = decode_lossy(cur.as_slice());
    lines.push(line);
    assert(strs_view(lines@) =~= replayed_lines(b));
    lines
}

/// Encodes raw lines in the capture form (joined by `\n`, no trailing newline).
pub fn capture_raw_bytes(raw_buffer: &Vec<String>) -> (b: Vec<u8>)
    ensures
        b@ == joined_bytes(strs_view(raw_buffer@)),
{
    let ghost lv = strs_view(raw_buffer@);
    let mut out: Vec<u8> = Vec::new();
    let mut i: usize = 0;
    while i < raw_buffer.len()
        invariant
            i <= raw_buffer@.len(),
            lv == strs_view(raw_buffer@),
            out@ == joined_bytes(lv.take(i as int)),
        decreases raw_buffer@.len() - i,
    {
        assert(lv.take(i + 1).drop_last() =~= lv.take(i as int));
        assert(lv.take(i + 1).last() == raw_buffer@[i as int]@);
        if i > 0 {
            out.push(10u8);
        }
        let bytes = raw_buffer[i].as_str().as_bytes();
        out.extend_from_slice(bytes);
        i = i + 1;
    }
    assert(lv.take(raw_buffer@.len() as int) =~= lv);
    out
}

proof fn lemma_scalar_no_newline(c: char)
    requires
        c != '\n',
    ensures
        !encode_scalar(c as u32).contains(10u8),
{
    let v = c as u32;
    assert(v != 10u32);
    vstd::utf8::char_is_scalar(c);
    if 0 <= v <= 0x7F {
        assert((v & 0x7F) as u8 != 10u8) by (bit_vector)
            requires v <= 0x7F, v != 10u32;
    } else if 0x80 <= v <= 0x7FF {
        assert((0xC0u8 | ((v >> 6) & 0x1F) as u8) != 10u8) by (bit_vector);
        assert((0x80u8 | (v & 0x3F) as u8) != 10u8) by (bit_vector);
    } else if 0x800 <= v <= 0xFFFF && !(0xD800 <= v <= 0xDFFF) {
        assert((0xE0u8 | ((v >> 12) & 0x0F) as u8) != 10u8) by (bit_vector);
        assert((0x80u8 | ((v >> 6) & 0x3F) as u8) != 10u8) by (bit_vector);
        assert((0x80u8 | (v & 0x3F) as u8) != 10u8) by (bit_vector);
    } else {
        assert((0xF0u8 | ((v >> 18) & 0x7) as u8) != 10u8) by (bit_vector);
        assert((0x80u8 | ((v >> 12) & 0x3F) as u8) != 10u8) by (bit_vector);
        assert((0x80u8 | ((v >> 6) & 0x3F) as u8) != 10u8) by (bit_vector);
        assert((0x80u8 | (v & 0x3F) as u8) != 10u8) by (bit_vector);
    }
}

proof fn lemma_encode_no_newline(l: Seq<char>)
    requires
        !l.contains('\n'),
    ensures
        !encode_utf8(l).contains(10u8),
    decreases l.len(),
{
    if l.len() > 0 {
        assert(l[0] != '\n');
        lemma_scalar_no_newline(l[0]);
        assert(!l.drop_first().contains('\n')) by {
            if l.drop_first().contains('\n') {
                let k = choose|k: int| 0 <= k < l.drop_first().len() && l.drop_first()[k] == '\n';
                assert(l[k + 1] == '\n');
            }
        }
        lemma_encode_no_newline(l.drop_first());
        let a = encode_scalar(l[0] as u32);
        let r = encode_utf8(l.drop_first());
        if (a + r).contains(10u8) {
            let k = choose|k: int| 0 <= k < (a + r).len() && (a + r)[k] == 10u8;
            if k < a.len() {
                assert(a[k] == 10u8);
            } else {
                assert(r[k - a.len()] == 10u8);
            }
        }
    }
}

/// Appending newline-free bytes extends the last segment.
proof fn lemma_segments_append_plain(x: Seq<u8>, e: Seq<u8>)
    requires
        !e.contains(10u8),
    ensures
        byte_segments(x + e).len() == byte_segments(x).len(),
        byte_segments(x + e) == byte_segments(x).update(
            byte_segments(x).len() - 1,
            byte_segments(x).last() + e,
        ),
    decreases e.len(),
{
    lemma_byte_segments_nonempty(x);
    if e.len() == 0 {
        assert(x + e =~= x);
        let s = byte_segments(x);
        assert(s.update(s.len() - 1, s.last() + e) =~= s);
    } else {
        assert(!e.drop_last().contains(10u8)) by {
            if e.drop_last().contains(10u8) {
                let k = choose|k: int| 0 <= k < e.drop_last().len() && e.drop_last()[k] == 10u8;
                assert(e[k] == 10u8);
            }
        }
        lemma_segments_append_plain(x, e.drop_last());
        assert((x + e).drop_last() =~= x + e.drop_last());
        assert((x + e).last() == e.last());
        assert(e.last() != 10u8) by {
            assert(e[e.len() - 1] == e.last());
        }
        let s = byte_segments(x);
        assert((s.last() + e.drop_last()).push(e.last()) =~= s.last() + e);
        assert(s.update(s.len() - 1, s.last() + e.drop_last()).update(
            s.len() - 1,
            (s.last() + e.drop_last()).push(e.last()),
        ) =~= s.update(s.len() - 1, s.last() + e));
    }
}

/// Captured lines split back into exactly their encodings.
proof fn lemma_joined_segments(lines: Seq<Seq<char>>)
    requires
        lines.len() >= 1,
        forall|k: int| 0 <= k < lines.len() ==> !(#[trigger] lines[k]).contains('\n'),
    ensures
        byte_segments(joined_bytes(lines)).len() == lines.len(),
        forall|k: int|
            0 <= k < lines.len() ==> #[trigger] byte_segments(joined_bytes(lines))[k] == encode_utf8(lines[k]),
    decreases lines.len(),
{
    if lines.len() == 1 {
        lemma_encode_no_newline(lines[0]);
        lemma_segments_append_plain(Seq::empty(), encode_utf8(lines[0]));
        assert(Seq::<u8>::empty() + encode_utf8(lines[0]) =~= encode_utf8(lines[0]));
        assert(byte_segments(Seq::<u8>::empty()) == seq![Seq::<u8>::empty()]);
        assert(Seq::<u8>::empty() + encode_utf8(lines[0]) =~= encode_utf8(lines[0]));
    } else {
        let pre = lines.drop_last();
        assert forall|k: int| 0 <= k < pre.len() implies !(#[trigger] pre[k]).contains('\n') by {
            assert(pre[k] == lines[k]);
        }
        lemma_joined_segments(pre);
        let j = joined_bytes(pre);
        let e = encode_utf8(lines.last());
        assert(!lines[lines.len() - 1].contains('\n'));
        lemma_encode_no_newline(lines.last());
        let jn = j + seq![10u8];
        assert(jn.drop_last() =~= j);
        assert(jn.last() == 10u8);
        lemma_segments_append_plain(jn, e);
        let sj = byte_segments(j);
        assert(byte_segments(jn) == sj.push(Seq::<u8>::empty()));
        assert(Seq::<u8>::empty() + e =~= e);
        assert(joined_bytes(lines) == jn + e);
        assert forall|k: int| 0 <= k < lines.len() implies #[trigger] byte_segments(joined_bytes(lines))[k]
            == encode_utf8(lines[k]) by {
            if k < pre.len() {
                assert(sj[k] == encode_utf8(pre[k]));
            }
        }
    }
}

/// Replay inverts capture: splitting the captured bytes of raw lines (none
/// containing `\n`) gives back, segment by segment, valid UTF-8 encoding
/// exactly those lines. The one exception is a single empty line, whose
/// capture is empty and replays as no line at all.
proof fn lemma_capture_replay_round_trip(lines: Seq<Seq<char>>)
    requires
        forall|k: int| 0 <= k < lines.len() ==> !(#[trigger] lines[k]).contains('\n'),
        !(lines.len() == 1 && lines[0].len() == 0),
    ensures
        replay_segments(joined_bytes(lines)).len() == lines.len(),
        forall|k: int|
            0 <= k < lines.len() ==> valid_utf8(#[trigger] replay_segments(joined_bytes(lines))[k])
                && decode_utf8(replay_segments(joined_bytes(lines))[k]) == lines[k],
{
    if lines.len() == 0 {
    } else {
        lemma_joined_segments(lines);
        if joined_bytes(lines).len() == 0 {
            if lines.len() == 1 {
                assert(encode_utf8(lines[0]).len() == 0);
                if lines[0].len() > 0 {
                    assert(encode_scalar(lines[0][0] as u32).len() > 0);
                    assert(encode_utf8(lines[0]) == encode_scalar(lines[0][0] as u32) + encode_utf8(lines[0].drop_first()));
                }
            } else {
                assert(joined_bytes(lines) == joined_bytes(lines.drop_last()) + seq![10u8] + encode_utf8(lines.last()));
            }
        }
        assert forall|k: int| 0 <= k < lines.len() implies valid_utf8(#[trigger] replay_segments(joined_bytes(lines))[k])
            && decode_utf8(replay_segments(joined_bytes(lines))[k]) == lines[k] by {
            vstd::utf8::encode_utf8_valid_utf8(lines[k]);
            vstd::utf8::encode_utf8_decode_utf8(lines[k]);
        }
    }
}

/// Replay reproduces the raw lines a live run captured: splitting the
/// capture of lines that contain no `\n` gives back exactly those lines.
/// The one exception is a single empty line, whose capture is empty and
/// replays as no line at all.
pub proof fn law_replay_inverts_capture(lines: Seq<Seq<char>>)
    requires
        forall|k: int| 0 <= k < lines.len() ==> !(#[trigger] lines[k]).contains('\n'),
        !(lines.len() == 1 && lines[0].len() == 0),
    ensures
        replayed_lines(joined_bytes(lines)) == lines,
{
    lemma_capture_replay_round_trip(lines);
    let r = replayed_lines(joined_bytes(lines));
    assert forall|k: int| 0 <= k < lines.len() implies #[trigger] r[k] == lines[k] by {
        assert(valid_utf8(replay_segments(joined_bytes(lines))[k]));
    }
    assert(r =~= lines);
}

} // verus!
