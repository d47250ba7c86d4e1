//! Decoding of a chunked HTTP body.

use vstd::prelude::*;
use vstd::slice::slice_subrange;

verus! {

/// Carriage return.
pub const CR: u8 = 13;

/// Line feed.
pub const LF: u8 = 10;

/// The value of a hexadecimal digit.
pub open spec fn hex_digit(b: u8) -> Option<nat> {
    if 0x30 <= b <= 0x39 {
        Some((b - 0x30) as nat)
    } else if 0x61 <= b <= 0x66 {
        Some((b - 0x61 + 10) as nat)
    } else if 0x41 <= b <= 0x46 {
        Some((b - 0x41 + 10) as nat)
    } else {
        None
    }
}

/// The number that the hexadecimal digits `s` spell; `None` if `s` is
/// empty or holds anything but hexadecimal digits.
pub open spec fn hex_value(s: Seq<u8>) -> Option<nat>
    decreases s.len(),
{
    if s.len() == 0 {
        None
    } else if s.len() == 1 {
        hex_digit(s[0])
    } else {
        match (hex_value(s.drop_last()), hex_digit(s.last())) {
            (Some(high), Some(low)) => Some(high * 16 + low),
            _ => None,
        }
    }
}

/// The digits of a size line: the line without a leading `+`.
pub open spec fn size_digits(line: Seq<u8>) -> Seq<u8> {
    if line.len() > 0 && line[0] == 0x2b {
        line.subrange(1, line.len() as int)
    } else {
        line
    }
}

/// The chunk size that a size line spells: hexadecimal digits, after an
/// optional `+`, whose value fits a `usize`.
pub open spec fn chunk_size(line: Seq<u8>) -> Option<usize> {
    match hex_value(size_digits(line)) {
        Some(v) => if v <= usize::MAX {
            Some(v as usize)
        } else {
            None
        },
        None => None,
    }
}

/// Whether a CR LF stands in `buf` at offset `i`.
pub open spec fn crlf_at(buf: Seq<u8>, i: int) -> bool {
    0 <= i && i + 1 < buf.len() && buf[i] == CR && buf[i + 1] == LF
}

/// Whether the first CR LF of `buf` stands at offset `i`.
pub open spec fn first_crlf_at(buf: Seq<u8>, i: int) -> bool {
    crlf_at(buf, i) && forall|j: int| 0 <= j < i ==> !crlf_at(buf, j)
}

/// The size line that starts `buf`: the size that it spells and the offset
/// behind its CR LF. `None` if `buf` holds no CR LF or if what stands
/// before the first one is not a chunk size.
pub open spec fn spec_find_chunk_size(buf: Seq<u8>) -> Option<(usize, usize)> {
    if exists|i: int| first_crlf_at(buf, i) {
        let i = choose|i: int| first_crlf_at(buf, i);
        match chunk_size(buf.subrange(0, i)) {
            Some(size) => Some((size, (i + 2) as usize)),
            None => None,
        }
    } else {
        None
    }
}

/// The payload of the chunked body `buf`: the bytes of its chunks, in
/// order, up to the first chunk of size 0, the first size line that cannot
/// be read or the first chunk that `buf` does not hold in full. The two
/// bytes behind each chunk are skipped.
pub open spec fn dechunk(buf: Seq<u8>) -> Seq<u8>
    decreases buf.len(),
{
    match spec_find_chunk_size(buf) {
        None => Seq::empty(),
        Some((size, start)) => if size == 0 || start + size > buf.len() || start < 2 {
            Seq::empty()
        } else if start + size + 2 <= buf.len() {
            buf.subrange(start as int, start + size) + dechunk(
                buf.subrange(start + size + 2, buf.len() as int),
            )
        } else {
            buf.subrange(start as int, start + size)
        },
    }
}

/// The first CR LF of a buffer stands at one offset only.
pub proof fn lemma_first_crlf_unique(buf: Seq<u8>, i: int, j: int)
    requires
        first_crlf_at(buf, i),
        first_crlf_at(buf, j),
    ensures
        i == j,
{
    if i < j {
        assert(!crlf_at(buf, i));
    }
    if j < i {
        assert(!crlf_at(buf, j));
    }
}

fn digit_value(b: u8) -> (d: Option<u8>)
    ensures
        match d {
            Some(v) => hex_digit(b) == Some(v as nat) && v < 16,
            None => hex_digit(b) is None,
        },
{
    if 0x30 <= b && b <= 0x39 {
        Some(b - 0x30)
    } else if 0x61 <= b && b <= 0x66 {
        Some(b - 0x61 + 10)
    } else if 0x41 <= b && b <= 0x46 {
        Some(b - 0x41 + 10)
    } else {
        None
    }
}

/// Once a prefix of the digits is no number, neither is the whole.
proof fn lemma_hex_value_prefix(s: Seq<u8>, k: int)
    requires
        0 < k <= s.len(),
        hex_value(s.subrange(0, k)) is None,
    ensures
        hex_value(s) is None,
    decreases s.len() - k,
{
    if k < s.len() {
        let next = s.subrange(0, k + 1);
        assert(next.drop_last() =~= s.subrange(0, k));
        lemma_hex_value_prefix(s, k + 1);
    } else {
        assert(s.subrange(0, k) =~= s);
    }
}

/// The value of the digits grows with each digit.
proof fn lemma_hex_value_grows(s: Seq<u8>, k: int)
    requires
        0 < k <= s.len(),
        hex_value(s) is Some,
    ensures
        hex_value(s.subrange(0, k)) is Some,
        hex_value(s.subrange(0, k))->0 <= hex_value(s)->0,
    decreases s.len() - k,
{
    if hex_value(s.subrange(0, k)) is None {
        lemma_hex_value_prefix(s, k);
    }
    if k < s.len() {
        let next = s.subrange(0, k + 1);
        assert(next.drop_last() =~= s.subrange(0, k));
        lemma_hex_value_grows(s, k + 1);
    } else {
        assert(s.subrange(0, k) =~= s);
    }
}

/// Reads a chunk size: hexadecimal digits behind an optional `+`.
pub fn parse_chunk_size(line: &[u8]) -> (r: Option<usize>)
    ensures
        r == chunk_size(line@),
{
    let len: usize = line.len();
    let start: usize = if len > 0 && line[0] == 0x2b {
        1
    } else {
        0
    };
    let ghost digits = line@.subrange(start as int, len as int);
    assert(digits =~= size_digits(line@));
    if start == len {
        assert(digits.len() == 0);
        return None;
    }
    let mut value: usize = 0;
    let mut i: usize = start;
    while i < len
        invariant
            start <= i <= len,
            start < len,
            len == line@.len(),
            digits == line@.subrange(start as int, len as int),
            digits == size_digits(line@),
            i > start ==> hex_value(digits.subrange(0, i - start)) == Some(value as nat),
            i == start ==> value == 0,
        decreases len - i,
    {
        let ghost upto = digits.subrange(0, i - start + 1);
        proof {
            assert(upto.drop_last() =~= digits.subrange(0, i - start));
            assert(upto.last() == line@[i as int]);
        }
        let d = match digit_value(line[i]) {
            Some(d) => d,
            None => {
                proof {
                    assert(hex_value(upto) is None);
                    lemma_hex_value_prefix(digits, i - start + 1);
                }
                return None;
            },
        };
        assert(hex_value(upto) == Some((value * 16 + d) as nat));
        let shifted = match value.checked_mul(16) {
            Some(v) => v,
            None => {
                proof {
                    if hex_value(digits) is Some {
                        lemma_hex_value_grows(digits, i - start + 1);
                    }
                }
                return None;
            },
        };
        value = match shifted.checked_add(d as usize) {
            Some(v) => v,
            None => {
                proof {
                    if hex_value(digits) is Some {
                        lemma_hex_value_grows(digits, i - start + 1);
                    }
                }
                return None;
            },
        };
        i += 1;
    }
    assert(digits.subrange(0, len - start) =~= digits);
    Some(value)
}

/// Finds the size line that starts `buffer`: the chunk size and the offset
/// of the chunk's first byte.
pub fn find_chunk_size(buffer: &[u8]) -> (r: Option<(usize, usize)>)
    ensures
        r == spec_find_chunk_size(buffer@),
        r matches Some(v) ==> 2 <= v.1 <= buffer@.len(),
{
    let len: usize = buffer.len();
    let mut i: usize = 0;
    while i < len
        invariant
            i <= len,
            len == buffer@.len(),
            forall|j: int| 0 <= j < i ==> !crlf_at(buffer@, j),
        decreases len - i,
    {
        if buffer[i] == CR && i + 1 < len && buffer[i + 1] == LF {
            proof {
                assert(first_crlf_at(buffer@, i as int));
                let c = choose|c: int| first_crlf_at(buffer@, c);
                lemma_first_crlf_unique(buffer@, i as int, c);
            }
            return match parse_chunk_size(slice_subrange(buffer, 0, i)) {
                Some(size) => Some((size, i + 2)),
                None => None,
            };
        }
        i += 1;
    }
    proof {
        assert forall|c: int| !first_crlf_at(buffer@, c) by {
            if crlf_at(buffer@, c) {
                assert(!crlf_at(buffer@, c));
            }
        }
    }
    None
}

/// Decodes a chunked body into its payload: the bytes of the chunks, one
/// after the other and unchanged.
pub fn parse_chunked_body_raw(buffer: &[u8]) -> (body: Vec<u8>)
    ensures
        body@ == dechunk(buffer@),
{
    let len: usize = buffer.len();
    let mut body: Vec<u8> = Vec::with_capacity(len);
    let mut pos: usize = 0;
    assert(buffer@.subrange(0, len as int) =~= buffer@);
    loop
        invariant_except_break
            body@ + dechunk(buffer@.subrange(pos as int, len as int)) == dechunk(buffer@),
        invariant
            pos <= len,
            len == buffer@.len(),
        ensures
            body@ == dechunk(buffer@),
        decreases len - pos,
    {
        let remaining = slice_subrange(buffer, pos, len);
        let ghost rest = buffer@.subrange(pos as int, len as int);
        let (size, chunk_start) = match find_chunk_size(remaining) {
            Some(v) => v,
            None => {
                assert(body@ + Seq::<u8>::empty() =~= body@);
                break ;
            },
        };
        if size == 0 || size > remaining.len() - chunk_start {
            assert(body@ + Seq::<u8>::empty() =~= body@);
            break ;
        }
        let chunk_end: usize = chunk_start + size;
        let chunk = slice_subrange(remaining, chunk_start, chunk_end);
        let ghost before = body@;
        body.extend_from_slice(chunk);
        if remaining.len() - chunk_end < 2 {
            assert(before + rest.subrange(chunk_start as int, chunk_end as int) =~= body@);
            break ;
        }
        proof {
            let tail = rest.subrange(chunk_end + 2, rest.len() as int);
            assert(tail =~= buffer@.subrange(pos + chunk_end + 2, len as int));
            assert(before + (rest.subrange(chunk_start as int, chunk_end as int) + dechunk(tail))
                =~= body@ + dechunk(tail));
        }
        pos = pos + chunk_end + 2;
    }
    body
}

/// The chunked encoding of `chunks`: each chunk behind its size line and
/// CR LF and before a CR LF, then a chunk of size 0 and whatever ends the
/// body.
pub open spec fn chunked_body(lines: Seq<Seq<u8>>, chunks: Seq<Seq<u8>>, end: Seq<u8>) -> Seq<u8>
    decreases chunks.len(),
{
    if chunks.len() == 0 || lines.len() != chunks.len() {
        seq![0x30u8, CR, LF] + end
    } else {
        lines[0] + seq![CR, LF] + chunks[0] + seq![CR, LF] + chunked_body(
            lines.drop_first(),
            chunks.drop_first(),
            end,
        )
    }
}

/// Whether `lines` are size lines for `chunks`: one for each chunk,
/// spelling its length, which is not 0.
pub open spec fn sizes_of(lines: Seq<Seq<u8>>, chunks: Seq<Seq<u8>>) -> bool {
    &&& lines.len() == chunks.len()
    &&& forall|i: int|
        0 <= i < chunks.len() ==> (#[trigger] chunks[i]).len() > 0 && chunk_size(lines[i]) == Some(
            chunks[i].len() as usize,
        ) && chunks[i].len() <= usize::MAX
}

/// The chunks one after the other.
pub open spec fn payload(chunks: Seq<Seq<u8>>) -> Seq<u8>
    decreases chunks.len(),
{
    if chunks.len() == 0 {
        Seq::empty()
    } else {
        chunks[0] + payload(chunks.drop_first())
    }
}

/// Hexadecimal digits hold no carriage return.
pub proof fn lemma_hex_digits_no_cr(s: Seq<u8>)
    requires
        hex_value(s) is Some,
    ensures
        forall|i: int| 0 <= i < s.len() ==> s[i] != CR,
    decreases s.len(),
{
    if s.len() > 1 {
        lemma_hex_digits_no_cr(s.drop_last());
        assert forall|i: int| 0 <= i < s.len() implies s[i] != CR by {
            if i < s.len() - 1 {
                assert(s.drop_last()[i] == s[i]);
            }
        }
    }
}

/// A size line that ends at the first CR LF of a buffer is found there.
pub proof fn lemma_find_size_line(line: Seq<u8>, rest: Seq<u8>)
    requires
        chunk_size(line) is Some,
        line.len() + 2 + rest.len() <= usize::MAX,
    ensures
        spec_find_chunk_size(line + seq![CR, LF] + rest) == Some(
            (chunk_size(line)->0, (line.len() + 2) as usize),
        ),
{
    let buf = line + seq![CR, LF] + rest;
    let at = line.len() as int;
    lemma_hex_digits_no_cr(size_digits(line));
    assert forall|j: int| 0 <= j < at implies !crlf_at(buf, j) by {
        assert(buf[j] == line[j]);
        if line.len() > 0 && line[0] == 0x2b {
            if j > 0 {
                assert(size_digits(line)[j - 1] == line[j]);
            }
        } else {
            assert(size_digits(line)[j] == line[j]);
        }
    }
    assert(buf[at] == CR && buf[at + 1] == LF);
    assert(first_crlf_at(buf, at));
    let c = choose|c: int| first_crlf_at(buf, c);
    lemma_first_crlf_unique(buf, at, c);
    assert(buf.subrange(0, at) =~= line);
}

/// Decoding a chunked body gives the payload of its chunks, byte for byte:
/// nothing is added, dropped or encoded anew.
pub proof fn lemma_dechunk_chunked(lines: Seq<Seq<u8>>, chunks: Seq<Seq<u8>>, end: Seq<u8>)
    requires
        sizes_of(lines, chunks),
        chunked_body(lines, chunks, end).len() <= usize::MAX,
    ensures
        dechunk(chunked_body(lines, chunks, end)) == payload(chunks),
    decreases chunks.len(),
{
    let buf = chunked_body(lines, chunks, end);
    if chunks.len() == 0 {
        let zero = seq![0x30u8];
        assert(buf =~= zero + seq![CR, LF] + end);
        assert(size_digits(zero) =~= zero);
        assert(hex_value(zero) == Some(0nat));
        lemma_find_size_line(zero, end);
    } else {
        let line = lines[0];
        let chunk = chunks[0];
        let tail = chunked_body(lines.drop_first(), chunks.drop_first(), end);
        let rest = chunk + seq![CR, LF] + tail;
        assert(buf =~= line + seq![CR, LF] + rest);
        assert(sizes_of(lines.drop_first(), chunks.drop_first())) by {
            assert forall|i: int| 0 <= i < chunks.drop_first().len() implies (
            #[trigger] chunks.drop_first()[i]).len() > 0 && chunk_size(lines.drop_first()[i])
                == Some(chunks.drop_first()[i].len() as usize) && chunks.drop_first()[i].len()
                <= usize::MAX by {
                assert(chunks.drop_first()[i] == chunks[i + 1]);
                assert(lines.drop_first()[i] == lines[i + 1]);
            }
        }
        lemma_find_size_line(line, rest);
        lemma_dechunk_chunked(lines.drop_first(), chunks.drop_first(), end);
        let start = line.len() as int + 2;
        let size = chunk.len() as int;
        assert(buf.subrange(start, start + size) =~= chunk);
        assert(buf.subrange(start + size + 2, buf.len() as int) =~= tail);
    }
}

} // verus!
