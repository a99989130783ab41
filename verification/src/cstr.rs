use vstd::prelude::*;
use vstd::utf8::*;

verus! {

/// Number of bytes before the first NUL byte of `bytes`, or its whole
/// length when it holds no NUL byte.
pub open spec fn c_string_len(bytes: Seq<u8>) -> nat
    decreases bytes.len(),
{
    if bytes.len() == 0 || bytes[0] == 0 {
        0
    } else {
        1 + c_string_len(bytes.drop_first())
    }
}

/// The bytes of the C string held at the start of `bytes`: everything
/// before the first NUL byte.
pub open spec fn c_string_bytes(bytes: Seq<u8>) -> Seq<u8> {
    bytes.take(c_string_len(bytes) as int)
}

/// What `String::from_utf8_lossy` makes of `bytes`.
pub uninterp spec fn utf8_lossy(bytes: Seq<u8>) -> Seq<char>;

/// The text of the C string held at the start of `bytes`, decoded as UTF-8
/// with invalid sequences replaced.
pub open spec fn c_string_text(bytes: Seq<u8>) -> Seq<char> {
    utf8_lossy(c_string_bytes(bytes))
}

/// `text` is what `c_string_lossy` reads from `bytes`: the lossy decoding
/// of the C string at their start, which is its exact decoding when that
/// C string is valid UTF-8.
pub open spec fn read_c_string(text: Seq<char>, bytes: Seq<u8>) -> bool {
    &&& text == c_string_text(bytes)
    &&& valid_utf8(c_string_bytes(bytes)) ==> text == decode_utf8(c_string_bytes(bytes))
}

/// `c_string_len` is the position of the first NUL byte, or the length.
pub proof fn lemma_c_string_len(bytes: Seq<u8>)
    ensures
        c_string_len(bytes) <= bytes.len(),
        forall|j: int| 0 <= j < c_string_len(bytes) ==> bytes[j] != 0,
        c_string_len(bytes) < bytes.len() ==> bytes[c_string_len(bytes) as int] == 0,
    decreases bytes.len(),
{
    if bytes.len() != 0 && bytes[0] != 0 {
        lemma_c_string_len(bytes.drop_first());
        assert forall|j: int| 0 <= j < c_string_len(bytes) implies bytes[j] != 0 by {
            if j > 0 {
                assert(bytes[j] == bytes.drop_first()[j - 1]);
            }
        }
    }
}

/// Any position that is the first NUL byte (or the end) is `c_string_len`.
pub proof fn lemma_c_string_len_unique(bytes: Seq<u8>, n: int)
    requires
        0 <= n <= bytes.len(),
        forall|j: int| 0 <= j < n ==> bytes[j] != 0,
        n < bytes.len() ==> bytes[n] == 0,
    ensures
        c_string_len(bytes) == n,
    decreases bytes.len(),
{
    if n > 0 {
        assert(bytes[0] != 0);
        let rest = bytes.drop_first();
        assert forall|j: int| 0 <= j < n - 1 implies rest[j] != 0 by {
            assert(rest[j] == bytes[j + 1]);
        }
        if n - 1 < rest.len() {
            assert(rest[n - 1] == bytes[n]);
        }
        lemma_c_string_len_unique(rest, n - 1);
    }
}

/// Calls `String::from_utf8_lossy` and takes the owned `String`.
/// Claimed: the result is `utf8_lossy` of the bytes, and, as the standard
/// library documents, bytes that are valid UTF-8 are decoded unchanged.
#[verifier::external_body]
fn string_from_utf8_lossy(bytes: &[u8]) -> (s: String)
    ensures
        s@ == utf8_lossy(bytes@),
        valid_utf8(bytes@) ==> s@ == decode_utf8(bytes@),
{
    String::from_utf8_lossy(bytes).into_owned()
}

/// Finds the length of the C string at the start of `buf`: the index of its
/// first NUL byte, or `buf.len()` when there is none.
pub fn c_string_length(buf: &[u8]) -> (n: usize)
    ensures
        n == c_string_len(buf@),
{
    let mut i: usize = 0;
    while i < buf.len() && buf[i] != 0
        invariant
            i <= buf.len(),
            forall|j: int| 0 <= j < i ==> buf@[j] != 0,
        decreases buf.len() - i,
    {
        i = i + 1;
    }
    proof {
        lemma_c_string_len_unique(buf@, i as int);
    }
    i
}

/// Reads the C string at the start of `buf` (up to its first NUL byte, or
/// all of it when there is none) into a `String`, replacing invalid UTF-8.
pub fn c_string_lossy(buf: &[u8]) -> (s: String)
    ensures
        read_c_string(s@, buf@),
{
    let n = c_string_length(buf);
    proof {
        lemma_c_string_len(buf@);
    }
    let prefix = &buf[0..n];
    assert(prefix@ == c_string_bytes(buf@));
    string_from_utf8_lossy(prefix)
}

/// No byte of the UTF-8 encoding of a scalar other than U+0000 is NUL.
proof fn lemma_encode_scalar_no_nul(c: u32)
    requires
        is_scalar(c),
        c != 0,
    ensures
        forall|i: int| 0 <= i < encode_scalar(c).len() ==> encode_scalar(c)[i] != 0,
{
    assert(c != 0 && c <= 0x7F ==> (c & 0x7F) as u8 != 0u8) by (bit_vector);
    assert(forall|x: u8| (0xC0u8 | x) != 0u8) by (bit_vector);
    assert(forall|x: u8| (0xE0u8 | x) != 0u8) by (bit_vector);
    assert(forall|x: u8| (0xF0u8 | x) != 0u8) by (bit_vector);
    assert(forall|x: u8| (0x80u8 | x) != 0u8) by (bit_vector);
}

/// No byte of the UTF-8 encoding of a text without U+0000 is NUL.
proof fn lemma_encode_utf8_no_nul(text: Seq<char>)
    requires
        forall|i: int| 0 <= i < text.len() ==> text[i] != '\0',
    ensures
        forall|i: int| 0 <= i < encode_utf8(text).len() ==> encode_utf8(text)[i] != 0,
    decreases text.len(),
{
    if text.len() > 0 {
        let c = text[0] as u32;
        char_is_scalar(text[0]);
        if c == 0 {
            char_u32_cast(text[0], c);
            assert(text[0] == (0u32 as char));
            assert(('\0' as u32) == 0);
            char_u32_cast('\0', 0u32);
        }
        assert(c != 0);
        lemma_encode_scalar_no_nul(c);
        let rest = text.drop_first();
        assert forall|i: int| 0 <= i < rest.len() implies rest[i] != '\0' by {
            assert(rest[i] == text[i + 1]);
        }
        lemma_encode_utf8_no_nul(rest);
        let head = encode_scalar(c);
        let tail = encode_utf8(rest);
        assert(encode_utf8(text) == head + tail);
        assert forall|i: int| 0 <= i < encode_utf8(text).len() implies encode_utf8(text)[i] != 0 by {
            if i < head.len() {
                assert(encode_utf8(text)[i] == head[i]);
            } else {
                assert(encode_utf8(text)[i] == tail[i - head.len()]);
            }
        }
    }
}

/// The UTF-8 encoding of a text that holds U+0000 holds a NUL byte.
proof fn lemma_encode_utf8_has_nul(text: Seq<char>, k: int)
    requires
        0 <= k < text.len(),
        text[k] == '\0',
    ensures
        exists|i: int| 0 <= i < encode_utf8(text).len() && encode_utf8(text)[i] == 0,
    decreases text.len(),
{
    let head = encode_scalar(text[0] as u32);
    let rest = text.drop_first();
    assert(encode_utf8(text) == head + encode_utf8(rest));
    if k == 0 {
        assert(('\0' as u32) == 0);
        assert((0u32 & 0x7F) as u8 == 0u8) by (bit_vector);
        assert(head[0] == 0);
        assert(encode_utf8(text)[0] == 0);
    } else {
        assert(rest[k - 1] == text[k]);
        lemma_encode_utf8_has_nul(rest, k - 1);
        let i = choose|i: int| 0 <= i < encode_utf8(rest).len() && encode_utf8(rest)[i] == 0;
        assert(encode_utf8(text)[head.len() + i] == 0);
    }
}

/// The bytes of a C string that holds `text`: its UTF-8 encoding followed by
/// a NUL byte; none when the text itself holds U+0000, which a C string
/// cannot carry.
pub fn c_string_of(text: &str) -> (b: Option<Vec<u8>>)
    ensures
        b is None <==> text@.contains('\0'),
        b matches Some(v) ==> v@ == encode_utf8(text@) + seq![0u8],
{
    let bytes = text.as_bytes();
    let mut out: Vec<u8> = Vec::new();
    let mut i: usize = 0;
    while i < bytes.len()
        invariant
            bytes@ == encode_utf8(text@),
            i <= bytes.len(),
            out@ == bytes@.take(i as int),
            forall|j: int| 0 <= j < i ==> bytes@[j] != 0,
        decreases bytes.len() - i,
    {
        if bytes[i] == 0 {
            proof {
                if !text@.contains('\0') {
                    lemma_encode_utf8_no_nul(text@);
                }
            }
            return None;
        }
        out.push(bytes[i]);
        assert(bytes@.take(i + 1) =~= bytes@.take(i as int).push(bytes@[i as int]));
        i = i + 1;
    }
    proof {
        if text@.contains('\0') {
            let k = choose|k: int| 0 <= k < text@.len() && text@[k] == '\0';
            lemma_encode_utf8_has_nul(text@, k);
        }
        assert(bytes@.take(i as int) =~= bytes@);
    }
    out.push(0u8);
    Some(out)
}

/// A text without U+0000, written as UTF-8 and ended by a NUL byte, is
/// read back whole: whatever follows the NUL byte is ignored, and the bytes
/// before it decode to the text.
pub proof fn lemma_c_string_round_trip(text: Seq<char>, rest: Seq<u8>)
    requires
        forall|i: int| 0 <= i < text.len() ==> text[i] != '\0',
    ensures
        c_string_bytes(encode_utf8(text) + seq![0u8] + rest) == encode_utf8(text),
        valid_utf8(c_string_bytes(encode_utf8(text) + seq![0u8] + rest)),
        decode_utf8(c_string_bytes(encode_utf8(text) + seq![0u8] + rest)) == text,
{
    let enc = encode_utf8(text);
    let buf = enc + seq![0u8] + rest;
    lemma_encode_utf8_no_nul(text);
    assert forall|j: int| 0 <= j < enc.len() implies buf[j] != 0 by {
        assert(buf[j] == enc[j]);
    }
    assert(buf[enc.len() as int] == 0);
    lemma_c_string_len_unique(buf, enc.len() as int);
    assert(c_string_bytes(buf) =~= enc);
    encode_utf8_valid_utf8(text);
    encode_utf8_decode_utf8(text);
}

/// `bytes` holds no NUL byte.
pub open spec fn nul_free(bytes: Seq<u8>) -> bool {
    forall|i: int| 0 <= i < bytes.len() ==> bytes[i] != 0
}

/// Reading a C string gives the lossy text of exactly the bytes before its
/// first NUL byte, however many there are, and nothing of what follows it.
pub proof fn lemma_read_c_string_prefix(text: Seq<char>, p: Seq<u8>, rest: Seq<u8>)
    requires
        nul_free(p),
        read_c_string(text, p + seq![0u8] + rest),
    ensures
        text == utf8_lossy(p),
        valid_utf8(p) ==> text == decode_utf8(p),
{
    let buf = p + seq![0u8] + rest;
    assert forall|j: int| 0 <= j < p.len() implies buf[j] != 0 by {
        assert(buf[j] == p[j]);
    }
    assert(buf[p.len() as int] == 0);
    lemma_c_string_len_unique(buf, p.len() as int);
    assert(c_string_bytes(buf) =~= p);
}

/// A buffer without any NUL byte is read whole.
pub proof fn lemma_read_c_string_whole(text: Seq<char>, p: Seq<u8>)
    requires
        nul_free(p),
        read_c_string(text, p),
    ensures
        text == utf8_lossy(p),
        valid_utf8(p) ==> text == decode_utf8(p),
{
    lemma_c_string_len_unique(p, p.len() as int);
    assert(c_string_bytes(p) =~= p);
}

/// Reading back a text without U+0000 that was written as UTF-8 and ended
/// by a NUL byte gives the text itself, whatever its length and whatever
/// follows the NUL byte.
pub proof fn lemma_read_c_string_text(text: Seq<char>, t: Seq<char>, rest: Seq<u8>)
    requires
        forall|i: int| 0 <= i < t.len() ==> t[i] != '\0',
        read_c_string(text, encode_utf8(t) + seq![0u8] + rest),
    ensures
        text == t,
{
    lemma_c_string_round_trip(t, rest);
}

} // verus!
