//! Bytes to text: the decodes a run's raw output goes through, and the
//! decoder that puts codepoints back together across chunk boundaries.

use vstd::prelude::*;
use vstd::utf8::*;

verus! {

/// How `std::str::from_utf8` words its refusal of bytes that are not UTF-8.
pub uninterp spec fn utf8_fault(bytes: Seq<u8>) -> Seq<char>;

/// `std::str::from_utf8`: the text that the bytes encode, where they are
/// UTF-8 throughout; otherwise its error, as text.
#[verifier::external_body]
pub(crate) fn read_utf8(bytes: &[u8]) -> (r: Result<String, String>)
    ensures
        match r {
            Ok(text) => valid_utf8(bytes@) && text@ == decode_utf8(bytes@),
            Err(error) => !valid_utf8(bytes@) && error@ == utf8_fault(bytes@),
        },
{
    std::str::from_utf8(bytes).map(str::to_owned).map_err(|error| error.to_string())
}

/// Whether `more` completes `bytes` to the encoding of one character.
pub open spec fn completes(bytes: Seq<u8>, more: Seq<u8>) -> bool {
    &&& more.len() > 0
    &&& valid_first_scalar(bytes + more)
    &&& length_of_first_scalar(bytes + more) == bytes.len() + more.len()
}

/// Whether `bytes` are the beginning of one character's encoding, and not yet
/// the whole of it.
pub open spec fn opens(bytes: Seq<u8>) -> bool {
    bytes.len() > 0 && exists|more: Seq<u8>| #[trigger] completes(bytes, more)
}

/// How many bytes at the front of `bytes`, which begin with no character, are
/// read as one fault: as many as begin a character that does not follow, and
/// one where none does.
pub open spec fn fault_length(bytes: Seq<u8>) -> int {
    if bytes.len() >= 3 && opens(bytes.take(3)) {
        3
    } else if bytes.len() >= 2 && opens(bytes.take(2)) {
        2
    } else {
        1
    }
}

/// The text of any bytes: the characters that they encode, and a replacement
/// character for each fault among them.
pub open spec fn text_of(bytes: Seq<u8>) -> Seq<char>
    decreases bytes.len(),
{
    if bytes.len() == 0 {
        Seq::empty()
    } else if valid_first_scalar(bytes) {
        seq![decode_first_scalar(bytes) as char] + text_of(pop_first_scalar(bytes))
    } else {
        seq!['\u{FFFD}'] + text_of(bytes.skip(fault_length(bytes)))
    }
}

/// `String::from_utf8_lossy`: the text of any bytes. A sequence that is not
/// UTF-8 becomes one replacement character, and decoding resumes behind it;
/// such a sequence ends where an unexpected byte comes or the input is over,
/// and that byte is not part of it unless it is the first.
#[verifier::external_body]
fn decode_lossily(bytes: &[u8]) -> (text: String)
    ensures
        text@ == text_of(bytes@),
{
    String::from_utf8_lossy(bytes).into_owned()
}

/// The text of bytes that are UTF-8 throughout is what they encode.
pub proof fn lemma_valid_text(bytes: Seq<u8>)
    requires
        valid_utf8(bytes),
    ensures
        text_of(bytes) == decode_utf8(bytes),
    decreases bytes.len(),
{
    if bytes.len() > 0 {
        lemma_valid_text(pop_first_scalar(bytes));
    }
}

/// Decodes one raw output chunk to text. Valid UTF-8, the common case, is
/// taken as it stands; anything else falls back to the lossy reading.
pub fn into_text(bytes: Vec<u8>) -> (text: String)
    ensures
        text@ == text_of(bytes@),
{
    match read_utf8(bytes.as_slice()) {
        Ok(text) => {
            proof {
                lemma_valid_text(bytes@);
            }
            text
        },
        Err(_) => decode_lossily(bytes.as_slice()),
    }
}

/// The last `n` bytes.
pub open spec fn ending(bytes: Seq<u8>, n: int) -> Seq<u8> {
    bytes.skip(bytes.len() - n)
}

/// The length of the longest suffix of `bytes` that begins a character's
/// encoding which further bytes could complete; none where the bytes end with
/// a whole character, or with what no further byte can mend.
pub open spec fn incomplete_suffix(bytes: Seq<u8>) -> int {
    if bytes.len() >= 3 && opens(ending(bytes, 3)) {
        3
    } else if bytes.len() >= 2 && opens(ending(bytes, 2)) {
        2
    } else if bytes.len() >= 1 && opens(ending(bytes, 1)) {
        1
    } else {
        0
    }
}

/// Whether a second byte may follow a leading one: no encoding is longer than
/// it has to be, none is of a surrogate, and none lies beyond the last
/// character.
spec fn second_fits(lead: u8, second: u8) -> bool {
    &&& 0x80 <= second <= 0xBF
    &&& lead == 0xE0 ==> 0xA0 <= second
    &&& lead == 0xED ==> second <= 0x9F
    &&& lead == 0xF0 ==> 0x90 <= second
    &&& lead == 0xF4 ==> second <= 0x8F
}

/// [`opens`], byte by byte.
spec fn starts(bytes: Seq<u8>) -> bool {
    if bytes.len() == 1 {
        0xC2 <= bytes[0] <= 0xF4
    } else if bytes.len() == 2 {
        0xE0 <= bytes[0] <= 0xF4 && second_fits(bytes[0], bytes[1])
    } else {
        bytes.len() == 3 && 0xF0 <= bytes[0] <= 0xF4 && second_fits(bytes[0], bytes[1]) && 0x80
            <= bytes[2] <= 0xBF
    }
}

proof fn lemma_width_2(a: u8, b: u8)
    by (bit_vector)
    requires
        0xC0 <= a <= 0xDF,
        0x80 <= b <= 0xBF,
    ensures
        0x80u32 <= codepoint_width_2(a, b) <==> 0xC2 <= a,
        codepoint_width_2(a, b) < 0xD800u32,
{
}

proof fn lemma_width_3(a: u8, b: u8, c: u8)
    by (bit_vector)
    requires
        0xE0 <= a <= 0xEF,
        0x80 <= b <= 0xBF,
        0x80 <= c <= 0xBF,
    ensures
        0x800u32 <= codepoint_width_3(a, b, c) <==> (a != 0xE0 || 0xA0 <= b),
        (0xD800u32 <= codepoint_width_3(a, b, c) && codepoint_width_3(a, b, c) <= 0xDFFFu32)
            <==> (a == 0xED && 0xA0 <= b),
{
}

proof fn lemma_width_4(a: u8, b: u8, c: u8, d: u8)
    by (bit_vector)
    requires
        0xF0 <= a <= 0xF7,
        0x80 <= b <= 0xBF,
        0x80 <= c <= 0xBF,
        0x80 <= d <= 0xBF,
    ensures
        0x10000u32 <= codepoint_width_4(a, b, c, d) <==> (a != 0xF0 || 0x90 <= b),
        codepoint_width_4(a, b, c, d) <= 0x10ffffu32 <==> (a < 0xF4 || (a == 0xF4 && b <= 0x8F)),
{
}

/// What [`valid_first_scalar`] says of each byte.
proof fn lemma_first_scalar(s: Seq<u8>)
    ensures
        valid_first_scalar(s) <==> {
            ||| s.len() >= 1 && s[0] <= 0x7F
            ||| s.len() >= 2 && 0xC2 <= s[0] <= 0xDF && 0x80 <= s[1] <= 0xBF
            ||| s.len() >= 3 && 0xE0 <= s[0] <= 0xEF && second_fits(s[0], s[1]) && 0x80 <= s[2]
                <= 0xBF
            ||| s.len() >= 4 && 0xF0 <= s[0] <= 0xF4 && second_fits(s[0], s[1]) && 0x80 <= s[2]
                <= 0xBF && 0x80 <= s[3] <= 0xBF
        },
{
    if s.len() >= 1 && s[0] <= 0x7F {
        let a = s[0];
        assert(a <= 0x7F ==> codepoint_width_1(a) < 0xD800u32) by (bit_vector);
    }
    if s.len() >= 2 && 0xC0 <= s[0] <= 0xDF && 0x80 <= s[1] <= 0xBF {
        lemma_width_2(s[0], s[1]);
    }
    if s.len() >= 3 && 0xE0 <= s[0] <= 0xEF && 0x80 <= s[1] <= 0xBF && 0x80 <= s[2] <= 0xBF {
        lemma_width_3(s[0], s[1], s[2]);
    }
    if s.len() >= 4 && 0xF0 <= s[0] <= 0xF7 && 0x80 <= s[1] <= 0xBF && 0x80 <= s[2] <= 0xBF && 0x80
        <= s[3] <= 0xBF {
        lemma_width_4(s[0], s[1], s[2], s[3]);
    }
}

proof fn lemma_opens(bytes: Seq<u8>)
    ensures
        opens(bytes) <==> starts(bytes),
{
    if opens(bytes) {
        let more = choose|more: Seq<u8>| #[trigger] completes(bytes, more);
        let all = bytes + more;
        lemma_first_scalar(all);
        assert(forall|i: int| 0 <= i < bytes.len() ==> #[trigger] bytes[i] == all[i]);
        assert(all.len() <= 4);
    }
    if starts(bytes) {
        let lead = bytes[0];
        let second: u8 = if lead == 0xE0 {
            0xA0
        } else if lead == 0xF0 {
            0x90
        } else {
            0x80
        };
        let rest = if lead <= 0xDF {
            seq![second]
        } else if lead <= 0xEF {
            seq![second, 0x80]
        } else {
            seq![second, 0x80, 0x80]
        };
        let more = rest.skip(bytes.len() - 1);
        let all = bytes + more;
        assert(forall|i: int| 0 <= i < bytes.len() ==> #[trigger] all[i] == bytes[i]);
        assert(forall|i: int|
            0 <= i < more.len() ==> #[trigger] all[bytes.len() + i] == rest[bytes.len() - 1 + i]);
        assert(all.len() == rest.len() + 1);
        lemma_first_scalar(all);
        assert(completes(bytes, more));
    }
}

/// [`starts`] for bytes that stand in a list.
fn begins_character(bytes: &Vec<u8>, at: usize) -> (r: bool)
    requires
        at < bytes@.len(),
        bytes@.len() - at <= 3,
    ensures
        r == opens(bytes@.skip(at as int)),
{
    proof {
        lemma_opens(bytes@.skip(at as int));
    }
    let n: usize = bytes.len() - at;
    let lead: u8 = bytes[at];
    if n == 1 {
        return 0xC2 <= lead && lead <= 0xF4;
    }
    let second: u8 = bytes[at + 1];
    let fits: bool = 0x80 <= second && second <= 0xBF && (lead != 0xE0 || 0xA0 <= second) && (lead
        != 0xED || second <= 0x9F) && (lead != 0xF0 || 0x90 <= second) && (lead != 0xF4 || second
        <= 0x8F);
    if n == 2 {
        return 0xE0 <= lead && lead <= 0xF4 && fits;
    }
    let third: u8 = bytes[at + 2];
    0xF0 <= lead && lead <= 0xF4 && fits && 0x80 <= third && third <= 0xBF
}

/// [`incomplete_suffix`], computed.
pub fn incomplete_utf8_suffix(bytes: &Vec<u8>) -> (r: usize)
    ensures
        r == incomplete_suffix(bytes@),
        r <= 3,
        r <= bytes@.len(),
{
    let n: usize = bytes.len();
    if n >= 3 && begins_character(bytes, n - 3) {
        3
    } else if n >= 2 && begins_character(bytes, n - 2) {
        2
    } else if n >= 1 && begins_character(bytes, n - 1) {
        1
    } else {
        0
    }
}

/// Decodes a stream of raw chunks whose boundaries can split a multibyte
/// codepoint: the incomplete sequence a chunk ends with is held, at most
/// three bytes of it, and completed by the next chunk, so a split codepoint
/// decodes whole instead of as two replacement characters. Truly invalid
/// bytes still fall through to the lossy reading.
pub struct StreamDecoder {
    held: Vec<u8>,
}

impl View for StreamDecoder {
    type V = Seq<u8>;

    closed spec fn view(&self) -> Seq<u8> {
        self.held@
    }
}

impl Default for StreamDecoder {
    fn default() -> (r: StreamDecoder)
        ensures
            r@ == Seq::<u8>::empty(),
    {
        StreamDecoder { held: Vec::new() }
    }
}

/// Where a decoder that holds `held` cuts what it holds after `chunk`.
pub open spec fn cut(held: Seq<u8>, chunk: Seq<u8>) -> int {
    (held + chunk).len() - incomplete_suffix(held + chunk)
}

impl StreamDecoder {
    /// Decodes `bytes` in the context of the previous chunk's held tail and
    /// returns the text that is complete so far.
    pub fn push(&mut self, bytes: Vec<u8>) -> (text: String)
        ensures
            text@ == text_of((old(self)@ + bytes@).take(cut(old(self)@, bytes@))),
            final(self)@ == (old(self)@ + bytes@).skip(cut(old(self)@, bytes@)),
            final(self)@.len() <= 3,
    {
        let mut joined: Vec<u8> = Vec::new();
        let mut chunk = bytes;
        joined.append(&mut self.held);
        joined.append(&mut chunk);
        assert(joined@ =~= old(self)@ + bytes@);
        let at: usize = joined.len() - incomplete_utf8_suffix(&joined);
        let ghost all = joined@;
        let tail = joined.split_off(at);
        assert(joined@ =~= all.take(at as int));
        assert(tail@ =~= all.skip(at as int));
        self.held = tail;
        into_text(joined)
    }

    /// The stream is over: an incomplete sequence can no longer complete, so
    /// it decodes lossily; output is never dropped.
    pub fn finish(self) -> (text: String)
        ensures
            text@ == text_of(self@),
    {
        into_text(self.held)
    }
}

/// Everything a decoder that holds `held` says of the chunks that follow and
/// of the end of the stream.
pub open spec fn streamed(held: Seq<u8>, chunks: Seq<Seq<u8>>) -> Seq<char>
    decreases chunks.len(),
{
    if chunks.len() == 0 {
        text_of(held)
    } else {
        text_of((held + chunks[0]).take(cut(held, chunks[0]))) + streamed(
            (held + chunks[0]).skip(cut(held, chunks[0])),
            chunks.skip(1),
        )
    }
}

/// The bytes of all the chunks, one after the other.
pub open spec fn flat(chunks: Seq<Seq<u8>>) -> Seq<u8>
    decreases chunks.len(),
{
    if chunks.len() == 0 {
        Seq::empty()
    } else {
        chunks[0] + flat(chunks.skip(1))
    }
}

/// However a stream is cut into chunks, the decoder says exactly what decoding
/// the whole stream at once would say, be it UTF-8 throughout or not.
pub proof fn chunking_does_not_show(chunks: Seq<Seq<u8>>)
    ensures
        streamed(Seq::empty(), chunks) == text_of(flat(chunks)),
{
    assert(Seq::<u8>::empty() + flat(chunks) =~= flat(chunks));
    lemma_streamed(Seq::empty(), chunks);
}

proof fn lemma_streamed(held: Seq<u8>, chunks: Seq<Seq<u8>>)
    ensures
        streamed(held, chunks) == text_of(held + flat(chunks)),
    decreases chunks.len(),
{
    if chunks.len() == 0 {
        assert(held + flat(chunks) =~= held);
    } else {
        let joined = held + chunks[0];
        let rest = flat(chunks.skip(1));
        let at = cut(held, chunks[0]);
        let front = joined.take(at);
        let back = joined.skip(at);
        assert(held + flat(chunks) =~= front + (back + rest));
        if back.len() > 0 {
            assert(back =~= ending(joined, back.len() as int));
            lemma_opens(back);
            assert((back + rest)[0] == back[0]);
        } else {
            assert(front =~= joined);
        }
        lemma_text_parts(front, back + rest);
        lemma_streamed(back, chunks.skip(1));
    }
}

/// The text of two runs of bytes is the text of the one and then of the other,
/// where no character begun in the first goes on in the second.
proof fn lemma_text_parts(a: Seq<u8>, b: Seq<u8>)
    requires
        incomplete_suffix(a) == 0 || (b.len() > 0 && !is_continuation_byte(b[0])),
    ensures
        text_of(a + b) == text_of(a) + text_of(b),
    decreases a.len(),
{
    let all = a + b;
    if a.len() == 0 {
        assert(all =~= b);
        assert(text_of(a) + text_of(b) =~= text_of(b));
    } else {
        assert(forall|i: int| 0 <= i < a.len() ==> #[trigger] all[i] == a[i]);
        assert(b.len() > 0 ==> all[a.len() as int] == b[0]);
        lemma_first_scalar(a);
        lemma_first_scalar(all);
        lemma_opens(a);
        if a.len() <= 3 {
            assert(ending(a, a.len() as int) =~= a);
        }
        let n = if valid_first_scalar(a) {
            length_of_first_scalar(a)
        } else {
            lemma_opens(a.take(3));
            lemma_opens(a.take(2));
            lemma_opens(all.take(3));
            lemma_opens(all.take(2));
            fault_length(a)
        };
        assert(valid_first_scalar(all) == valid_first_scalar(a));
        if !valid_first_scalar(a) {
            assert(fault_length(all) == n);
        }
        let rest = a.skip(n);
        assert(all.skip(n) =~= rest + b);
        assert(ending(rest, 1) =~= ending(a, 1) || rest.len() < 1);
        assert(ending(rest, 2) =~= ending(a, 2) || rest.len() < 2);
        assert(ending(rest, 3) =~= ending(a, 3) || rest.len() < 3);
        lemma_text_parts(rest, b);
        if valid_first_scalar(a) {
            assert(pop_first_scalar(a) =~= rest);
            assert(pop_first_scalar(all) =~= all.skip(n));
        }
        assert(text_of(all) =~= text_of(a) + text_of(b));
    }
}

} // verus!
