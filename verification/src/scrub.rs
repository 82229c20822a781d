//! Redaction: secret values replaced in text, whole or arriving in chunks,
//! and the proofs of what the replacement leaves behind.

use crate::text;
use vstd::prelude::*;

verus! {

/// What replaces a secret value wherever one is scrubbed. Distinctive enough
/// to grep the logs for, so a redaction reads as deliberate rather than as
/// the agent printing something odd.
pub const REDACTED: &'static str = "[redacted secret]";

/// `words` with every pattern replaced by [`REDACTED`], one pattern after
/// the other.
pub open spec fn scrubbed(patterns: Seq<Seq<char>>, words: Seq<char>) -> Seq<char>
    decreases patterns.len(),
{
    if patterns.len() == 0 {
        words
    } else {
        scrubbed(patterns.skip(1), text::replaced(words, patterns[0], REDACTED@))
    }
}

/// Whether none of the patterns stands anywhere in `words`.
pub open spec fn free_of(patterns: Seq<Seq<char>>, words: Seq<char>) -> bool {
    forall|i: int| 0 <= i < patterns.len() ==> !#[trigger] text::contains(words, patterns[i])
}

/// Text that may have been scrubbed: borrowed back where nothing matched, so
/// that the common case copies nothing.
pub enum Scrubbed<'t> {
    Borrowed(&'t str),
    Owned(String),
}

impl<'t> Scrubbed<'t> {
    /// The text, scrubbed or not.
    pub open spec fn words(self) -> Seq<char> {
        match self {
            Scrubbed::Borrowed(s) => s@,
            Scrubbed::Owned(s) => s@,
        }
    }

    pub fn as_str(&self) -> (s: &str)
        ensures
            s@ == self.words(),
    {
        match self {
            Scrubbed::Borrowed(s) => s,
            Scrubbed::Owned(s) => s.as_str(),
        }
    }

    pub fn into_owned(self) -> (s: String)
        ensures
            s@ == self.words(),
    {
        match self {
            Scrubbed::Borrowed(s) => s.to_owned(),
            Scrubbed::Owned(s) => s,
        }
    }
}

/// Replaces every pattern in `words` with [`REDACTED`], in the order of the
/// patterns.
pub fn scrub<'t>(patterns: &Vec<String>, words: &'t str) -> (r: Scrubbed<'t>)
    ensures
        r.words() == scrubbed(text::texts(patterns@), words@),
        r is Borrowed <==> free_of(text::texts(patterns@), words@),
        r matches Scrubbed::Borrowed(s) ==> s@ == words@,
{
    let mut current: Option<String> = None;
    let ghost all = text::texts(patterns@);
    assert(all.skip(0) =~= all);
    for i in 0..patterns.len()
        invariant
            all == text::texts(patterns@),
            all.len() == patterns@.len(),
            match current {
                Some(s) => scrubbed(all.skip(i as int), s@) == scrubbed(all, words@) && !free_of(
                    all,
                    words@,
                ),
                None => scrubbed(all.skip(i as int), words@) == scrubbed(all, words@) && forall|
                    j: int,
                |
                    0 <= j < i ==> !text::contains(words@, #[trigger] all[j]),
            },
    {
        let pattern = patterns[i].as_str();
        assert(all[i as int] == pattern@);
        assert(all.skip(i as int)[0] == pattern@);
        assert(all.skip(i as int).skip(1) =~= all.skip(i + 1));
        let next: Option<String> = match &current {
            Some(s) => {
                if text::stands_in(s.as_str(), pattern) {
                    Some(text::replace(s.as_str(), pattern, REDACTED))
                } else {
                    proof {
                        lemma_replacing_nothing(s@, pattern@);
                    }
                    Some(s.clone())
                }
            },
            None => {
                if text::stands_in(words, pattern) {
                    Some(text::replace(words, pattern, REDACTED))
                } else {
                    proof {
                        lemma_replacing_nothing(words@, pattern@);
                    }
                    None
                }
            },
        };
        current = next;
    }
    assert(all.skip(patterns@.len() as int) =~= Seq::empty());
    match current {
        Some(s) => Scrubbed::Owned(s),
        None => Scrubbed::Borrowed(words),
    }
}

proof fn lemma_replacing_nothing(words: Seq<char>, pattern: Seq<char>)
    requires
        !text::contains(words, pattern),
    ensures
        text::replaced(words, pattern, REDACTED@) == words,
    decreases words.len(),
{
    if pattern.len() > 0 && words.len() > 0 {
        assert(!text::occurs_at(words, pattern, 0));
        lemma_suffix_holds_no_more(words, pattern, 1);
        lemma_replacing_nothing(words.skip(1), pattern);
        assert(seq![words[0]] + words.skip(1) =~= words);
    }
}

proof fn lemma_suffix_holds_no_more(words: Seq<char>, pattern: Seq<char>, n: int)
    requires
        0 <= n <= words.len(),
        !text::contains(words, pattern),
    ensures
        !text::contains(words.skip(n), pattern),
{
    assert forall|i: int| !text::occurs_at(words.skip(n), pattern, i) by {
        if text::occurs_at(words.skip(n), pattern, i) {
            assert(words.subrange(n + i, n + i + pattern.len()) =~= words.skip(n).subrange(
                i,
                i + pattern.len(),
            ));
            assert(text::occurs_at(words, pattern, n + i));
        }
    }
}

/// Text that holds no secret value comes back as it is.
pub proof fn text_without_a_secret_is_unchanged(patterns: Seq<Seq<char>>, words: Seq<char>)
    requires
        free_of(patterns, words),
    ensures
        scrubbed(patterns, words) == words,
    decreases patterns.len(),
{
    if patterns.len() > 0 {
        assert(!text::contains(words, patterns[0]));
        lemma_replacing_nothing(words, patterns[0]);
        assert forall|i: int| 0 <= i < patterns.skip(1).len() implies !#[trigger] text::contains(
            words,
            patterns.skip(1)[i],
        ) by {
            assert(!text::contains(words, patterns[i + 1]));
        }
        text_without_a_secret_is_unchanged(patterns.skip(1), words);
    }
}

/// Whether `pattern`, laid over [`REDACTED`] at `shift` so that the two
/// overlap, differs from it somewhere in the overlap.
pub open spec fn clashes(pattern: Seq<char>, shift: int) -> bool {
    exists|i: int|
        0 <= i < pattern.len() && 0 <= shift + i < REDACTED@.len() && #[trigger] pattern[i]
            != REDACTED@[shift + i]
}

/// Whether no occurrence of `pattern` in any text can touch a redaction
/// that stands in it.
pub open spec fn keeps_clear(pattern: Seq<char>) -> bool {
    pattern.len() > 0 && forall|shift: int|
        -pattern.len() < shift < REDACTED@.len() ==> #[trigger] clashes(pattern, shift)
}

/// Whether every pattern keeps clear of redactions.
pub open spec fn all_keep_clear(patterns: Seq<Seq<char>>) -> bool {
    forall|i: int| 0 <= i < patterns.len() ==> #[trigger] keeps_clear(patterns[i])
}

proof fn lemma_redaction_untouched(before: Seq<char>, after: Seq<char>, pattern: Seq<char>, i: int)
    requires
        keeps_clear(pattern),
        text::occurs_at(before + REDACTED@ + after, pattern, i),
    ensures
        i + pattern.len() <= before.len() || i >= before.len() + REDACTED@.len(),
{
    let whole = before + REDACTED@ + after;
    if i + pattern.len() > before.len() && i < before.len() + REDACTED@.len() {
        let shift = i - before.len();
        assert(clashes(pattern, shift));
        let j = choose|j: int|
            0 <= j < pattern.len() && 0 <= shift + j < REDACTED@.len() && #[trigger] pattern[j]
                != REDACTED@[shift + j];
        assert(whole.subrange(i, i + pattern.len())[j] == whole[i + j]);
        assert(whole[i + j] == REDACTED@[shift + j]);
    }
}

proof fn lemma_front_was_there(
    words: Seq<char>,
    pattern: Seq<char>,
    other: Seq<char>,
    from: int,
)
    requires
        keeps_clear(other),
        0 <= from < other.len(),
        text::occurs_at(text::replaced(words, pattern, REDACTED@), other.skip(from), 0),
    ensures
        text::occurs_at(words, other.skip(from), 0),
    decreases words.len(),
{
    let rest = other.skip(from);
    if pattern.len() > 0 && words.len() > 0 {
        let out = text::replaced(words, pattern, REDACTED@);
        assert(out.subrange(0, rest.len() as int) == rest);
        if text::occurs_at(words, pattern, 0) {
            let tail = text::replaced(words.skip(pattern.len() as int), pattern, REDACTED@);
            assert(out == REDACTED@ + tail);
            reveal_strlit("[redacted secret]");
            assert(clashes(other, -from));
            let j = choose|j: int|
                0 <= j < other.len() && 0 <= -from + j < REDACTED@.len() && #[trigger] other[j]
                    != REDACTED@[-from + j];
            assert(rest[j - from] == other[j]);
            assert(out.subrange(0, rest.len() as int)[j - from] == out[j - from]);
            assert(false);
        } else {
            let tail = text::replaced(words.skip(1), pattern, REDACTED@);
            assert(out == seq![words[0]] + tail);
            assert(out.subrange(0, rest.len() as int)[0] == words[0]);
            if from + 1 < other.len() {
                let shorter = other.skip(from + 1);
                assert(shorter =~= rest.skip(1));
                assert(tail.subrange(0, shorter.len() as int) =~= out.subrange(
                    0,
                    rest.len() as int,
                ).skip(1));
                lemma_front_was_there(words.skip(1), pattern, other, from + 1);
                assert(words.subrange(0, rest.len() as int) =~= seq![words[0]] + words.skip(
                    1,
                ).subrange(0, shorter.len() as int));
                assert(rest =~= seq![words[0]] + shorter);
            } else {
                assert(rest.len() == 1);
                assert(words.subrange(0, 1) =~= rest);
            }
        }
    }
}

proof fn lemma_replacing_adds_none(words: Seq<char>, pattern: Seq<char>, other: Seq<char>)
    requires
        keeps_clear(other),
        pattern.len() > 0,
        other == pattern || !text::contains(words, other),
    ensures
        !text::contains(text::replaced(words, pattern, REDACTED@), other),
    decreases words.len(),
{
    let out = text::replaced(words, pattern, REDACTED@);
    assert forall|i: int| !text::occurs_at(out, other, i) by {
        if text::occurs_at(out, other, i) {
            if words.len() == 0 {
                assert(out =~= words);
            } else if text::occurs_at(words, pattern, 0) {
                let rest = words.skip(pattern.len() as int);
                let tail = text::replaced(rest, pattern, REDACTED@);
                if other != pattern {
                    lemma_suffix_holds_no_more(words, other, pattern.len() as int);
                }
                lemma_replacing_adds_none(rest, pattern, other);
                assert(Seq::<char>::empty() + REDACTED@ + tail =~= out);
                lemma_redaction_untouched(Seq::empty(), tail, other, i);
                let k = i - REDACTED@.len();
                assert(tail.subrange(k, k + other.len()) =~= out.subrange(i, i + other.len()));
                assert(text::occurs_at(tail, other, k));
            } else {
                let rest = words.skip(1);
                let tail = text::replaced(rest, pattern, REDACTED@);
                if i == 0 {
                    assert(other.skip(0) =~= other);
                    lemma_front_was_there(words, pattern, other, 0);
                    assert(text::contains(words, other));
                } else {
                    if other != pattern {
                        lemma_suffix_holds_no_more(words, other, 1);
                    }
                    lemma_replacing_adds_none(rest, pattern, other);
                    assert(tail.subrange(i - 1, i - 1 + other.len()) =~= out.subrange(
                        i,
                        i + other.len(),
                    ));
                    assert(text::occurs_at(tail, other, i - 1));
                }
            }
        }
    }
}

/// Scrubbed text holds no secret value, as long as no value can run into a
/// redaction mark.
pub proof fn scrubbed_text_holds_no_secret(patterns: Seq<Seq<char>>, words: Seq<char>)
    requires
        all_keep_clear(patterns),
    ensures
        free_of(patterns, scrubbed(patterns, words)),
{
    lemma_scrubbing_clears(patterns, 0, words);
    assert(patterns.skip(0) =~= patterns);
}

proof fn lemma_scrubbing_clears(patterns: Seq<Seq<char>>, done: int, words: Seq<char>)
    requires
        all_keep_clear(patterns),
        0 <= done <= patterns.len(),
        forall|i: int| 0 <= i < done ==> !#[trigger] text::contains(words, patterns[i]),
    ensures
        free_of(patterns, scrubbed(patterns.skip(done), words)),
    decreases patterns.len() - done,
{
    if done < patterns.len() {
        let pattern = patterns[done];
        assert(keeps_clear(pattern));
        let next = text::replaced(words, pattern, REDACTED@);
        assert forall|i: int| 0 <= i < done + 1 implies !#[trigger] text::contains(
            next,
            patterns[i],
        ) by {
            assert(keeps_clear(patterns[i]));
            if i < done {
                assert(!text::contains(words, patterns[i]));
            }
            lemma_replacing_adds_none(words, pattern, patterns[i]);
        }
        assert(patterns.skip(done).skip(1) =~= patterns.skip(done + 1));
        lemma_scrubbing_clears(patterns, done + 1, next);
    }
}

/// Whether an occurrence of `pattern` could lie across position `at` of a
/// text of which `seen` is known and more is to come: it would begin before
/// `at`, end after it, and agree with what is known.
pub open spec fn may_straddle(seen: Seq<char>, pattern: Seq<char>, at: int) -> bool {
    exists|start: int| #[trigger] straddles_from(seen, pattern, at, start)
}

/// Whether an occurrence of `pattern` that begins at `start` could lie
/// across position `at`.
pub open spec fn straddles_from(seen: Seq<char>, pattern: Seq<char>, at: int, start: int) -> bool {
    0 <= start < at < start + pattern.len() && forall|j: int|
        0 <= j < pattern.len() && start + j < seen.len() ==> seen[start + j] == #[trigger] pattern[j]
}

/// Whether no pattern can lie across position `at`, whatever comes next.
pub open spec fn safe_at(patterns: Seq<Seq<char>>, seen: Seq<char>, at: int) -> bool {
    forall|i: int| 0 <= i < patterns.len() ==> !#[trigger] may_straddle(seen, patterns[i], at)
}

/// The last position, up to `limit`, at which the text can be cut safely.
pub open spec fn safe_cut(patterns: Seq<Seq<char>>, seen: Seq<char>, limit: int) -> int
    decreases limit,
{
    if limit <= 0 {
        0
    } else if safe_at(patterns, seen, limit) {
        limit
    } else {
        safe_cut(patterns, seen, limit - 1)
    }
}

/// [`straddles_from`], computed.
fn lies_across(seen: &Vec<char>, pattern: &Vec<char>, at: usize, start: usize) -> (r: bool)
    requires
        start < at <= seen@.len(),
    ensures
        r == straddles_from(seen@, pattern@, at as int, start as int),
{
    if pattern.len() <= at - start {
        return false;
    }
    let mut j: usize = 0;
    while j < pattern.len() && j < seen.len() - start
        invariant
            start < at <= seen@.len(),
            at < start + pattern@.len(),
            j <= pattern@.len(),
            start + j <= seen@.len(),
            forall|k: int| 0 <= k < j ==> seen@[start + k] == #[trigger] pattern@[k],
        decreases pattern@.len() - j,
    {
        if seen[start + j] != pattern[j] {
            return false;
        }
        j = j + 1;
    }
    true
}

/// [`safe_at`], computed.
fn cuts_safely(patterns: &Vec<String>, seen: &Vec<char>, at: usize) -> (r: bool)
    requires
        at <= seen@.len(),
    ensures
        r == safe_at(text::texts(patterns@), seen@, at as int),
{
    let ghost all = text::texts(patterns@);
    for i in 0..patterns.len()
        invariant
            all == text::texts(patterns@),
            at <= seen@.len(),
            forall|j: int| 0 <= j < i ==> !#[trigger] may_straddle(seen@, all[j], at as int),
    {
        let pattern = text::chars_of(patterns[i].as_str());
        assert(all[i as int] == pattern@);
        for start in 0..at
            invariant
                at <= seen@.len(),
                all[i as int] == pattern@,
                all == text::texts(patterns@),
                0 <= i < all.len(),
                forall|k: int|
                    0 <= k < start ==> !#[trigger] straddles_from(
                        seen@,
                        pattern@,
                        at as int,
                        k,
                    ),
        {
            if lies_across(seen, &pattern, at, start) {
                assert(straddles_from(seen@, all[i as int], at as int, start as int));
                assert(may_straddle(seen@, all[i as int], at as int));
                return false;
            }
        }
        assert(!may_straddle(seen@, all[i as int], at as int));
    }
    true
}

/// Scrubs text that arrives in chunks: what could still turn out to be part
/// of a secret value is held until the next chunk decides, so a value split
/// across two chunks is redacted whole.
pub struct StreamScrubber {
    patterns: Vec<String>,
    held: Vec<char>,
}

impl StreamScrubber {
    /// The values the scrubber looks for.
    pub closed spec fn patterns(&self) -> Seq<Seq<char>> {
        text::texts(self.patterns@)
    }

    /// The text it holds back.
    pub closed spec fn held(&self) -> Seq<char> {
        self.held@
    }

    pub fn new(patterns: Vec<String>) -> (r: StreamScrubber)
        ensures
            r.patterns() == text::texts(patterns@),
            r.held() == Seq::<char>::empty(),
    {
        StreamScrubber { patterns, held: Vec::new() }
    }

    /// What of the text so far is safe to say, scrubbed.
    pub fn push(&mut self, chunk: String) -> (r: String)
        ensures
            ({
                let seen = old(self).held() + chunk@;
                let at = safe_cut(old(self).patterns(), seen, seen.len() as int);
                &&& r@ == scrubbed(old(self).patterns(), seen.take(at))
                &&& final(self).held() == seen.skip(at)
            }),
            final(self).patterns() == old(self).patterns(),
    {
        let mut seen: Vec<char> = Vec::new();
        let mut arrived = text::chars_of(chunk.as_str());
        seen.append(&mut self.held);
        seen.append(&mut arrived);
        assert(seen@ =~= old(self).held() + chunk@);
        let mut at: usize = seen.len();
        while at > 0 && !cuts_safely(&self.patterns, &seen, at)
            invariant
                at <= seen@.len(),
                self.patterns() == old(self).patterns(),
                safe_cut(self.patterns(), seen@, seen@.len() as int) == safe_cut(
                    self.patterns(),
                    seen@,
                    at as int,
                ),
            decreases at,
        {
            at = at - 1;
        }
        let ready = text::slice_of(&seen, 0, at);
        let said = text::string_of(ready.as_slice());
        self.held = text::slice_from(&seen, at);
        scrub(&self.patterns, said.as_str()).into_owned()
    }

    /// The stream is over: what was held is said, scrubbed.
    pub fn finish(self) -> (r: String)
        ensures
            r@ == scrubbed(self.patterns(), self.held()),
    {
        let said = text::string_of(self.held.as_slice());
        scrub(&self.patterns, said.as_str()).into_owned()
    }
}

/// Everything a scrubber that holds `held` says of the chunks that follow
/// and of the end of the stream.
pub open spec fn streamed(
    patterns: Seq<Seq<char>>,
    held: Seq<char>,
    chunks: Seq<Seq<char>>,
) -> Seq<char>
    decreases chunks.len(),
{
    if chunks.len() == 0 {
        scrubbed(patterns, held)
    } else {
        let seen = held + chunks[0];
        let at = safe_cut(patterns, seen, seen.len() as int);
        scrubbed(patterns, seen.take(at)) + streamed(patterns, seen.skip(at), chunks.skip(1))
    }
}

/// The text of all the chunks, one after the other.
pub open spec fn whole(chunks: Seq<Seq<char>>) -> Seq<char>
    decreases chunks.len(),
{
    if chunks.len() == 0 {
        Seq::empty()
    } else {
        chunks[0] + whole(chunks.skip(1))
    }
}

/// However a text is cut into chunks, scrubbing it chunk by chunk says
/// exactly what scrubbing the whole text at once would say, as long as no
/// value can run into a redaction mark.
pub proof fn a_split_value_is_redacted_whole(patterns: Seq<Seq<char>>, chunks: Seq<Seq<char>>)
    requires
        all_keep_clear(patterns),
    ensures
        streamed(patterns, Seq::empty(), chunks) == scrubbed(patterns, whole(chunks)),
{
    lemma_streamed(patterns, Seq::empty(), chunks);
    assert(Seq::<char>::empty() + whole(chunks) =~= whole(chunks));
}

proof fn lemma_streamed(patterns: Seq<Seq<char>>, held: Seq<char>, chunks: Seq<Seq<char>>)
    requires
        all_keep_clear(patterns),
    ensures
        streamed(patterns, held, chunks) == scrubbed(patterns, held + whole(chunks)),
    decreases chunks.len(),
{
    if chunks.len() == 0 {
        assert(held + whole(chunks) =~= held);
    } else {
        let seen = held + chunks[0];
        let at = safe_cut(patterns, seen, seen.len() as int);
        lemma_cut_is_safe(patterns, seen, seen.len() as int);
        let front = seen.take(at);
        let back = seen.skip(at) + whole(chunks.skip(1));
        assert(front + back =~= held + whole(chunks));
        assert forall|i: int| 0 <= i < patterns.len() implies !#[trigger] crosses(
            front + back,
            patterns[i],
            front.len() as int,
        ) by {
            if crosses(front + back, patterns[i], front.len() as int) {
                let s = choose|s: int|
                    0 <= s < front.len() < s + patterns[i].len() && #[trigger] text::occurs_at(
                        front + back,
                        patterns[i],
                        s,
                    );
                let all = front + back;
                assert forall|j: int| 0 <= j < patterns[i].len() && s + j < seen.len() implies seen[
                s + j] == #[trigger] patterns[i][j] by {
                    assert(all.subrange(s, s + patterns[i].len())[j] == all[s + j]);
                }
                assert(straddles_from(seen, patterns[i], at, s));
                assert(may_straddle(seen, patterns[i], at));
            }
        }
        lemma_scrubbing_splits(patterns, front, back);
        lemma_streamed(patterns, seen.skip(at), chunks.skip(1));
    }
}

proof fn lemma_cut_is_safe(patterns: Seq<Seq<char>>, seen: Seq<char>, limit: int)
    requires
        0 <= limit <= seen.len(),
    ensures
        0 <= safe_cut(patterns, seen, limit) <= limit,
        safe_at(patterns, seen, safe_cut(patterns, seen, limit)),
    decreases limit,
{
    if limit > 0 && !safe_at(patterns, seen, limit) {
        lemma_cut_is_safe(patterns, seen, limit - 1);
    }
}

/// Whether an occurrence of `pattern` lies across position `at` of `words`.
pub open spec fn crosses(words: Seq<char>, pattern: Seq<char>, at: int) -> bool {
    exists|s: int|
        0 <= s < at < s + pattern.len() && #[trigger] text::occurs_at(words, pattern, s)
}

proof fn lemma_scrubbing_splits(patterns: Seq<Seq<char>>, front: Seq<char>, back: Seq<char>)
    requires
        all_keep_clear(patterns),
        forall|i: int|
            0 <= i < patterns.len() ==> !#[trigger] crosses(
                front + back,
                patterns[i],
                front.len() as int,
            ),
    ensures
        scrubbed(patterns, front + back) == scrubbed(patterns, front) + scrubbed(patterns, back),
    decreases patterns.len(),
{
    if patterns.len() > 0 {
        let pattern = patterns[0];
        assert(keeps_clear(pattern));
        assert(!crosses(front + back, pattern, front.len() as int));
        lemma_replacing_splits(front, back, pattern);
        let front2 = text::replaced(front, pattern, REDACTED@);
        let back2 = text::replaced(back, pattern, REDACTED@);
        let rest = patterns.skip(1);
        assert forall|i: int| 0 <= i < rest.len() implies !#[trigger] crosses(
            front2 + back2,
            rest[i],
            front2.len() as int,
        ) by {
            assert(rest[i] == patterns[i + 1]);
            assert(keeps_clear(patterns[i + 1]));
            assert(!crosses(front + back, patterns[i + 1], front.len() as int));
            lemma_no_new_crossing(front, back, pattern, rest[i]);
        }
        assert forall|i: int| 0 <= i < rest.len() implies #[trigger] keeps_clear(rest[i]) by {
            assert(keeps_clear(patterns[i + 1]));
        }
        lemma_scrubbing_splits(rest, front2, back2);
    }
}

proof fn lemma_replacing_splits(front: Seq<char>, back: Seq<char>, pattern: Seq<char>)
    requires
        pattern.len() > 0,
        !crosses(front + back, pattern, front.len() as int),
    ensures
        text::replaced(front + back, pattern, REDACTED@) == text::replaced(
            front,
            pattern,
            REDACTED@,
        ) + text::replaced(back, pattern, REDACTED@),
    decreases front.len(),
{
    let all = front + back;
    if front.len() == 0 {
        assert(all =~= back);
        assert(front =~= Seq::empty());
        assert(Seq::<char>::empty() + text::replaced(back, pattern, REDACTED@) =~= text::replaced(
            back,
            pattern,
            REDACTED@,
        ));
    } else {
        let n = pattern.len() as int;
        if text::occurs_at(all, pattern, 0) {
            assert(n <= front.len());
            assert(front.subrange(0, n) =~= all.subrange(0, n));
            assert(all.skip(n) =~= front.skip(n) + back);
            lemma_crossing_shifts(front, back, pattern, n);
            lemma_replacing_splits(front.skip(n), back, pattern);
            assert(text::replaced(all, pattern, REDACTED@) =~= text::replaced(
                front,
                pattern,
                REDACTED@,
            ) + text::replaced(back, pattern, REDACTED@));
        } else {
            if text::occurs_at(front, pattern, 0) {
                assert(front.subrange(0, n) =~= all.subrange(0, n));
            }
            assert(all.skip(1) =~= front.skip(1) + back);
            lemma_crossing_shifts(front, back, pattern, 1);
            lemma_replacing_splits(front.skip(1), back, pattern);
            assert(text::replaced(all, pattern, REDACTED@) =~= text::replaced(
                front,
                pattern,
                REDACTED@,
            ) + text::replaced(back, pattern, REDACTED@));
        }
    }
}

proof fn lemma_crossing_shifts(front: Seq<char>, back: Seq<char>, pattern: Seq<char>, n: int)
    requires
        0 <= n <= front.len(),
        !crosses(front + back, pattern, front.len() as int),
    ensures
        !crosses(front.skip(n) + back, pattern, front.skip(n).len() as int),
{
    let shorter = front.skip(n) + back;
    if crosses(shorter, pattern, front.skip(n).len() as int) {
        let s = choose|s: int|
            0 <= s < front.skip(n).len() < s + pattern.len() && #[trigger] text::occurs_at(
                shorter,
                pattern,
                s,
            );
        assert((front + back).subrange(s + n, s + n + pattern.len()) =~= shorter.subrange(
            s,
            s + pattern.len(),
        ));
        assert(text::occurs_at(front + back, pattern, s + n));
    }
}

proof fn lemma_exact_was_there(
    words: Seq<char>,
    pattern: Seq<char>,
    other: Seq<char>,
    from: int,
    to: int,
)
    requires
        keeps_clear(other),
        0 <= from <= to <= other.len(),
        text::replaced(words, pattern, REDACTED@) == other.subrange(from, to),
    ensures
        words == other.subrange(from, to),
    decreases words.len(),
{
    if pattern.len() > 0 && words.len() > 0 {
        let part = other.subrange(from, to);
        let out = text::replaced(words, pattern, REDACTED@);
        reveal_strlit("[redacted secret]");
        if text::occurs_at(words, pattern, 0) {
            let tail = text::replaced(words.skip(pattern.len() as int), pattern, REDACTED@);
            assert(out == REDACTED@ + tail);
            assert(clashes(other, -from));
            let j = choose|j: int|
                0 <= j < other.len() && 0 <= -from + j < REDACTED@.len() && #[trigger] other[j]
                    != REDACTED@[-from + j];
            assert(part[j - from] == other[j]);
            assert(out[j - from] == REDACTED@[j - from]);
            assert(false);
        } else {
            let tail = text::replaced(words.skip(1), pattern, REDACTED@);
            assert(out == seq![words[0]] + tail);
            assert(out[0] == words[0]);
            assert(out.len() == part.len());
            assert(tail =~= out.skip(1));
            assert(part.skip(1) =~= other.subrange(from + 1, to));
            lemma_exact_was_there(words.skip(1), pattern, other, from + 1, to);
            assert(words =~= seq![words[0]] + words.skip(1));
            assert(part =~= seq![words[0]] + other.subrange(from + 1, to));
        }
    }
}

/// Whether `words` ends with the first `n` characters of `other`.
spec fn ends_with_front(words: Seq<char>, other: Seq<char>, n: int) -> bool {
    n <= words.len() && words.skip(words.len() - n) == other.subrange(0, n)
}

proof fn lemma_back_was_there(words: Seq<char>, pattern: Seq<char>, other: Seq<char>, n: int)
    requires
        keeps_clear(other),
        0 < n <= other.len(),
        ends_with_front(text::replaced(words, pattern, REDACTED@), other, n),
    ensures
        ends_with_front(words, other, n),
    decreases words.len(),
{
    if pattern.len() > 0 && words.len() > 0 {
        let out = text::replaced(words, pattern, REDACTED@);
        let part = other.subrange(0, n);
        reveal_strlit("[redacted secret]");
        if text::occurs_at(words, pattern, 0) {
            let rest = words.skip(pattern.len() as int);
            let tail = text::replaced(rest, pattern, REDACTED@);
            assert(out == REDACTED@ + tail);
            if n <= tail.len() {
                assert(tail.skip(tail.len() - n) =~= out.skip(out.len() - n));
                lemma_back_was_there(rest, pattern, other, n);
                assert(words.skip(words.len() - n) =~= rest.skip(rest.len() - n));
            } else {
                let o = out.len() - n;
                assert(clashes(other, o));
                let j = choose|j: int|
                    0 <= j < other.len() && 0 <= o + j < REDACTED@.len() && #[trigger] other[j]
                        != REDACTED@[o + j];
                assert(part[j] == other[j]);
                assert(out.skip(o)[j] == out[o + j]);
                assert(false);
            }
        } else {
            let rest = words.skip(1);
            let tail = text::replaced(rest, pattern, REDACTED@);
            assert(out == seq![words[0]] + tail);
            if n <= tail.len() {
                assert(tail.skip(tail.len() - n) =~= out.skip(out.len() - n));
                lemma_back_was_there(rest, pattern, other, n);
                assert(words.skip(words.len() - n) =~= rest.skip(rest.len() - n));
            } else {
                assert(out.skip(0) =~= out);
                lemma_exact_was_there(words, pattern, other, 0, n);
                assert(words.skip(0) =~= words);
            }
        }
    }
}

proof fn lemma_no_new_crossing(
    front: Seq<char>,
    back: Seq<char>,
    pattern: Seq<char>,
    other: Seq<char>,
)
    requires
        keeps_clear(other),
        !crosses(front + back, other, front.len() as int),
    ensures
        !crosses(
            text::replaced(front, pattern, REDACTED@) + text::replaced(back, pattern, REDACTED@),
            other,
            text::replaced(front, pattern, REDACTED@).len() as int,
        ),
{
    let front2 = text::replaced(front, pattern, REDACTED@);
    let back2 = text::replaced(back, pattern, REDACTED@);
    let all2 = front2 + back2;
    if crosses(all2, other, front2.len() as int) {
        let s = choose|s: int|
            0 <= s < front2.len() < s + other.len() && #[trigger] text::occurs_at(all2, other, s);
        let n = front2.len() - s;
        let hit = all2.subrange(s, s + other.len());
        assert(hit == other);
        assert(front2.skip(s) =~= other.subrange(0, n)) by {
            assert forall|j: int| 0 <= j < n implies front2.skip(s)[j] == other[j] by {
                assert(hit[j] == all2[s + j]);
            }
        }
        lemma_back_was_there(front, pattern, other, n);
        let rest = other.skip(n);
        assert(back2.subrange(0, rest.len() as int) =~= rest) by {
            assert forall|j: int| 0 <= j < rest.len() implies back2[j] == rest[j] by {
                assert(hit[n + j] == all2[s + n + j]);
            }
        }
        lemma_front_was_there(back, pattern, other, n);
        let all = front + back;
        let t = front.len() - n;
        assert(all.subrange(t, t + other.len()) =~= other) by {
            assert forall|j: int| 0 <= j < other.len() implies all[t + j] == other[j] by {
                if j < n {
                    assert(front.skip(t)[j] == other.subrange(0, n)[j]);
                } else {
                    assert(back.subrange(0, rest.len() as int)[j - n] == rest[j - n]);
                }
            }
        }
        assert(text::occurs_at(all, other, t));
        assert(crosses(all, other, front.len() as int));
    }
}

} // verus!
