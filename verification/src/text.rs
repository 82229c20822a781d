//! Text as sequences of characters: the few string operations the rest of
//! the crate is built from, each proved against a short mathematical
//! statement of what it computes.

use vstd::prelude::*;

verus! {

/// `String::push`: appends one character to the end of the string.
pub assume_specification[ String::push ](s: &mut String, c: char)
    ensures
        final(s)@ == old(s)@.push(c),
;

/// The characters of `s`, in order.
pub fn chars_of(s: &str) -> (v: Vec<char>)
    ensures
        v@ == s@,
{
    let mut v: Vec<char> = Vec::new();
    for c in it: s.chars()
        invariant
            v@ == it.seq().take(it.index() as int),
    {
        v.push(c);
    }
    v
}

/// The string made of the characters of `v`, in order.
pub fn string_of(v: &[char]) -> (s: String)
    ensures
        s@ == v@,
{
    let mut s: String = String::new();
    for i in 0..v.len()
        invariant
            s@ == v@.take(i as int),
    {
        s.push(v[i]);
        assert(v@.take(i + 1) =~= v@.take(i as int).push(v@[i as int]));
    }
    assert(v@.take(v@.len() as int) =~= v@);
    s
}

/// Whether two strings hold the same characters.
pub fn same(a: &str, b: &str) -> (r: bool)
    ensures
        r == (a@ == b@),
{
    a.to_owned() == b.to_owned()
}

/// A copy of an optional string.
pub fn copied(s: &Option<String>) -> (r: Option<String>)
    ensures
        r == *s,
{
    match s {
        Some(s) => Some(s.clone()),
        None => None,
    }
}

/// A copy of a list of strings.
pub fn copied_all(v: &Vec<String>) -> (r: Vec<String>)
    ensures
        r@ == v@,
{
    let mut r: Vec<String> = Vec::new();
    for i in 0..v.len()
        invariant
            r@ == v@.take(i as int),
    {
        r.push(v[i].clone());
        assert(v@.take(i + 1) =~= v@.take(i as int).push(v@[i as int]));
    }
    assert(v@.take(v@.len() as int) =~= v@);
    r
}

/// The texts of a list of strings.
pub open spec fn texts(v: Seq<String>) -> Seq<Seq<char>> {
    v.map_values(|s: String| s@)
}

/// How `str`'s `Debug` writes a text: between quotes, escaped.
pub uninterp spec fn debug_quoted(text: Seq<char>) -> Seq<char>;

/// `str`'s `Debug`: the text between quotes, with what would not show in it
/// escaped. How each character is escaped is left open.
#[verifier::external_body]
pub(crate) fn quote(text: &str) -> (s: String)
    ensures
        s@ == debug_quoted(text@),
{
    format!("{text:?}")
}

/// Whether some string of `v` has the text `text`.
pub open spec fn listed(v: Seq<String>, text: Seq<char>) -> bool {
    exists|i: int| 0 <= i < v.len() && #[trigger] v[i]@ == text
}

/// Whether `pattern` stands in `text` at position `i`.
pub open spec fn occurs_at(text: Seq<char>, pattern: Seq<char>, i: int) -> bool {
    0 <= i && i + pattern.len() <= text.len() && text.subrange(i, i + pattern.len()) == pattern
}

/// Whether `pattern` stands anywhere in `text`.
pub open spec fn contains(text: Seq<char>, pattern: Seq<char>) -> bool {
    exists|i: int| occurs_at(text, pattern, i)
}

/// Whether `text` begins with `pattern`.
pub open spec fn begins(text: Seq<char>, pattern: Seq<char>) -> bool {
    occurs_at(text, pattern, 0)
}

/// Whether `pattern` stands in `text` at position `at`.
pub fn matches_at(text: &[char], pattern: &[char], at: usize) -> (r: bool)
    requires
        at <= text@.len(),
    ensures
        r == occurs_at(text@, pattern@, at as int),
{
    let length: usize = text.len();
    if length - at < pattern.len() {
        return false;
    }
    for i in 0..pattern.len()
        invariant
            length == text@.len(),
            at + pattern@.len() <= length,
            forall|j: int| 0 <= j < i ==> text@[at + j] == pattern@[j],
    {
        if text[at + i] != pattern[i] {
            assert(text@.subrange(at as int, at + pattern@.len())[i as int] == text@[at + i]);
            return false;
        }
    }
    assert(text@.subrange(at as int, at + pattern@.len()) =~= pattern@);
    true
}

/// Whether `pattern` stands anywhere in `words`.
pub fn stands_in(words: &str, pattern: &str) -> (r: bool)
    ensures
        r == contains(words@, pattern@),
{
    let t = chars_of(words);
    let p = chars_of(pattern);
    let mut i: usize = 0;
    while i < t.len()
        invariant
            t@ == words@,
            p@ == pattern@,
            i <= t@.len(),
            forall|j: int| 0 <= j < i ==> !occurs_at(t@, p@, j),
        decreases t@.len() - i,
    {
        if matches_at(t.as_slice(), p.as_slice(), i) {
            return true;
        }
        i = i + 1;
    }
    matches_at(t.as_slice(), p.as_slice(), i)
}

/// What follows `prefix` in `text`; nothing where `text` begins otherwise.
pub fn strip_prefix(text: &str, prefix: &str) -> (r: Option<String>)
    ensures
        match r {
            Some(rest) => begins(text@, prefix@) && rest@ == text@.skip(prefix@.len() as int),
            None => !begins(text@, prefix@),
        },
{
    let t = chars_of(text);
    let p = chars_of(prefix);
    if matches_at(t.as_slice(), p.as_slice(), 0) {
        Some(string_of(slice_from(&t, p.len()).as_slice()))
    } else {
        None
    }
}

/// The elements of `v` from position `from` on.
pub fn slice_from(v: &Vec<char>, from: usize) -> (r: Vec<char>)
    requires
        from <= v@.len(),
    ensures
        r@ == v@.skip(from as int),
{
    slice_of(v, from, v.len())
}

/// The elements of `v` from position `from` up to, not including, `to`.
pub fn slice_of(v: &Vec<char>, from: usize, to: usize) -> (r: Vec<char>)
    requires
        from <= to <= v@.len(),
    ensures
        r@ == v@.subrange(from as int, to as int),
{
    let mut r: Vec<char> = Vec::new();
    for i in from..to
        invariant
            from <= to <= v@.len(),
            r@ == v@.subrange(from as int, i as int),
    {
        r.push(v[i]);
        assert(v@.subrange(from as int, i + 1) =~= v@.subrange(from as int, i as int).push(
            v@[i as int],
        ));
    }
    r
}

/// `text` with every occurrence of `pattern` replaced by `with`, found from
/// left to right and without overlap. An empty pattern replaces nothing.
pub open spec fn replaced(text: Seq<char>, pattern: Seq<char>, with: Seq<char>) -> Seq<char>
    decreases text.len(),
{
    if pattern.len() == 0 || text.len() == 0 {
        text
    } else if occurs_at(text, pattern, 0) {
        with + replaced(text.skip(pattern.len() as int), pattern, with)
    } else {
        seq![text[0]] + replaced(text.skip(1), pattern, with)
    }
}

/// [`replaced`], computed.
pub fn replace(text: &str, pattern: &str, with: &str) -> (r: String)
    ensures
        r@ == replaced(text@, pattern@, with@),
{
    let t = chars_of(text);
    let p = chars_of(pattern);
    let mut r: String = String::new();
    if p.len() == 0 {
        return text.to_owned();
    }
    let mut i: usize = 0;
    assert(t@.skip(0) =~= t@);
    while i < t.len()
        invariant
            p@ == pattern@,
            t@ == text@,
            p@.len() > 0,
            i <= t@.len(),
            r@ + replaced(t@.skip(i as int), p@, with@) == replaced(text@, pattern@, with@),
        decreases t@.len() - i,
    {
        let ghost rest = t@.skip(i as int);
        if matches_at(t.as_slice(), p.as_slice(), i) {
            assert(rest.subrange(0, p@.len() as int) =~= t@.subrange(i as int, i + p@.len()));
            assert(rest.skip(p@.len() as int) =~= t@.skip(i + p@.len()));
            let ghost before = r@;
            r.append(with);
            i = i + p.len();
            assert(r@ + replaced(t@.skip(i as int), p@, with@) =~= before + replaced(
                rest,
                p@,
                with@,
            ));
        } else {
            assert(!occurs_at(rest, p@, 0)) by {
                if occurs_at(rest, p@, 0) {
                    assert(rest.subrange(0, p@.len() as int) =~= t@.subrange(
                        i as int,
                        i + p@.len(),
                    ));
                }
            }
            assert(rest.skip(1) =~= t@.skip(i + 1));
            let ghost before = r@;
            r.push(t[i]);
            i = i + 1;
            assert(r@ + replaced(t@.skip(i as int), p@, with@) =~= before + replaced(
                rest,
                p@,
                with@,
            ));
        }
    }
    assert(t@.skip(i as int) =~= Seq::<char>::empty());
    r
}

/// The Unicode `White_Space` property.
pub open spec fn is_white_space(c: char) -> bool {
    let n = c as u32;
    ||| 0x9 <= n <= 0xD
    ||| n == 0x20
    ||| n == 0x85
    ||| n == 0xA0
    ||| n == 0x1680
    ||| 0x2000 <= n <= 0x200A
    ||| n == 0x2028
    ||| n == 0x2029
    ||| n == 0x202F
    ||| n == 0x205F
    ||| n == 0x3000
}

/// Whether `c` is white space.
pub fn white_space(c: char) -> (r: bool)
    ensures
        r == is_white_space(c),
{
    let n: u32 = c as u32;
    (0x9 <= n && n <= 0xD) || n == 0x20 || n == 0x85 || n == 0xA0 || n == 0x1680 || (0x2000 <= n
        && n <= 0x200A) || n == 0x2028 || n == 0x2029 || n == 0x202F || n == 0x205F || n == 0x3000
}

/// `text` without the white space it ends with.
pub open spec fn trimmed_end(text: Seq<char>) -> Seq<char>
    decreases text.len(),
{
    if text.len() > 0 && is_white_space(text.last()) {
        trimmed_end(text.drop_last())
    } else {
        text
    }
}

/// `text` without the white space it begins with.
pub open spec fn trimmed_start(text: Seq<char>) -> Seq<char>
    decreases text.len(),
{
    if text.len() > 0 && is_white_space(text[0]) {
        trimmed_start(text.skip(1))
    } else {
        text
    }
}

/// `text` without the white space at either end.
pub open spec fn trimmed(text: Seq<char>) -> Seq<char> {
    trimmed_start(trimmed_end(text))
}

/// [`trimmed_end`], computed.
pub fn trim_end(text: &str) -> (r: String)
    ensures
        r@ == trimmed_end(text@),
{
    let mut t = chars_of(text);
    drop_trailing_space(&mut t);
    string_of(t.as_slice())
}

/// [`trimmed`], computed.
pub fn trim(text: &str) -> (r: String)
    ensures
        r@ == trimmed(text@),
{
    let mut t = chars_of(text);
    drop_trailing_space(&mut t);
    let mut i: usize = 0;
    assert(t@.skip(0) =~= t@);
    while i < t.len() && white_space(t[i])
        invariant
            i <= t@.len(),
            trimmed_start(t@.skip(i as int)) == trimmed_start(t@),
        decreases t@.len() - i,
    {
        assert(t@.skip(i as int).skip(1) =~= t@.skip(i + 1));
        i = i + 1;
    }
    let r = slice_from(&t, i);
    string_of(r.as_slice())
}

/// Drops the white space that `t` ends with.
fn drop_trailing_space(t: &mut Vec<char>)
    ensures
        final(t)@ == trimmed_end(old(t)@),
{
    while t.len() > 0 && white_space(t[t.len() - 1])
        invariant
            trimmed_end(t@) == trimmed_end(old(t)@),
        decreases t@.len(),
    {
        assert(t@.drop_last() =~= t@.subrange(0, t@.len() - 1));
        t.pop();
    }
}

/// The decimal digits of `n`, most significant first.
pub open spec fn decimal(n: nat) -> Seq<char>
    decreases n,
{
    if n < 10 {
        seq![digit(n)]
    } else {
        decimal(n / 10).push(digit(n % 10))
    }
}

/// The digit that stands for `d`.
pub open spec fn digit(d: nat) -> char {
    (('0' as u32) + d) as char
}

/// [`digit`], computed.
fn digit_of(d: u64) -> (c: char)
    requires
        d < 10,
    ensures
        c == digit(d as nat),
{
    match d {
        0 => '0',
        1 => '1',
        2 => '2',
        3 => '3',
        4 => '4',
        5 => '5',
        6 => '6',
        7 => '7',
        8 => '8',
        _ => '9',
    }
}

/// [`decimal`], computed.
pub fn decimal_of(n: u64) -> (s: String)
    ensures
        s@ == decimal(n as nat),
    decreases n,
{
    if n < 10 {
        let mut s: String = String::new();
        s.push(digit_of(n));
        assert(s@ =~= decimal(n as nat));
        s
    } else {
        let mut s = decimal_of(n / 10);
        s.push(digit_of(n % 10));
        s
    }
}

/// The parts, with `separator` between each two of them.
pub open spec fn joined(parts: Seq<Seq<char>>, separator: Seq<char>) -> Seq<char>
    decreases parts.len(),
{
    if parts.len() == 0 {
        Seq::empty()
    } else if parts.len() == 1 {
        parts[0]
    } else {
        joined(parts.drop_last(), separator) + separator + parts.last()
    }
}

/// [`joined`], computed.
pub fn join(parts: &Vec<String>, separator: &str) -> (r: String)
    ensures
        r@ == joined(texts(parts@), separator@),
{
    if parts.len() == 0 {
        assert(texts(parts@) =~= Seq::empty());
        return String::new();
    }
    let mut r = parts[0].clone();
    assert(texts(parts@).take(1) =~= seq![parts@[0]@]);
    for i in 1..parts.len()
        invariant
            parts@.len() >= 1,
            r@ == joined(texts(parts@).take(i as int), separator@),
    {
        r.append(separator);
        r.append(parts[i].as_str());
        assert(texts(parts@).take(i + 1).drop_last() =~= texts(parts@).take(i as int));
        assert(texts(parts@).take(i + 1).last() == parts@[i as int]@);
    }
    assert(texts(parts@).take(parts@.len() as int) =~= texts(parts@));
    r
}

/// Whether `a` comes before `b` in the order of their characters.
pub open spec fn precedes(a: Seq<char>, b: Seq<char>) -> bool
    decreases a.len(),
{
    if b.len() == 0 {
        false
    } else if a.len() == 0 {
        true
    } else if a[0] != b[0] {
        a[0] < b[0]
    } else {
        precedes(a.skip(1), b.skip(1))
    }
}

/// [`precedes`], computed.
pub fn comes_before(a: &str, b: &str) -> (r: bool)
    ensures
        r == precedes(a@, b@),
{
    let x = chars_of(a);
    let y = chars_of(b);
    let mut i: usize = 0;
    assert(x@.skip(0) =~= x@ && y@.skip(0) =~= y@);
    while i < x.len() && i < y.len()
        invariant
            i <= x@.len(),
            i <= y@.len(),
            x@ == a@,
            y@ == b@,
            precedes(x@.skip(i as int), y@.skip(i as int)) == precedes(a@, b@),
        decreases x@.len() - i,
    {
        if x[i] != y[i] {
            return x[i] < y[i];
        }
        assert(x@.skip(i as int).skip(1) =~= x@.skip(i + 1));
        assert(y@.skip(i as int).skip(1) =~= y@.skip(i + 1));
        i = i + 1;
    }
    i < y.len()
}

/// [`precedes`] is a strict order in which any two different texts compare.
pub proof fn lemma_precedes_orders(a: Seq<char>, b: Seq<char>)
    ensures
        !(precedes(a, b) && precedes(b, a)),
        a != b ==> precedes(a, b) || precedes(b, a),
        a == b ==> !precedes(a, b),
    decreases a.len(),
{
    if a.len() > 0 && b.len() > 0 {
        lemma_precedes_orders(a.skip(1), b.skip(1));
        if a[0] == b[0] && a.skip(1) == b.skip(1) {
            assert(a =~= seq![a[0]] + a.skip(1));
            assert(b =~= seq![b[0]] + b.skip(1));
        }
    } else if a.len() == 0 && b.len() == 0 {
        assert(a =~= b);
    }
}

/// [`precedes`] carries over from link to link of a chain.
pub proof fn lemma_precedes_chains(a: Seq<char>, b: Seq<char>, c: Seq<char>)
    requires
        precedes(a, b),
        precedes(b, c),
    ensures
        precedes(a, c),
    decreases a.len(),
{
    if a.len() > 0 && a[0] == b[0] && b[0] == c[0] {
        lemma_precedes_chains(a.skip(1), b.skip(1), c.skip(1));
    }
}

/// Where the first line of `text` ends: at its first line break, or at the
/// end of the text.
pub open spec fn line_end(text: Seq<char>) -> int
    decreases text.len(),
{
    if text.len() == 0 || text[0] == '\n' {
        0
    } else {
        1 + line_end(text.skip(1))
    }
}

/// A line without the carriage return before its line break.
pub open spec fn chomped(line: Seq<char>) -> Seq<char> {
    if line.len() > 0 && line.last() == '\r' {
        line.drop_last()
    } else {
        line
    }
}

/// The lines of `text`, without their line breaks. A break at the very end
/// opens no further line.
pub open spec fn lines(text: Seq<char>) -> Seq<Seq<char>>
    decreases text.len(),
{
    let n = line_end(text);
    if text.len() == 0 {
        Seq::empty()
    } else if 0 <= n < text.len() {
        seq![chomped(text.take(n))] + lines(text.skip(n + 1))
    } else {
        seq![text]
    }
}

/// Where the line that begins at `from` ends.
fn find_line_end(t: &Vec<char>, from: usize) -> (r: usize)
    requires
        from <= t@.len(),
    ensures
        from <= r <= t@.len(),
        r - from == line_end(t@.skip(from as int)),
        r < t@.len() ==> t@[r as int] == '\n',
{
    let mut i: usize = from;
    while i < t.len() && t[i] != '\n'
        invariant
            from <= i <= t@.len(),
            (i - from) + line_end(t@.skip(i as int)) == line_end(t@.skip(from as int)),
        decreases t@.len() - i,
    {
        assert(t@.skip(i as int).skip(1) =~= t@.skip(i + 1));
        i = i + 1;
    }
    i
}

/// [`lines`], computed.
pub fn lines_of(text: &str) -> (r: Vec<String>)
    ensures
        texts(r@) == lines(text@),
{
    let t = chars_of(text);
    let mut r: Vec<String> = Vec::new();
    let mut at: usize = 0;
    assert(t@.skip(0) =~= t@);
    assert(texts(r@) + lines(t@) =~= lines(t@));
    while at < t.len()
        invariant
            t@ == text@,
            at <= t@.len(),
            texts(r@) + lines(t@.skip(at as int)) == lines(text@),
        decreases t@.len() - at,
    {
        let end: usize = find_line_end(&t, at);
        let ghost rest = t@.skip(at as int);
        let ghost before = r@;
        if end < t.len() {
            let cut: usize = if end > at && t[end - 1] == '\r' {
                end - 1
            } else {
                end
            };
            let line = string_of(slice_of(&t, at, cut).as_slice());
            assert(line@ =~= chomped(rest.take(end - at)));
            assert(rest.skip(end - at + 1) =~= t@.skip(end + 1));
            r.push(line);
            at = end + 1;
        } else {
            let line = string_of(slice_from(&t, at).as_slice());
            r.push(line);
            at = end;
            assert(t@.skip(at as int) =~= Seq::empty());
        }
        assert(texts(r@) =~= texts(before).push(r@.last()@));
        assert(texts(r@) + lines(t@.skip(at as int)) =~= texts(before) + lines(rest));
    }
    assert(t@.skip(at as int) =~= Seq::empty());
    assert(texts(r@) + lines(t@.skip(at as int)) =~= texts(r@));
    r
}

/// Whether `c` is a decimal digit.
pub open spec fn is_digit(c: char) -> bool {
    '0' <= c <= '9'
}

/// The number that a row of digits stands for.
pub open spec fn number(digits: Seq<char>) -> nat
    decreases digits.len(),
{
    if digits.len() == 0 {
        0
    } else {
        number(digits.drop_last()) * 10 + (digits.last() as nat - '0' as nat) as nat
    }
}

/// How many digits `text` begins with.
pub open spec fn leading_digits(text: Seq<char>) -> int
    decreases text.len(),
{
    if text.len() == 0 || !is_digit(text[0]) {
        0
    } else {
        1 + leading_digits(text.skip(1))
    }
}

/// [`leading_digits`], computed.
pub fn count_digits(t: &Vec<char>) -> (r: usize)
    ensures
        r == leading_digits(t@),
        r <= t@.len(),
        forall|i: int| 0 <= i < r ==> is_digit(#[trigger] t@[i]),
        r < t@.len() ==> !is_digit(t@[r as int]),
{
    let mut i: usize = 0;
    assert(t@.skip(0) =~= t@);
    while i < t.len() && '0' <= t[i] && t[i] <= '9'
        invariant
            i <= t@.len(),
            i + leading_digits(t@.skip(i as int)) == leading_digits(t@),
            forall|j: int| 0 <= j < i ==> is_digit(#[trigger] t@[j]),
        decreases t@.len() - i,
    {
        assert(t@.skip(i as int).skip(1) =~= t@.skip(i + 1));
        i = i + 1;
    }
    i
}

/// The decimal digits of a number: at least one, no zero in front of others.
pub proof fn lemma_decimal(n: nat)
    ensures
        decimal(n).len() >= 1,
        forall|i: int| 0 <= i < decimal(n).len() ==> is_digit(#[trigger] decimal(n)[i]),
        n >= 1 ==> decimal(n)[0] != '0',
        number(decimal(n)) == n,
    decreases n,
{
    if n >= 10 {
        lemma_decimal(n / 10);
        let front = decimal(n / 10);
        assert(decimal(n).drop_last() =~= front);
    } else {
        assert(decimal(n).drop_last() =~= Seq::empty());
        assert(number(Seq::empty()) == 0);
    }
}

/// A row of digits without a zero in front is how its number is written.
pub proof fn lemma_number(digits: Seq<char>)
    requires
        digits.len() >= 1,
        forall|i: int| 0 <= i < digits.len() ==> is_digit(#[trigger] digits[i]),
        digits[0] != '0',
    ensures
        number(digits) >= 1,
        decimal(number(digits)) == digits,
    decreases digits.len(),
{
    let front = digits.drop_last();
    let d = (digits.last() as nat - '0' as nat) as nat;
    if digits.len() == 1 {
        assert(front =~= Seq::empty());
        assert(decimal(d) =~= digits);
    } else {
        lemma_number(front);
        let n = number(digits);
        assert(n / 10 == number(front) && n % 10 == d) by {
            assert(n == number(front) * 10 + d);
        }
        assert(decimal(n) =~= front.push(digits.last()));
        assert(front.push(digits.last()) =~= digits);
    }
}

/// A row of `k` digits stands for a number below the `k`-th power of ten.
pub proof fn lemma_number_is_bounded(digits: Seq<char>)
    requires
        forall|i: int| 0 <= i < digits.len() ==> is_digit(#[trigger] digits[i]),
    ensures
        number(digits) < power_of_ten(digits.len()),
    decreases digits.len(),
{
    if digits.len() > 0 {
        lemma_number_is_bounded(digits.drop_last());
    }
}

/// Ten multiplied with itself `k` times.
pub open spec fn power_of_ten(k: nat) -> nat
    decreases k,
{
    if k == 0 {
        1
    } else {
        10 * power_of_ten((k - 1) as nat)
    }
}

/// A number of at least `k + 1` digits is at least the `k`-th power of ten.
pub proof fn lemma_decimal_reaches(n: nat, k: nat)
    requires
        n >= 1,
        decimal(n).len() > k,
    ensures
        n >= power_of_ten(k),
    decreases k,
{
    if k > 0 {
        assert(n >= 10);
        assert(decimal(n).drop_last() =~= decimal(n / 10));
        lemma_decimal_reaches(n / 10, (k - 1) as nat);
    }
}

/// Whether a row of characters is made of digits alone.
pub open spec fn all_digits(text: Seq<char>) -> bool {
    forall|i: int| 0 <= i < text.len() ==> is_digit(#[trigger] text[i])
}

/// The number that a text writes out: at least one digit, and nothing else
/// but a plus sign in front.
pub open spec fn natural(text: Seq<char>) -> Option<nat> {
    let digits = if text.len() > 0 && text[0] == '+' {
        text.skip(1)
    } else {
        text
    };
    if digits.len() > 0 && all_digits(digits) {
        Some(number(digits))
    } else {
        None
    }
}

/// [`natural`] up to `max`, computed.
pub fn read_natural(text: &str, max: u64) -> (r: Option<u64>)
    ensures
        match r {
            Some(n) => natural(text@) == Some(n as nat) && n <= max,
            None => natural(text@) is None || natural(text@)->0 > max,
        },
{
    let t = chars_of(text);
    let from: usize = if t.len() > 0 && t[0] == '+' {
        1
    } else {
        0
    };
    let ghost digits = text@.skip(from as int);
    assert(from == 0 ==> digits =~= text@);
    if t.len() == from {
        return None;
    }
    let mut n: u64 = 0;
    let mut fits = true;
    assert(digits.take(0) =~= Seq::empty());
    for i in from..t.len()
        invariant
            from <= 1,
            from < t@.len(),
            t@ == text@,
            digits == text@.skip(from as int),
            natural(text@) == if all_digits(digits) {
                Some(number(digits))
            } else {
                None
            },
            all_digits(digits.take(i - from)),
            fits ==> n == number(digits.take(i - from)) && n <= max,
            !fits ==> number(digits.take(i - from)) > max,
    {
        let c: char = t[i];
        let ghost more = digits.take(i - from + 1);
        assert(digits[i - from] == c);
        if c < '0' || c > '9' {
            assert(!is_digit(digits[i - from]));
            return None;
        }
        let d: u64 = (c as u32 - '0' as u32) as u64;
        assert(more.drop_last() =~= digits.take(i - from));
        assert(more.last() == c);
        if fits {
            match n.checked_mul(10) {
                Some(tens) => match tens.checked_add(d) {
                    Some(sum) => {
                        n = sum;
                        fits = sum <= max;
                    },
                    None => {
                        fits = false;
                    },
                },
                None => {
                    fits = false;
                },
            }
        }
    }
    assert(digits.take(digits.len() as int) =~= digits);
    if fits {
        Some(n)
    } else {
        None
    }
}

/// Where `c` first stands in `text`; the text's length where it does not.
pub open spec fn first_at(text: Seq<char>, c: char) -> int
    decreases text.len(),
{
    if text.len() == 0 || text[0] == c {
        0
    } else {
        1 + first_at(text.skip(1), c)
    }
}

/// What stands before and after the first `c` in `text`; nothing where there
/// is none.
pub fn split_once(text: &str, c: char) -> (r: Option<(String, String)>)
    ensures
        match r {
            Some((before, after)) => 0 <= first_at(text@, c) < text@.len() && before@
                == text@.take(first_at(text@, c)) && after@ == text@.skip(first_at(text@, c) + 1),
            None => first_at(text@, c) == text@.len(),
        },
{
    let t = chars_of(text);
    let mut i: usize = 0;
    assert(t@.skip(0) =~= t@);
    while i < t.len() && t[i] != c
        invariant
            t@ == text@,
            i <= t@.len(),
            i + first_at(t@.skip(i as int), c) == first_at(t@, c),
        decreases t@.len() - i,
    {
        assert(t@.skip(i as int).skip(1) =~= t@.skip(i + 1));
        i = i + 1;
    }
    if i < t.len() {
        let before = slice_of(&t, 0, i);
        let after = slice_from(&t, i + 1);
        assert(before@ =~= t@.take(i as int));
        Some((string_of(before.as_slice()), string_of(after.as_slice())))
    } else {
        None
    }
}

/// `text` without the characters among `cs` that it ends with.
pub open spec fn shorn(text: Seq<char>, cs: Seq<char>) -> Seq<char>
    decreases text.len(),
{
    if text.len() > 0 && cs.contains(text.last()) {
        shorn(text.drop_last(), cs)
    } else {
        text
    }
}

/// [`shorn`], computed.
pub fn shear(text: &str, cs: &[char]) -> (r: String)
    ensures
        r@ == shorn(text@, cs@),
{
    let mut t = chars_of(text);
    loop
        invariant
            shorn(t@, cs@) == shorn(text@, cs@),
        ensures
            t@ == shorn(text@, cs@),
        decreases t@.len(),
    {
        if t.len() == 0 {
            break;
        }
        let c: char = t[t.len() - 1];
        let mut among = false;
        for i in 0..cs.len()
            invariant
                among <==> exists|j: int| 0 <= j < i && #[trigger] cs@[j] == c,
        {
            if cs[i] == c {
                among = true;
            }
        }
        assert(among <==> cs@.contains(c));
        if !among {
            break;
        }
        assert(t@.drop_last() =~= t@.subrange(0, t@.len() - 1));
        t.pop();
    }
    string_of(t.as_slice())
}

} // verus!
