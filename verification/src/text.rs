//! Character-level building blocks: classes of characters, scanning and trimming over
//! ranges of a character buffer, and conversion between strings and buffers.
//!
//! The executable functions work on a `Vec<char>` and a half-open range `[from, to)` of it,
//! so that a caller scans one buffer without copying. Their contracts are stated over the
//! mathematical sequence `v@.subrange(from, to)`.

use vstd::prelude::*;
use vstd::string::StringExecFns;

verus! {

/// `String::push` of the standard library: the string afterwards is the string before
/// with the character `c` appended at its end, and nothing else is changed.
pub assume_specification[ String::push ](s: &mut String, c: char)
    ensures
        final(s)@ == old(s)@.push(c),
;

/// A set of characters that scanning and trimming can be asked about.
#[derive(Clone, Copy, Debug)]
pub enum CharClass {
    /// The characters with the Unicode property `White_Space`.
    Whitespace,
    /// One character only.
    Only(char),
}

/// Whether `c` has the Unicode property `White_Space`.
pub open spec fn is_space(c: char) -> bool {
    let n = c as u32;
    ||| 0x09 <= n <= 0x0D
    ||| n == 0x20
    ||| n == 0x85
    ||| n == 0xA0
    ||| n == 0x1680
    ||| 0x2000 <= n <= 0x200A
    ||| n == 0x2028
    ||| n == 0x2029
    ||| n == 0x202F
    ||| n == 0x205F
    ||| n == 0x3000
}

/// Whether `c` has the Unicode property `White_Space`.
pub fn is_whitespace(c: char) -> (b: bool)
    ensures
        b == is_space(c),
{
    let n: u32 = c as u32;
    (0x09 <= n && n <= 0x0D) || n == 0x20 || n == 0x85 || n == 0xA0 || n == 0x1680 || (0x2000 <= n
        && n <= 0x200A) || n == 0x2028 || n == 0x2029 || n == 0x202F || n == 0x205F || n == 0x3000
}

impl CharClass {
    /// Whether the class holds `c`.
    pub open spec fn has(self, c: char) -> bool {
        match self {
            CharClass::Whitespace => is_space(c),
            CharClass::Only(x) => c == x,
        }
    }

    /// Whether the class holds `c`.
    pub fn contains(self, c: char) -> (b: bool)
        ensures
            b == self.has(c),
    {
        match self {
            CharClass::Whitespace => is_whitespace(c),
            CharClass::Only(x) => c == x,
        }
    }
}

/// The length of the longest prefix of `s` whose characters all lie in `class`.
pub open spec fn span_in(s: Seq<char>, class: CharClass) -> nat
    decreases s.len(),
{
    if s.len() > 0 && class.has(s.first()) {
        1 + span_in(s.drop_first(), class)
    } else {
        0
    }
}

/// The length of the longest prefix of `s` none of whose characters lies in `class`:
/// the index of the first character of `class`, or `s.len()` where there is none.
pub open spec fn span_out(s: Seq<char>, class: CharClass) -> nat
    decreases s.len(),
{
    if s.len() > 0 && !class.has(s.first()) {
        1 + span_out(s.drop_first(), class)
    } else {
        0
    }
}

/// The length of the longest suffix of `s` whose characters all lie in `class`.
pub open spec fn tail_in(s: Seq<char>, class: CharClass) -> nat
    decreases s.len(),
{
    if s.len() > 0 && class.has(s.last()) {
        1 + tail_in(s.drop_last(), class)
    } else {
        0
    }
}

/// `s` without its leading characters of `class`.
pub open spec fn strip_start(s: Seq<char>, class: CharClass) -> Seq<char> {
    s.skip(span_in(s, class) as int)
}

/// `s` without its trailing characters of `class`.
pub open spec fn strip_end(s: Seq<char>, class: CharClass) -> Seq<char> {
    s.take(s.len() - tail_in(s, class))
}

/// `s` without its leading and trailing characters of `class`.
pub open spec fn strip(s: Seq<char>, class: CharClass) -> Seq<char> {
    strip_end(strip_start(s, class), class)
}

/// `s` without leading and trailing whitespace.
pub open spec fn trim(s: Seq<char>) -> Seq<char> {
    strip(s, CharClass::Whitespace)
}

/// Whether `c` occurs in `s`.
pub open spec fn has_char(s: Seq<char>, c: char) -> bool {
    span_out(s, CharClass::Only(c)) < s.len()
}

/// What `span_in` is: a bound, a prefix inside the class, and the first character outside it.
pub proof fn lemma_span_in(s: Seq<char>, class: CharClass)
    ensures
        span_in(s, class) <= s.len(),
        forall|i: int| 0 <= i < span_in(s, class) ==> class.has(#[trigger] s[i]),
        span_in(s, class) < s.len() ==> !class.has(s[span_in(s, class) as int]),
    decreases s.len(),
{
    if s.len() > 0 && class.has(s.first()) {
        let t = s.drop_first();
        lemma_span_in(t, class);
        assert forall|i: int| 0 <= i < span_in(s, class) implies class.has(#[trigger] s[i]) by {
            if i > 0 {
                assert(s[i] == t[i - 1]);
            }
        }
    }
}

/// What `span_out` is: a bound, a prefix outside the class, and the first character inside it.
pub proof fn lemma_span_out(s: Seq<char>, class: CharClass)
    ensures
        span_out(s, class) <= s.len(),
        forall|i: int| 0 <= i < span_out(s, class) ==> !class.has(#[trigger] s[i]),
        span_out(s, class) < s.len() ==> class.has(s[span_out(s, class) as int]),
    decreases s.len(),
{
    if s.len() > 0 && !class.has(s.first()) {
        let t = s.drop_first();
        lemma_span_out(t, class);
        assert forall|i: int| 0 <= i < span_out(s, class) implies !class.has(#[trigger] s[i]) by {
            if i > 0 {
                assert(s[i] == t[i - 1]);
            }
        }
    }
}

/// A prefix outside the class that ends at a character of the class, or at the end of `s`,
/// is the longest one.
pub proof fn lemma_span_out_is(s: Seq<char>, class: CharClass, n: int)
    requires
        0 <= n <= s.len(),
        forall|i: int| 0 <= i < n ==> !class.has(#[trigger] s[i]),
        n < s.len() ==> class.has(s[n]),
    ensures
        span_out(s, class) == n,
    decreases s.len(),
{
    if n > 0 {
        let t = s.drop_first();
        lemma_span_out_is(t, class, n - 1);
    }
}

/// A prefix inside the class that ends at a character outside it, or at the end of `s`,
/// is the longest one.
pub proof fn lemma_span_in_is(s: Seq<char>, class: CharClass, n: int)
    requires
        0 <= n <= s.len(),
        forall|i: int| 0 <= i < n ==> class.has(#[trigger] s[i]),
        n < s.len() ==> !class.has(s[n]),
    ensures
        span_in(s, class) == n,
    decreases s.len(),
{
    if n > 0 {
        let t = s.drop_first();
        lemma_span_in_is(t, class, n - 1);
    }
}

/// A suffix inside the class that begins after a character outside it, or at the start of
/// `s`, is the longest one.
pub proof fn lemma_tail_in_is(s: Seq<char>, class: CharClass, n: int)
    requires
        0 <= n <= s.len(),
        forall|i: int| s.len() - n <= i < s.len() ==> class.has(#[trigger] s[i]),
        n < s.len() ==> !class.has(s[s.len() - n - 1]),
    ensures
        tail_in(s, class) == n,
    decreases s.len(),
{
    if n > 0 {
        let t = s.drop_last();
        lemma_tail_in_is(t, class, n - 1);
    }
}

/// A text that holds characters of the class only is empty when stripped.
pub proof fn lemma_strip_all(s: Seq<char>, class: CharClass)
    requires
        forall|i: int| 0 <= i < s.len() ==> class.has(#[trigger] s[i]),
    ensures
        strip(s, class) == Seq::<char>::empty(),
{
    lemma_span_in_is(s, class, s.len() as int);
}

/// The characters of `s`, in order.
pub fn chars_of(s: &str) -> (v: Vec<char>)
    ensures
        v@ == s@,
{
    let mut v: Vec<char> = Vec::new();
    for c in it: s.chars()
        invariant
            v@ == it.seq().take(it.index() as int),
            it.seq() == s@,
    {
        v.push(c);
    }
    v
}

/// The string made of the characters `v[from..to]`.
pub(crate) fn string_of(v: &Vec<char>, from: usize, to: usize) -> (s: String)
    requires
        from <= to <= v.len(),
    ensures
        s@ == v@.subrange(from as int, to as int),
{
    let mut s = String::new();
    let mut i: usize = from;
    while i < to
        invariant
            from <= i <= to <= v.len(),
            s@ == v@.subrange(from as int, i as int),
        decreases to - i,
    {
        s.push(v[i]);
        i += 1;
    }
    s
}

/// The end of the longest run of characters of `class` that starts at `from`, within
/// `v[from..to]`.
pub(crate) fn scan_in(v: &Vec<char>, from: usize, to: usize, class: CharClass) -> (r: usize)
    requires
        from <= to <= v.len(),
    ensures
        from <= r <= to,
        r == from + span_in(v@.subrange(from as int, to as int), class),
{
    let mut i: usize = from;
    while i < to && class.contains(v[i])
        invariant
            from <= i <= to <= v.len(),
            forall|j: int| from <= j < i ==> class.has(#[trigger] v@[j]),
        decreases to - i,
    {
        i += 1;
    }
    proof {
        let s = v@.subrange(from as int, to as int);
        lemma_span_in_is(s, class, i - from);
    }
    i
}

/// The position of the first character of `class` in `v[from..to]`, or `to` where there is
/// none.
pub(crate) fn scan_out(v: &Vec<char>, from: usize, to: usize, class: CharClass) -> (r: usize)
    requires
        from <= to <= v.len(),
    ensures
        from <= r <= to,
        r == from + span_out(v@.subrange(from as int, to as int), class),
{
    let mut i: usize = from;
    while i < to && !class.contains(v[i])
        invariant
            from <= i <= to <= v.len(),
            forall|j: int| from <= j < i ==> !class.has(#[trigger] v@[j]),
        decreases to - i,
    {
        i += 1;
    }
    proof {
        let s = v@.subrange(from as int, to as int);
        lemma_span_out_is(s, class, i - from);
    }
    i
}

/// The start of the longest run of characters of `class` that ends at `to`, within
/// `v[from..to]`.
pub(crate) fn scan_back_in(v: &Vec<char>, from: usize, to: usize, class: CharClass) -> (r: usize)
    requires
        from <= to <= v.len(),
    ensures
        from <= r <= to,
        r == to - tail_in(v@.subrange(from as int, to as int), class),
{
    let mut i: usize = to;
    while i > from && class.contains(v[i - 1])
        invariant
            from <= i <= to <= v.len(),
            forall|j: int| i <= j < to ==> class.has(#[trigger] v@[j]),
        decreases i - from,
    {
        i -= 1;
    }
    proof {
        let s = v@.subrange(from as int, to as int);
        lemma_tail_in_is(s, class, to - i);
    }
    i
}

/// The range of `v[from..to]` that is left when the characters of `class` are taken away at
/// both ends.
pub(crate) fn strip_bounds(v: &Vec<char>, from: usize, to: usize, class: CharClass) -> (r: (
    usize,
    usize,
))
    requires
        from <= to <= v.len(),
    ensures
        from <= r.0 <= r.1 <= to,
        v@.subrange(r.0 as int, r.1 as int) == strip(v@.subrange(from as int, to as int), class),
{
    let a = scan_in(v, from, to, class);
    let b = scan_back_in(v, a, to, class);
    proof {
        let s = v@.subrange(from as int, to as int);
        assert(strip_start(s, class) =~= v@.subrange(a as int, to as int));
    }
    (a, b)
}

/// The pieces of `s` between the occurrences of `sep`: one more than there are
/// occurrences, so an empty `s` has one empty piece.
pub open spec fn split_on(s: Seq<char>, sep: char) -> Seq<Seq<char>>
    decreases s.len(),
{
    let n = span_out(s, CharClass::Only(sep)) as int;
    if 0 <= n < s.len() {
        seq![s.take(n)] + split_on(s.subrange(n + 1, s.len() as int), sep)
    } else {
        seq![s]
    }
}

/// The pieces of `s` that the ranges cut out, in the order of the ranges.
pub open spec fn pieces(s: Seq<char>, ranges: Seq<(usize, usize)>) -> Seq<Seq<char>> {
    Seq::new(ranges.len(), |k: int| s.subrange(ranges[k].0 as int, ranges[k].1 as int))
}

/// Whether each range lies within `[from, to]`, its start not after its end.
pub open spec fn ranges_within(ranges: Seq<(usize, usize)>, from: int, to: int) -> bool {
    forall|k: int|
        0 <= k < ranges.len() ==> from <= (#[trigger] ranges[k]).0 <= ranges[k].1 <= to
}

/// Whether `v[from..to]` begins with `prefix`.
pub(crate) fn range_starts_with(
    v: &Vec<char>,
    from: usize,
    to: usize,
    prefix: &Vec<char>,
) -> (b: bool)
    requires
        from <= to <= v.len(),
    ensures
        b == prefix@.is_prefix_of(v@.subrange(from as int, to as int)),
{
    let ghost s = v@.subrange(from as int, to as int);
    if prefix.len() > to - from {
        return false;
    }
    let mut i: usize = 0;
    while i < prefix.len()
        invariant
            from <= to <= v.len(),
            prefix.len() <= to - from,
            0 <= i <= prefix.len(),
            s == v@.subrange(from as int, to as int),
            forall|j: int| 0 <= j < i ==> prefix@[j] == #[trigger] s[j],
        decreases prefix.len() - i,
    {
        if prefix[i] != v[from + i] {
            return false;
        }
        i += 1;
    }
    true
}

/// Whether `v[from..to]` is `word`.
pub(crate) fn range_is(v: &Vec<char>, from: usize, to: usize, word: &Vec<char>) -> (b: bool)
    requires
        from <= to <= v.len(),
    ensures
        b == (v@.subrange(from as int, to as int) == word@),
{
    let ghost s = v@.subrange(from as int, to as int);
    if word.len() != to - from {
        return false;
    }
    let b = range_starts_with(v, from, to, word);
    assert(s.subrange(0, s.len() as int) =~= s);
    b
}

/// The ranges of the pieces of `v[from..to]` between the occurrences of `sep`.
pub(crate) fn split_ranges(v: &Vec<char>, from: usize, to: usize, sep: char) -> (r: Vec<
    (usize, usize),
>)
    requires
        from <= to <= v.len(),
    ensures
        ranges_within(r@, from as int, to as int),
        pieces(v@, r@) == split_on(v@.subrange(from as int, to as int), sep),
{
    let mut r: Vec<(usize, usize)> = Vec::new();
    let mut pos: usize = from;
    let ghost whole = v@.subrange(from as int, to as int);
    loop
        invariant_except_break
            split_on(whole, sep) == pieces(v@, r@) + split_on(
                v@.subrange(pos as int, to as int),
                sep,
            ),
        invariant
            from <= pos <= to <= v.len(),
            whole == v@.subrange(from as int, to as int),
            ranges_within(r@, from as int, to as int),
        ensures
            ranges_within(r@, from as int, to as int),
            pieces(v@, r@) == split_on(whole, sep),
        decreases to - pos,
    {
        let ghost rest = v@.subrange(pos as int, to as int);
        let end = scan_out(v, pos, to, CharClass::Only(sep));
        r.push((pos, end));
        proof {
            assert(rest.take(end - pos) =~= v@.subrange(pos as int, end as int));
        }
        if end >= to {
            break;
        }
        proof {
            assert(rest.subrange(end - pos + 1, rest.len() as int) =~= v@.subrange(
                end + 1,
                to as int,
            ));
        }
        pos = end + 1;
    }
    r
}

/// The pieces of `parts` with `sep` between each two of them.
pub open spec fn join(parts: Seq<Seq<char>>, sep: Seq<char>) -> Seq<char>
    decreases parts.len(),
{
    if parts.len() == 0 {
        Seq::empty()
    } else if parts.len() == 1 {
        parts[0]
    } else {
        join(parts.drop_last(), sep) + sep + parts.last()
    }
}

/// The first piece of a joined text can be taken off at the front.
pub proof fn lemma_join_first(parts: Seq<Seq<char>>, sep: Seq<char>)
    requires
        parts.len() >= 2,
    ensures
        join(parts, sep) == parts.first() + sep + join(parts.drop_first(), sep),
    decreases parts.len(),
{
    let front = parts.drop_last();
    let tail = parts.drop_first();
    if parts.len() == 2 {
        assert(join(front, sep) == parts.first());
    } else {
        lemma_join_first(front, sep);
        assert(front.drop_first() =~= tail.drop_last());
    }
}

/// The strings `parts[from..]` with `sep` between each two of them.
pub(crate) fn join_from(parts: &Vec<String>, from: usize, sep: &str) -> (r: String)
    requires
        from <= parts.len(),
    ensures
        r@ == join(parts.deep_view().skip(from as int), sep@),
{
    let ghost all = parts.deep_view();
    let mut out = String::new();
    let mut i: usize = from;
    while i < parts.len()
        invariant
            from <= i <= parts.len(),
            all == parts.deep_view(),
            out@ == join(all.subrange(from as int, i as int), sep@),
        decreases parts.len() - i,
    {
        proof {
            let next = all.subrange(from as int, i + 1);
            assert(next.drop_last() =~= all.subrange(from as int, i as int));
        }
        if i > from {
            out.append(sep);
        }
        out.append(parts[i].as_str());
        i += 1;
    }
    out
}

/// The character that writes the digit `d`.
pub open spec fn digit_char(d: int) -> char {
    if d == 0 {
        '0'
    } else if d == 1 {
        '1'
    } else if d == 2 {
        '2'
    } else if d == 3 {
        '3'
    } else if d == 4 {
        '4'
    } else if d == 5 {
        '5'
    } else if d == 6 {
        '6'
    } else if d == 7 {
        '7'
    } else if d == 8 {
        '8'
    } else {
        '9'
    }
}

/// The decimal digits of `n`, the most significant first, without leading zeros.
pub open spec fn digits(n: nat) -> Seq<char>
    decreases n,
{
    if n < 10 {
        seq![digit_char(n as int)]
    } else {
        digits(n / 10).push(digit_char((n % 10) as int))
    }
}

/// `n` written in decimal, with a minus sign where it is negative.
pub open spec fn decimal(n: int) -> Seq<char> {
    if n < 0 {
        seq!['-'] + digits((-n) as nat)
    } else {
        digits(n as nat)
    }
}

/// The character that writes the digit `d`.
fn digit_of(d: u64) -> (c: char)
    requires
        d < 10,
    ensures
        c == digit_char(d as int),
{
    if d == 0 {
        '0'
    } else if d == 1 {
        '1'
    } else if d == 2 {
        '2'
    } else if d == 3 {
        '3'
    } else if d == 4 {
        '4'
    } else if d == 5 {
        '5'
    } else if d == 6 {
        '6'
    } else if d == 7 {
        '7'
    } else if d == 8 {
        '8'
    } else {
        '9'
    }
}

/// Writes `n` in decimal.
pub fn decimal_string(n: i32) -> (r: String)
    ensures
        r@ == decimal(n as int),
{
    let wide: i64 = n as i64;
    let magnitude: u64 = if wide < 0 {
        (-wide) as u64
    } else {
        wide as u64
    };
    let mut rev: Vec<char> = Vec::new();
    let mut m: u64 = magnitude;
    while m >= 10
        invariant
            digits(magnitude as nat) == digits(m as nat) + rev@.reverse(),
        decreases m,
    {
        rev.push(digit_of(m % 10));
        m = m / 10;
    }
    rev.push(digit_of(m));
    let mut out = String::new();
    if wide < 0 {
        out.push('-');
    }
    let ghost sign = out@;
    let mut i: usize = rev.len();
    while i > 0
        invariant
            0 <= i <= rev.len(),
            out@ == sign + rev@.reverse().take(rev.len() - i),
        decreases i,
    {
        i -= 1;
        out.push(rev[i]);
    }
    out
}

/// `a` followed by `b`.
pub fn followed_by(a: &str, b: &str) -> (r: String)
    ensures
        r@ == a@ + b@,
{
    let mut out = String::from_str(a);
    out.append(b);
    out
}

/// The words of `s`: its longest runs of characters that are not whitespace, in order.
pub open spec fn words(s: Seq<char>) -> Seq<Seq<char>>
    decreases s.len(),
{
    let a = span_in(s, CharClass::Whitespace) as int;
    let rest = s.subrange(a, s.len() as int);
    let n = span_out(rest, CharClass::Whitespace) as int;
    if 0 <= a < s.len() && 0 < n <= rest.len() {
        seq![rest.take(n)] + words(rest.subrange(n, rest.len() as int))
    } else {
        Seq::empty()
    }
}

/// A text that holds whitespace only, or nothing, has no words; any other text has one.
pub proof fn lemma_words_blank(s: Seq<char>)
    ensures
        words(s).len() == 0 <==> forall|i: int| 0 <= i < s.len() ==> is_space(#[trigger] s[i]),
{
    let class = CharClass::Whitespace;
    lemma_span_in(s, class);
    let a = span_in(s, class) as int;
    if a < s.len() {
        let rest = s.subrange(a, s.len() as int);
        lemma_span_out(rest, class);
    }
}

/// Whitespace in front of a text adds no word.
pub proof fn lemma_words_skip_space(c: char, rest: Seq<char>)
    requires
        is_space(c),
    ensures
        words(seq![c] + rest) == words(rest),
{
    let class = CharClass::Whitespace;
    let s = seq![c] + rest;
    assert(s.drop_first() =~= rest);
    lemma_span_in(rest, class);
    let a = span_in(rest, class) as int;
    assert(s.subrange(a + 1, s.len() as int) =~= rest.subrange(a, rest.len() as int));
}

/// A word, which is not empty and holds no whitespace, is the one word of itself, and
/// the first word of what it begins when a space follows it.
pub proof fn lemma_words_first(word: Seq<char>, rest: Seq<char>)
    requires
        word.len() > 0,
        forall|i: int| 0 <= i < word.len() ==> !is_space(#[trigger] word[i]),
    ensures
        words(word) == seq![word],
        words(word + seq![' '] + rest) == seq![word] + words(rest),
{
    let class = CharClass::Whitespace;
    let n = word.len() as int;
    let s = word + seq![' '] + rest;
    assert(s.subrange(0, s.len() as int) =~= s);
    lemma_span_out_is(s, class, n);
    assert(s.take(n) =~= word);
    assert(s.subrange(n, s.len() as int) =~= seq![' '] + rest);
    lemma_words_skip_space(' ', rest);

    lemma_span_out_is(word, class, n);
    assert(word.take(n) =~= word);
    let end = word.subrange(n, n);
    assert(words(end) =~= Seq::<Seq<char>>::empty());
}

/// Words that are joined with single spaces are the words of the joined text.
pub proof fn lemma_words_join(tokens: Seq<Seq<char>>)
    requires
        forall|k: int|
            0 <= k < tokens.len() ==> (#[trigger] tokens[k]).len() > 0 && forall|i: int|
                0 <= i < tokens[k].len() ==> !is_space(#[trigger] tokens[k][i]),
    ensures
        words(join(tokens, seq![' '])) == tokens,
    decreases tokens.len(),
{
    let sep = seq![' '];
    if tokens.len() == 1 {
        lemma_words_first(tokens[0], Seq::empty());
    } else if tokens.len() > 1 {
        let tail = tokens.drop_first();
        lemma_words_join(tail);
        lemma_join_first(tokens, sep);
        lemma_words_first(tokens.first(), join(tail, sep));
    }
}

/// The ranges of the words of `v[from..to]`.
pub(crate) fn word_ranges(v: &Vec<char>, from: usize, to: usize) -> (r: Vec<(usize, usize)>)
    requires
        from <= to <= v.len(),
    ensures
        ranges_within(r@, from as int, to as int),
        pieces(v@, r@) == words(v@.subrange(from as int, to as int)),
{
    let mut r: Vec<(usize, usize)> = Vec::new();
    let mut pos: usize = from;
    let ghost whole = v@.subrange(from as int, to as int);
    loop
        invariant_except_break
            words(whole) == pieces(v@, r@) + words(v@.subrange(pos as int, to as int)),
        invariant
            from <= pos <= to <= v.len(),
            whole == v@.subrange(from as int, to as int),
            ranges_within(r@, from as int, to as int),
        ensures
            ranges_within(r@, from as int, to as int),
            pieces(v@, r@) == words(whole),
        decreases to - pos,
    {
        let ghost s = v@.subrange(pos as int, to as int);
        let start = scan_in(v, pos, to, CharClass::Whitespace);
        let ghost rest = s.subrange(start - pos, s.len() as int);
        assert(rest =~= v@.subrange(start as int, to as int));
        let end = scan_out(v, start, to, CharClass::Whitespace);
        proof {
            lemma_span_in(s, CharClass::Whitespace);
        }
        if start >= to {
            break;
        }
        r.push((start, end));
        proof {
            assert(rest.take(end - start) =~= v@.subrange(start as int, end as int));
            assert(rest.subrange(end - start, rest.len() as int) =~= v@.subrange(
                end as int,
                to as int,
            ));
        }
        pos = end;
    }
    r
}

/// The strings that the ranges cut out of `v`.
pub(crate) fn strings_of(v: &Vec<char>, ranges: &Vec<(usize, usize)>) -> (r: Vec<String>)
    requires
        ranges_within(ranges@, 0, v.len() as int),
    ensures
        r.deep_view() == pieces(v@, ranges@),
{
    let mut r: Vec<String> = Vec::new();
    let mut k: usize = 0;
    while k < ranges.len()
        invariant
            0 <= k <= ranges.len(),
            ranges_within(ranges@, 0, v.len() as int),
            r.deep_view() == pieces(v@, ranges@).take(k as int),
        decreases ranges.len() - k,
    {
        let (from, to) = ranges[k];
        let piece = string_of(v, from, to);
        r.push(piece);
        assert(pieces(v@, ranges@).take(k + 1) =~= pieces(v@, ranges@).take(k as int).push(
            v@.subrange(from as int, to as int),
        ));
        k += 1;
    }
    r
}

/// The words of `s`: what stands between its runs of whitespace.
pub fn split_words(s: &str) -> (r: Vec<String>)
    ensures
        r.deep_view() == words(s@),
{
    let v = chars_of(s);
    assert(v@.subrange(0, v@.len() as int) =~= v@);
    let ranges = word_ranges(&v, 0, v.len());
    strings_of(&v, &ranges)
}

/// Appends a copy of `s` to `v`.
pub fn push_text(v: &mut Vec<String>, s: &str)
    ensures
        final(v).deep_view() == old(v).deep_view().push(s@),
{
    let owned = String::from_str(s);
    v.push(owned);
}

} // verus!
