//! Commas at the top level of a text: those that stand neither inside a quoted string nor
//! inside brackets or braces.

use crate::text::{join, lemma_join_first, pieces, ranges_within};
use vstd::prelude::*;

verus! {

/// Where a scan stands in the nesting of a text.
#[derive(Debug, Clone, Copy)]
pub(crate) struct Nesting {
    /// The quote character of the string that the scan is in, if it is in one.
    pub quote: Option<char>,
    /// Whether the scan is in a string, directly behind a backslash.
    pub escaped: bool,
    /// How many brackets and braces are open.
    pub depth: usize,
}

/// A `Nesting` with an unbounded depth.
pub ghost struct NestingView {
    pub quote: Option<char>,
    pub escaped: bool,
    pub depth: nat,
}

impl View for Nesting {
    type V = NestingView;

    closed spec fn view(&self) -> NestingView {
        NestingView { quote: self.quote, escaped: self.escaped, depth: self.depth as nat }
    }
}

impl NestingView {
    /// The top level: in no string, with nothing open.
    pub open spec fn top() -> NestingView {
        NestingView { quote: None, escaped: false, depth: 0 }
    }

    /// The nesting behind the character `c`. In a string, a backslash takes the next
    /// character with it, and the string's own quote character ends it. Outside of
    /// strings, either quote character begins one, `{` and `[` open a level, and `}` and
    /// `]` close one, if one is open.
    pub open spec fn step(self, c: char) -> NestingView {
        match self.quote {
            Some(q) => if self.escaped {
                NestingView { escaped: false, ..self }
            } else if c == '\\' {
                NestingView { escaped: true, ..self }
            } else if c == q {
                NestingView { quote: None, ..self }
            } else {
                self
            },
            None => if c == '"' || c == '\'' {
                NestingView { quote: Some(c), escaped: false, depth: self.depth }
            } else if c == '{' || c == '[' {
                NestingView { depth: self.depth + 1, ..self }
            } else if (c == '}' || c == ']') && self.depth > 0 {
                NestingView { depth: (self.depth - 1) as nat, ..self }
            } else {
                self
            },
        }
    }

    /// The nesting behind the text `s`.
    pub open spec fn after(self, s: Seq<char>) -> NestingView
        decreases s.len(),
    {
        if s.len() == 0 {
            self
        } else {
            self.step(s.first()).after(s.drop_first())
        }
    }
}

/// The length of the part of `s` before its first comma at the top level, for a scan that
/// begins in the nesting `from`; `s.len()` where there is no such comma.
pub open spec fn top_span(s: Seq<char>, from: NestingView) -> nat
    decreases s.len(),
{
    if s.len() == 0 || (from == NestingView::top() && s.first() == ',') {
        0
    } else {
        1 + top_span(s.drop_first(), from.step(s.first()))
    }
}

/// The pieces of `s` between its commas at the top level: one more than there are such
/// commas.
pub open spec fn top_split(s: Seq<char>) -> Seq<Seq<char>>
    decreases s.len(),
{
    let n = top_span(s, NestingView::top()) as int;
    if 0 <= n < s.len() {
        seq![s.take(n)] + top_split(s.subrange(n + 1, s.len() as int))
    } else {
        seq![s]
    }
}

/// Whether `s` can stand as one entry among others: it holds no comma at the top level,
/// and leaves no string, bracket or brace open, so that the scan is back at the top level
/// behind it.
pub open spec fn closed(s: Seq<char>) -> bool {
    top_span(s, NestingView::top()) == s.len() && NestingView::top().after(s)
        == NestingView::top()
}

/// Behind a text without a comma at the top level, the scan goes on in the nesting that
/// the text leaves.
pub proof fn lemma_top_span_concat(x: Seq<char>, y: Seq<char>, from: NestingView)
    requires
        top_span(x, from) == x.len(),
    ensures
        top_span(x + y, from) == x.len() + top_span(y, from.after(x)),
    decreases x.len(),
{
    if x.len() > 0 {
        assert((x + y).drop_first() =~= x.drop_first() + y);
        lemma_top_span_concat(x.drop_first(), y, from.step(x.first()));
    }
}

/// A closed text is one piece, and a closed text before a comma is the first piece of
/// what the two begin.
pub proof fn lemma_top_split_first(entry: Seq<char>, rest: Seq<char>)
    requires
        closed(entry),
    ensures
        top_split(entry) == seq![entry],
        top_split(entry + seq![','] + rest) == seq![entry] + top_split(rest),
{
    let tail = seq![','] + rest;
    let s = entry + seq![','] + rest;
    assert(s =~= entry + tail);
    lemma_top_span_concat(entry, tail, NestingView::top());
    assert(s.take(entry.len() as int) =~= entry);
    assert(s.subrange(entry.len() as int + 1, s.len() as int) =~= rest);
}

/// Closed entries that are joined with commas are the pieces of the joined text.
pub proof fn lemma_top_split_join(entries: Seq<Seq<char>>)
    requires
        entries.len() > 0,
        forall|i: int| 0 <= i < entries.len() ==> closed(#[trigger] entries[i]),
    ensures
        top_split(join(entries, seq![','])) == entries,
    decreases entries.len(),
{
    let sep = seq![','];
    if entries.len() > 1 {
        let tail = entries.drop_first();
        lemma_top_split_join(tail);
        lemma_join_first(entries, sep);
        lemma_top_split_first(entries.first(), join(tail, sep));
    }
}

impl Nesting {
    /// The top level.
    pub(crate) fn top() -> (n: Nesting)
        ensures
            n@ == NestingView::top(),
    {
        Nesting { quote: None, escaped: false, depth: 0 }
    }

    /// Whether this is the top level.
    pub(crate) fn is_top(&self) -> (b: bool)
        ensures
            b == (self@ == NestingView::top()),
    {
        self.quote.is_none() && !self.escaped && self.depth == 0
    }

    /// The nesting behind the character `c`.
    pub(crate) fn step(&self, c: char) -> (n: Nesting)
        requires
            self.depth < usize::MAX,
        ensures
            n@ == self@.step(c),
    {
        match self.quote {
            Some(q) => {
                if self.escaped {
                    Nesting { quote: self.quote, escaped: false, depth: self.depth }
                } else if c == '\\' {
                    Nesting { quote: self.quote, escaped: true, depth: self.depth }
                } else if c == q {
                    Nesting { quote: None, escaped: self.escaped, depth: self.depth }
                } else {
                    *self
                }
            },
            None => {
                if c == '"' || c == '\'' {
                    Nesting { quote: Some(c), escaped: false, depth: self.depth }
                } else if c == '{' || c == '[' {
                    Nesting { quote: None, escaped: self.escaped, depth: self.depth + 1 }
                } else if (c == '}' || c == ']') && self.depth > 0 {
                    Nesting { quote: None, escaped: self.escaped, depth: self.depth - 1 }
                } else {
                    *self
                }
            },
        }
    }
}

/// The position of the first comma at the top level of `v[from..to]`, or `to` where there
/// is none.
pub(crate) fn scan_top(v: &Vec<char>, from: usize, to: usize) -> (r: usize)
    requires
        from <= to <= v.len(),
    ensures
        from <= r <= to,
        r == from + top_span(v@.subrange(from as int, to as int), NestingView::top()),
{
    let mut i: usize = from;
    let mut at = Nesting::top();
    while i < to && !(at.is_top() && v[i] == ',')
        invariant
            from <= i <= to <= v.len(),
            at.depth <= i - from,
            top_span(v@.subrange(from as int, to as int), NestingView::top()) == (i - from)
                + top_span(v@.subrange(i as int, to as int), at@),
        decreases to - i,
    {
        proof {
            let rest = v@.subrange(i as int, to as int);
            assert(rest.drop_first() =~= v@.subrange(i + 1, to as int));
        }
        at = at.step(v[i]);
        i += 1;
    }
    i
}

/// The ranges of the pieces of `v[from..to]` between its commas at the top level.
pub(crate) fn top_level_ranges(v: &Vec<char>, from: usize, to: usize) -> (r: Vec<(usize, usize)>)
    requires
        from <= to <= v.len(),
    ensures
        ranges_within(r@, from as int, to as int),
        pieces(v@, r@) == top_split(v@.subrange(from as int, to as int)),
{
    let mut r: Vec<(usize, usize)> = Vec::new();
    let mut pos: usize = from;
    let ghost whole = v@.subrange(from as int, to as int);
    loop
        invariant_except_break
            top_split(whole) == pieces(v@, r@) + top_split(v@.subrange(pos as int, to as int)),
        invariant
            from <= pos <= to <= v.len(),
            whole == v@.subrange(from as int, to as int),
            ranges_within(r@, from as int, to as int),
        ensures
            ranges_within(r@, from as int, to as int),
            pieces(v@, r@) == top_split(whole),
        decreases to - pos,
    {
        let ghost rest = v@.subrange(pos as int, to as int);
        let end = scan_top(v, pos, to);
        r.push((pos, end));
        proof {
            assert(rest.take(end - pos) =~= v@.subrange(pos as int, end as int));
        }
        if end >= to {
            break;
        }
        proof {
            assert(rest.subrange(end - pos + 1, rest.len() as int) =~= v@.subrange(
                end + 1,
                to as int,
            ));
        }
        pos = end + 1;
    }
    r
}

} // verus!
