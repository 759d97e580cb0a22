//! Composable recognisers over string slices. Each one either consumes a
//! prefix of its input and hands back what is left, or reports no match.
use vstd::prelude::*;
use crate::text::{char_vec, space_run, lead_len, not_char, skip_spaces, line_space, lemma_lead_len, lemma_lead_len_bound};

verus! {

/// The characters of a matcher's outcome, if it matched.
pub open spec fn opt_view(r: Option<&str>) -> Option<Seq<char>> {
    match r {
        Some(x) => Some(x@),
        None => None,
    }
}

/// What follows `lit` at the start of `s`, if `s` starts with it.
pub open spec fn literal_rest(lit: Seq<char>, s: Seq<char>) -> Option<Seq<char>> {
    if lit.len() <= s.len() && s.take(lit.len() as int) == lit {
        Some(s.skip(lit.len() as int))
    } else {
        None
    }
}

/// The characters strictly between a leading `start` and the first `end`
/// after it; no match without the leading `start` or without a later `end`.
/// An `end` right after `start` gives the empty content.
pub open spec fn inside_balanced(start: char, end: char, s: Seq<char>) -> Option<Seq<char>> {
    if s.len() > 0 && s[0] == start {
        let body = s.skip(1);
        let k = lead_len(body, not_char(end)) as int;
        if k < body.len() {
            Some(body.take(k))
        } else {
            None
        }
    } else {
        None
    }
}

/// Matches an exact literal at the start of the input.
pub struct TakeLiteral {
    pub literal: &'static str,
}

/// Matches the matchers of `takers` one after another, each on what the
/// one before it left.
pub struct TakeSequence {
    pub takers: Vec<Taker>,
}

/// Extracts what stands between a leading `start` and the next `end`.
pub struct TakeInsideBalanced {
    pub start: char,
    pub end: char,
}

/// Skips leading spaces, tabs, carriage returns and newlines; always
/// matches. Other whitespace is kept.
pub struct TakeWhitespace;

/// Makes `next` optional: where it does not match, the input is handed
/// back unconsumed.
pub struct TakeMaybe {
    pub next: Box<Taker>,
}

/// Falls back to `or` itself where `next` does not match.
pub struct TakeOr {
    pub next: Box<Taker>,
    pub or: &'static str,
}

/// One matcher of any kind.
pub enum Taker {
    Literal(TakeLiteral),
    Sequence(TakeSequence),
    InsideBalanced(TakeInsideBalanced),
    Whitespace(TakeWhitespace),
    Maybe(TakeMaybe),
    Or(TakeOr),
}

/// The outcome of applying `ts` in order to `s`: no match as soon as one of
/// them fails, else what the last one left.
pub open spec fn take_all(ts: Seq<Taker>, s: Seq<char>) -> Option<Seq<char>>
    decreases ts,
{
    if ts.len() == 0 {
        Some(s)
    } else {
        match take_all(ts.drop_last(), s) {
            Some(r) => ts.last().spec_take(r),
            None => None,
        }
    }
}

impl Taker {
    /// The outcome of this matcher on `s`.
    pub open spec fn spec_take(self, s: Seq<char>) -> Option<Seq<char>>
        decreases self,
    {
        match self {
            Taker::Literal(t) => literal_rest(t.literal@, s),
            Taker::Sequence(t) => take_all(t.takers@, s),
            Taker::InsideBalanced(t) => inside_balanced(t.start, t.end, s),
            Taker::Whitespace(_) => Some(skip_spaces(s)),
            Taker::Maybe(t) => match t.next.spec_take(s) {
                Some(r) => Some(r),
                None => Some(s),
            },
            Taker::Or(t) => match t.next.spec_take(s) {
                Some(r) => Some(r),
                None => Some(t.or@),
            },
        }
    }
}

impl TakeLiteral {
    /// A matcher for `literal`.
    pub fn new(literal: &'static str) -> (r: TakeLiteral)
        ensures
            r.literal@ == literal@,
    {
        TakeLiteral { literal }
    }

    /// What is left of `source` after this matcher, or `None` where it does
    /// not match.
    pub fn take<'a>(&self, source: &'a str) -> (r: Option<&'a str>)
        ensures
            opt_view(r) == literal_rest(self.literal@, source@),
    {
        let lit = char_vec(self.literal);
        let src = char_vec(source);
        if lit.len() > src.len() {
            return None;
        }
        let mut i: usize = 0;
        while i < lit.len()
            invariant
                i <= lit@.len() <= src@.len(),
                lit@ == self.literal@,
                src@ == source@,
                forall|j: int| 0 <= j < i ==> src@[j] == lit@[j],
            decreases lit@.len() - i,
        {
            if src[i] != lit[i] {
                assert(src@.take(lit@.len() as int)[i as int] != lit@[i as int]);
                return None;
            }
            i = i + 1;
        }
        assert(src@.take(lit@.len() as int) =~= lit@);
        Some(source.substring_char(lit.len(), src.len()))
    }
}

impl TakeInsideBalanced {
    /// A matcher for what stands between `start` and the next `end`.
    pub fn new(start: char, end: char) -> (r: TakeInsideBalanced)
        ensures
            r.start == start,
            r.end == end,
    {
        TakeInsideBalanced { start, end }
    }

    /// What is left of `source` after this matcher, or `None` where it does
    /// not match.
    pub fn take<'a>(&self, source: &'a str) -> (r: Option<&'a str>)
        ensures
            opt_view(r) == inside_balanced(self.start, self.end, source@),
    {
        let src = char_vec(source);
        if src.len() == 0 || src[0] != self.start {
            return None;
        }
        let mut i: usize = 1;
        while i < src.len() && src[i] != self.end
            invariant
                1 <= i <= src@.len(),
                src@ == source@,
                forall|j: int| 1 <= j < i ==> src@[j] != self.end,
            decreases src@.len() - i,
        {
            i = i + 1;
        }
        let ghost body = src@.skip(1);
        proof {
            assert forall|j: int| 0 <= j < i - 1 implies (not_char(self.end))(#[trigger] body[j]) by {
                assert(body[j] == src@[j + 1]);
            }
            if i < src@.len() {
                assert(body[i - 1] == src@[i as int]);
            }
            lemma_lead_len(body, not_char(self.end), i - 1);
        }
        if i == src.len() {
            return None;
        }
        let r = source.substring_char(1, i);
        assert(r@ =~= body.take(i - 1));
        Some(r)
    }
}

impl TakeWhitespace {
    /// A matcher that skips spaces, tabs, carriage returns and newlines.
    pub fn new() -> (r: TakeWhitespace) {
        TakeWhitespace
    }

    /// What is left of `source` after this matcher, or `None` where it does
    /// not match.
    pub fn take<'a>(&self, source: &'a str) -> (r: Option<&'a str>)
        ensures
            opt_view(r) == Some(skip_spaces(source@)),
    {
        let src = char_vec(source);
        let k = space_run(&src);
        proof {
            lemma_lead_len_bound(source@, line_space());
        }
        Some(source.substring_char(k, src.len()))
    }
}

impl TakeMaybe {
    /// Makes `next` optional.
    pub fn new(next: Taker) -> (r: TakeMaybe)
        ensures
            *r.next == next,
    {
        TakeMaybe { next: Box::new(next) }
    }

    /// What is left of `source` after this matcher, or `None` where it does
    /// not match.
    pub fn take<'a>(&self, source: &'a str) -> (r: Option<&'a str>)
        ensures
            opt_view(r) == Taker::Maybe(*self).spec_take(source@),
        decreases self,
    {
        match self.next.take(source) {
            Some(rest) => Some(rest),
            None => Some(source),
        }
    }
}

impl TakeOr {
    /// Falls back to `or` where `next` does not match.
    pub fn new(next: Taker, or: &'static str) -> (r: TakeOr)
        ensures
            *r.next == next,
            r.or@ == or@,
    {
        TakeOr { next: Box::new(next), or }
    }

    /// What is left of `source` after this matcher, or `None` where it does
    /// not match.
    pub fn take<'a>(&self, source: &'a str) -> (r: Option<&'a str>)
        ensures
            opt_view(r) == Taker::Or(*self).spec_take(source@),
        decreases self,
    {
        match self.next.take(source) {
            Some(rest) => Some(rest),
            None => Some(self.or),
        }
    }
}

impl TakeSequence {
    /// Applies `takers` one after another.
    pub fn new(takers: Vec<Taker>) -> (r: TakeSequence)
        ensures
            r.takers@ == takers@,
    {
        TakeSequence { takers }
    }

    /// What is left of `source` after this matcher, or `None` where it does
    /// not match.
    pub fn take<'a>(&self, source: &'a str) -> (r: Option<&'a str>)
        ensures
            opt_view(r) == take_all(self.takers@, source@),
        decreases self,
    {
        let mut current = source;
        let mut i: usize = 0;
        while i < self.takers.len()
            invariant
                i <= self.takers@.len(),
                take_all(self.takers@.take(i as int), source@) == Some(current@),
            decreases self.takers@.len() - i,
        {
            assert(self.takers@.take(i + 1).drop_last() =~= self.takers@.take(i as int));
            match self.takers[i].take(current) {
                Some(rest) => {
                    current = rest;
                },
                None => {
                    proof {
                        lemma_take_all_fails(self.takers@, source@, i + 1);
                    }
                    return None;
                },
            }
            i = i + 1;
        }
        assert(self.takers@.take(i as int) =~= self.takers@);
        Some(current)
    }
}

/// Once a prefix of the matchers fails, the whole sequence fails.
proof fn lemma_take_all_fails(ts: Seq<Taker>, s: Seq<char>, k: int)
    requires
        0 <= k <= ts.len(),
        take_all(ts.take(k), s) is None,
    ensures
        take_all(ts, s) is None,
    decreases ts.len() - k,
{
    if k < ts.len() {
        assert(ts.take(k + 1).drop_last() =~= ts.take(k));
        lemma_take_all_fails(ts, s, k + 1);
    } else {
        assert(ts.take(k) =~= ts);
    }
}

impl Taker {
    /// What is left of `source` after this matcher, or `None` where it does
    /// not match.
    pub fn take<'a>(&self, source: &'a str) -> (r: Option<&'a str>)
        ensures
            opt_view(r) == self.spec_take(source@),
        decreases self,
    {
        match self {
            Taker::Literal(t) => t.take(source),
            Taker::Sequence(t) => t.take(source),
            Taker::InsideBalanced(t) => t.take(source),
            Taker::Whitespace(t) => t.take(source),
            Taker::Maybe(t) => t.take(source),
            Taker::Or(t) => t.take(source),
        }
    }
}

} // verus!
