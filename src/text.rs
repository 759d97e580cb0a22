use vstd::prelude::*;
use vstd::std_specs::iter::IteratorSpec;

verus! {

/// The characters with the Unicode `White_Space` property, the set that
/// `char::is_whitespace`, `str::trim` and `str::split_whitespace` use.
pub open spec fn is_white_space(c: char) -> bool {
    let u = c as u32;
    (0x9 <= u && u <= 0xd) || u == 0x20 || u == 0x85 || u == 0xa0 || u == 0x1680 || (0x2000 <= u
        && u <= 0x200a) || u == 0x2028 || u == 0x2029 || u == 0x202f || u == 0x205f || u == 0x3000
}

/// The number of leading characters of `s` that satisfy `p`.
pub open spec fn lead_len(s: Seq<char>, p: spec_fn(char) -> bool) -> nat
    decreases s.len(),
{
    if s.len() > 0 && p(s[0]) {
        1 + lead_len(s.drop_first(), p)
    } else {
        0
    }
}

/// The number of trailing characters of `s` that satisfy `p`.
pub open spec fn trail_len(s: Seq<char>, p: spec_fn(char) -> bool) -> nat
    decreases s.len(),
{
    if s.len() > 0 && p(s.last()) {
        1 + trail_len(s.drop_last(), p)
    } else {
        0
    }
}

/// Whitespace, as a predicate.
pub open spec fn white() -> spec_fn(char) -> bool {
    |c: char| is_white_space(c)
}

/// Anything but whitespace, as a predicate.
pub open spec fn not_white() -> spec_fn(char) -> bool {
    |c: char| !is_white_space(c)
}

/// Anything but `x`, as a predicate.
pub open spec fn not_char(x: char) -> spec_fn(char) -> bool {
    |c: char| c != x
}

/// The characters that a whitespace skip passes over: space, tab, carriage
/// return and newline.
pub open spec fn is_line_space(c: char) -> bool {
    c == ' ' || c == '\t' || c == '\r' || c == '\n'
}

/// Space, tab, carriage return or newline, as a predicate.
pub open spec fn line_space() -> spec_fn(char) -> bool {
    |c: char| is_line_space(c)
}

/// `s` without its leading spaces, tabs, carriage returns and newlines.
pub open spec fn skip_spaces(s: Seq<char>) -> Seq<char> {
    s.skip(lead_len(s, line_space()) as int)
}

/// `s` without its leading whitespace.
pub open spec fn skip_white(s: Seq<char>) -> Seq<char> {
    s.skip(lead_len(s, white()) as int)
}

/// `s` without its leading and trailing whitespace.
pub open spec fn trim(s: Seq<char>) -> Seq<char> {
    let t = skip_white(s);
    t.take(t.len() - trail_len(t, white()))
}

/// The first maximal run of non-whitespace characters of `s`, empty when
/// `s` holds only whitespace.
pub open spec fn first_token(s: Seq<char>) -> Seq<char> {
    let t = skip_white(s);
    t.take(lead_len(t, not_white()) as int)
}

/// The lines of `t`: the pieces between newline characters, where a final
/// newline ends the last line rather than starting an empty one. A carriage
/// return before a newline stays in its line; as whitespace it never changes
/// how a line is read.
pub open spec fn lines_of(t: Seq<char>) -> Seq<Seq<char>>
    decreases t.len(),
{
    if t.len() == 0 {
        seq![]
    } else {
        let k = lead_len(t, not_char('\n')) as int;
        if k < t.len() {
            seq![t.take(k)] + lines_of(t.skip(k + 1))
        } else {
            seq![t]
        }
    }
}

/// The leading run fits in `s`, satisfies `p`, and ends at the end or at a
/// character that does not.
pub proof fn lemma_lead_len_bound(s: Seq<char>, p: spec_fn(char) -> bool)
    ensures
        lead_len(s, p) <= s.len(),
        lead_len(s, p) < s.len() ==> !p(s[lead_len(s, p) as int]),
        forall|j: int| 0 <= j < lead_len(s, p) ==> p(#[trigger] s[j]),
    decreases s.len(),
{
    if s.len() > 0 && p(s[0]) {
        lemma_lead_len_bound(s.drop_first(), p);
        assert forall|j: int| 0 <= j < lead_len(s, p) implies p(#[trigger] s[j]) by {
            if j > 0 {
                assert(s[j] == s.drop_first()[j - 1]);
            }
        }
    }
}

/// The trailing run fits in `s`.
pub proof fn lemma_trail_len_bound(s: Seq<char>, p: spec_fn(char) -> bool)
    ensures
        trail_len(s, p) <= s.len(),
    decreases s.len(),
{
    if s.len() > 0 && p(s.last()) {
        lemma_trail_len_bound(s.drop_last(), p);
    }
}

/// A run of `k` leading characters that satisfy `p`, followed by the end or
/// by one that does not, is the leading run.
pub proof fn lemma_lead_len(s: Seq<char>, p: spec_fn(char) -> bool, k: int)
    requires
        0 <= k <= s.len(),
        forall|j: int| 0 <= j < k ==> p(#[trigger] s[j]),
        k == s.len() || !p(s[k]),
    ensures
        lead_len(s, p) == k,
    decreases k,
{
    if k > 0 {
        assert forall|j: int| 0 <= j < k - 1 implies p(#[trigger] s.drop_first()[j]) by {
            assert(s.drop_first()[j] == s[j + 1]);
        }
        lemma_lead_len(s.drop_first(), p, k - 1);
    }
}

/// A run of `k` trailing characters that satisfy `p`, preceded by the start
/// or by one that does not, is the trailing run.
pub proof fn lemma_trail_len(s: Seq<char>, p: spec_fn(char) -> bool, k: int)
    requires
        0 <= k <= s.len(),
        forall|j: int| s.len() - k <= j < s.len() ==> p(#[trigger] s[j]),
        k == s.len() || !p(s[s.len() - k - 1]),
    ensures
        trail_len(s, p) == k,
    decreases k,
{
    if k > 0 {
        assert forall|j: int| s.len() - 1 - (k - 1) <= j < s.len() - 1 implies p(
            #[trigger] s.drop_last()[j],
        ) by {
            assert(s.drop_last()[j] == s[j]);
        }
        lemma_trail_len(s.drop_last(), p, k - 1);
    }
}

/// The characters of `s`, one per element, for constant-time indexing.
pub fn char_vec(s: &str) -> (r: Vec<char>)
    ensures
        r@ == s@,
{
    let mut out: Vec<char> = Vec::new();
    let mut it = s.chars();
    loop
        invariant
            it.remaining() == s@.skip(out@.len() as int),
            out@ == s@.take(out@.len() as int),
            out@.len() <= s@.len(),
        ensures
            out@ == s@,
        decreases s@.len() - out@.len(),
    {
        match it.next() {
            Some(c) => {
                out.push(c);
            },
            None => {
                assert(out@ =~= s@);
                break;
            },
        }
    }
    out
}

/// Whether `c` has the Unicode `White_Space` property.
pub fn is_white_space_char(c: char) -> (r: bool)
    ensures
        r == is_white_space(c),
{
    let u = c as u32;
    (0x9 <= u && u <= 0xd) || u == 0x20 || u == 0x85 || u == 0xa0 || u == 0x1680 || (0x2000 <= u
        && u <= 0x200a) || u == 0x2028 || u == 0x2029 || u == 0x202f || u == 0x205f || u == 0x3000
}

/// The number of leading whitespace characters of `s`.
pub fn white_run(s: &Vec<char>) -> (r: usize)
    ensures
        r == lead_len(s@, white()),
{
    let mut i: usize = 0;
    while i < s.len() && is_white_space_char(s[i])
        invariant
            i <= s@.len(),
            forall|j: int| 0 <= j < i ==> (white())(#[trigger] s@[j]),
        decreases s@.len() - i,
    {
        i = i + 1;
    }
    proof {
        lemma_lead_len(s@, white(), i as int);
    }
    i
}

/// The number of leading spaces, tabs, carriage returns and newlines of `s`.
pub fn space_run(s: &Vec<char>) -> (r: usize)
    ensures
        r == lead_len(s@, line_space()),
{
    let mut i: usize = 0;
    while i < s.len() && (s[i] == ' ' || s[i] == '\t' || s[i] == '\r' || s[i] == '\n')
        invariant
            i <= s@.len(),
            forall|j: int| 0 <= j < i ==> (line_space())(#[trigger] s@[j]),
        decreases s@.len() - i,
    {
        i = i + 1;
    }
    proof {
        lemma_lead_len(s@, line_space(), i as int);
    }
    i
}

/// The number of trailing whitespace characters of `s`.
pub fn trailing_white_run(s: &Vec<char>) -> (r: usize)
    ensures
        r == trail_len(s@, white()),
{
    let mut k: usize = 0;
    while k < s.len() && is_white_space_char(s[s.len() - 1 - k])
        invariant
            k <= s@.len(),
            forall|j: int| s@.len() - k <= j < s@.len() ==> (white())(#[trigger] s@[j]),
        decreases s@.len() - k,
    {
        k = k + 1;
    }
    proof {
        lemma_trail_len(s@, white(), k as int);
    }
    k
}

/// `s` without its leading and trailing whitespace.
pub fn trim_str(s: &str) -> (r: &str)
    ensures
        r@ == trim(s@),
{
    let cs = char_vec(s);
    let a = white_run(&cs);
    proof {
        lemma_lead_len_bound(s@, white());
    }
    let t = s.substring_char(a, cs.len());
    let ts = char_vec(t);
    let b = trailing_white_run(&ts);
    proof {
        lemma_trail_len_bound(t@, white());
    }
    t.substring_char(0, ts.len() - b)
}

/// A character that fails `p` bounds the trailing run of `p` from before.
pub proof fn lemma_trail_len_stops(s: Seq<char>, p: spec_fn(char) -> bool, j: int)
    requires
        0 <= j < s.len(),
        !p(s[j]),
    ensures
        trail_len(s, p) <= s.len() - 1 - j,
    decreases s.len(),
{
    if s.len() > 0 && p(s.last()) {
        assert(j < s.len() - 1);
        assert(s.drop_last()[j] == s[j]);
        lemma_trail_len_stops(s.drop_last(), p, j);
    }
}

/// The first token of a line starts its trimmed form.
pub proof fn lemma_token_starts_trim(s: Seq<char>)
    ensures
        first_token(s).len() <= trim(s).len(),
        trim(s).take(first_token(s).len() as int) == first_token(s),
{
    let t = skip_white(s);
    lemma_lead_len_bound(s, white());
    lemma_lead_len_bound(t, not_white());
    lemma_trail_len_bound(t, white());
    let k = lead_len(t, not_white()) as int;
    if k > 0 {
        lemma_trail_len_stops(t, white(), k - 1);
    }
    assert(trim(s).take(k) =~= t.take(k));
}

/// The number of non-whitespace characters of `s` from position `from` on,
/// up to the next whitespace character or the end.
pub fn token_run(s: &Vec<char>, from: usize) -> (r: usize)
    requires
        from <= s@.len(),
    ensures
        r == lead_len(s@.skip(from as int), not_white()),
        from + r <= s@.len(),
{
    let mut i: usize = from;
    while i < s.len() && !is_white_space_char(s[i])
        invariant
            from <= i <= s@.len(),
            forall|j: int| from <= j < i ==> (not_white())(#[trigger] s@[j]),
        decreases s@.len() - i,
    {
        i = i + 1;
    }
    let ghost t = s@.skip(from as int);
    proof {
        assert forall|j: int| 0 <= j < i - from implies (not_white())(#[trigger] t[j]) by {
            assert(t[j] == s@[from + j]);
        }
        if i < s@.len() {
            assert(t[i - from] == s@[i as int]);
        }
        lemma_lead_len(t, not_white(), i - from);
    }
    i - from
}

/// Whether the `len` characters of `s` from position `from` on spell `word`.
pub fn segment_is(s: &Vec<char>, from: usize, len: usize, word: &str) -> (r: bool)
    requires
        from + len <= s@.len(),
    ensures
        r == (s@.subrange(from as int, from + len) == word@),
{
    let w = char_vec(word);
    if w.len() != len {
        assert(s@.subrange(from as int, from + len).len() != word@.len());
        return false;
    }
    let n = s.len();
    let mut i: usize = 0;
    while i < len
        invariant
            i <= len,
            n == s@.len(),
            w@ == word@,
            w@.len() == len,
            from + len <= s@.len(),
            forall|j: int| 0 <= j < i ==> s@[from + j] == w@[j],
        decreases len - i,
    {
        if s[from + i] != w[i] {
            assert(s@.subrange(from as int, from + len)[i as int] != w@[i as int]);
            return false;
        }
        i = i + 1;
    }
    assert(s@.subrange(from as int, from + len) =~= w@);
    true
}

} // verus!
