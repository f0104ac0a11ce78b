//! Character-level text operations on argv tokens, with their mathematical models.

use vstd::prelude::*;
use vstd::string::*;

verus! {

broadcast use vstd::string::group_string_axioms;

/// The characters of `s`, in order.
pub fn chars_of(s: &str) -> (r: Vec<char>)
    ensures
        r@ == s@,
{
    let mut r: Vec<char> = Vec::new();
    for c in it: s.chars()
        invariant
            it.seq() == s@,
            r@ == it.seq().take(it.index() as int),
    {
        r.push(c);
        assert(r@ =~= it.seq().take(it.index() + 1));
    }
    assert(r@ =~= s@);
    r
}


/// A vector of characters is its own deep view.
pub broadcast proof fn lemma_char_vec_deep_view(v: Vec<char>)
    ensures
        #[trigger] v.deep_view() == v@,
{
    assert(v.deep_view() =~= v@);
}

/// `p` occurs in `s` starting at position `i`.
pub open spec fn occurs_at(s: Seq<char>, p: Seq<char>, i: int) -> bool {
    0 <= i && i + p.len() <= s.len() && s.subrange(i, i + p.len()) == p
}

/// `p` occurs somewhere in `s` (the empty sequence occurs in every sequence).
pub open spec fn has_infix(s: Seq<char>, p: Seq<char>) -> bool {
    exists|i: int| occurs_at(s, p, i)
}

/// `s` begins with `p`.
pub open spec fn starts_with(s: Seq<char>, p: Seq<char>) -> bool {
    occurs_at(s, p, 0)
}

/// The last `/`-separated segment of `t`: everything after its last `/`,
/// or `t` itself when it holds no `/`.
pub open spec fn base_name(t: Seq<char>) -> Seq<char>
    decreases t.len(),
{
    if t.len() == 0 {
        t
    } else if t.last() == '/' {
        Seq::empty()
    } else {
        base_name(t.drop_last()).push(t.last())
    }
}

/// The words of `ts` joined by single spaces.
pub open spec fn join_words(ts: Seq<Seq<char>>) -> Seq<char>
    decreases ts.len(),
{
    if ts.len() == 0 {
        Seq::empty()
    } else if ts.len() == 1 {
        ts[0]
    } else {
        join_words(ts.drop_last()) + seq![' '] + ts.last()
    }
}

/// Whether `a` and `b` hold the same characters.
pub fn same_chars(a: &[char], b: &[char]) -> (r: bool)
    ensures
        r == (a@ == b@),
{
    if a.len() != b.len() {
        return false;
    }
    let mut i: usize = 0;
    while i < a.len()
        invariant
            a@.len() == b@.len(),
            0 <= i <= a@.len(),
            forall|j: int| 0 <= j < i ==> a@[j] == b@[j],
        decreases a.len() - i,
    {
        if a[i] != b[i] {
            return false;
        }
        i = i + 1;
    }
    assert(a@ =~= b@);
    true
}

/// Whether `p` occurs in `s` at position `i`.
fn occurs_at_pos(s: &[char], p: &[char], i: usize) -> (r: bool)
    requires
        i + p@.len() <= s@.len(),
    ensures
        r == occurs_at(s@, p@, i as int),
{
    let n: usize = s.len();
    let mut k: usize = 0;
    while k < p.len()
        invariant
            n == s@.len(),
            i + p@.len() <= s@.len(),
            0 <= k <= p@.len(),
            forall|j: int| 0 <= j < k ==> s@[i + j] == p@[j],
        decreases p.len() - k,
    {
        if s[i + k] != p[k] {
            assert(s@.subrange(i as int, i + p@.len())[k as int] != p@[k as int]);
            return false;
        }
        k = k + 1;
    }
    assert(s@.subrange(i as int, i + p@.len()) =~= p@);
    true
}

/// Whether `s` begins with `p`.
pub fn chars_start_with(s: &[char], p: &[char]) -> (r: bool)
    ensures
        r == starts_with(s@, p@),
{
    if p.len() > s.len() {
        return false;
    }
    occurs_at_pos(s, p, 0)
}

/// Whether `p` occurs anywhere in `s`.
pub fn chars_have_infix(s: &[char], p: &[char]) -> (r: bool)
    ensures
        r == has_infix(s@, p@),
{
    if p.len() > s.len() {
        assert forall|i: int| !occurs_at(s@, p@, i) by {}
        return false;
    }
    let last: usize = s.len() - p.len();
    let mut i: usize = 0;
    while i < last
        invariant
            last + p@.len() == s@.len(),
            0 <= i <= last,
            forall|j: int| 0 <= j < i ==> !occurs_at(s@, p@, j),
        decreases last - i,
    {
        if occurs_at_pos(s, p, i) {
            return true;
        }
        i = i + 1;
    }
    if occurs_at_pos(s, p, last) {
        return true;
    }
    assert forall|j: int| !occurs_at(s@, p@, j) by {
        if 0 <= j < last {
        }
    }
    false
}


/// Appends the characters of `t` to `r`.
pub fn push_all(r: &mut Vec<char>, t: &[char])
    ensures
        final(r)@ == old(r)@ + t@,
{
    let mut k: usize = 0;
    while k < t.len()
        invariant
            0 <= k <= t@.len(),
            r@ == old(r)@ + t@.take(k as int),
        decreases t.len() - k,
    {
        r.push(t[k]);
        k = k + 1;
        assert(r@ =~= old(r)@ + t@.take(k as int));
    }
    assert(t@.take(k as int) =~= t@);
}

/// The last `/`-separated segment of a token (its program name when it is a path).
pub fn base_of(tok: &[char]) -> (r: Vec<char>)
    ensures
        r@ == base_name(tok@),
{
    let n: usize = tok.len();
    let mut i: usize = n;
    assert(tok@.take(n as int) =~= tok@);
    assert(tok@.skip(n as int) =~= Seq::<char>::empty());
    while i > 0 && tok[i - 1] != '/'
        invariant
            n == tok@.len(),
            0 <= i <= n,
            base_name(tok@) == base_name(tok@.take(i as int)) + tok@.skip(i as int),
        decreases i,
    {
        let ghost t = tok@.take(i as int);
        assert(t.drop_last() =~= tok@.take(i - 1));
        assert(t.last() == tok@[i - 1]);
        assert(seq![tok@[i - 1]] + tok@.skip(i as int) =~= tok@.skip(i - 1));
        assert(base_name(tok@.take(i - 1)).push(tok@[i - 1]) + tok@.skip(i as int) =~= base_name(
            tok@.take(i - 1),
        ) + tok@.skip(i - 1));
        i = i - 1;
    }
    assert(base_name(tok@.take(i as int)) =~= Seq::<char>::empty());
    let mut r: Vec<char> = Vec::new();
    let mut j: usize = i;
    while j < n
        invariant
            n == tok@.len(),
            i <= j <= n,
            r@ == tok@.subrange(i as int, j as int),
        decreases n - j,
    {
        r.push(tok[j]);
        j = j + 1;
        assert(r@ =~= tok@.subrange(i as int, j as int));
    }
    assert(tok@.skip(i as int) =~= tok@.subrange(i as int, n as int));
    assert(base_name(tok@) =~= r@);
    r
}

/// The words of `ts` joined by single spaces.
pub fn join_with_spaces(ts: &Vec<Vec<char>>) -> (r: Vec<char>)
    ensures
        r@ == join_words(ts.deep_view()),
{
    let mut r: Vec<char> = Vec::new();
    let mut k: usize = 0;
    assert(ts.deep_view().take(0) =~= Seq::<Seq<char>>::empty());
    while k < ts.len()
        invariant
            0 <= k <= ts@.len(),
            ts.deep_view().len() == ts@.len(),
            r@ == join_words(ts.deep_view().take(k as int)),
        decreases ts.len() - k,
    {
        let ghost prev = ts.deep_view().take(k as int);
        let ghost next = ts.deep_view().take(k + 1);
        assert(next.drop_last() =~= prev);
        assert(next.last() == ts@[k as int]@);
        if k > 0 {
            r.push(' ');
        } else {
            assert(r@ =~= Seq::<char>::empty());
        }
        push_all(&mut r, ts[k].as_slice());
        k = k + 1;
        if k == 1 {
            assert(r@ =~= next[0]);
        }
    }
    assert(ts.deep_view().take(k as int) =~= ts.deep_view());
    r
}


/// The segment stack after one more segment of a path: empty segments and `.`
/// change nothing, `..` drops the last segment (and stays at the root), any
/// other segment is pushed.
pub open spec fn close_segment(stack: Seq<Seq<char>>, seg: Seq<char>) -> Seq<Seq<char>> {
    if seg.len() == 0 || seg == "."@ {
        stack
    } else if seg == ".."@ {
        if stack.len() > 0 {
            stack.drop_last()
        } else {
            stack
        }
    } else {
        stack.push(seg)
    }
}

/// Lexical resolution of the rest `p` of a path, from the segments `stack`
/// already resolved and the partial segment `cur` being read.
pub open spec fn resolve_from(p: Seq<char>, stack: Seq<Seq<char>>, cur: Seq<char>) -> Seq<
    Seq<char>,
>
    decreases p.len(),
{
    if p.len() == 0 {
        close_segment(stack, cur)
    } else if p[0] == '/' {
        resolve_from(p.drop_first(), close_segment(stack, cur), Seq::empty())
    } else {
        resolve_from(p.drop_first(), stack, cur.push(p[0]))
    }
}

/// The segments of a path with `.`, `..` and repeated `/` resolved lexically
/// (read from the root).
pub open spec fn resolved_segments(p: Seq<char>) -> Seq<Seq<char>> {
    resolve_from(p, Seq::empty(), Seq::empty())
}

/// A vector of segments, as the sequence of their characters.
pub open spec fn segments_view(v: Seq<Vec<char>>) -> Seq<Seq<char>> {
    Seq::new(v.len(), |i: int| v[i]@)
}

/// Applies one segment to the stack of resolved segments.
fn close_seg(stack: &mut Vec<Vec<char>>, seg: Vec<char>)
    ensures
        segments_view(final(stack)@) == close_segment(segments_view(old(stack)@), seg@),
{
    let dot = chars_of(".");
    let dotdot = chars_of("..");
    if seg.len() == 0 || same_chars(seg.as_slice(), dot.as_slice()) {
    } else if same_chars(seg.as_slice(), dotdot.as_slice()) {
        if stack.len() > 0 {
            let _ = stack.pop();
            assert(segments_view(stack@) =~= segments_view(old(stack)@).drop_last());
        }
    } else {
        stack.push(seg);
        assert(segments_view(stack@) =~= segments_view(old(stack)@).push(seg@));
    }
}

/// The segments of a path with `.`, `..` and repeated `/` resolved lexically.
pub fn resolve_path(p: &[char]) -> (r: Vec<Vec<char>>)
    ensures
        segments_view(r@) == resolved_segments(p@),
{
    let mut stack: Vec<Vec<char>> = Vec::new();
    let mut cur: Vec<char> = Vec::new();
    let mut i: usize = 0;
    assert(p@.skip(0) =~= p@);
    assert(segments_view(stack@) =~= Seq::<Seq<char>>::empty());
    while i < p.len()
        invariant
            0 <= i <= p@.len(),
            resolved_segments(p@) == resolve_from(p@.skip(i as int), segments_view(stack@), cur@),
        decreases p.len() - i,
    {
        let ghost rest = p@.skip(i as int);
        assert(rest[0] == p@[i as int]);
        assert(rest.drop_first() =~= p@.skip(i + 1));
        if p[i] == '/' {
            let seg = cur;
            close_seg(&mut stack, seg);
            cur = Vec::new();
            assert(cur@ =~= Seq::<char>::empty());
        } else {
            cur.push(p[i]);
        }
        i = i + 1;
    }
    close_seg(&mut stack, cur);
    stack
}

} // verus!
