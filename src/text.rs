//! Character-level helpers shared by the parsers.
use vstd::prelude::*;

verus! {

/// An ASCII decimal digit.
pub open spec fn is_digit(c: char) -> bool {
    '0' <= c <= '9'
}

/// `c` equals `p` up to ASCII case; `p` is taken in its lower-case form.
pub open spec fn same_letter_ci(c: char, p: char) -> bool {
    c == p || ('a' <= p <= 'z' && c as u32 + 32 == p as u32)
}

/// `p` occurs in `t` at position `i`, ignoring ASCII case.
pub open spec fn occurs_ci_at(t: Seq<char>, i: int, p: Seq<char>) -> bool {
    &&& 0 <= i
    &&& i + p.len() <= t.len()
    &&& forall|k: int| 0 <= k < p.len() ==> same_letter_ci(#[trigger] t[i + k], p[k])
}

/// `p` occurs somewhere in `t`, ignoring ASCII case.
pub open spec fn contains_ci(t: Seq<char>, p: Seq<char>) -> bool {
    exists|i: int| occurs_ci_at(t, i, p)
}

/// `p` occurs in `t` exactly, at position `i`.
pub open spec fn occurs_at(t: Seq<char>, i: int, p: Seq<char>) -> bool {
    &&& 0 <= i
    &&& i + p.len() <= t.len()
    &&& t.subrange(i, i + p.len()) == p
}

/// `p` occurs somewhere in `t`, exactly.
pub open spec fn contains(t: Seq<char>, p: Seq<char>) -> bool {
    exists|i: int| occurs_at(t, i, p)
}

/// The characters of `s`, one element per Unicode scalar value.
pub fn chars_of(s: &str) -> (r: Vec<char>)
    ensures
        r@ == s@,
{
    let mut r: Vec<char> = Vec::new();
    for c in it: s.chars()
        invariant
            r@ == it.seq().take(it.index() as int),
            it.seq() == s@,
    {
        r.push(c);
    }
    r
}

/// Relies on `String::push`: appends one character at the end.
#[verifier::external_body]
pub(crate) fn push_char(s: &mut String, c: char)
    ensures
        final(s)@ == old(s)@.push(c),
{
    s.push(c);
}

/// The string made of `cs[from..to]`.
pub fn string_of(cs: &Vec<char>, from: usize, to: usize) -> (r: String)
    requires
        from <= to <= cs.len(),
    ensures
        r@ == cs@.subrange(from as int, to as int),
{
    let mut r = String::new();
    let mut i: usize = from;
    while i < to
        invariant
            from <= i <= to <= cs.len(),
            r@ == cs@.subrange(from as int, i as int),
        decreases to - i,
    {
        push_char(&mut r, cs[i]);
        i = i + 1;
        assert(r@ =~= cs@.subrange(from as int, i as int));
    }
    r
}

/// Exec form of `same_letter_ci`.
pub fn same_letter_ci_exec(c: char, p: char) -> (r: bool)
    ensures
        r == same_letter_ci(c, p),
{
    c == p || ('a' <= p && p <= 'z' && (c as u32) + 32 == p as u32)
}

/// Whether `p` occurs in `t` at `i`, ignoring ASCII case.
pub fn occurs_ci_at_exec(t: &Vec<char>, i: usize, p: &Vec<char>) -> (r: bool)
    ensures
        r == occurs_ci_at(t@, i as int, p@),
{
    if p.len() > t.len() || i > t.len() - p.len() {
        return false;
    }
    let mut k: usize = 0;
    while k < p.len()
        invariant
            k <= p.len(),
            i + p.len() <= t.len(),
            forall|m: int| 0 <= m < k ==> same_letter_ci(#[trigger] t@[i + m], p@[m]),
        decreases p.len() - k,
    {
        if !same_letter_ci_exec(t[i + k], p[k]) {
            return false;
        }
        k = k + 1;
    }
    true
}

/// Whether `p` occurs anywhere in `t`, ignoring ASCII case.
pub fn contains_ci_exec(t: &Vec<char>, p: &Vec<char>) -> (r: bool)
    ensures
        r == contains_ci(t@, p@),
{
    let mut i: usize = 0;
    while i < t.len()
        invariant
            i <= t.len(),
            forall|j: int| 0 <= j < i ==> !occurs_ci_at(t@, j, p@),
        decreases t.len() - i,
    {
        if occurs_ci_at_exec(t, i, p) {
            return true;
        }
        i = i + 1;
    }
    if occurs_ci_at_exec(t, i, p) {
        return true;
    }
    assert forall|j: int| !occurs_ci_at(t@, j, p@) by {
        if occurs_ci_at(t@, j, p@) && j > t.len() {
        }
    }
    false
}

/// Whether `p` occurs in `t` at `i`, exactly.
pub fn occurs_at_exec(t: &Vec<char>, i: usize, p: &Vec<char>) -> (r: bool)
    ensures
        r == occurs_at(t@, i as int, p@),
{
    if p.len() > t.len() || i > t.len() - p.len() {
        return false;
    }
    let mut k: usize = 0;
    while k < p.len()
        invariant
            k <= p.len(),
            i + p.len() <= t.len(),
            forall|m: int| 0 <= m < k ==> #[trigger] t@[i + m] == p@[m],
        decreases p.len() - k,
    {
        if t[i + k] != p[k] {
            assert(t@.subrange(i as int, i + p.len())[k as int] != p@[k as int]);
            return false;
        }
        k = k + 1;
    }
    assert forall|m: int| 0 <= m < p.len() implies #[trigger] t@.subrange(
        i as int,
        i + p.len(),
    )[m] == p@[m] by {
        assert(t@[i + m] == p@[m]);
    }
    assert(t@.subrange(i as int, i + p.len()) =~= p@);
    true
}

/// Whether `p` occurs anywhere in `t`, exactly.
pub fn contains_exec(t: &Vec<char>, p: &Vec<char>) -> (r: bool)
    ensures
        r == contains(t@, p@),
{
    let mut i: usize = 0;
    while i < t.len()
        invariant
            i <= t.len(),
            forall|j: int| 0 <= j < i ==> !occurs_at(t@, j, p@),
        decreases t.len() - i,
    {
        if occurs_at_exec(t, i, p) {
            return true;
        }
        i = i + 1;
    }
    if occurs_at_exec(t, i, p) {
        return true;
    }
    assert forall|j: int| !occurs_at(t@, j, p@) by {
        if occurs_at(t@, j, p@) && j > t.len() {
        }
    }
    false
}

} // verus!
