//! Thread links: extraction of thread identifiers from free text, and the
//! address of a thread page.
use vstd::prelude::*;

use crate::text::{
    chars_of, is_digit, occurs_ci_at, occurs_ci_at_exec, push_char, string_of,
};

verus! {

/// The forum's base address.
pub const HOST: &'static str = "https://f95zone.to";

/// The path segment that opens a thread link, matched without regard to ASCII case.
pub open spec fn thread_prefix() -> Seq<char> {
    seq!['/', 't', 'h', 'r', 'e', 'a', 'd', 's', '/']
}

/// A thread link starts at position `s` of `t`.
pub open spec fn link_at(t: Seq<char>, s: int) -> bool {
    occurs_ci_at(t, s, thread_prefix())
}

/// The end of the run of digits that starts at `j`.
pub open spec fn digits_end(t: Seq<char>, j: int) -> int
    decreases t.len() - j,
{
    if 0 <= j < t.len() && is_digit(t[j]) {
        digits_end(t, j + 1)
    } else {
        j
    }
}

/// The end of the run of characters other than `.` and `/` that starts at `j`.
pub open spec fn slug_end(t: Seq<char>, j: int) -> int
    decreases t.len() - j,
{
    if 0 <= j < t.len() && t[j] != '.' && t[j] != '/' {
        slug_end(t, j + 1)
    } else {
        j
    }
}

/// The identifier of the link that starts at `s`: after the prefix, either a
/// slug free of `.` and `/` followed by `.` and digits, or digits right away.
/// The slugged form is preferred; the identifier is the longest digit run.
pub open spec fn id_at(t: Seq<char>, s: int) -> Option<Seq<char>> {
    let p = s + thread_prefix().len();
    let q = slug_end(t, p);
    if q < t.len() && q + 1 < t.len() && t[q] == '.' && is_digit(t[q + 1]) {
        Some(t.subrange(q + 1, digits_end(t, q + 1)))
    } else if 0 <= p < t.len() && is_digit(t[p]) {
        Some(t.subrange(p, digits_end(t, p)))
    } else {
        None
    }
}

/// `x` is the identifier of some thread link in `t`.
pub open spec fn is_thread_id(t: Seq<char>, x: Seq<char>) -> bool {
    exists|s: int| link_at(t, s) && id_at(t, s) == Some(x)
}

/// The identifiers of all thread links in `t`.
pub open spec fn thread_ids(t: Seq<char>) -> Set<Seq<char>> {
    Set::new(|x: Seq<char>| is_thread_id(t, x))
}

/// A non-empty run of ASCII digits.
pub open spec fn is_numeric(x: Seq<char>) -> bool {
    x.len() > 0 && forall|k: int| 0 <= k < x.len() ==> is_digit(#[trigger] x[k])
}

proof fn lemma_digits_end(t: Seq<char>, j: int)
    requires
        0 <= j <= t.len(),
    ensures
        j <= digits_end(t, j) <= t.len(),
        forall|k: int| j <= k < digits_end(t, j) ==> is_digit(#[trigger] t[k]),
    decreases t.len() - j,
{
    if j < t.len() && is_digit(t[j]) {
        lemma_digits_end(t, j + 1);
    }
}

proof fn lemma_slug_end(t: Seq<char>, j: int)
    requires
        0 <= j <= t.len(),
    ensures
        j <= slug_end(t, j) <= t.len(),
    decreases t.len() - j,
{
    if j < t.len() && t[j] != '.' && t[j] != '/' {
        lemma_slug_end(t, j + 1);
    }
}

/// Every identifier found in a link is a non-empty run of ASCII digits.
pub proof fn lemma_id_numeric(t: Seq<char>, s: int)
    requires
        link_at(t, s),
        id_at(t, s) is Some,
    ensures
        is_numeric(id_at(t, s)->0),
{
    let p = s + thread_prefix().len();
    lemma_slug_end(t, p);
    let q = slug_end(t, p);
    if q < t.len() && q + 1 < t.len() && t[q] == '.' && is_digit(t[q + 1]) {
        lemma_digits_end(t, q + 1);
        lemma_digits_end(t, q + 2);
    } else {
        lemma_digits_end(t, p);
        lemma_digits_end(t, p + 1);
    }
}

fn digits_end_exec(t: &Vec<char>, j: usize) -> (r: usize)
    requires
        j <= t.len(),
    ensures
        r == digits_end(t@, j as int),
{
    let mut k: usize = j;
    while k < t.len() && '0' <= t[k] && t[k] <= '9'
        invariant
            j <= k <= t.len(),
            digits_end(t@, j as int) == digits_end(t@, k as int),
        decreases t.len() - k,
    {
        k = k + 1;
    }
    k
}

fn slug_end_exec(t: &Vec<char>, j: usize) -> (r: usize)
    requires
        j <= t.len(),
    ensures
        r == slug_end(t@, j as int),
{
    let mut k: usize = j;
    while k < t.len() && t[k] != '.' && t[k] != '/'
        invariant
            j <= k <= t.len(),
            slug_end(t@, j as int) == slug_end(t@, k as int),
        decreases t.len() - k,
    {
        k = k + 1;
    }
    k
}

/// Where the identifier of the link at `s` lies in `t`, if there is one.
fn id_range(t: &Vec<char>, s: usize) -> (r: Option<(usize, usize)>)
    requires
        link_at(t@, s as int),
    ensures
        match r {
            Some((a, b)) => a <= b <= t.len() && id_at(t@, s as int) == Some(
                t@.subrange(a as int, b as int),
            ),
            None => id_at(t@, s as int) is None,
        },
{
    let p = s + 9;
    proof {
        lemma_slug_end(t@, p as int);
    }
    let q = slug_end_exec(t, p);
    if q < t.len() && q + 1 < t.len() && t[q] == '.' && '0' <= t[q + 1] && t[q + 1] <= '9' {
        let e = digits_end_exec(t, q + 1);
        proof {
            lemma_digits_end(t@, q + 1);
        }
        Some((q + 1, e))
    } else if p < t.len() && '0' <= t[p] && t[p] <= '9' {
        let e = digits_end_exec(t, p);
        proof {
            lemma_digits_end(t@, p as int);
        }
        Some((p, e))
    } else {
        None
    }
}

/// The distinct thread identifiers referenced by links in `text`. Each
/// identifier occurs once; the order is that of first appearance.
pub fn extract_thread_ids(text: &str) -> (r: Vec<String>)
    ensures
        forall|i: int| 0 <= i < r.len() ==> thread_ids(text@).contains(#[trigger] r[i]@),
        forall|x: Seq<char>| #[trigger]
            thread_ids(text@).contains(x) ==> exists|i: int| 0 <= i < r.len() && r[i]@ == x,
        forall|i: int, j: int| 0 <= i < j < r.len() ==> r[i]@ != r[j]@,
        forall|i: int| 0 <= i < r.len() ==> is_numeric(#[trigger] r[i]@),
{
    let t = chars_of(text);
    let prefix: Vec<char> = vec!['/', 't', 'h', 'r', 'e', 'a', 'd', 's', '/'];
    assert(prefix@ =~= thread_prefix());
    let mut r: Vec<String> = Vec::new();
    let mut s: usize = 0;
    while s < t.len()
        invariant
            s <= t.len(),
            t@ == text@,
            prefix@ == thread_prefix(),
            forall|i: int| 0 <= i < r.len() ==> thread_ids(text@).contains(#[trigger] r[i]@),
            forall|i: int| 0 <= i < r.len() ==> is_numeric(#[trigger] r[i]@),
            forall|i: int, j: int| 0 <= i < j < r.len() ==> r[i]@ != r[j]@,
            forall|k: int|
                0 <= k < s && link_at(t@, k) && #[trigger] id_at(t@, k) is Some ==> exists|i: int|
                    0 <= i < r.len() && r[i]@ == id_at(t@, k)->0,
        decreases t.len() - s,
    {
        if occurs_ci_at_exec(&t, s, &prefix) {
            if let Some((a, b)) = id_range(&t, s) {
                let id = string_of(&t, a, b);
                proof {
                    lemma_id_numeric(t@, s as int);
                    assert(thread_ids(text@).contains(id@));
                }
                let mut seen = false;
                let mut i: usize = 0;
                while i < r.len()
                    invariant
                        i <= r.len(),
                        seen == exists|m: int| 0 <= m < i && r[m]@ == id@,
                    decreases r.len() - i,
                {
                    if r[i] == id {
                        seen = true;
                    }
                    i = i + 1;
                }
                let ghost old_r = r@;
                if !seen {
                    r.push(id);
                    assert(r[r.len() - 1]@ == id@);
                }
                assert forall|k: int|
                    0 <= k < s + 1 && link_at(t@, k) && #[trigger] id_at(t@, k) is Some implies exists|i: int|
                        0 <= i < r.len() && r[i]@ == id_at(t@, k)->0 by {
                    if k < s {
                        let i = choose|i: int| 0 <= i < old_r.len() && old_r[i]@ == id_at(t@, k)->0;
                        assert(r[i] == old_r[i]);
                    }
                }
            }
        }
        s = s + 1;
    }
    assert forall|x: Seq<char>| #[trigger]
        thread_ids(text@).contains(x) implies exists|i: int| 0 <= i < r.len() && r[i]@ == x by {
        let k = choose|k: int| link_at(t@, k) && id_at(t@, k) == Some(x);
        assert(id_at(t@, k) is Some);
    }
    r
}

/// The address of the page of thread `id`.
pub fn thread_url(id: &str) -> (r: String)
    ensures
        r@ == HOST@ + seq!['/', 't', 'h', 'r', 'e', 'a', 'd', 's', '/'] + id@,
{
    let mut r = String::from_str(HOST);
    r.append("/threads/");
    r.append(id);
    proof {
        reveal_strlit("/threads/");
    }
    assert(r@ =~= HOST@ + seq!['/', 't', 'h', 'r', 'e', 'a', 'd', 's', '/'] + id@);
    r
}

} // verus!
