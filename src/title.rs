//! Title normalization: trailing bracketed groups and surrounding whitespace
//! are removed from a title.
use vstd::prelude::*;

use crate::text::string_of;

verus! {

/// Unicode white space (the `White_Space` property).
pub open spec fn is_ws(c: char) -> bool {
    ||| '\t' <= c <= '\r'
    ||| c == ' '
    ||| c == '\u{85}'
    ||| c == '\u{A0}'
    ||| c == '\u{1680}'
    ||| '\u{2000}' <= c <= '\u{200A}'
    ||| c == '\u{2028}'
    ||| c == '\u{2029}'
    ||| c == '\u{202F}'
    ||| c == '\u{205F}'
    ||| c == '\u{3000}'
}

pub fn is_ws_exec(c: char) -> (r: bool)
    ensures
        r == is_ws(c),
{
    ('\t' <= c && c <= '\r') || c == ' ' || c == '\u{85}' || c == '\u{A0}' || c == '\u{1680}' || (
    '\u{2000}' <= c && c <= '\u{200A}') || c == '\u{2028}' || c == '\u{2029}' || c == '\u{202F}'
        || c == '\u{205F}' || c == '\u{3000}'
}

/// The length of `s[..n]` once trailing white space is removed.
pub open spec fn trimmed_end(s: Seq<char>, n: int) -> int
    decreases n,
{
    if 0 < n <= s.len() && is_ws(s[n - 1]) {
        trimmed_end(s, n - 1)
    } else {
        n
    }
}

/// The position of the last bracket (`[` or `]`) in `s[..j]`, or -1.
pub open spec fn last_bracket(s: Seq<char>, j: int) -> int
    decreases j,
{
    if j <= 0 || j > s.len() {
        -1
    } else if s[j - 1] == '[' || s[j - 1] == ']' {
        j - 1
    } else {
        last_bracket(s, j - 1)
    }
}

/// Where the bracketed group that closes `s[..m]` opens: `s[..m]` ends with
/// `]`, and the bracket before it is `[`.
pub open spec fn group_open(s: Seq<char>, m: int) -> Option<int> {
    if 0 < m <= s.len() && s[m - 1] == ']' && last_bracket(s, m - 1) >= 0 && s[last_bracket(
        s,
        m - 1,
    )] == '[' {
        Some(last_bracket(s, m - 1))
    } else {
        None
    }
}

/// The length of `s[..n]` once trailing groups `[...]` (free of brackets
/// inside) and the white space around them are removed, one after another.
pub open spec fn stripped_len(s: Seq<char>, n: int) -> int
    decreases n,
{
    let m = trimmed_end(s, n);
    match group_open(s, m) {
        Some(b) => if 0 <= b < n {
            stripped_len(s, b)
        } else {
            m
        },
        None => m,
    }
}

/// The position of the first character of `s[i..n]` that is not white space, or `n`.
pub open spec fn lead_end(s: Seq<char>, i: int, n: int) -> int
    decreases n - i,
{
    if 0 <= i < n && i < s.len() && is_ws(s[i]) {
        lead_end(s, i + 1, n)
    } else {
        i
    }
}

/// A title without its trailing bracketed groups and surrounding white space:
/// `"Title [v1.0] [Demo]"` becomes `"Title"`.
pub open spec fn normalized_title(s: Seq<char>) -> Seq<char> {
    let n = stripped_len(s, s.len() as int);
    s.subrange(lead_end(s, 0, n), n)
}

proof fn lemma_trimmed_end(s: Seq<char>, n: int)
    requires
        0 <= n <= s.len(),
    ensures
        0 <= trimmed_end(s, n) <= n,
    decreases n,
{
    if 0 < n && is_ws(s[n - 1]) {
        lemma_trimmed_end(s, n - 1);
    }
}

proof fn lemma_last_bracket(s: Seq<char>, j: int)
    requires
        0 <= j <= s.len(),
    ensures
        -1 <= last_bracket(s, j) < j,
    decreases j,
{
    if j > 0 && !(s[j - 1] == '[' || s[j - 1] == ']') {
        lemma_last_bracket(s, j - 1);
    }
}

proof fn lemma_stripped_len(s: Seq<char>, n: int)
    requires
        0 <= n <= s.len(),
    ensures
        0 <= stripped_len(s, n) <= n,
    decreases n,
{
    lemma_trimmed_end(s, n);
    let m = trimmed_end(s, n);
    if 0 < m {
        lemma_last_bracket(s, m - 1);
    }
    match group_open(s, m) {
        Some(b) => if 0 <= b < n {
            lemma_stripped_len(s, b);
        },
        None => {},
    }
}

proof fn lemma_lead_end(s: Seq<char>, i: int, n: int)
    requires
        0 <= i <= n <= s.len(),
    ensures
        i <= lead_end(s, i, n) <= n,
    decreases n - i,
{
    if i < n && is_ws(s[i]) {
        lemma_lead_end(s, i + 1, n);
    }
}

fn trimmed_end_exec(s: &Vec<char>, n: usize) -> (r: usize)
    requires
        n <= s.len(),
    ensures
        r == trimmed_end(s@, n as int),
        r <= n,
{
    proof {
        lemma_trimmed_end(s@, n as int);
    }
    let mut m: usize = n;
    while m > 0 && is_ws_exec(s[m - 1])
        invariant
            m <= n <= s.len(),
            trimmed_end(s@, n as int) == trimmed_end(s@, m as int),
        decreases m,
    {
        m = m - 1;
    }
    m
}

fn group_open_exec(s: &Vec<char>, m: usize) -> (r: Option<usize>)
    requires
        m <= s.len(),
    ensures
        match r {
            Some(b) => group_open(s@, m as int) == Some(b as int),
            None => group_open(s@, m as int) is None,
        },
{
    if m == 0 || s[m - 1] != ']' {
        return None;
    }
    proof {
        lemma_last_bracket(s@, m - 1);
    }
    let mut j: usize = m - 1;
    while j > 0 && s[j - 1] != '[' && s[j - 1] != ']'
        invariant
            j <= m - 1,
            m <= s.len(),
            last_bracket(s@, m - 1) == last_bracket(s@, j as int),
        decreases j,
    {
        j = j - 1;
    }
    if j > 0 && s[j - 1] == '[' {
        Some(j - 1)
    } else {
        None
    }
}

/// Normalizes a title: drops its trailing bracketed groups, then the white
/// space at both ends. A bracketed group followed by other text stays.
pub fn normalize_title(title: &str) -> (r: String)
    ensures
        r@ == normalized_title(title@),
{
    let s = crate::text::chars_of(title);
    let mut n: usize = s.len();
    proof {
        lemma_stripped_len(s@, n as int);
    }
    loop
        invariant_except_break
            stripped_len(s@, s@.len() as int) == stripped_len(s@, n as int),
        invariant
            n <= s.len(),
            s@ == title@,
        ensures
            n <= s.len(),
            stripped_len(s@, s@.len() as int) == n,
        decreases n,
    {
        let m = trimmed_end_exec(&s, n);
        match group_open_exec(&s, m) {
            Some(b) => {
                proof {
                    lemma_last_bracket(s@, m - 1);
                }
                n = b;
            },
            None => {
                n = m;
                break ;
            },
        }
    }
    proof {
        lemma_stripped_len(s@, n as int);
        lemma_lead_end(s@, 0, n as int);
    }
    let mut i: usize = 0;
    while i < n && is_ws_exec(s[i])
        invariant
            i <= n <= s.len(),
            lead_end(s@, 0, n as int) == lead_end(s@, i as int, n as int),
        decreases n - i,
    {
        i = i + 1;
    }
    string_of(&s, i, n)
}


/// A title that neither starts nor ends with white space and does not end
/// with `]` is kept as it is, bracketed asides inside it included.
pub proof fn lemma_title_without_trailing_group(s: Seq<char>)
    requires
        s.len() > 0,
        !is_ws(s[0]),
        !is_ws(s.last()),
        s.last() != ']',
    ensures
        normalized_title(s) == s,
{
    let n = s.len() as int;
    assert(trimmed_end(s, n) == n);
    assert(group_open(s, n) is None);
    assert(stripped_len(s, n) == n);
    assert(lead_end(s, 0, n) == 0);
    assert(s.subrange(0, n) =~= s);
}

} // verus!
