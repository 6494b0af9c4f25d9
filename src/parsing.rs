//! Thread pages: status classification, title extraction, and the outcome
//! of one thread lookup.
use vstd::prelude::*;

use crate::markup::{
    entry_views, find_class, MAX_PAGE_CHARS, first_with_class, lemma_scope_end, parse_page, page_outline,
    scope_end_exec, subtree_end, Entry, MarkupNode, NodeView, OutlineView,
};
use crate::text::{chars_of, contains, contains_ci, contains_ci_exec, contains_exec, push_char};
use crate::title::{normalize_title, normalized_title};
use vstd::string::StrSliceExecFns;

verus! {

/// The lifecycle state of a thread.
#[derive(Clone, Copy, Debug, PartialEq, Eq, Structural)]
pub enum Status {
    InDevelopment,
    Completed,
    Abandoned,
    OnHold,
}

impl Default for Status {
    fn default() -> (r: Status)
        ensures
            r == Status::InDevelopment,
    {
        Status::InDevelopment
    }
}

/// The state that a label names, if any; the rules are tried in order, and
/// each looks for its words without regard to ASCII case.
pub open spec fn status_in(label: Seq<char>) -> Option<Status> {
    if contains_ci(label, "completed"@) {
        Some(Status::Completed)
    } else if contains_ci(label, "abandoned"@) {
        Some(Status::Abandoned)
    } else if contains_ci(label, "on hold"@) || contains_ci(label, "on-hold"@) || contains_ci(
        label,
        "onhold"@,
    ) {
        Some(Status::OnHold)
    } else {
        None
    }
}

/// The state named by the first label that names one, or `InDevelopment`.
pub open spec fn status_of_labels(labels: Seq<Seq<char>>) -> Status
    decreases labels.len(),
{
    if labels.len() == 0 {
        Status::InDevelopment
    } else {
        match status_in(labels[0]) {
            Some(s) => s,
            None => status_of_labels(labels.drop_first()),
        }
    }
}

impl Status {
    /// The state that `label` names, if any.
    pub fn from_str(label: &str) -> (r: Option<Status>)
        ensures
            r == status_in(label@),
    {
        let t = chars_of(label);
        if contains_ci_exec(&t, &chars_of("completed")) {
            Some(Status::Completed)
        } else if contains_ci_exec(&t, &chars_of("abandoned")) {
            Some(Status::Abandoned)
        } else if contains_ci_exec(&t, &chars_of("on hold")) || contains_ci_exec(
            &t,
            &chars_of("on-hold"),
        ) || contains_ci_exec(&t, &chars_of("onhold")) {
            Some(Status::OnHold)
        } else {
            None
        }
    }
}

/// The outcome of looking up one thread.
#[derive(Clone, Debug)]
pub struct ThreadSlug {
    pub id: String,
    pub title: String,
    pub status: Status,
    pub error: Option<String>,
}

/// The view of an optional string.
pub open spec fn opt_view(s: Option<String>) -> Option<Seq<char>> {
    match s {
        Some(t) => Some(t@),
        None => None,
    }
}

impl Default for ThreadSlug {
    /// An outcome with empty id and title, default state and no error.
    fn default() -> (r: ThreadSlug)
        ensures
            r.id@ == Seq::<char>::empty(),
            r.title@ == Seq::<char>::empty(),
            r.status == Status::InDevelopment,
            r.error is None,
    {
        ThreadSlug { id: String::new(), title: String::new(), status: Status::InDevelopment, error: None }
    }
}

impl ThreadSlug {
    /// A failed lookup of thread `id`: empty title, default status.
    pub fn error(id: &str, msg: &str) -> (r: ThreadSlug)
        ensures
            r.id@ == id@,
            r.title@ == Seq::<char>::empty(),
            r.status == Status::InDevelopment,
            opt_view(r.error) == Some(msg@),
    {
        ThreadSlug {
            id: String::from_str(id),
            title: String::new(),
            status: Status::InDevelopment,
            error: Some(String::from_str(msg)),
        }
    }
}

/// `n` is a decorative label element: its class names a prefix label or an
/// appended label.
pub open spec fn is_decorative(n: NodeView) -> bool {
    match n {
        NodeView::Element { class: Some(c), .. } => contains(c, "labelLink"@) || contains(
            c,
            "label-append"@,
        ),
        _ => false,
    }
}

/// The text of entries `[from, to)` below a node of depth `d`, leaving out
/// the subtrees of its decorative children; `skipping` tells whether the
/// child that holds `from` is decorative.
pub open spec fn visible_text(o: OutlineView, d: int, from: int, to: int, skipping: bool) -> Seq<
    char,
>
    decreases to - from,
{
    if from < 0 || from >= to || from >= o.len() {
        seq![]
    } else {
        let skip = if o[from].0 == d + 1 {
            is_decorative(o[from].1)
        } else {
            skipping
        };
        let rest = visible_text(o, d, from + 1, to, skip);
        match o[from].1 {
            NodeView::Text(s) => if skip {
                rest
            } else {
                s + rest
            },
            _ => rest,
        }
    }
}

/// The title held in the header at entry `h`: the text of its first element
/// of class `p-title-value` without decorative labels, normalized; empty if
/// there is no such element.
pub open spec fn title_of(o: OutlineView, h: int) -> Seq<char> {
    match first_with_class(o, "p-title-value"@, h, subtree_end(o, h)) {
        Some(v) => normalized_title(visible_text(o, o[v].0, v + 1, subtree_end(o, v), false)),
        None => seq![],
    }
}

/// The label at entry `m`: the text of a `span` element whose first child is text.
pub open spec fn label_at(o: OutlineView, m: int) -> Option<Seq<char>> {
    match o[m].1 {
        NodeView::Element { name, .. } => if name == "span"@ && m + 1 < o.len() && o[m + 1].0
            > o[m].0 {
            match o[m + 1].1 {
                NodeView::Text(s) => Some(s),
                _ => None,
            }
        } else {
            None
        },
        _ => None,
    }
}

/// The labels among entries `[from, to)`, in document order.
pub open spec fn labels(o: OutlineView, from: int, to: int) -> Seq<Seq<char>>
    decreases to - from,
{
    if from < 0 || from >= to || from >= o.len() {
        seq![]
    } else {
        match label_at(o, from) {
            Some(s) => seq![s] + labels(o, from + 1, to),
            None => labels(o, from + 1, to),
        }
    }
}

/// The state of the thread whose header is at entry `h`.
pub open spec fn status_of(o: OutlineView, h: int) -> Status {
    status_of_labels(labels(o, h, subtree_end(o, h)))
}

/// The header of a thread page: its first element of class `p-title`.
pub open spec fn header_of(o: OutlineView) -> Option<int> {
    first_with_class(o, "p-title"@, 0, o.len() as int)
}

/// The text below entry `v`, without its decorative children.
fn visible_text_exec(o: &Vec<Entry>, v: usize) -> (r: String)
    requires
        v < o.len(),
    ensures
        r@ == visible_text(
            entry_views(o@),
            o@[v as int].depth as int,
            v + 1,
            subtree_end(entry_views(o@), v as int),
            false,
        ),
{
    let ghost ov = entry_views(o@);
    let d = o[v].depth;
    assert(ov[v as int].0 == d);
    let end = scope_end_exec(o, d, v + 1);
    let label_link = chars_of("labelLink");
    let label_append = chars_of("label-append");
    let mut r = String::new();
    let mut skip = false;
    let mut m: usize = v + 1;
    assert(r@ + visible_text(ov, d as int, m as int, end as int, skip) =~= visible_text(
        ov,
        d as int,
        v + 1,
        end as int,
        false,
    ));
    while m < end
        invariant
            v < m <= end <= o.len(),
            ov == entry_views(o@),
            label_link@ == "labelLink"@,
            label_append@ == "label-append"@,
            r@ + visible_text(ov, d as int, m as int, end as int, skip) == visible_text(
                ov,
                d as int,
                v + 1,
                end as int,
                false,
            ),
        decreases end - m,
    {
        let ghost r0 = r@;
        let ghost skip0 = skip;
        assert(ov[m as int] == o@[m as int]@);
        let e = &o[m];
        if d < e.depth && e.depth - d == 1 {
            skip = match &e.node {
                MarkupNode::Element { class: Some(c), .. } => {
                    let cs = chars_of(c.as_str());
                    contains_exec(&cs, &label_link) || contains_exec(&cs, &label_append)
                },
                _ => false,
            };
        }
        match &e.node {
            MarkupNode::Text(s) => {
                if !skip {
                    r.append(s.as_str());
                }
            },
            _ => {},
        }
        assert(r@ + visible_text(ov, d as int, m + 1, end as int, skip) =~= r0
            + visible_text(ov, d as int, m as int, end as int, skip0));
        m = m + 1;
    }
    assert(r@ + visible_text(ov, d as int, m as int, end as int, skip) =~= r@);
    r
}

/// The title held in the header at entry `h`.
pub fn get_title(o: &Vec<Entry>, h: usize) -> (r: String)
    requires
        h < o.len(),
    ensures
        r@ == title_of(entry_views(o@), h as int),
{
    let ghost ov = entry_views(o@);
    assert(ov[h as int].0 == o@[h as int].depth);
    let end = scope_end_exec(o, o[h].depth, h + 1);
    match find_class(o, &chars_of("p-title-value"), h, end) {
        Some(v) => {
            assert(ov[v as int].0 == o@[v as int].depth);
            let text = visible_text_exec(o, v);
            normalize_title(text.as_str())
        },
        None => String::new(),
    }
}

/// The label at entry `m`, if it is one.
fn label_at_exec(o: &Vec<Entry>, m: usize) -> (r: Option<&String>)
    requires
        m < o.len(),
    ensures
        match r {
            Some(s) => label_at(entry_views(o@), m as int) == Some(s@),
            None => label_at(entry_views(o@), m as int) is None,
        },
{
    let ghost ov = entry_views(o@);
    assert(ov[m as int] == o@[m as int]@);
    match &o[m].node {
        MarkupNode::Element { name, .. } => {
            if *name == String::from_str("span") && m + 1 < o.len() && o[m + 1].depth > o[m].depth {
                assert(ov[m + 1] == o@[m + 1]@);
                match &o[m + 1].node {
                    MarkupNode::Text(s) => Some(s),
                    _ => None,
                }
            } else {
                None
            }
        },
        _ => None,
    }
}

/// The state of the thread whose header is at entry `h`: that of the first
/// label below it that names one, in document order.
pub fn get_status(o: &Vec<Entry>, h: usize) -> (r: Status)
    requires
        h < o.len(),
    ensures
        r == status_of(entry_views(o@), h as int),
{
    let ghost ov = entry_views(o@);
    assert(ov[h as int].0 == o@[h as int].depth);
    let end = scope_end_exec(o, o[h].depth, h + 1);
    proof {
        lemma_scope_end(ov, ov[h as int].0, h + 1);
    }
    assert(end == subtree_end(ov, h as int));
    let mut m: usize = h;
    while m < end
        invariant
            h <= m <= end <= o.len(),
            ov == entry_views(o@),
            end == subtree_end(ov, h as int),
            status_of_labels(labels(ov, h as int, end as int)) == status_of_labels(
                labels(ov, m as int, end as int),
            ),
        decreases end - m,
    {
        match label_at_exec(o, m) {
            Some(s) => {
                let ghost rest = labels(ov, m + 1, end as int);
                assert((seq![s@] + rest).drop_first() =~= rest);
                assert(labels(ov, m as int, end as int) == seq![s@] + rest);
                assert((seq![s@] + rest)[0] == s@);
                let found = Status::from_str(s.as_str());
                if let Some(st) = found {
                    return st;
                }
            },
            None => {},
        }
        m = m + 1;
    }
    Status::InDevelopment
}


/// How a request failed before a page could be read.
pub enum FetchError {
    /// The server answered with a status outside 2xx.
    BadStatus { code: u16, text: String },
    /// The request did not complete (name lookup, connection, time-out).
    Network(String),
}

/// The decimal digit `d`.
pub open spec fn digit_char(d: int) -> char {
    seq!['0', '1', '2', '3', '4', '5', '6', '7', '8', '9'][d]
}

/// The decimal form of `n`.
pub open spec fn decimal(n: nat) -> Seq<char>
    decreases n,
{
    if n < 10 {
        seq![digit_char(n as int)]
    } else {
        decimal(n / 10).push(digit_char((n % 10) as int))
    }
}

/// The decimal form of `n`.
pub fn decimal_string(n: u16) -> (r: String)
    ensures
        r@ == decimal(n as nat),
    decreases n,
{
    let digits: Vec<char> = vec!['0', '1', '2', '3', '4', '5', '6', '7', '8', '9'];
    assert(digits@ =~= seq!['0', '1', '2', '3', '4', '5', '6', '7', '8', '9']);
    if n < 10 {
        let mut r = String::new();
        push_char(&mut r, digits[n as usize]);
        assert(r@ =~= decimal(n as nat));
        r
    } else {
        let mut r = decimal_string(n / 10);
        push_char(&mut r, digits[(n % 10) as usize]);
        r
    }
}

/// The message recorded for a request that did not complete.
pub open spec fn network_message(detail: Seq<char>) -> Seq<char> {
    "Network error: "@ + detail
}

/// The message recorded for an answer with a failing status.
pub open spec fn status_message(code: u16, text: Seq<char>) -> Seq<char> {
    "Bad response code: "@ + decimal(code as nat) + " "@ + text
}

/// The message recorded when a request failed as `e` says.
pub open spec fn fetch_message(e: FetchError) -> Seq<char> {
    match e {
        FetchError::BadStatus { code, text } => status_message(code, text@),
        FetchError::Network(d) => network_message(d@),
    }
}

/// The message for a request that failed as `e` says.
pub fn fetch_error_message(e: &FetchError) -> (r: String)
    ensures
        r@ == fetch_message(*e),
{
    match e {
        FetchError::BadStatus { code, text } => {
            let mut r = String::from_str("Bad response code: ");
            let digits = decimal_string(*code);
            r.append(digits.as_str());
            r.append(" ");
            r.append(text.as_str());
            assert(r@ =~= status_message(*code, text@));
            r
        },
        FetchError::Network(d) => {
            let mut r = String::from_str("Network error: ");
            r.append(d.as_str());
            r
        },
    }
}

/// The outcome of a lookup of thread `id` whose answer was the page `body`:
/// a failure if the page is too long to parse or has no header, else the
/// header's title and state.
pub open spec fn page_outcome(id: Seq<char>, body: Seq<char>, r: ThreadSlug) -> bool {
    let o = page_outline(body);
    &&& r.id@ == id
    &&& if body.len() > MAX_PAGE_CHARS {
        &&& opt_view(r.error) == Some("Response body too large"@)
        &&& r.title@ == Seq::<char>::empty()
        &&& r.status == Status::InDevelopment
    } else {
        match header_of(o) {
            None => {
                &&& opt_view(r.error) == Some("Failed to locate thread header"@)
                &&& r.title@ == Seq::<char>::empty()
                &&& r.status == Status::InDevelopment
            },
            Some(h) => {
                &&& r.error is None
                &&& r.title@ == title_of(o, h)
                &&& r.status == status_of(o, h)
            },
        }
    }
}

/// The outcome of a lookup of thread `id`, from what the request gave: the
/// page's text, `None` for a body that could not be read as text, or how the
/// request failed.
pub fn parse_thread(id: &str, response: Result<Option<String>, FetchError>) -> (r: ThreadSlug)
    ensures
        r.id@ == id@,
        match response {
            Err(e) => {
                &&& opt_view(r.error) == Some(fetch_message(e))
                &&& r.title@ == Seq::<char>::empty()
                &&& r.status == Status::InDevelopment
            },
            Ok(None) => {
                &&& opt_view(r.error) == Some("Failed to read response body"@)
                &&& r.title@ == Seq::<char>::empty()
                &&& r.status == Status::InDevelopment
            },
            Ok(Some(body)) => page_outcome(id@, body@, r),
        },
{
    match response {
        Err(e) => {
            let msg = fetch_error_message(&e);
            ThreadSlug::error(id, msg.as_str())
        },
        Ok(None) => ThreadSlug::error(id, "Failed to read response body"),
        Ok(Some(body)) => {
            if body.as_str().unicode_len() > MAX_PAGE_CHARS {
                return ThreadSlug::error(id, "Response body too large");
            }
            let o = parse_page(body.as_str());
            match find_class(&o, &chars_of("p-title"), 0, o.len()) {
                None => ThreadSlug::error(id, "Failed to locate thread header"),
                Some(h) => {
                    let title = get_title(&o, h);
                    let status = get_status(&o, h);
                    ThreadSlug { id: String::from_str(id), title, status, error: None }
                },
            }
        },
    }
}

/// Whether the account probe shows a session: any answer with a 2xx status
/// does, a failing status does not, and a request that did not complete is
/// an error carrying the network message.
pub fn logged_in(probe: &Result<(), FetchError>) -> (r: Result<bool, String>)
    ensures
        match probe {
            Ok(()) => r == Ok::<bool, String>(true),
            Err(FetchError::BadStatus { .. }) => r == Ok::<bool, String>(false),
            Err(FetchError::Network(d)) => r matches Err(m) && m@ == network_message(d@),
        },
{
    match probe {
        Ok(()) => Ok(true),
        Err(FetchError::BadStatus { .. }) => Ok(false),
        Err(e) => Err(fetch_error_message(e)),
    }
}


/// The state comes from the first label, in document order, that names one,
/// whatever the labels after it name.
pub proof fn lemma_first_label_wins(labels: Seq<Seq<char>>, i: int)
    requires
        0 <= i < labels.len(),
        status_in(labels[i]) is Some,
        forall|j: int| 0 <= j < i ==> status_in(#[trigger] labels[j]) is None,
    ensures
        status_of_labels(labels) == status_in(labels[i])->0,
    decreases i,
{
    if i > 0 {
        assert(status_in(labels[0]) is None);
        let rest = labels.drop_first();
        assert forall|j: int| 0 <= j < i - 1 implies status_in(#[trigger] rest[j]) is None by {
            assert(rest[j] == labels[j + 1]);
        }
        lemma_first_label_wins(rest, i - 1);
    }
}

/// When no label names a state, the thread is in development.
pub proof fn lemma_no_label_in_development(labels: Seq<Seq<char>>)
    requires
        forall|j: int| 0 <= j < labels.len() ==> status_in(#[trigger] labels[j]) is None,
    ensures
        status_of_labels(labels) == Status::InDevelopment,
    decreases labels.len(),
{
    if labels.len() > 0 {
        assert(status_in(labels[0]) is None);
        let rest = labels.drop_first();
        assert forall|j: int| 0 <= j < rest.len() implies status_in(#[trigger] rest[j]) is None by {
            assert(rest[j] == labels[j + 1]);
        }
        lemma_no_label_in_development(rest);
    }
}

} // verus!
