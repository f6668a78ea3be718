use vstd::prelude::*;
use crate::text::{chars_of, concat_str, slice_chars, string_of};

verus! {

/// Index of the first line break in `s` at or after `from`, or `s.len()` if there is none.
pub open spec fn newline_from(s: Seq<char>, from: int) -> int
    decreases s.len() - from,
{
    if from < 0 || from >= s.len() {
        s.len() as int
    } else if s[from] == '\n' {
        from
    } else {
        newline_from(s, from + 1)
    }
}

/// Index of the first `": "` in `s` that starts at or after `from` and ends before `end`,
/// or `end` if there is none.
pub open spec fn separator_from(s: Seq<char>, from: int, end: int) -> int
    decreases end - from,
{
    if from < 0 || from + 1 >= end {
        end
    } else if s[from] == ':' && s[from + 1] == ' ' {
        from
    } else {
        separator_from(s, from + 1, end)
    }
}

/// The archive's relative path in a metadata body: on the second line, the value after
/// the first `": "`.
pub open spec fn archive_path_of(body: Seq<char>) -> Option<Seq<char>> {
    let a = newline_from(body, 0);
    if a >= body.len() {
        None
    } else {
        let b = newline_from(body, a + 1);
        let c = separator_from(body, a + 1, b);
        if c >= b {
            None
        } else {
            Some(body.subrange(c + 2, b))
        }
    }
}

proof fn lemma_newline_bounds(s: Seq<char>, from: int)
    requires
        0 <= from <= s.len(),
    ensures
        from <= newline_from(s, from) <= s.len(),
        newline_from(s, from) < s.len() ==> s[newline_from(s, from)] == '\n',
    decreases s.len() - from,
{
    if from < s.len() && s[from] != '\n' {
        lemma_newline_bounds(s, from + 1);
    }
}

proof fn lemma_separator_bounds(s: Seq<char>, from: int, end: int)
    requires
        0 <= from <= end,
    ensures
        from <= separator_from(s, from, end) <= end,
        separator_from(s, from, end) < end ==> separator_from(s, from, end) + 1 < end,
    decreases end - from,
{
    if from + 1 < end && !(s[from] == ':' && s[from + 1] == ' ') {
        lemma_separator_bounds(s, from + 1, end);
    }
}

fn find_newline(s: &Vec<char>, from: usize) -> (r: usize)
    requires
        from <= s@.len(),
    ensures
        r == newline_from(s@, from as int),
{
    let mut k: usize = from;
    while k < s.len() && s[k] != '\n'
        invariant
            from <= k <= s@.len(),
            newline_from(s@, from as int) == newline_from(s@, k as int),
        decreases s@.len() - k,
    {
        k = k + 1;
    }
    k
}

fn find_separator(s: &Vec<char>, from: usize, end: usize) -> (r: usize)
    requires
        from <= end <= s@.len(),
    ensures
        r == separator_from(s@, from as int, end as int),
{
    let mut k: usize = from;
    while k < end && k + 1 < end && !(s[k] == ':' && s[k + 1] == ' ')
        invariant
            from <= k <= end <= s@.len(),
            separator_from(s@, from as int, end as int) == separator_from(s@, k as int, end as int),
        decreases end - k,
    {
        k = k + 1;
    }
    if k < end && k + 1 < end {
        k
    } else {
        end
    }
}

/// The archive's relative path carried by a metadata body, if the body has one.
pub fn archive_path(body: &str) -> (r: Option<String>)
    ensures
        r is Some <==> archive_path_of(body@) is Some,
        r matches Some(p) ==> archive_path_of(body@) == Some(p@),
{
    let s = chars_of(body);
    let a = find_newline(&s, 0);
    if a >= s.len() {
        return None;
    }
    let b = find_newline(&s, a + 1);
    proof {
        lemma_newline_bounds(s@, a + 1);
    }
    let c = find_separator(&s, a + 1, b);
    proof {
        lemma_separator_bounds(s@, a + 1, b as int);
    }
    if c >= b {
        return None;
    }
    let v = slice_chars(&s, c + 2, b);
    Some(string_of(&v))
}

/// The metadata request for `hash` at `endpoint`: `<endpoint><hash>.narinfo`.
pub open spec fn metadata_url_of(endpoint: Seq<char>, hash: Seq<char>) -> Seq<char> {
    endpoint + hash + ".narinfo"@
}

/// The address of the metadata for `hash` at `endpoint`.
pub fn metadata_url(endpoint: &str, hash: &str) -> (r: String)
    ensures
        r@ == metadata_url_of(endpoint@, hash@),
{
    let a = concat_str(endpoint, hash);
    concat_str(a.as_str(), ".narinfo")
}

/// The binary caches that are asked by default, highest priority first.
pub fn default_endpoints() -> (r: Vec<String>)
    ensures
        endpoint_views(r@) == seq![
            "https://cache.nixos.org/"@,
            "https://sisyphe.cachix.org/"@,
            "https://bincache.grunblatt.org/"@,
        ],
{
    let mut v: Vec<String> = Vec::new();
    v.push("https://cache.nixos.org/".to_owned());
    v.push("https://sisyphe.cachix.org/".to_owned());
    v.push("https://bincache.grunblatt.org/".to_owned());
    assert(endpoint_views(v@) =~= seq![
        "https://cache.nixos.org/"@,
        "https://sisyphe.cachix.org/"@,
        "https://bincache.grunblatt.org/"@,
    ]);
    v
}

/// A response status in the 200 class.
pub open spec fn is_success(status: u16) -> bool {
    200 <= status <= 299
}

/// Where a resolution stands after a step.
pub enum Resolution {
    /// Ask endpoint `index` for its metadata at `url`.
    Query { index: usize, url: String },
    /// The archive lives at this address.
    Found(String),
    /// Every endpoint was asked and none had the identifier.
    Exhausted,
    /// An endpoint answered with success, but its metadata carried no archive path.
    Malformed,
}

/// What a `Resolution` means, with text as character sequences.
pub enum ResolutionView {
    Query(int, Seq<char>),
    Found(Seq<char>),
    Exhausted,
    Malformed,
}

impl View for Resolution {
    type V = ResolutionView;

    open spec fn view(&self) -> ResolutionView {
        match self {
            Resolution::Query { index, url } => ResolutionView::Query(*index as int, url@),
            Resolution::Found(u) => ResolutionView::Found(u@),
            Resolution::Exhausted => ResolutionView::Exhausted,
            Resolution::Malformed => ResolutionView::Malformed,
        }
    }
}

/// The endpoints' base addresses, as character sequences.
pub open spec fn endpoint_views(endpoints: Seq<String>) -> Seq<Seq<char>> {
    endpoints.map_values(|e: String| e@)
}

/// Endpoint `i` is asked next, or, past the last endpoint, the search is over.
pub open spec fn query_at(eps: Seq<Seq<char>>, hash: Seq<char>, i: int) -> ResolutionView {
    if 0 <= i < eps.len() {
        ResolutionView::Query(i, metadata_url_of(eps[i], hash))
    } else {
        ResolutionView::Exhausted
    }
}

/// Endpoint `i` answered `status` with `body`: a success ends the search with the
/// endpoint's base followed by the archive path; anything else moves on to endpoint `i + 1`.
pub open spec fn step_of(
    eps: Seq<Seq<char>>,
    hash: Seq<char>,
    i: int,
    status: u16,
    body: Seq<char>,
) -> ResolutionView {
    if is_success(status) {
        match archive_path_of(body) {
            Some(p) => ResolutionView::Found(eps[i] + p),
            None => ResolutionView::Malformed,
        }
    } else {
        query_at(eps, hash, i + 1)
    }
}

fn query(endpoints: &Vec<String>, hash: &str, i: usize) -> (r: Resolution)
    ensures
        r@ == query_at(endpoint_views(endpoints@), hash@, i as int),
{
    if i < endpoints.len() {
        Resolution::Query { index: i, url: metadata_url(endpoints[i].as_str(), hash) }
    } else {
        Resolution::Exhausted
    }
}

/// The first step of resolving `hash`: ask the first endpoint.
pub fn first_query(endpoints: &Vec<String>, hash: &str) -> (r: Resolution)
    ensures
        r@ == query_at(endpoint_views(endpoints@), hash@, 0),
{
    query(endpoints, hash, 0)
}

/// The step after endpoint `index` answered `status` with `body`.
pub fn on_response(endpoints: &Vec<String>, hash: &str, index: usize, status: u16, body: &str) -> (r:
    Resolution)
    requires
        index < endpoints@.len(),
    ensures
        r@ == step_of(endpoint_views(endpoints@), hash@, index as int, status, body@),
{
    if 200 <= status && status <= 299 {
        match archive_path(body) {
            Some(p) => Resolution::Found(concat_str(endpoints[index].as_str(), p.as_str())),
            None => Resolution::Malformed,
        }
    } else {
        assert(index < endpoints.len());
        query(endpoints, hash, index + 1)
    }
}

/// Drive the resolution from endpoint `i` on, where endpoint `j` answers `replies[j]`
/// (a status and a body): the requests made, in order, and where the resolution ends.
pub open spec fn run_from(
    eps: Seq<Seq<char>>,
    hash: Seq<char>,
    replies: Seq<(u16, Seq<char>)>,
    i: int,
) -> (Seq<Seq<char>>, ResolutionView)
    decreases eps.len() - i,
{
    match query_at(eps, hash, i) {
        ResolutionView::Query(j, url) => {
            let next = step_of(eps, hash, j, replies[j].0, replies[j].1);
            if next is Query {
                let rest = run_from(eps, hash, replies, i + 1);
                (seq![url] + rest.0, rest.1)
            } else {
                (seq![url], next)
            }
        },
        other => (Seq::empty(), other),
    }
}

/// The metadata requests for endpoints `i` up to `k`, in order.
pub open spec fn urls_between(eps: Seq<Seq<char>>, hash: Seq<char>, i: int, k: int) -> Seq<
    Seq<char>,
>
    decreases k - i,
{
    if i < k {
        seq![metadata_url_of(eps[i], hash)] + urls_between(eps, hash, i + 1, k)
    } else {
        Seq::empty()
    }
}

/// Endpoints are asked in their order, and the first that answers with success wins:
/// when endpoints before `k` fail and endpoint `k` succeeds with metadata that names
/// the archive path `p`, exactly endpoints `0` to `k` are asked, and the archive is at
/// endpoint `k`'s base followed by `p`; later endpoints are never asked.
pub proof fn lemma_first_success_wins(
    eps: Seq<Seq<char>>,
    hash: Seq<char>,
    replies: Seq<(u16, Seq<char>)>,
    k: int,
    p: Seq<char>,
)
    requires
        0 <= k < eps.len(),
        replies.len() == eps.len(),
        forall|j: int| 0 <= j < k ==> !is_success(#[trigger] replies[j].0),
        is_success(replies[k].0),
        archive_path_of(replies[k].1) == Some(p),
    ensures
        run_from(eps, hash, replies, 0) == (urls_between(eps, hash, 0, k + 1),
        ResolutionView::Found(eps[k] + p)),
{
    lemma_run_until(eps, hash, replies, 0, k, p);
}

proof fn lemma_run_until(
    eps: Seq<Seq<char>>,
    hash: Seq<char>,
    replies: Seq<(u16, Seq<char>)>,
    i: int,
    k: int,
    p: Seq<char>,
)
    requires
        0 <= i <= k < eps.len(),
        replies.len() == eps.len(),
        forall|j: int| 0 <= j < k ==> !is_success(#[trigger] replies[j].0),
        is_success(replies[k].0),
        archive_path_of(replies[k].1) == Some(p),
    ensures
        run_from(eps, hash, replies, i) == (urls_between(eps, hash, i, k + 1),
        ResolutionView::Found(eps[k] + p)),
    decreases k - i,
{
    if i < k {
        lemma_run_until(eps, hash, replies, i + 1, k, p);
        assert(!is_success(replies[i].0));
    } else {
        assert(urls_between(eps, hash, k + 1, k + 1) == Seq::<Seq<char>>::empty());
        assert(urls_between(eps, hash, k, k + 1) =~= seq![metadata_url_of(eps[k], hash)]);
    }
}

/// When every endpoint answers with a failure, every endpoint is asked once, in order,
/// and the resolution ends exhausted.
pub proof fn lemma_all_failures_exhaust(
    eps: Seq<Seq<char>>,
    hash: Seq<char>,
    replies: Seq<(u16, Seq<char>)>,
)
    requires
        replies.len() == eps.len(),
        forall|j: int| 0 <= j < eps.len() ==> !is_success(#[trigger] replies[j].0),
    ensures
        run_from(eps, hash, replies, 0) == (urls_between(eps, hash, 0, eps.len() as int),
        ResolutionView::Exhausted),
{
    lemma_run_failing(eps, hash, replies, 0);
}

proof fn lemma_run_failing(
    eps: Seq<Seq<char>>,
    hash: Seq<char>,
    replies: Seq<(u16, Seq<char>)>,
    i: int,
)
    requires
        0 <= i <= eps.len(),
        replies.len() == eps.len(),
        forall|j: int| 0 <= j < eps.len() ==> !is_success(#[trigger] replies[j].0),
    ensures
        run_from(eps, hash, replies, i) == (urls_between(eps, hash, i, eps.len() as int),
        ResolutionView::Exhausted),
    decreases eps.len() - i,
{
    if i < eps.len() {
        lemma_run_failing(eps, hash, replies, i + 1);
        assert(!is_success(replies[i].0));
        if i + 1 < eps.len() {
        } else {
            assert(urls_between(eps, hash, i + 1, eps.len() as int) == Seq::<Seq<char>>::empty());
            assert(seq![metadata_url_of(eps[i], hash)] + Seq::<Seq<char>>::empty() =~= seq![
                metadata_url_of(eps[i], hash),
            ]);
        }
    }
}

} // verus!
