//! Captured downloads that wait for the user's word.
//!
//! A browser hands over a request with its cookies, headers and body. These stay in the queue;
//! the interface sees a summary without any of their values, and hands back what the user chose,
//! which is laid over the captured request. Each request is answered once.

use vstd::prelude::*;

use crate::order::{
    lemma_text_total, lemma_text_transitive, stable_order, stable_sort,
    text_before, text_less, weak_order,
};
use crate::text::{
    concat, decimal, folded, number, opt_text, same, same_folded, same_ignoring_case, texts,
    to_folded, trim, trimmed,
};

verus! {

/// How many captured downloads may wait.
pub const CAPTURE_CAPACITY: usize = 64;

/// The body of a captured request. It is carried through as it came.
#[derive(Debug, PartialEq, Eq)]
pub enum RequestBody {
    Urlencoded { raw: String },
    /// Any other body, in the form in which it was handed over.
    Encoded { text: String },
}

/// A captured request. No name occurs twice among its headers.
#[derive(Debug)]
pub struct DownloadRequest {
    pub url: String,
    pub filename: String,
    pub save_dir: String,
    pub referrer: String,
    pub cookies: String,
    pub headers: Option<Vec<(String, String)>>,
    pub file_size: Option<i64>,
    pub mime_type: Option<String>,
    pub method: Option<String>,
    pub body: Option<RequestBody>,
    pub audio_url: Option<String>,
}

/// What the interface sees of a captured request: no value of a cookie or a header.
#[derive(Debug, PartialEq, Eq)]
pub struct PendingCaptureDto {
    pub transaction_id: String,
    pub url: String,
    pub file_name: String,
    pub created_at_unix_ms: i64,
    pub file_size: i64,
    pub referrer: String,
    pub save_dir: String,
    pub has_cookies: bool,
    pub header_names: Vec<String>,
}

/// A task that is to be made.
#[derive(Debug)]
pub struct CreateTaskRequest {
    pub url: String,
    pub file_name: String,
    pub save_dir: String,
    pub segments: i32,
    pub cookies: String,
    pub referrer: String,
    pub proxy_url: String,
    pub user_agent: String,
    pub queue_id: String,
    pub checksum: String,
    pub ignore_tls_errors: bool,
    pub headers: Option<Vec<(String, String)>>,
    pub torrent_b64: Option<String>,
    pub method: Option<String>,
    pub body: Option<RequestBody>,
    pub audio_url: Option<String>,
    pub start_paused: bool,
    pub http_user: String,
    pub http_password: String,
    pub save_site_auth: bool,
}

/// The headers of a request, none where it has no list of them.
pub open spec fn header_list(headers: Option<Vec<(String, String)>>) -> Seq<(String, String)> {
    match headers {
        Some(list) => list@,
        None => Seq::empty(),
    }
}

/// Names and values of headers.
pub open spec fn header_views(headers: Seq<(String, String)>) -> Seq<(Seq<char>, Seq<char>)> {
    headers.map_values(|h: (String, String)| (h.0@, h.1@))
}

pub open spec fn is_cookie(name: Seq<char>) -> bool {
    same_folded(name, "cookie"@)
}

/// The names of the headers other than the cookie's, in the order of the headers.
pub open spec fn shown_names(headers: Seq<(String, String)>) -> Seq<Seq<char>>
    decreases headers.len(),
{
    if headers.len() == 0 {
        Seq::empty()
    } else {
        let before = shown_names(headers.drop_last());
        let name = headers.last().0@;
        if is_cookie(name) {
            before
        } else {
            before.push(name)
        }
    }
}

/// Whether a header carries cookies.
pub open spec fn cookie_header(headers: Seq<(String, String)>) -> bool {
    exists|i: int|
        0 <= i < headers.len() && is_cookie((#[trigger] headers[i]).0@) && trimmed(
            headers[i].1@,
        ).len() > 0
}

/// The rule that orders names: by their small letters.
pub open spec fn name_rule(names: Seq<Seq<char>>) -> spec_fn(int, int) -> bool {
    |a: int, b: int| text_before(folded(names[a]), folded(names[b]))
}

/// Whether `sorted` are the names by their small letters.
pub open spec fn names_sorted(names: Seq<Seq<char>>, sorted: Seq<Seq<char>>) -> bool {
    exists|order: Seq<usize>| #[trigger]
        stable_order(order, names.len(), name_rule(names)) && sorted.len() == names.len()
            && forall|i: int| 0 <= i < sorted.len() ==> #[trigger] sorted[i] == names[order[i] as int]
}

/// What the interface sees of a captured request.
pub open spec fn summary_is(
    request: DownloadRequest,
    transaction_id: Seq<char>,
    now: i64,
    dto: PendingCaptureDto,
) -> bool {
    let headers = header_list(request.headers);
    &&& dto.transaction_id@ == transaction_id
    &&& dto.url@ == request.url@
    &&& dto.file_name@ == request.filename@
    &&& dto.created_at_unix_ms == now
    &&& dto.file_size == match request.file_size {
        Some(size) => if size < 0 {
            0
        } else {
            size
        },
        None => 0,
    }
    &&& dto.referrer@ == request.referrer@
    &&& dto.save_dir@ == request.save_dir@
    &&& dto.has_cookies == (trimmed(request.cookies@).len() > 0 || cookie_header(headers))
    &&& names_sorted(shown_names(headers), texts(dto.header_names@))
}

/// The names of headers by their small letters.
fn sort_names(names: &Vec<String>) -> (r: Vec<String>)
    ensures
        names_sorted(texts(names@), texts(r@)),
{
    let n: usize = names.len();
    let ghost views = texts(names@);
    let mut keys: Vec<String> = Vec::new();
    let mut i: usize = 0;
    while i < n
        invariant
            i <= n,
            n == names@.len(),
            views == texts(names@),
            keys@.len() == i,
            forall|k: int| 0 <= k < i ==> (#[trigger] keys@[k])@ == folded(views[k]),
        decreases n - i,
    {
        assert(views[i as int] == names@[i as int]@);
        keys.push(to_folded(names[i].as_str()));
        i += 1;
    }
    let ghost rule = name_rule(views);
    let less = |a: usize, b: usize| -> (x: bool)
        requires
            a < keys@.len() && b < keys@.len(),
        ensures
            x == text_before(keys@[a as int]@, keys@[b as int]@),
        { text_less(keys[a].as_str(), keys[b].as_str()) };
    proof {
        assert forall|a: usize, b: usize, x: bool|
            a < n && b < n && call_ensures(less, (a, b), x) implies x == rule(a as int, b as int) by {
            assert(keys@[a as int]@ == folded(views[a as int]));
            assert(keys@[b as int]@ == folded(views[b as int]));
        }
        lemma_name_rule(views);
    }
    let order = stable_sort(n, less, Ghost(rule));
    let mut r: Vec<String> = Vec::new();
    let mut k: usize = 0;
    while k < n
        invariant
            k <= n,
            n == names@.len(),
            views == texts(names@),
            order@.len() == n,
            forall|x: int| 0 <= x < n ==> (#[trigger] order@[x]) < n,
            r@.len() == k,
            forall|x: int| 0 <= x < k ==> #[trigger] texts(r@)[x] == views[order@[x] as int],
        decreases n - k,
    {
        let ghost before = texts(r@);
        assert(views[order@[k as int] as int] == names@[order@[k as int] as int]@);
        r.push(names[order[k]].clone());
        assert(texts(r@) =~= before.push(views[order@[k as int] as int]));
        k += 1;
    }
    assert(stable_order(order@, views.len(), name_rule(views)));
    r
}

proof fn lemma_name_rule(names: Seq<Seq<char>>)
    ensures
        weak_order(names.len(), name_rule(names)),
{
    let rule = name_rule(names);
    assert forall|a: int, b: int|
        0 <= a < names.len() && 0 <= b < names.len() && #[trigger] rule(a, b) implies !rule(
        b,
        a,
    ) by {
        lemma_text_total(folded(names[a]), folded(names[b]));
    }
    assert forall|a: int, b: int, c: int|
        0 <= a < names.len() && 0 <= b < names.len() && 0 <= c < names.len() && #[trigger] rule(
            a,
            b,
        ) implies (#[trigger] rule(a, c) || rule(c, b)) by {
        let x = folded(names[a]);
        let y = folded(names[b]);
        let z = folded(names[c]);
        lemma_text_total(x, z);
        lemma_text_total(z, y);
        if text_before(z, x) && text_before(x, y) {
            lemma_text_transitive(z, x, y);
        }
    }
}

/// What the interface sees of a captured request: the names of its headers, but for the cookie's,
/// and whether there are cookies. No value is in it.
pub fn pending_capture_dto(request: &DownloadRequest, transaction_id: String, now: i64) -> (r:
    PendingCaptureDto)
    ensures
        summary_is(*request, transaction_id@, now, r),
{
    let ghost headers = header_list(request.headers);
    let mut names: Vec<String> = Vec::new();
    let mut with_cookie: bool = false;
    match &request.headers {
        None => {
            assert(texts(names@) =~= shown_names(headers));
        },
        Some(list) => {
            let mut i: usize = 0;
            assert(texts(names@) =~= shown_names(headers.take(0)));
            while i < list.len()
                invariant
                    i <= list@.len(),
                    headers == list@,
                    texts(names@) == shown_names(headers.take(i as int)),
                    with_cookie == (exists|k: int|
                        0 <= k < i && is_cookie((#[trigger] headers[k]).0@) && trimmed(
                            headers[k].1@,
                        ).len() > 0),
                decreases list@.len() - i,
            {
                let ghost was = texts(names@);
                assert(headers.take(i + 1).drop_last() =~= headers.take(i as int));
                let name = &list[i].0;
                let value = &list[i].1;
                if same_ignoring_case(name.as_str(), "cookie") {
                    let value = trim(value.as_str());
                    if !value.as_str().is_empty() {
                        assert(is_cookie(headers[i as int].0@));
                        with_cookie = true;
                    }
                } else {
                    names.push(name.clone());
                    assert(texts(names@) =~= was.push(name@));
                }
                i += 1;
            }
            assert(headers.take(i as int) =~= headers);
        },
    }
    let cookies = trim(request.cookies.as_str());
    PendingCaptureDto {
        transaction_id,
        url: request.url.clone(),
        file_name: request.filename.clone(),
        created_at_unix_ms: now,
        file_size: match request.file_size {
            Some(size) => if size < 0 {
                0
            } else {
                size
            },
            None => 0,
        },
        referrer: request.referrer.clone(),
        save_dir: request.save_dir.clone(),
        has_cookies: !cookies.as_str().is_empty() || with_cookie,
        header_names: sort_names(&names),
    }
}

/// Whether a list of names holds an authorization header, in any case.
pub open spec fn authorization_named(names: Seq<String>) -> bool {
    exists|i: int| 0 <= i < names.len() && same_folded((#[trigger] names[i])@, "authorization"@)
}

impl PendingCaptureDto {
    /// Whether the captured request carries an authorization.
    pub fn has_authorization(&self) -> (r: bool)
        ensures
            r == exists|i: int|
                0 <= i < self.header_names@.len() && same_folded(
                    (#[trigger] self.header_names@[i])@,
                    "authorization"@,
                ),
            r == authorization_named(self.header_names@),
    {
        let mut i: usize = 0;
        while i < self.header_names.len()
            invariant
                i <= self.header_names@.len(),
                forall|k: int|
                    0 <= k < i ==> !same_folded(
                        (#[trigger] self.header_names@[k])@,
                        "authorization"@,
                    ),
            decreases self.header_names@.len() - i,
        {
            if same_ignoring_case(self.header_names[i].as_str(), "authorization") {
                return true;
            }
            i += 1;
        }
        false
    }

    pub fn copy(&self) -> (r: PendingCaptureDto)
        ensures
            dto_same(r, *self),
    {
        let mut names: Vec<String> = Vec::new();
        let mut i: usize = 0;
        while i < self.header_names.len()
            invariant
                i <= self.header_names@.len(),
                names@ =~= self.header_names@.take(i as int),
            decreases self.header_names@.len() - i,
        {
            names.push(self.header_names[i].clone());
            i += 1;
        }
        assert(names@ =~= self.header_names@);
        PendingCaptureDto {
            transaction_id: self.transaction_id.clone(),
            url: self.url.clone(),
            file_name: self.file_name.clone(),
            created_at_unix_ms: self.created_at_unix_ms,
            file_size: self.file_size,
            referrer: self.referrer.clone(),
            save_dir: self.save_dir.clone(),
            has_cookies: self.has_cookies,
            header_names: names,
        }
    }
}

/// Whether two summaries say the same.
pub open spec fn dto_same(a: PendingCaptureDto, b: PendingCaptureDto) -> bool {
    &&& a.transaction_id == b.transaction_id
    &&& a.url == b.url
    &&& a.file_name == b.file_name
    &&& a.created_at_unix_ms == b.created_at_unix_ms
    &&& a.file_size == b.file_size
    &&& a.referrer == b.referrer
    &&& a.save_dir == b.save_dir
    &&& a.has_cookies == b.has_cookies
    &&& a.header_names@ == b.header_names@
}

/// No summary names the cookie's header.
pub proof fn law_summary_never_names_cookies(
    request: DownloadRequest,
    id: Seq<char>,
    now: i64,
    dto: PendingCaptureDto,
)
    requires
        summary_is(request, id, now, dto),
    ensures
        forall|i: int| 0 <= i < dto.header_names@.len() ==> !is_cookie(#[trigger] dto.header_names@[i]@),
{
    let names = shown_names(header_list(request.headers));
    lemma_shown_names(header_list(request.headers));
    let order = choose|order: Seq<usize>| #[trigger]
        stable_order(order, names.len(), name_rule(names)) && texts(dto.header_names@).len()
            == names.len() && forall|i: int|
            0 <= i < texts(dto.header_names@).len() ==> #[trigger] texts(dto.header_names@)[i]
                == names[order[i] as int];
    assert forall|i: int| 0 <= i < dto.header_names@.len() implies !is_cookie(
        #[trigger] dto.header_names@[i]@,
    ) by {
        assert(texts(dto.header_names@)[i] == dto.header_names@[i]@);
        assert(order[i] < names.len());
        assert(!is_cookie(names[order[i] as int]));
    }
}

proof fn lemma_shown_names(headers: Seq<(String, String)>)
    ensures
        forall|i: int| 0 <= i < shown_names(headers).len() ==> !is_cookie(#[trigger] shown_names(headers)[i]),
    decreases headers.len(),
{
    if headers.len() > 0 {
        lemma_shown_names(headers.drop_last());
        let before = shown_names(headers.drop_last());
        assert forall|i: int| 0 <= i < shown_names(headers).len() implies !is_cookie(
            #[trigger] shown_names(headers)[i],
        ) by {
            if i < before.len() {
                assert(shown_names(headers)[i] == before[i]);
            }
        }
    }
}

/// A summary gives away no value of a cookie or a header: requests that differ in nothing but such
/// values, and agree in whether there are cookies, have the same one.
pub proof fn law_summary_hides_values(
    a: DownloadRequest,
    b: DownloadRequest,
    id: Seq<char>,
    now: i64,
    dto: PendingCaptureDto,
)
    requires
        a.url@ == b.url@,
        a.filename@ == b.filename@,
        a.save_dir@ == b.save_dir@,
        a.referrer@ == b.referrer@,
        a.file_size == b.file_size,
        header_list(a.headers).len() == header_list(b.headers).len(),
        forall|i: int|
            0 <= i < header_list(a.headers).len() ==> (#[trigger] header_list(a.headers)[i]).0@
                == header_list(b.headers)[i].0@,
        (trimmed(a.cookies@).len() > 0 || cookie_header(header_list(a.headers))) == (trimmed(
            b.cookies@,
        ).len() > 0 || cookie_header(header_list(b.headers))),
    ensures
        summary_is(a, id, now, dto) == summary_is(b, id, now, dto),
{
    lemma_same_names(header_list(a.headers), header_list(b.headers));
}

proof fn lemma_same_names(a: Seq<(String, String)>, b: Seq<(String, String)>)
    requires
        a.len() == b.len(),
        forall|i: int| 0 <= i < a.len() ==> (#[trigger] a[i]).0@ == b[i].0@,
    ensures
        shown_names(a) == shown_names(b),
    decreases a.len(),
{
    if a.len() > 0 {
        assert forall|i: int| 0 <= i < a.len() - 1 implies (#[trigger] a.drop_last()[i]).0@
            == b.drop_last()[i].0@ by {
            assert(a[i].0@ == b[i].0@);
        }
        lemma_same_names(a.drop_last(), b.drop_last());
        assert(a[a.len() - 1].0@ == b[a.len() - 1].0@);
    }
}

/// Whether a task is made from a captured request as it is; queue and parts are left to the
/// service.
pub open spec fn made_from(request: DownloadRequest, task: CreateTaskRequest) -> bool {
    let none = Seq::<char>::empty();
    &&& task.url == request.url
    &&& task.file_name == request.filename
    &&& task.save_dir == request.save_dir
    &&& task.segments == 0
    &&& task.cookies == request.cookies
    &&& task.referrer == request.referrer
    &&& task.proxy_url@ == none
    &&& task.user_agent@ == none
    &&& task.queue_id@ == none
    &&& task.checksum@ == none
    &&& !task.ignore_tls_errors
    &&& task.headers == request.headers
    &&& task.torrent_b64 is None
    &&& task.method == request.method
    &&& task.body == request.body
    &&& task.audio_url == request.audio_url
    &&& !task.start_paused
    &&& task.http_user@ == none
    &&& task.http_password@ == none
    &&& !task.save_site_auth
}

/// Makes a task from a captured request as it is.
pub fn captured_create_request(request: DownloadRequest) -> (r: CreateTaskRequest)
    ensures
        made_from(request, r),
{
    CreateTaskRequest {
        url: request.url,
        file_name: request.filename,
        save_dir: request.save_dir,
        segments: 0,
        cookies: request.cookies,
        referrer: request.referrer,
        proxy_url: String::new(),
        user_agent: String::new(),
        queue_id: String::new(),
        checksum: String::new(),
        ignore_tls_errors: false,
        headers: request.headers,
        torrent_b64: None,
        method: request.method,
        body: request.body,
        audio_url: request.audio_url,
        start_paused: false,
        http_user: String::new(),
        http_password: String::new(),
        save_site_auth: false,
    }
}

/// Puts the fallback in place of a text that holds nothing but white space.
pub fn fill_if_blank(target: &mut String, fallback: String)
    ensures
        *final(target) == if trimmed(old(target)@).len() == 0 {
            fallback
        } else {
            *old(target)
        },
{
    let kept = trim(target.as_str());
    if kept.as_str().is_empty() {
        *target = fallback;
    }
}

/// The headers without those of a name, in any case.
pub open spec fn without_name(
    headers: Seq<(Seq<char>, Seq<char>)>,
    name: Seq<char>,
) -> Seq<(Seq<char>, Seq<char>)>
    decreases headers.len(),
{
    if headers.len() == 0 {
        Seq::empty()
    } else {
        let before = without_name(headers.drop_last(), name);
        if same_folded(headers.last().0, name) {
            before
        } else {
            before.push(headers.last())
        }
    }
}

/// The headers with others laid over them: each takes the place of those of its name, in any
/// case.
pub open spec fn overlaid(
    headers: Seq<(Seq<char>, Seq<char>)>,
    added: Seq<(Seq<char>, Seq<char>)>,
) -> Seq<(Seq<char>, Seq<char>)>
    decreases added.len(),
{
    if added.len() == 0 {
        headers
    } else {
        without_name(overlaid(headers, added.drop_last()), added.last().0).push(added.last())
    }
}

/// The headers of a confirmed request: the captured ones, without the browser's identification
/// where the user gave another, and over them those of the form.
pub open spec fn merged_headers(
    captured: Option<Vec<(String, String)>>,
    confirmed: Option<Vec<(String, String)>>,
    user_agent: Seq<char>,
) -> Seq<(Seq<char>, Seq<char>)> {
    let base = header_views(header_list(captured));
    let kept = if trimmed(user_agent).len() > 0 {
        without_name(base, "user-agent"@)
    } else {
        base
    };
    overlaid(kept, header_views(header_list(confirmed)))
}

fn drop_name(headers: &Vec<(String, String)>, name: &str) -> (r: Vec<(String, String)>)
    ensures
        header_views(r@) == without_name(header_views(headers@), name@),
{
    let ghost views = header_views(headers@);
    let mut r: Vec<(String, String)> = Vec::new();
    let mut i: usize = 0;
    assert(header_views(r@) =~= without_name(views.take(0), name@));
    while i < headers.len()
        invariant
            i <= headers@.len(),
            views == header_views(headers@),
            header_views(r@) == without_name(views.take(i as int), name@),
        decreases headers@.len() - i,
    {
        let ghost was = header_views(r@);
        assert(views.take(i + 1).drop_last() =~= views.take(i as int));
        assert(views.take(i + 1).last() == (headers@[i as int].0@, headers@[i as int].1@));
        if !same_ignoring_case(headers[i].0.as_str(), name) {
            r.push((headers[i].0.clone(), headers[i].1.clone()));
            assert(header_views(r@) =~= was.push(views[i as int]));
        }
        i += 1;
    }
    assert(views.take(i as int) =~= views);
    r
}

fn merge_headers(
    captured: Option<Vec<(String, String)>>,
    confirmed: Option<Vec<(String, String)>>,
    user_agent: &str,
) -> (r: Option<Vec<(String, String)>>)
    ensures
        ({
            let merged = merged_headers(captured, confirmed, user_agent@);
            &&& header_views(header_list(r)) == merged
            &&& r is Some <==> merged.len() > 0
        }),
{
    let ghost base = header_views(header_list(captured));
    let mut headers: Vec<(String, String)> = match captured {
        Some(list) => list,
        None => Vec::new(),
    };
    assert(header_views(headers@) =~= base);
    let agent = trim(user_agent);
    if !agent.as_str().is_empty() {
        headers = drop_name(&headers, "user-agent");
    }
    let ghost kept = header_views(headers@);
    let ghost added = header_views(header_list(confirmed));
    match confirmed {
        None => {
            assert(added =~= Seq::empty());
        },
        Some(list) => {
            let mut i: usize = 0;
            while i < list.len()
                invariant
                    i <= list@.len(),
                    added == header_views(list@),
                    header_views(headers@) == overlaid(kept, added.take(i as int)),
                decreases list@.len() - i,
            {
                let name = list[i].0.clone();
                let value = list[i].1.clone();
                headers = drop_name(&headers, name.as_str());
                let ghost was = header_views(headers@);
                headers.push((name, value));
                proof {
                    assert(added.take(i + 1).drop_last() =~= added.take(i as int));
                    assert(added.take(i + 1).last() == (name@, value@));
                    assert(header_views(headers@) =~= was.push((name@, value@)));
                }
                i += 1;
            }
            assert(added.take(i as int) =~= added);
        },
    }
    assert(header_views(headers@).len() == headers@.len());
    if headers.len() == 0 {
        let none: Option<Vec<(String, String)>> = None;
        assert(header_views(header_list(none)) =~= header_views(headers@));
        none
    } else {
        Some(headers)
    }
}

/// What stands in a field of the form: what the user typed, or what was captured where that is
/// blank.
pub open spec fn chosen(typed: String, captured: String) -> String {
    if trimmed(typed@).len() == 0 {
        captured
    } else {
        typed
    }
}

/// Whether a task is what comes of laying a confirmed form over a captured request.
pub open spec fn merged_from(
    captured: DownloadRequest,
    confirmed: CreateTaskRequest,
    task: CreateTaskRequest,
) -> bool {
    let headers = merged_headers(captured.headers, confirmed.headers, confirmed.user_agent@);
    &&& task == (CreateTaskRequest {
        url: captured.url,
        method: captured.method,
        body: captured.body,
        audio_url: captured.audio_url,
        torrent_b64: None,
        file_name: chosen(confirmed.file_name, captured.filename),
        save_dir: chosen(confirmed.save_dir, captured.save_dir),
        cookies: chosen(confirmed.cookies, captured.cookies),
        referrer: chosen(confirmed.referrer, captured.referrer),
        headers: task.headers,
        ..confirmed
    })
    &&& header_views(header_list(task.headers)) == headers
    &&& task.headers is Some <==> headers.len() > 0
}

/// Lays what the user confirmed over the captured request. Link, method, body and sound track
/// are the captured ones whatever the form says; a blank field falls back to what was captured;
/// headers of the form take the place of captured ones of the same name.
pub fn merge_confirmed_request(captured: DownloadRequest, confirmed: CreateTaskRequest) -> (r:
    CreateTaskRequest)
    ensures
        merged_from(captured, confirmed, r),
{
    let base = captured_create_request(captured);
    let mut task = confirmed;
    task.url = base.url;
    task.method = base.method;
    task.body = base.body;
    task.audio_url = base.audio_url;
    task.torrent_b64 = None;
    fill_if_blank(&mut task.file_name, base.file_name);
    fill_if_blank(&mut task.save_dir, base.save_dir);
    fill_if_blank(&mut task.cookies, base.cookies);
    fill_if_blank(&mut task.referrer, base.referrer);
    let mut given: Option<Vec<(String, String)>> = None;
    std::mem::swap(&mut given, &mut task.headers);
    task.headers = merge_headers(base.headers, given, task.user_agent.as_str());
    task
}

proof fn lemma_without_name(
    headers: Seq<(Seq<char>, Seq<char>)>,
    name: Seq<char>,
    h: (Seq<char>, Seq<char>),
)
    ensures
        without_name(headers, name).contains(h) <==> headers.contains(h) && !same_folded(h.0, name),
    decreases headers.len(),
{
    if headers.len() > 0 {
        let rest = headers.drop_last();
        lemma_without_name(rest, name, h);
        let before = without_name(rest, name);
        let after = without_name(headers, name);
        if rest.contains(h) {
            let i = choose|i: int| 0 <= i < rest.len() && rest[i] == h;
            assert(headers[i] == h);
        }
        if headers.contains(h) && headers.last() != h {
            let i = choose|i: int| 0 <= i < headers.len() && headers[i] == h;
            assert(rest[i] == h);
        }
        if headers.last() == h {
            assert(headers[headers.len() - 1] == h);
        }
        if before.contains(h) {
            let i = choose|i: int| 0 <= i < before.len() && before[i] == h;
            assert(after[i] == h);
        }
        if after.contains(h) && !before.contains(h) {
            let i = choose|i: int| 0 <= i < after.len() && after[i] == h;
            assert(i == before.len() || before[i] == h);
        }
        if headers.last() == h && !same_folded(h.0, name) {
            assert(after[before.len() as int] == h);
        }
    }
}

/// Whether a header of the form has the given name, in any case, at index `from` or later.
pub open spec fn named_from(
    added: Seq<(Seq<char>, Seq<char>)>,
    from: int,
    name: Seq<char>,
) -> bool {
    exists|j: int| from <= j < added.len() && same_folded((#[trigger] added[j]).0, name)
}

/// A confirmed request carries a header exactly where the form gives it last under its name, or
/// it was captured and the form gives none of its name.
pub proof fn law_form_headers_win(
    headers: Seq<(Seq<char>, Seq<char>)>,
    added: Seq<(Seq<char>, Seq<char>)>,
    h: (Seq<char>, Seq<char>),
)
    ensures
        overlaid(headers, added).contains(h) <==> (headers.contains(h) && !named_from(
            added,
            0,
            h.0,
        )) || (exists|i: int|
            0 <= i < added.len() && #[trigger] added[i] == h && !named_from(added, i + 1, h.0)),
    decreases added.len(),
{
    if added.len() > 0 {
        let rest = added.drop_last();
        let last = added.last();
        let n = rest.len() as int;
        law_form_headers_win(headers, rest, h);
        let before = overlaid(headers, rest);
        lemma_without_name(before, last.0, h);
        let kept = without_name(before, last.0);
        let after = overlaid(headers, added);
        assert(after == kept.push(last));
        assert(after.contains(h) <==> kept.contains(h) || h == last) by {
            if kept.contains(h) {
                let i = choose|i: int| 0 <= i < kept.len() && kept[i] == h;
                assert(after[i] == h);
            }
            if after.contains(h) && h != last {
                let i = choose|i: int| 0 <= i < after.len() && after[i] == h;
                assert(kept[i] == h);
            }
            assert(after[kept.len() as int] == last);
        }
        assert(added[n] == last);
        assert(same_folded(h.0, last.0) == same_folded(last.0, h.0));
        assert forall|from: int| 0 <= from <= n implies #[trigger] named_from(added, from, h.0) == (
        named_from(rest, from, h.0) || same_folded(last.0, h.0)) by {
            if named_from(rest, from, h.0) {
                let j = choose|j: int|
                    from <= j < rest.len() && same_folded((#[trigger] rest[j]).0, h.0);
                assert(added[j] == rest[j]);
            }
            if named_from(added, from, h.0) {
                let j = choose|j: int|
                    from <= j < added.len() && same_folded((#[trigger] added[j]).0, h.0);
                if j < n {
                    assert(rest[j] == added[j]);
                }
            }
        }
        assert(!named_from(added, n + 1, h.0));
        let by_form = exists|i: int|
            0 <= i < added.len() && #[trigger] added[i] == h && !named_from(added, i + 1, h.0);
        let by_form_before = exists|i: int|
            0 <= i < rest.len() && #[trigger] rest[i] == h && !named_from(rest, i + 1, h.0);
        if by_form_before && !same_folded(last.0, h.0) {
            let i = choose|i: int|
                0 <= i < rest.len() && #[trigger] rest[i] == h && !named_from(rest, i + 1, h.0);
            assert(added[i] == h && !named_from(added, i + 1, h.0));
            assert(by_form);
        }
        if by_form && h != last {
            let i = choose|i: int|
                0 <= i < added.len() && #[trigger] added[i] == h && !named_from(added, i + 1, h.0);
            assert(i < n);
            assert(rest[i] == h);
            assert(!named_from(rest, i + 1, h.0));
            assert(!same_folded(last.0, h.0));
        }
        if h == last {
            assert(added[n] == h);
            assert(by_form);
        }
    } else {
        assert(!named_from(added, 0, h.0));
    }
}

/// A captured download that waits: what the interface sees of it, and the request itself.
#[derive(Debug)]
pub struct CaptureTransaction {
    pub public: PendingCaptureDto,
    pub request: DownloadRequest,
}

/// Why a captured download could not be taken or answered.
#[derive(Debug, PartialEq, Eq)]
pub enum CaptureError {
    /// Too many wait already.
    Full,
    /// No such download waits.
    NotFound,
    /// The service refused to make the task.
    Daemon(String),
    /// The task could not be written down for the service.
    Json(String),
    /// The interface could not be brought up.
    Platform(String),
}

impl CaptureError {
    /// The error in words.
    pub fn message(&self) -> (r: String)
        ensures
            r@ == match *self {
                CaptureError::Full => "capture confirmation queue is full"@,
                CaptureError::NotFound => "capture transaction not found"@,
                CaptureError::Daemon(error) => "daemon capture create failed: "@ + error@,
                CaptureError::Json(error) => error@,
                CaptureError::Platform(error) => error@,
            },
    {
        match self {
            CaptureError::Full => "capture confirmation queue is full".to_owned(),
            CaptureError::NotFound => "capture transaction not found".to_owned(),
            CaptureError::Daemon(error) => concat("daemon capture create failed: ", error.as_str()),
            CaptureError::Json(error) | CaptureError::Platform(error) => error.clone(),
        }
    }
}

/// A task that the service is asked to make.
#[derive(Debug)]
pub struct CreateTask {
    pub request: CreateTaskRequest,
    pub torrent_blob_id: Option<String>,
    /// Whether nobody is there to choose among the files of a torrent.
    pub unattended: bool,
}

/// What becomes of a captured download that was handed over.
#[derive(Debug)]
pub enum Submitted {
    /// The task is made without asking.
    Create(CreateTask),
    /// It waits; where it is the first, the interface is brought up.
    Queued { transaction_id: String, first: bool },
}

/// What becomes of a captured download that was answered.
#[derive(Debug)]
pub enum Resolved {
    /// The user wants none of it.
    Rejected,
    Create(CreateTask),
}

/// The captured downloads that wait, in the order in which they came.
#[derive(Debug)]
pub struct CaptureService {
    pub pending: Vec<CaptureTransaction>,
}

/// The index of the first waiting download with an identifier; their number where there is none.
pub open spec fn waiting_index(pending: Seq<CaptureTransaction>, id: Seq<char>) -> int
    decreases pending.len(),
{
    if pending.len() == 0 || pending[0].public.transaction_id@ == id {
        0
    } else {
        1 + waiting_index(pending.drop_first(), id)
    }
}

pub open spec fn waits(pending: Seq<CaptureTransaction>, id: Seq<char>) -> bool {
    waiting_index(pending, id) < pending.len()
}

/// The identifiers of the waiting downloads.
pub open spec fn waiting_ids(pending: Seq<CaptureTransaction>) -> Seq<Seq<char>> {
    pending.map_values(|t: CaptureTransaction| t.public.transaction_id@)
}

pub proof fn lemma_waiting_index(pending: Seq<CaptureTransaction>, id: Seq<char>)
    ensures
        0 <= waiting_index(pending, id) <= pending.len(),
        waits(pending, id) ==> pending[waiting_index(pending, id)].public.transaction_id@ == id,
        waits(pending, id) <==> waiting_ids(pending).contains(id),
    decreases pending.len(),
{
    let ids = waiting_ids(pending);
    if pending.len() > 0 {
        let rest = pending.drop_first();
        lemma_waiting_index(rest, id);
        assert(ids.drop_first() =~= waiting_ids(rest));
        if pending[0].public.transaction_id@ == id {
            assert(ids[0] == id);
        } else {
            if ids.contains(id) {
                let i = choose|i: int| 0 <= i < ids.len() && ids[i] == id;
                assert(waiting_ids(rest)[i - 1] == id);
            }
            if waiting_ids(rest).contains(id) {
                let i = choose|i: int|
                    0 <= i < waiting_ids(rest).len() && waiting_ids(rest)[i] == id;
                assert(ids[i + 1] == id);
            }
        }
    }
}

impl CaptureService {
    /// The number of waiting downloads is bounded.
    pub open spec fn wf(&self) -> bool {
        self.pending@.len() <= CAPTURE_CAPACITY
    }

    pub fn new() -> (r: CaptureService)
        ensures
            r.wf(),
            r.pending@.len() == 0,
    {
        CaptureService { pending: Vec::new() }
    }

    /// Takes a captured download. Where the user wants no questions the task is made at once;
    /// else it waits under the given identifier, unless too many wait already.
    pub fn submit(
        &mut self,
        request: DownloadRequest,
        silent: bool,
        transaction_id: String,
        now: i64,
    ) -> (r: Result<Submitted, CaptureError>)
        requires
            old(self).wf(),
        ensures
            final(self).wf(),
            if silent {
                &&& final(self).pending@ == old(self).pending@
                &&& match r {
                    Ok(Submitted::Create(task)) => made_from(request, task.request)
                        && task.torrent_blob_id is None && task.unattended,
                    _ => false,
                }
            } else if old(self).pending@.len() >= CAPTURE_CAPACITY {
                &&& final(self).pending@ == old(self).pending@
                &&& r == Err::<Submitted, CaptureError>(CaptureError::Full)
            } else {
                &&& final(self).pending@.len() == old(self).pending@.len() + 1
                &&& final(self).pending@.drop_last() == old(self).pending@
                &&& final(self).pending@.last().request == request
                &&& summary_is(request, transaction_id@, now, final(self).pending@.last().public)
                &&& match r {
                    Ok(Submitted::Queued { transaction_id: id, first }) => id@ == transaction_id@
                        && first == (old(self).pending@.len() == 0),
                    _ => false,
                }
            },
    {
        if silent {
            let task = captured_create_request(request);
            return Ok(
                Submitted::Create(
                    CreateTask { request: task, torrent_blob_id: None, unattended: true },
                ),
            );
        }
        if self.pending.len() >= CAPTURE_CAPACITY {
            return Err(CaptureError::Full);
        }
        let first: bool = self.pending.len() == 0;
        let public = pending_capture_dto(&request, transaction_id.clone(), now);
        let ghost before = self.pending@;
        self.pending.push(CaptureTransaction { public, request });
        assert(self.pending@.drop_last() =~= before);
        Ok(Submitted::Queued { transaction_id, first })
    }

    /// What the interface sees of the waiting downloads.
    pub fn list(&self) -> (r: Vec<PendingCaptureDto>)
        ensures
            r@.len() == self.pending@.len(),
            forall|i: int|
                0 <= i < r@.len() ==> dto_same(#[trigger] r@[i], self.pending@[i].public),
    {
        let mut r: Vec<PendingCaptureDto> = Vec::new();
        let mut i: usize = 0;
        while i < self.pending.len()
            invariant
                i <= self.pending@.len(),
                r@.len() == i,
                forall|k: int|
                    0 <= k < i ==> dto_same(#[trigger] r@[k], self.pending@[k].public),
            decreases self.pending@.len() - i,
        {
            r.push(self.pending[i].public.copy());
            i += 1;
        }
        r
    }

    /// Answers a waiting download, which waits no longer. Where the user takes it, the task is
    /// made from what was captured, with the form's choices laid over it where there is a form.
    pub fn resolve(
        &mut self,
        transaction_id: &str,
        accepted: bool,
        confirmed: Option<CreateTaskRequest>,
    ) -> (r: Result<Resolved, CaptureError>)
        requires
            old(self).wf(),
        ensures
            final(self).wf(),
            if !waits(old(self).pending@, transaction_id@) {
                &&& final(self).pending@ == old(self).pending@
                &&& r == Err::<Resolved, CaptureError>(CaptureError::NotFound)
            } else {
                let i = waiting_index(old(self).pending@, transaction_id@);
                let captured = old(self).pending@[i].request;
                &&& final(self).pending@ == old(self).pending@.remove(i)
                &&& match r {
                    Ok(Resolved::Rejected) => !accepted,
                    Ok(Resolved::Create(task)) => {
                        &&& accepted
                        &&& task.torrent_blob_id is None
                        &&& !task.unattended
                        &&& match confirmed {
                            Some(form) => merged_from(captured, form, task.request),
                            None => made_from(captured, task.request),
                        }
                    },
                    Err(_) => false,
                }
            },
    {
        let ghost before = self.pending@;
        proof {
            lemma_waiting_index(before, transaction_id@);
        }
        let mut i: usize = 0;
        assert(before.skip(0) =~= before);
        while i < self.pending.len() && !same(
            self.pending[i].public.transaction_id.as_str(),
            transaction_id,
        )
            invariant
                i <= before.len(),
                self.pending@ == before,
                waiting_index(before, transaction_id@) == i + waiting_index(
                    before.skip(i as int),
                    transaction_id@,
                ),
            decreases before.len() - i,
        {
            assert(before.skip(i as int)[0] == before[i as int]);
            assert(before.skip(i as int).drop_first() =~= before.skip(i + 1));
            i += 1;
        }
        if i == self.pending.len() {
            return Err(CaptureError::NotFound);
        }
        assert(before.skip(i as int)[0] == before[i as int]);
        let transaction = self.pending.remove(i);
        if !accepted {
            return Ok(Resolved::Rejected);
        }
        let request = match confirmed {
            Some(form) => merge_confirmed_request(transaction.request, form),
            None => captured_create_request(transaction.request),
        };
        Ok(Resolved::Create(CreateTask { request, torrent_blob_id: None, unattended: false }))
    }

    /// The task for a torrent file that was uploaded already.
    pub fn create_torrent(
        &self,
        request: DownloadRequest,
        torrent_blob_id: String,
        unattended: bool,
    ) -> (r: CreateTask)
        ensures
            made_from(request, r.request),
            r.torrent_blob_id == Some(torrent_blob_id),
            r.unattended == unattended,
    {
        CreateTask {
            request: captured_create_request(request),
            torrent_blob_id: Some(torrent_blob_id),
            unattended,
        }
    }
}

/// A waiting download is answered once: where no two have the same identifier, it is not found
/// again, and the others wait on.
pub proof fn law_captures_are_answered_once(
    pending: Seq<CaptureTransaction>,
    id: Seq<char>,
    other: Seq<char>,
)
    requires
        waiting_ids(pending).no_duplicates(),
        waits(pending, id),
        id != other,
    ensures
        ({
            let after = pending.remove(waiting_index(pending, id));
            &&& !waits(after, id)
            &&& waits(after, other) == waits(pending, other)
            &&& waiting_ids(after).no_duplicates()
        }),
{
    let i = waiting_index(pending, id);
    let after = pending.remove(i);
    let ids = waiting_ids(pending);
    lemma_waiting_index(pending, id);
    lemma_waiting_index(pending, other);
    lemma_waiting_index(after, id);
    lemma_waiting_index(after, other);
    let left = waiting_ids(after);
    assert(left =~= ids.remove(i));
    if left.contains(id) {
        let k = choose|k: int| 0 <= k < left.len() && left[k] == id;
        let at = if k < i {
            k
        } else {
            k + 1
        };
        assert(ids[at] == id && ids[i] == id);
    }
    if ids.contains(other) {
        let k = choose|k: int| 0 <= k < ids.len() && ids[k] == other;
        if k < i {
            assert(left[k] == other);
        } else {
            assert(left[k - 1] == other);
        }
    }
    if left.contains(other) {
        let k = choose|k: int| 0 <= k < left.len() && left[k] == other;
        if k < i {
            assert(ids[k] == other);
        } else {
            assert(ids[k + 1] == other);
        }
    }
    assert forall|a: int, b: int| 0 <= a < left.len() && 0 <= b < left.len() && a != b implies left[a]
        != left[b] by {
        let x = if a < i {
            a
        } else {
            a + 1
        };
        let y = if b < i {
            b
        } else {
            b + 1
        };
        assert(ids[x] != ids[y]);
    }
}

/// A digit of base 16, in small letters.
pub open spec fn small_hex(c: char) -> bool {
    ('0' <= c && c <= '9') || ('a' <= c && c <= 'f')
}

/// Whether a text has the shape of a random identifier: 36 characters, four of them hyphens and
/// the others digits of base 16, of which two tell that it is a random one.
pub open spec fn uuid_shape(s: Seq<char>) -> bool {
    &&& s.len() == 36
    &&& forall|i: int|
        0 <= i < 36 ==> if i == 8 || i == 13 || i == 18 || i == 23 {
            #[trigger] s[i] == '-'
        } else {
            small_hex(s[i])
        }
    &&& s[14] == '4'
    &&& s[19] == '8' || s[19] == '9' || s[19] == 'a' || s[19] == 'b'
}

/// `Uuid::new_v4` of uuid, written out: a random identifier. It is another one each time, so that
/// only its shape is stated.
#[verifier::external_body]
pub(crate) fn random_id() -> (r: String)
    ensures
        uuid_shape(r@),
{
    uuid::Uuid::new_v4().to_string()
}

/// A moment of the system's clock.
#[verifier::external_type_specification]
#[verifier::external_body]
pub struct ExSystemTime(std::time::SystemTime);

/// The error of `SystemTime::duration_since`: the other moment is a later one.
#[verifier::external_type_specification]
#[verifier::external_body]
pub struct ExSystemTimeError(std::time::SystemTimeError);

/// `SystemTime::now` of std: the present moment. It is another one each time, so that nothing is
/// stated of it.
pub assume_specification[ std::time::SystemTime::now ]() -> std::time::SystemTime;

/// `SystemTime::duration_since` of std, from the beginning of 1970: the span up to a moment, or an
/// error where the moment is an earlier one. What a moment is cannot be seen, so that nothing is
/// stated of the span.
#[verifier::external_body]
fn since_epoch(moment: std::time::SystemTime) -> (r: Result<
    std::time::Duration,
    std::time::SystemTimeError,
>) {
    moment.duration_since(std::time::UNIX_EPOCH)
}

/// `Duration::as_millis` of std: the whole milliseconds of a span. What a span is cannot be seen,
/// so that nothing is stated of them.
pub assume_specification[ std::time::Duration::as_millis ](span: &std::time::Duration) -> u128;

/// The milliseconds since the beginning of 1970; nothing where the clock stands before it.
fn clock_millis() -> (r: Option<u128>) {
    match since_epoch(std::time::SystemTime::now()) {
        Ok(since) => Some(since.as_millis()),
        Err(_) => None,
    }
}

/// A reading of the clock as it is kept: zero where there is none, and no more than 63 bits hold.
pub fn unix_ms_of(millis: Option<u128>) -> (r: i64)
    ensures
        r == match millis {
            Some(ms) => if ms > i64::MAX {
                i64::MAX as int
            } else {
                ms as int
            },
            None => 0,
        },
{
    match millis {
        Some(ms) => if ms > i64::MAX as u128 {
            i64::MAX
        } else {
            ms as i64
        },
        None => 0,
    }
}

/// The present moment in milliseconds since the beginning of 1970.
pub fn now_unix_ms() -> (r: i64)
    ensures
        r >= 0,
{
    unix_ms_of(clock_millis())
}

impl CaptureService {
    /// Takes a captured download now, under a new identifier.
    pub fn submit_now(&mut self, request: DownloadRequest, silent: bool) -> (r: Result<
        Submitted,
        CaptureError,
    >)
        requires
            old(self).wf(),
        ensures
            final(self).wf(),
            if silent {
                &&& final(self).pending@ == old(self).pending@
                &&& match r {
                    Ok(Submitted::Create(task)) => made_from(request, task.request)
                        && task.torrent_blob_id is None && task.unattended,
                    _ => false,
                }
            } else if old(self).pending@.len() >= CAPTURE_CAPACITY {
                &&& final(self).pending@ == old(self).pending@
                &&& r == Err::<Submitted, CaptureError>(CaptureError::Full)
            } else {
                &&& final(self).pending@.len() == old(self).pending@.len() + 1
                &&& final(self).pending@.drop_last() == old(self).pending@
                &&& final(self).pending@.last().request == request
                &&& match r {
                    Ok(Submitted::Queued { transaction_id, first }) => {
                        let public = final(self).pending@.last().public;
                        &&& uuid_shape(transaction_id@)
                        &&& public.created_at_unix_ms >= 0
                        &&& summary_is(
                            request,
                            transaction_id@,
                            public.created_at_unix_ms,
                            public,
                        )
                        &&& first == (old(self).pending@.len() == 0)
                    },
                    _ => false,
                }
            },
    {
        let id = random_id();
        let now: i64 = now_unix_ms();
        self.submit(request, silent, id, now)
    }
}

/// What can be uploaded to the service.
#[derive(Clone, Copy, Debug, PartialEq, Eq, Structural)]
pub enum BlobKind {
    Torrent,
    Plugin,
}

impl BlobKind {
    pub open spec fn path_of(self) -> Seq<char> {
        match self {
            BlobKind::Torrent => "/blobs/torrents"@,
            BlobKind::Plugin => "/blobs/plugins"@,
        }
    }

    /// The path under which the service takes it.
    pub fn path(self) -> (r: &'static str)
        ensures
            r@ == self.path_of(),
    {
        match self {
            BlobKind::Torrent => "/blobs/torrents",
            BlobKind::Plugin => "/blobs/plugins",
        }
    }
}

/// Why an upload failed.
#[derive(Debug, PartialEq, Eq)]
pub enum BlobError {
    /// The service's address is wrong.
    Url(String),
    /// The service could not be reached, or did not answer properly.
    Http(String),
    /// The service refused.
    Status(u16),
    /// The answer names no upload.
    Decode,
}

impl BlobError {
    /// The error in words.
    pub fn message(&self) -> (r: String)
        ensures
            r@ == match *self {
                BlobError::Url(why) => "daemon URL is invalid: "@ + why@,
                BlobError::Http(why) => "daemon blob upload transport failed: "@ + why@,
                BlobError::Status(code) => "daemon blob upload rejected with HTTP "@ + decimal(
                    code as nat,
                ),
                BlobError::Decode => "daemon blob upload response has no blobId"@,
            },
    {
        match self {
            BlobError::Url(why) => concat("daemon URL is invalid: ", why.as_str()),
            BlobError::Http(why) => concat("daemon blob upload transport failed: ", why.as_str()),
            BlobError::Status(code) => {
                let digits = number(*code as u64);
                concat("daemon blob upload rejected with HTTP ", digits.as_str())
            },
            BlobError::Decode => "daemon blob upload response has no blobId".to_owned(),
        }
    }
}

/// What `Url::parse` of url, by way of reqwest, finds as the scheme of an address, or why it is
/// none.
pub uninterp spec fn url_scheme_of(url: Seq<char>) -> Result<Seq<char>, Seq<char>>;

/// `Url::parse` of url, by way of reqwest, and the scheme of what it gives, or its error in
/// words. Both depend on the text alone.
#[verifier::external_body]
fn url_scheme(url: &str) -> (r: Result<String, String>)
    ensures
        (match r {
            Ok(scheme) => Ok(scheme@),
            Err(why) => Err(why@),
        }) == url_scheme_of(url@),
{
    match reqwest::Url::parse(url) {
        Ok(parsed) => Ok(parsed.scheme().to_owned()),
        Err(error) => Err(error.to_string()),
    }
}

/// The longest address, in characters, that is changed. The crate url counts the bytes of what it
/// writes in 32 bits and panics beyond; one character may come to well over a hundred bytes, in a
/// host whose letters are first taken apart and then written with ASCII letters.
pub const MAX_ADDRESS_CHARS: usize = 0x100_0000;

/// What becomes of an address under another scheme; nothing where it cannot have that one.
pub uninterp spec fn url_with_scheme_of(url: Seq<char>, scheme: Seq<char>) -> Option<Seq<char>>;

/// `Url::set_scheme` of url, by way of reqwest, on a parsed address: the address under that
/// scheme; nothing where the text is no address or cannot have the scheme. The result depends on
/// the two texts alone.
#[verifier::external_body]
fn url_with_scheme(url: &str, scheme: &str) -> (r: Option<String>)
    requires
        url@.len() <= MAX_ADDRESS_CHARS,
        scheme@.len() <= MAX_ADDRESS_CHARS,
    ensures
        opt_text(r) == url_with_scheme_of(url@, scheme@),
{
    let mut parsed = reqwest::Url::parse(url).ok()?;
    parsed.set_scheme(scheme).ok()?;
    Some(parsed.to_string())
}

/// What becomes of an address with another path; nothing where it is none.
pub uninterp spec fn url_with_path_of(url: Seq<char>, path: Seq<char>) -> Option<Seq<char>>;

/// `Url::set_path` of url, by way of reqwest, on a parsed address: the address with that path;
/// nothing where the text is no address. The result depends on the two texts alone.
#[verifier::external_body]
fn url_with_path(url: &str, path: &str) -> (r: Option<String>)
    requires
        url@.len() <= MAX_ADDRESS_CHARS,
        path@.len() <= MAX_ADDRESS_CHARS,
    ensures
        opt_text(r) == url_with_path_of(url@, path@),
{
    let mut parsed = reqwest::Url::parse(url).ok()?;
    parsed.set_path(path);
    Some(parsed.to_string())
}

/// What becomes of an address with another query, or with none; nothing where it is none.
pub uninterp spec fn url_with_query_of(url: Seq<char>, query: Option<Seq<char>>) -> Option<Seq<char>>;

/// `Url::set_query` of url, by way of reqwest, on a parsed address: the address with that query,
/// or without one; nothing where the text is no address. The result depends on the two arguments
/// alone.
#[verifier::external_body]
fn url_with_query(url: &str, query: Option<&str>) -> (r: Option<String>)
    requires
        url@.len() <= MAX_ADDRESS_CHARS,
        query is Some ==> (query->0)@.len() <= MAX_ADDRESS_CHARS,
    ensures
        opt_text(r) == url_with_query_of(url@, part_text(query)),
{
    let mut parsed = reqwest::Url::parse(url).ok()?;
    parsed.set_query(query);
    Some(parsed.to_string())
}

/// What becomes of an address with another fragment, or with none; nothing where it is none.
pub uninterp spec fn url_with_fragment_of(url: Seq<char>, fragment: Option<Seq<char>>) -> Option<Seq<char>>;

/// `Url::set_fragment` of url, by way of reqwest, on a parsed address: the address with that
/// fragment, or without one; nothing where the text is no address. The result depends on the two
/// arguments alone.
#[verifier::external_body]
fn url_with_fragment(url: &str, fragment: Option<&str>) -> (r: Option<String>)
    requires
        url@.len() <= MAX_ADDRESS_CHARS,
        fragment is Some ==> (fragment->0)@.len() <= MAX_ADDRESS_CHARS,
    ensures
        opt_text(r) == url_with_fragment_of(url@, part_text(fragment)),
{
    let mut parsed = reqwest::Url::parse(url).ok()?;
    parsed.set_fragment(fragment);
    Some(parsed.to_string())
}

/// A part of an address, where it has that part.
pub open spec fn part_text(part: Option<&str>) -> Option<Seq<char>> {
    match part {
        Some(text) => Some(text@),
        None => None,
    }
}

/// An address with an empty path.
pub open spec fn without_path(url: Option<Seq<char>>) -> Option<Seq<char>> {
    match url {
        Some(url) => url_with_path_of(url, ""@),
        None => None,
    }
}

/// An address without a query.
pub open spec fn without_query(url: Option<Seq<char>>) -> Option<Seq<char>> {
    match url {
        Some(url) => url_with_query_of(url, None),
        None => None,
    }
}

/// An address without a fragment.
pub open spec fn without_fragment(url: Option<Seq<char>>) -> Option<Seq<char>> {
    match url {
        Some(url) => url_with_fragment_of(url, None),
        None => None,
    }
}

/// What is left of an address under another scheme, without path, query and fragment.
pub open spec fn root_of(url: Seq<char>, scheme: Seq<char>) -> Option<Seq<char>> {
    without_fragment(without_query(without_path(url_with_scheme_of(url, scheme))))
}

/// Whether an address is short enough to be changed.
pub open spec fn short_enough(url: Option<Seq<char>>) -> bool {
    match url {
        Some(url) => url.len() <= MAX_ADDRESS_CHARS,
        None => true,
    }
}

/// Whether an address is short enough to be reduced to its root, and stays so on the way.
pub open spec fn root_fits(url: Seq<char>, scheme: Seq<char>) -> bool {
    let with_scheme = url_with_scheme_of(url, scheme);
    &&& url.len() <= MAX_ADDRESS_CHARS
    &&& short_enough(with_scheme)
    &&& short_enough(without_path(with_scheme))
    &&& short_enough(without_query(without_path(with_scheme)))
}

/// What is left of an address under another scheme, without path, query and fragment.
fn url_root(url: &str, scheme: &str) -> (r: Option<String>)
    requires
        root_fits(url@, scheme@),
        scheme@.len() <= MAX_ADDRESS_CHARS,
    ensures
        opt_text(r) == root_of(url@, scheme@),
{
    proof {
        reveal_strlit("");
    }
    match url_with_scheme(url, scheme) {
        None => None,
        Some(url) => match url_with_path(url.as_str(), "") {
            None => None,
            Some(url) => match url_with_query(url.as_str(), None) {
                None => None,
                Some(url) => url_with_fragment(url.as_str(), None),
            },
        },
    }
}

/// Whether an address is short enough to be reduced to its root, and stays so on the way.
fn url_root_fits(url: &str, scheme: &str) -> (r: bool)
    requires
        scheme@.len() <= MAX_ADDRESS_CHARS,
    ensures
        r == root_fits(url@, scheme@),
{
    proof {
        reveal_strlit("");
    }
    if url.unicode_len() > MAX_ADDRESS_CHARS {
        return false;
    }
    match url_with_scheme(url, scheme) {
        None => true,
        Some(url) => {
            if url.as_str().unicode_len() > MAX_ADDRESS_CHARS {
                return false;
            }
            match url_with_path(url.as_str(), "") {
                None => true,
                Some(url) => {
                    if url.as_str().unicode_len() > MAX_ADDRESS_CHARS {
                        return false;
                    }
                    match url_with_query(url.as_str(), None) {
                        None => true,
                        Some(url) => url.as_str().unicode_len() <= MAX_ADDRESS_CHARS,
                    }
                },
            }
        },
    }
}

/// What an address names relative to another.
pub uninterp spec fn url_joined(base: Seq<char>, path: Seq<char>) -> Result<Seq<char>, Seq<char>>;

/// `Url::join` of url, by way of reqwest: the address that `path` names relative to `base`, or
/// the error in words. Both depend on the two texts alone.
#[verifier::external_body]
fn url_join(base: &str, path: &str) -> (r: Result<String, String>)
    ensures
        (match r {
            Ok(url) => Ok(url@),
            Err(why) => Err(why@),
        }) == url_joined(base@, path@),
{
    match reqwest::Url::parse(base).and_then(|base| base.join(path)) {
        Ok(url) => Ok(url.to_string()),
        Err(error) => Err(error.to_string()),
    }
}

/// The scheme of uploads for the scheme of the service's address, or the error.
pub open spec fn upload_scheme_of(scheme: Result<Seq<char>, Seq<char>>) -> Result<
    Seq<char>,
    Seq<char>,
> {
    match scheme {
        Err(why) => Err(why),
        Ok(scheme) => if scheme == "ws"@ || scheme == "http"@ {
            Ok("http"@)
        } else if scheme == "wss"@ || scheme == "https"@ {
            Ok("https"@)
        } else {
            Err("unsupported scheme "@ + scheme)
        },
    }
}

/// The scheme of uploads for the scheme of the service's address: uploads go over the same
/// transport, in plain or encrypted form.
pub fn upload_scheme(scheme: Result<String, String>) -> (r: Result<&'static str, BlobError>)
    ensures
        match upload_scheme_of(
            match scheme {
                Ok(s) => Ok(s@),
                Err(why) => Err(why@),
            },
        ) {
            Ok(s) => r is Ok && (r->Ok_0)@ == s,
            Err(why) => match r {
                Err(BlobError::Url(text)) => text@ == why,
                _ => false,
            },
        },
{
    match scheme {
        Err(why) => Err(BlobError::Url(why)),
        Ok(scheme) => {
            let s = scheme.as_str();
            if same(s, "ws") || same(s, "http") {
                Ok("http")
            } else if same(s, "wss") || same(s, "https") {
                Ok("https")
            } else {
                Err(BlobError::Url(concat("unsupported scheme ", s)))
            }
        },
    }
}

/// Uploads files to the service: its address and the token that admits to it.
#[derive(Debug)]
pub struct DaemonBlobClient {
    pub base_url: String,
    pub bearer: String,
}

/// Whether the service's address is short enough to be reduced to its root.
pub open spec fn address_fits(rpc_url: Seq<char>) -> bool {
    match upload_scheme_of(url_scheme_of(rpc_url)) {
        Ok(scheme) => root_fits(rpc_url, scheme),
        Err(_) => true,
    }
}

/// What comes of a client for the service at an address: the scheme becomes that of uploads, and
/// path, query and fragment are dropped.
pub open spec fn client_is(
    rpc_url: Seq<char>,
    bearer: Seq<char>,
    client: Result<DaemonBlobClient, BlobError>,
) -> bool {
    match upload_scheme_of(url_scheme_of(rpc_url)) {
        Err(why) => match client {
            Err(BlobError::Url(text)) => text@ == why,
            _ => false,
        },
        Ok(scheme) => match (root_of(rpc_url, scheme), client) {
            (Some(root), Ok(client)) => client.base_url@ == root && client.bearer@ == bearer,
            (None, Err(BlobError::Url(text))) => text@ == "scheme is not settable"@,
            _ => false,
        },
    }
}

impl DaemonBlobClient {
    /// A client for the service at the given address: its scheme becomes that of uploads, and
    /// path, query and fragment are dropped.
    pub fn new(rpc_url: &str, bearer: &str) -> (r: Result<DaemonBlobClient, BlobError>)
        requires
            address_fits(rpc_url@),
        ensures
            client_is(rpc_url@, bearer@, r),
    {
        let scheme = match upload_scheme(url_scheme(rpc_url)) {
            Ok(scheme) => scheme,
            Err(error) => {
                return Err(error);
            },
        };
        proof {
            reveal_strlit("http");
            reveal_strlit("https");
        }
        match url_root(rpc_url, scheme) {
            Some(base_url) => Ok(DaemonBlobClient { base_url, bearer: bearer.to_owned() }),
            None => Err(BlobError::Url("scheme is not settable".to_owned())),
        }
    }

    /// A client for the service at the given address; nothing where the address is too long to be
    /// reduced to its root.
    pub fn for_address(rpc_url: &str, bearer: &str) -> (r: Option<
        Result<DaemonBlobClient, BlobError>,
    >)
        ensures
            r is Some <==> address_fits(rpc_url@),
            r is Some ==> client_is(rpc_url@, bearer@, r->0),
    {
        proof {
            reveal_strlit("http");
            reveal_strlit("https");
        }
        let fits: bool = match upload_scheme(url_scheme(rpc_url)) {
            Ok(scheme) => url_root_fits(rpc_url, scheme),
            Err(_) => true,
        };
        if fits {
            Some(DaemonBlobClient::new(rpc_url, bearer))
        } else {
            None
        }
    }

    /// The address for an upload.
    pub fn upload_url(&self, kind: BlobKind) -> (r: Result<String, BlobError>)
        ensures
            match (url_joined(self.base_url@, kind.path_of()), r) {
                (Ok(url), Ok(text)) => text@ == url,
                (Err(why), Err(BlobError::Url(text))) => text@ == why,
                _ => false,
            },
    {
        match url_join(self.base_url.as_str(), kind.path()) {
            Ok(url) => Ok(url),
            Err(why) => Err(BlobError::Url(why)),
        }
    }
}

/// What an answer to an upload says: the upload's identifier, where the service accepted it and
/// names one.
pub fn upload_reply(status: u16, blob_id: Option<String>) -> (r: Result<String, BlobError>)
    ensures
        if !(200 <= status < 300) {
            r == Err::<String, BlobError>(BlobError::Status(status))
        } else {
            match (blob_id, r) {
                (Some(id), Ok(text)) => id@.len() > 0 && text == id,
                (Some(id), Err(BlobError::Decode)) => id@.len() == 0,
                (None, Err(BlobError::Decode)) => true,
                _ => false,
            }
        },
{
    if !(200 <= status && status < 300) {
        return Err(BlobError::Status(status));
    }
    match blob_id {
        Some(id) => if id.as_str().is_empty() {
            Err(BlobError::Decode)
        } else {
            Ok(id)
        },
        None => Err(BlobError::Decode),
    }
}

/// A captured request becomes a task with everything that was captured: link, name, folder,
/// cookies, referrer, headers, method, body and sound track.
pub proof fn law_captured_request_is_kept_whole(request: DownloadRequest, task: CreateTaskRequest)
    requires
        call_ensures(captured_create_request, (request,), task),
    ensures
        task.url@ == request.url@,
        task.file_name@ == request.filename@,
        task.save_dir@ == request.save_dir@,
        task.cookies@ == request.cookies@,
        task.referrer@ == request.referrer@,
        task.headers == request.headers,
        task.method == request.method,
        task.body == request.body,
        task.audio_url == request.audio_url,
        task.torrent_b64 is None,
        !task.start_paused,
        !task.ignore_tls_errors,
        !task.save_site_auth,
{
}

/// Cookies that were captured reach the task, whether it is made at once or after the user took it
/// with or without a form; a form changes them only where it gives others.
pub proof fn law_captured_cookies_reach_the_task(
    captured: DownloadRequest,
    form: CreateTaskRequest,
    without_form: CreateTaskRequest,
    with_form: CreateTaskRequest,
)
    requires
        made_from(captured, without_form),
        merged_from(captured, form, with_form),
    ensures
        without_form.cookies@ == captured.cookies@,
        trimmed(form.cookies@).len() == 0 ==> with_form.cookies@ == captured.cookies@,
        trimmed(form.cookies@).len() > 0 ==> with_form.cookies@ == form.cookies@,
{
}

/// Whether a form says nothing of its own: every field that can stand over what was captured is
/// blank.
pub open spec fn says_nothing(form: CreateTaskRequest) -> bool {
    &&& trimmed(form.file_name@).len() == 0
    &&& trimmed(form.save_dir@).len() == 0
    &&& trimmed(form.cookies@).len() == 0
    &&& trimmed(form.referrer@).len() == 0
    &&& trimmed(form.user_agent@).len() == 0
    &&& header_list(form.headers).len() == 0
}

/// Taking a request with a form in which every field is blank makes the task that taking it
/// without a form makes: link, name, folder, cookies, referrer, headers, method, body and sound
/// track are the same.
pub proof fn law_blank_form_changes_nothing(
    captured: DownloadRequest,
    form: CreateTaskRequest,
    without_form: CreateTaskRequest,
    with_form: CreateTaskRequest,
)
    requires
        call_ensures(captured_create_request, (captured,), without_form),
        call_ensures(merge_confirmed_request, (captured, form), with_form),
        says_nothing(form),
    ensures
        with_form.url@ == without_form.url@,
        with_form.file_name@ == without_form.file_name@,
        with_form.save_dir@ == without_form.save_dir@,
        with_form.cookies@ == without_form.cookies@,
        with_form.referrer@ == without_form.referrer@,
        header_views(header_list(with_form.headers)) == header_views(
            header_list(without_form.headers),
        ),
        with_form.method == without_form.method,
        with_form.body == without_form.body,
        with_form.audio_url == without_form.audio_url,
        with_form.torrent_b64 == without_form.torrent_b64,
{
    assert(header_views(header_list(form.headers)) =~= Seq::empty());
}

/// Where the form fills a field, the task has what the form says; link, method, body and sound
/// track stay the captured ones whatever it says, and what only the form can say is the form's.
pub proof fn law_form_stands_over_what_was_captured(
    captured: DownloadRequest,
    form: CreateTaskRequest,
    task: CreateTaskRequest,
)
    requires
        call_ensures(merge_confirmed_request, (captured, form), task),
    ensures
        trimmed(form.file_name@).len() > 0 ==> task.file_name@ == form.file_name@,
        trimmed(form.save_dir@).len() > 0 ==> task.save_dir@ == form.save_dir@,
        trimmed(form.cookies@).len() > 0 ==> task.cookies@ == form.cookies@,
        trimmed(form.referrer@).len() > 0 ==> task.referrer@ == form.referrer@,
        trimmed(form.file_name@).len() == 0 ==> task.file_name@ == captured.filename@,
        trimmed(form.save_dir@).len() == 0 ==> task.save_dir@ == captured.save_dir@,
        trimmed(form.cookies@).len() == 0 ==> task.cookies@ == captured.cookies@,
        trimmed(form.referrer@).len() == 0 ==> task.referrer@ == captured.referrer@,
        task.url@ == captured.url@,
        task.method == captured.method,
        task.body == captured.body,
        task.audio_url == captured.audio_url,
        task.torrent_b64 is None,
        task.segments == form.segments,
        task.queue_id@ == form.queue_id@,
        task.proxy_url@ == form.proxy_url@,
        task.user_agent@ == form.user_agent@,
        task.checksum@ == form.checksum@,
        task.ignore_tls_errors == form.ignore_tls_errors,
        task.start_paused == form.start_paused,
        task.http_user@ == form.http_user@,
        task.http_password@ == form.http_password@,
        task.save_site_auth == form.save_site_auth,
{
}

proof fn lemma_not_named(
    headers: Seq<(Seq<char>, Seq<char>)>,
    name: Seq<char>,
    h: (Seq<char>, Seq<char>),
)
    ensures
        without_name(headers, name).contains(h) ==> headers.contains(h) && !same_folded(h.0, name),
        headers.contains(h) && !same_folded(h.0, name) ==> without_name(headers, name).contains(h),
{
    lemma_without_name(headers, name, h);
}

/// A header that was captured reaches the task unless the form names it again, or names another
/// identification and it is the captured one; a header of the form reaches it unless a later one
/// of the form has its name.
pub proof fn law_headers_reach_the_task(
    captured: DownloadRequest,
    form: CreateTaskRequest,
    task: CreateTaskRequest,
    h: (Seq<char>, Seq<char>),
)
    requires
        call_ensures(merge_confirmed_request, (captured, form), task),
    ensures
        ({
            let was = header_views(header_list(captured.headers));
            let added = header_views(header_list(form.headers));
            header_views(header_list(task.headers)).contains(h) <==> {
                ||| was.contains(h) && !named_from(added, 0, h.0) && (trimmed(form.user_agent@).len()
                    == 0 || !same_folded(h.0, "user-agent"@))
                ||| exists|i: int|
                    0 <= i < added.len() && #[trigger] added[i] == h && !named_from(
                        added,
                        i + 1,
                        h.0,
                    )
            }
        }),
{
    let was = header_views(header_list(captured.headers));
    let added = header_views(header_list(form.headers));
    let kept = if trimmed(form.user_agent@).len() > 0 {
        without_name(was, "user-agent"@)
    } else {
        was
    };
    lemma_not_named(was, "user-agent"@, h);
    law_form_headers_win(kept, added, h);
}

/// A request that is captured without asking is made into a task at once, with the captured cookies
/// and everything else that was captured; nothing waits for it.
pub proof fn law_silent_capture_becomes_a_task(
    service: &mut CaptureService,
    request: DownloadRequest,
    id: String,
    now: i64,
    r: Result<Submitted, CaptureError>,
)
    requires
        call_ensures(CaptureService::submit, (service, request, true, id, now), r),
    ensures
        match r {
            Ok(Submitted::Create(task)) => {
                &&& task.request.url@ == request.url@
                &&& task.request.file_name@ == request.filename@
                &&& task.request.save_dir@ == request.save_dir@
                &&& task.request.cookies@ == request.cookies@
                &&& task.request.referrer@ == request.referrer@
                &&& task.request.headers == request.headers
                &&& task.request.method == request.method
                &&& task.request.body == request.body
                &&& task.request.audio_url == request.audio_url
                &&& task.unattended
                &&& task.torrent_blob_id is None
            },
            _ => false,
        },
        final(service).pending@ == old(service).pending@,
{
}

/// A request that is to be asked about waits last, and is seen by the identifier it got; taking it
/// without a form makes a task with everything that was captured, its cookies among it, and then it
/// waits no longer.
pub proof fn law_accepted_capture_becomes_a_task(
    ask: &mut CaptureService,
    answer: &mut CaptureService,
    request: DownloadRequest,
    id: String,
    key: &str,
    now: i64,
    asked: Result<Submitted, CaptureError>,
    answered: Result<Resolved, CaptureError>,
)
    requires
        old(ask).pending@.len() == 0,
        key@ == id@,
        call_ensures(CaptureService::submit, (ask, request, false, id, now), asked),
        *old(answer) == *final(ask),
        call_ensures(CaptureService::resolve, (answer, key, true, None), answered),
    ensures
        match asked {
            Ok(Submitted::Queued { transaction_id, first }) => transaction_id@ == id@ && first,
            _ => false,
        },
        match answered {
            Ok(Resolved::Create(task)) => {
                &&& task.request.url@ == request.url@
                &&& task.request.file_name@ == request.filename@
                &&& task.request.save_dir@ == request.save_dir@
                &&& task.request.cookies@ == request.cookies@
                &&& task.request.referrer@ == request.referrer@
                &&& task.request.headers == request.headers
                &&& task.request.method == request.method
                &&& task.request.body == request.body
                &&& !task.unattended
            },
            _ => false,
        },
        final(answer).pending@.len() == 0,
{
    let pending = final(ask).pending@;
    assert(pending.len() == 1);
    assert(pending[0] == pending.last());
    assert(pending[0].public.transaction_id@ == id@);
    assert(waiting_index(pending, key@) == 0);
}

/// Turning a request down makes no task; answering one that does not wait is an error and changes
/// nothing.
pub proof fn law_rejected_capture_makes_no_task(
    service: &mut CaptureService,
    key: &str,
    form: Option<CreateTaskRequest>,
    r: Result<Resolved, CaptureError>,
)
    requires
        call_ensures(CaptureService::resolve, (service, key, false, form), r),
    ensures
        waiting_ids(old(service).pending@).contains(key@) ==> r matches Ok(Resolved::Rejected),
        waiting_ids(old(service).pending@).contains(key@) ==> final(service).pending@.len() + 1
            == old(service).pending@.len(),
        !waiting_ids(old(service).pending@).contains(key@) ==> r matches Err(CaptureError::NotFound),
        !waiting_ids(old(service).pending@).contains(key@) ==> final(service).pending@ == old(
            service).pending@,
{
    lemma_waiting_index(old(service).pending@, key@);
}

/// The list shows what waits, each by what the interface may see of it, in the order it came.
pub proof fn law_list_shows_what_waits(
    service: &mut CaptureService,
    request: DownloadRequest,
    id: String,
    now: i64,
    r: Result<Submitted, CaptureError>,
    list: Vec<PendingCaptureDto>,
)
    requires
        old(service).pending@.len() < CAPTURE_CAPACITY,
        call_ensures(CaptureService::submit, (service, request, false, id, now), r),
        call_ensures(CaptureService::list, (&*final(service),), list),
    ensures
        list@.len() == old(service).pending@.len() + 1,
        list@.last().transaction_id@ == id@,
        list@.last().url@ == request.url@,
        list@.last().file_name@ == request.filename@,
        list@.last().referrer@ == request.referrer@,
        list@.last().save_dir@ == request.save_dir@,
        list@.last().created_at_unix_ms == now,
{
    let n = list@.len() - 1;
    assert(dto_same(list@[n], final(service).pending@[n].public));
}

/// A full queue takes no more, and says so.
pub proof fn law_full_queue_takes_no_more(
    service: &mut CaptureService,
    request: DownloadRequest,
    id: String,
    now: i64,
    r: Result<Submitted, CaptureError>,
)
    requires
        old(service).pending@.len() == CAPTURE_CAPACITY,
        call_ensures(CaptureService::submit, (service, request, false, id, now), r),
    ensures
        r matches Err(CaptureError::Full),
        final(service).pending@ == old(service).pending@,
{
}

/// The summary says whether there are cookies: where the request has some, or a header with some in
/// it, in whatever case it is named; and never less than nothing for the size.
pub proof fn law_summary_says_what_there_is(
    request: &DownloadRequest,
    id: String,
    now: i64,
    size: i64,
    summary: PendingCaptureDto,
)
    requires
        call_ensures(pending_capture_dto, (request, id, now), summary),
    ensures
        trimmed(request.cookies@).len() > 0 ==> summary.has_cookies,
        (exists|i: int|
            0 <= i < header_list(request.headers).len() && same_folded(
                (#[trigger] header_list(request.headers)[i]).0@,
                "cookie"@,
            ) && trimmed(header_list(request.headers)[i].1@).len() > 0) ==> summary.has_cookies,
        trimmed(request.cookies@).len() == 0 && header_list(request.headers).len() == 0
            ==> !summary.has_cookies,
        request.file_size == Some(size) && size >= 0 ==> summary.file_size == size,
        request.file_size == Some(size) && size < 0 ==> summary.file_size == 0,
        request.file_size is None ==> summary.file_size == 0,
        summary.header_names@.len() <= header_list(request.headers).len(),
{
    let headers = header_list(request.headers);
    if exists|i: int|
        0 <= i < headers.len() && same_folded((#[trigger] headers[i]).0@, "cookie"@) && trimmed(
            headers[i].1@,
        ).len() > 0 {
        let i = choose|i: int|
            0 <= i < headers.len() && same_folded((#[trigger] headers[i]).0@, "cookie"@) && trimmed(
                headers[i].1@,
            ).len() > 0;
        assert(is_cookie(headers[i].0@));
        assert(cookie_header(headers));
    }
    lemma_shown_at_most(headers);
    assert(texts(summary.header_names@).len() == summary.header_names@.len());
}

proof fn lemma_shown_at_most(headers: Seq<(String, String)>)
    ensures
        shown_names(headers).len() <= headers.len(),
    decreases headers.len(),
{
    if headers.len() > 0 {
        lemma_shown_at_most(headers.drop_last());
    }
}

/// A torrent that was uploaded becomes a task with its upload and all that was captured.
pub proof fn law_uploaded_torrent_becomes_a_task(
    service: &CaptureService,
    request: DownloadRequest,
    blob: String,
    unattended: bool,
    task: CreateTask,
)
    requires
        call_ensures(CaptureService::create_torrent, (service, request, blob, unattended), task),
    ensures
        task.torrent_blob_id matches Some(id) && id@ == blob@,
        task.unattended == unattended,
        task.request.url@ == request.url@,
        task.request.cookies@ == request.cookies@,
        task.request.save_dir@ == request.save_dir@,
        task.request.file_name@ == request.filename@,
{
}

/// An upload succeeded exactly where the service answered well and named it; else the answer says
/// what was wrong.
pub proof fn law_upload_succeeds_with_its_name(
    status: u16,
    blob_id: Option<String>,
    r: Result<String, BlobError>,
)
    requires
        call_ensures(upload_reply, (status, blob_id), r),
    ensures
        r is Ok <==> 200 <= status < 300 && blob_id is Some && (blob_id->0)@.len() > 0,
        r matches Ok(id) ==> id@ == (blob_id->0)@,
        status < 200 || status >= 300 ==> r == Err::<String, BlobError>(BlobError::Status(status)),
        200 <= status < 300 && r is Err ==> r == Err::<String, BlobError>(BlobError::Decode),
{
}

/// Uploads go the way that the service's own address goes: over the plain or the safe web, whichever
/// it is; other ways are refused by name.
pub proof fn law_uploads_go_the_same_way(
    scheme: String,
    r: Result<&'static str, BlobError>,
)
    requires
        call_ensures(upload_scheme, (Ok(scheme),), r),
    ensures
        scheme@ == "ws"@ || scheme@ == "http"@ ==> r is Ok && r->Ok_0@ == "http"@,
        scheme@ == "wss"@ || scheme@ == "https"@ ==> r is Ok && r->Ok_0@ == "https"@,
        scheme@ != "ws"@ && scheme@ != "http"@ && scheme@ != "wss"@ && scheme@ != "https"@
            ==> match r {
            Err(BlobError::Url(why)) => why@ == "unsupported scheme "@ + scheme@,
            _ => false,
        },
{
    reveal_strlit("ws");
    reveal_strlit("wss");
    reveal_strlit("http");
    reveal_strlit("https");
    assert("ws"@.len() == 2 && "wss"@.len() == 3 && "http"@.len() == 4 && "https"@.len() == 5);
}

/// Torrents and plugins are uploaded each to its own place.
pub proof fn law_uploads_go_to_their_place(torrent: &str, plugin: &str)
    requires
        call_ensures(BlobKind::path, (BlobKind::Torrent,), torrent),
        call_ensures(BlobKind::path, (BlobKind::Plugin,), plugin),
    ensures
        torrent@ == "/blobs/torrents"@,
        plugin@ == "/blobs/plugins"@,
{
}

/// A blank text is filled in, and another stays.
pub proof fn law_only_blank_fields_are_filled_in(target: &mut String, fallback: String)
    requires
        call_ensures(fill_if_blank, (target, fallback), ()),
    ensures
        trimmed(old(target)@).len() == 0 ==> final(target)@ == fallback@,
        trimmed(old(target)@).len() > 0 ==> final(target)@ == old(target)@,
{
}

/// The errors say what went wrong.
pub proof fn law_capture_errors_say_why(why: String, full: String, gone: String, daemon: String)
    requires
        call_ensures(CaptureError::message, (&CaptureError::Full,), full),
        call_ensures(CaptureError::message, (&CaptureError::NotFound,), gone),
        call_ensures(CaptureError::message, (&CaptureError::Daemon(why),), daemon),
    ensures
        full@ == "capture confirmation queue is full"@,
        gone@ == "capture transaction not found"@,
        daemon@ == "daemon capture create failed: "@ + why@,
{
}

/// The time is given in milliseconds, as far as they can be counted; none where there is no time.
pub proof fn law_time_is_counted_as_far_as_it_goes(ms: u128, some: i64, none: i64)
    requires
        call_ensures(unix_ms_of, (Some(ms),), some),
        call_ensures(unix_ms_of, (None,), none),
    ensures
        ms <= 9_223_372_036_854_775_807 ==> some == ms,
        ms > 9_223_372_036_854_775_807 ==> some == 9_223_372_036_854_775_807,
        none == 0,
{
}

/// A summary says that there is an authorization header exactly where it names one, in whatever case.
pub proof fn law_authorization_is_said(summary: &PendingCaptureDto, said: bool)
    requires
        call_ensures(PendingCaptureDto::has_authorization, (summary,), said),
    ensures
        said <==> exists|k: int|
            0 <= k < summary.header_names@.len() && same_folded(
                (#[trigger] summary.header_names@[k])@,
                "authorization"@,
            ),
{
}

/// A request that is captured now waits under an identifier of its own, with all that was captured.
pub proof fn law_captured_now_waits_under_its_identifier(
    service: &mut CaptureService,
    request: DownloadRequest,
    r: Result<Submitted, CaptureError>,
)
    requires
        old(service).pending@.len() < CAPTURE_CAPACITY,
        call_ensures(CaptureService::submit_now, (service, request, false), r),
    ensures
        final(service).pending@.len() == old(service).pending@.len() + 1,
        final(service).pending@.last().request == request,
        match r {
            Ok(Submitted::Queued { transaction_id, first }) => {
                &&& transaction_id@.len() == 36
                &&& final(service).pending@.last().public.transaction_id@ == transaction_id@
                &&& final(service).pending@.last().public.url@ == request.url@
                &&& first <==> old(service).pending@.len() == 0
            },
            _ => false,
        },
{
}

/// A request that is captured now without asking becomes a task at once, with its cookies.
pub proof fn law_captured_now_silently_becomes_a_task(
    service: &mut CaptureService,
    request: DownloadRequest,
    r: Result<Submitted, CaptureError>,
)
    requires
        call_ensures(CaptureService::submit_now, (service, request, true), r),
    ensures
        match r {
            Ok(Submitted::Create(task)) => task.request.cookies@ == request.cookies@
                && task.request.url@ == request.url@ && task.unattended,
            _ => false,
        },
        final(service).pending@ == old(service).pending@,
{
}

/// Torrents and plugins go each to its own place under the service's root, with the bearer that was
/// given.
pub proof fn law_uploads_go_under_the_root(
    client: &DaemonBlobClient,
    torrent: Result<String, BlobError>,
    plugin: Result<String, BlobError>,
)
    requires
        call_ensures(DaemonBlobClient::upload_url, (client, BlobKind::Torrent), torrent),
        call_ensures(DaemonBlobClient::upload_url, (client, BlobKind::Plugin), plugin),
    ensures
        url_joined(client.base_url@, "/blobs/torrents"@) matches Ok(url) ==> torrent matches Ok(text)
            && text@ == url,
        url_joined(client.base_url@, "/blobs/plugins"@) matches Ok(url) ==> plugin matches Ok(text)
            && text@ == url,
        url_joined(client.base_url@, "/blobs/torrents"@) is Err ==> torrent is Err,
{
}

/// A client keeps the bearer it was given, and none is made for an address of another sort.
pub proof fn law_client_keeps_its_bearer(
    rpc_url: &str,
    bearer: &str,
    made: Option<Result<DaemonBlobClient, BlobError>>,
)
    requires
        call_ensures(DaemonBlobClient::for_address, (rpc_url, bearer), made),
        made is Some,
    ensures
        made->0 matches Ok(client) ==> client.bearer@ == bearer@,
        made->0 is Ok ==> url_scheme_of(rpc_url@) == Ok::<Seq<char>, Seq<char>>("ws"@)
            || url_scheme_of(rpc_url@) == Ok::<Seq<char>, Seq<char>>("wss"@) || url_scheme_of(
            rpc_url@,
        ) == Ok::<Seq<char>, Seq<char>>("http"@) || url_scheme_of(rpc_url@) == Ok::<
            Seq<char>,
            Seq<char>,
        >("https"@),
{
}

} // verus!
