//! The deciding half of the DefectDojo client: the URLs it requests, the
//! query it sends, how it follows pages, and how it shortens error bodies.
//! Sending the requests is left to the caller.
use vstd::prelude::*;
use crate::config::{FilterValue, is_scalar};
use crate::error::AppError;
use crate::text::{decimal, push_decimal};
use crate::weburl::{
    WebUrl, WebUrlView, append_query_pairs, join_url, pairs_view, parse_url, url_join_result,
    url_parse_result, url_with_query, UrlError,
};

verus! {

// ---------------------------------------------------------------------------
// Filter values and the findings query
// ---------------------------------------------------------------------------

/// The decimal representation of a signed number, as `Display` writes it.
pub open spec fn signed_decimal(n: i64) -> Seq<char> {
    if n < 0 {
        "-"@ + decimal((-(n as int)) as nat)
    } else {
        decimal(n as nat)
    }
}

/// The text sent for a scalar filter value.
pub open spec fn scalar_text(v: FilterValue) -> Seq<char> {
    match v {
        FilterValue::String(s) => s@,
        FilterValue::Integer(n) => signed_decimal(n),
        FilterValue::Float(t) => t@,
        FilterValue::Boolean(b) => if b {
            "true"@
        } else {
            "false"@
        },
        _ => Seq::empty(),
    }
}

/// The query values of a filter: one for a scalar, one per element for an
/// array of scalars, none (an error) otherwise.
pub open spec fn spec_filter_values(v: FilterValue) -> Option<Seq<Seq<char>>> {
    match v {
        FilterValue::Array(values) => if forall|i: int|
            0 <= i < values@.len() ==> is_scalar(#[trigger] values@[i]) {
            Some(values@.map_values(|x: FilterValue| scalar_text(x)))
        } else {
            None
        },
        _ => if is_scalar(v) {
            Some(seq![scalar_text(v)])
        } else {
            None
        },
    }
}

fn signed_to_text(n: i64) -> (s: String)
    ensures
        s@ == signed_decimal(n),
{
    if n < 0 {
        let mut s = String::from_str("-");
        let magnitude: u64 = if n == i64::MIN {
            9223372036854775808u64
        } else {
            (-n) as u64
        };
        push_decimal(&mut s, magnitude);
        s
    } else {
        crate::text::u64_to_text(n as u64)
    }
}

fn scalar_to_text(v: &FilterValue) -> (s: String)
    requires
        is_scalar(*v),
    ensures
        s@ == scalar_text(*v),
{
    match v {
        FilterValue::String(s) => s.clone(),
        FilterValue::Integer(n) => signed_to_text(*n),
        FilterValue::Float(t) => t.clone(),
        FilterValue::Boolean(b) => if *b {
            String::from_str("true")
        } else {
            String::from_str("false")
        },
        _ => String::new(),
    }
}

/// The query values of a filter; tables, date-times and nested arrays are refused.
pub fn serialize_filter_value(value: &FilterValue) -> (r: Result<Vec<String>, AppError>)
    ensures
        match spec_filter_values(*value) {
            Some(vs) => r matches Ok(out) && out@.map_values(|s: String| s@) == vs,
            None => r matches Err(AppError::UnsupportedFilterValue),
        },
{
    match value {
        FilterValue::Array(values) => {
            let mut out: Vec<String> = Vec::new();
            let mut i: usize = 0;
            while i < values.len()
                invariant
                    *value == FilterValue::Array(*values),
                    i <= values@.len(),
                    forall|j: int| 0 <= j < i ==> is_scalar(#[trigger] values@[j]),
                    out@.map_values(|s: String| s@) == values@.take(i as int).map_values(
                        |x: FilterValue| scalar_text(x),
                    ),
                decreases values.len() - i,
            {
                if !crate::config::value_is_scalar(&values[i]) {
                    return Err(AppError::UnsupportedFilterValue);
                }
                let ghost before = out@.map_values(|s: String| s@);
                let t = scalar_to_text(&values[i]);
                let ghost tv = t@;
                out.push(t);
                assert(out@.map_values(|s: String| s@) =~= before.push(tv));
                assert(values@.take(i + 1) =~= values@.take(i as int).push(values@[i as int]));
                assert(values@.take(i as int).push(values@[i as int]).map_values(
                    |x: FilterValue| scalar_text(x),
                ) =~= values@.take(i as int).map_values(|x: FilterValue| scalar_text(x)).push(
                    scalar_text(values@[i as int]),
                ));
                assert(out@.map_values(|s: String| s@) =~= values@.take(i + 1).map_values(
                    |x: FilterValue| scalar_text(x),
                ));
                i = i + 1;
            }
            assert(values@.take(values@.len() as int) =~= values@);
            Ok(out)
        },
        _ => {
            if crate::config::value_is_scalar(value) {
                let mut out: Vec<String> = Vec::new();
                out.push(scalar_to_text(value));
                assert(out@.map_values(|s: String| s@) =~= seq![scalar_text(*value)]);
                Ok(out)
            } else {
                Err(AppError::UnsupportedFilterValue)
            }
        },
    }
}

/// The query pairs of the filters, in order, or `None` when a filter value
/// cannot be sent.
pub open spec fn spec_filter_pairs(fs: Seq<(String, FilterValue)>) -> Option<
    Seq<(Seq<char>, Seq<char>)>,
>
    decreases fs.len(),
{
    if fs.len() == 0 {
        Some(Seq::empty())
    } else {
        match (spec_filter_pairs(fs.drop_last()), spec_filter_values(fs.last().1)) {
            (Some(before), Some(values)) => Some(
                before + values.map_values(|v: Seq<char>| (fs.last().0@, v)),
            ),
            _ => None,
        }
    }
}

/// The query of the findings listing: the product, the page size, then the
/// configured filters in order.
pub open spec fn spec_findings_query(
    product_id: u64,
    page_size: usize,
    fs: Seq<(String, FilterValue)>,
) -> Option<Seq<(Seq<char>, Seq<char>)>> {
    match spec_filter_pairs(fs) {
        Some(pairs) => Some(
            seq![
                ("test__engagement__product"@, decimal(product_id as nat)),
                ("limit"@, decimal(page_size as nat)),
            ] + pairs,
        ),
        None => None,
    }
}

/// The findings listing asks for the findings of the given product, a page of
/// the given size at a time: the query starts with
/// `test__engagement__product=<product>` and `limit=<page size>`, before any
/// configured filter.
pub proof fn law_findings_query_names_product(
    product_id: u64,
    page_size: usize,
    fs: Seq<(String, FilterValue)>,
)
    ensures
        spec_findings_query(product_id, page_size, fs) matches Some(q) ==> {
            &&& q.len() >= 2
            &&& q[0] == ("test__engagement__product"@, decimal(product_id as nat))
            &&& q[1] == ("limit"@, decimal(page_size as nat))
            &&& q.contains(("test__engagement__product"@, decimal(product_id as nat)))
        },
{
    if let Some(q) = spec_findings_query(product_id, page_size, fs) {
        assert(q[0] == ("test__engagement__product"@, decimal(product_id as nat)));
    }
}

proof fn lemma_filter_pairs_none(fs: Seq<(String, FilterValue)>, k: int)
    requires
        0 <= k <= fs.len(),
        spec_filter_pairs(fs.take(k)) is None,
    ensures
        spec_filter_pairs(fs) is None,
    decreases fs.len() - k,
{
    if k < fs.len() {
        assert(fs.take(k + 1).drop_last() =~= fs.take(k));
        lemma_filter_pairs_none(fs, k + 1);
    } else {
        assert(fs.take(k) =~= fs);
    }
}

/// The query pairs of the findings listing.
pub fn finding_query_pairs(
    product_id: u64,
    page_size: usize,
    filters: &Vec<(String, FilterValue)>,
) -> (r: Result<Vec<(String, String)>, AppError>)
    ensures
        match spec_findings_query(product_id, page_size, filters@) {
            Some(q) => r matches Ok(pairs) && pairs_view(pairs@) == q,
            None => r matches Err(AppError::UnsupportedFilterValue),
        },
        r matches Ok(pairs) ==> pairs_view(pairs@).len() >= 2 && pairs_view(pairs@)[0] == (
        "test__engagement__product"@, decimal(product_id as nat)) && pairs_view(pairs@)[1] == (
        "limit"@, decimal(page_size as nat)),
{
    proof {
        law_findings_query_names_product(product_id, page_size, filters@);
    }
    let mut pairs: Vec<(String, String)> = Vec::new();
    pairs.push((String::from_str("test__engagement__product"), crate::text::u64_to_text(product_id)));
    pairs.push((String::from_str("limit"), crate::text::u64_to_text(page_size as u64)));
    let ghost head = pairs_view(pairs@);
    assert(head =~= seq![
        ("test__engagement__product"@, decimal(product_id as nat)),
        ("limit"@, decimal(page_size as nat)),
    ]);
    let mut k: usize = 0;
    assert(filters@.take(0) =~= Seq::<(String, FilterValue)>::empty());
    assert(pairs_view(pairs@) =~= head + Seq::<(Seq<char>, Seq<char>)>::empty());
    while k < filters.len()
        invariant
            k <= filters@.len(),
            spec_filter_pairs(filters@.take(k as int)) is Some,
            pairs_view(pairs@) == head + spec_filter_pairs(filters@.take(k as int))->0,
        decreases filters.len() - k,
    {
        let name = &filters[k].0;
        let values = serialize_filter_value(&filters[k].1);
        proof {
            assert(filters@.take(k + 1).drop_last() =~= filters@.take(k as int));
            assert(filters@.take(k + 1).last() == filters@[k as int]);
        }
        match values {
            Err(e) => {
                proof {
                    lemma_filter_pairs_none(filters@, k + 1);
                }
                return Err(e);
            },
            Ok(values) => {
                let ghost before = pairs_view(pairs@);
                let ghost vs = values@.map_values(|s: String| s@);
                let mut j: usize = 0;
                while j < values.len()
                    invariant
                        j <= values@.len(),
                        vs == values@.map_values(|s: String| s@),
                        pairs_view(pairs@) == before + vs.take(j as int).map_values(
                            |v: Seq<char>| (name@, v),
                        ),
                    decreases values.len() - j,
                {
                    let ghost old_pairs = pairs@;
                    pairs.push((name.clone(), values[j].clone()));
                    assert(pairs_view(pairs@) =~= pairs_view(old_pairs).push((name@, values@[j as int]@)));
                    assert(vs[j as int] == values@[j as int]@);
                    assert(vs.take(j + 1) =~= vs.take(j as int).push(vs[j as int]));
                    assert(vs.take(j + 1).map_values(|v: Seq<char>| (name@, v)) =~= vs.take(
                        j as int,
                    ).map_values(|v: Seq<char>| (name@, v)).push((name@, vs[j as int])));
                    assert(pairs_view(pairs@) =~= before + vs.take(j + 1).map_values(
                        |v: Seq<char>| (name@, v),
                    ));
                    j = j + 1;
                }
                assert(vs.take(values@.len() as int) =~= vs);
                assert(head + spec_filter_pairs(filters@.take(k + 1))->0 =~= before + vs.map_values(
                    |v: Seq<char>| (name@, v),
                ));
            },
        }
        k = k + 1;
    }
    assert(filters@.take(filters@.len() as int) =~= filters@);
    Ok(pairs)
}

// ---------------------------------------------------------------------------
// Endpoints
// ---------------------------------------------------------------------------

/// Joins an API path to the base URL.
pub fn endpoint(base_url: &WebUrl, relative_path: &str) -> (r: Result<WebUrl, AppError>)
    ensures
        match url_join_result(base_url@, relative_path@) {
            Ok(u) => r matches Ok(v) && v@ == u,
            Err(e) => r matches Err(AppError::BuildApiUrl { path, source }) && path@
                == relative_path@ && source == e,
        },
{
    match join_url(base_url, relative_path) {
        Ok(u) => Ok(u),
        Err(e) => Err(AppError::BuildApiUrl { path: String::from_str(relative_path), source: e }),
    }
}

fn id_path(prefix: &str, id: u64, suffix: &str) -> (s: String)
    ensures
        s@ == prefix@ + decimal(id as nat) + suffix@,
{
    let mut s = String::from_str(prefix);
    push_decimal(&mut s, id);
    s.append(suffix);
    s
}

/// The path of a product.
pub open spec fn product_path(id: u64) -> Seq<char> {
    "api/v2/products/"@ + decimal(id as nat) + "/"@
}

/// The path of a finding.
pub open spec fn finding_path(id: u64) -> Seq<char> {
    "api/v2/findings/"@ + decimal(id as nat) + "/"@
}

/// The path of the notes of a finding.
pub open spec fn finding_notes_path(id: u64) -> Seq<char> {
    "api/v2/findings/"@ + decimal(id as nat) + "/notes/"@
}

/// The URL that `get_product` requests.
pub fn product_url(base_url: &WebUrl, product_id: u64) -> (r: Result<WebUrl, AppError>)
    ensures
        match url_join_result(base_url@, product_path(product_id)) {
            Ok(u) => r matches Ok(v) && v@ == u,
            Err(e) => r matches Err(AppError::BuildApiUrl { path, source }) && path@
                == product_path(product_id) && source == e,
        },
{
    let path = id_path("api/v2/products/", product_id, "/");
    endpoint(base_url, path.as_str())
}

/// The URL that `get_finding` and `patch_finding` request.
pub fn finding_url(base_url: &WebUrl, finding_id: u64) -> (r: Result<WebUrl, AppError>)
    ensures
        match url_join_result(base_url@, finding_path(finding_id)) {
            Ok(u) => r matches Ok(v) && v@ == u,
            Err(e) => r matches Err(AppError::BuildApiUrl { path, source }) && path@
                == finding_path(finding_id) && source == e,
        },
{
    let path = id_path("api/v2/findings/", finding_id, "/");
    endpoint(base_url, path.as_str())
}

/// The URL that `get_finding_notes` and `create_finding_note` request.
pub fn finding_notes_url(base_url: &WebUrl, finding_id: u64) -> (r: Result<WebUrl, AppError>)
    ensures
        match url_join_result(base_url@, finding_notes_path(finding_id)) {
            Ok(u) => r matches Ok(v) && v@ == u,
            Err(e) => r matches Err(AppError::BuildApiUrl { path, source }) && path@
                == finding_notes_path(finding_id) && source == e,
        },
{
    let path = id_path("api/v2/findings/", finding_id, "/notes/");
    endpoint(base_url, path.as_str())
}

/// The first page of the findings of a product, with the filters applied.
pub fn findings_list_url(
    base_url: &WebUrl,
    product_id: u64,
    page_size: usize,
    filters: &Vec<(String, FilterValue)>,
) -> (r: Result<WebUrl, AppError>)
    ensures
        match url_join_result(base_url@, "api/v2/findings/"@) {
            Ok(u) => match spec_findings_query(product_id, page_size, filters@) {
                Some(q) => r matches Ok(v) && v@ == url_with_query(u, q),
                None => r matches Err(AppError::UnsupportedFilterValue),
            },
            Err(e) => r matches Err(AppError::BuildApiUrl { path, source }) && path@
                == "api/v2/findings/"@ && source == e,
        },
{
    let url = endpoint(base_url, "api/v2/findings/")?;
    let pairs = finding_query_pairs(product_id, page_size, filters)?;
    Ok(append_query_pairs(&url, &pairs))
}

// ---------------------------------------------------------------------------
// Origins and pagination
// ---------------------------------------------------------------------------

/// Two URLs have the same scheme, host and port.
pub open spec fn same_origin(a: WebUrlView, b: WebUrlView) -> bool {
    a.scheme == b.scheme && a.host == b.host && a.port == b.port
}

fn same_opt_str(a: Option<&str>, b: Option<&str>) -> (r: bool)
    ensures
        r == (crate::dry_run::opt_str(a) == crate::dry_run::opt_str(b)),
{
    match a {
        Some(x) => match b {
            Some(y) => crate::text::same_str(x, y),
            None => false,
        },
        None => b.is_none(),
    }
}

/// Refuses a URL on another origin than the base URL.
pub fn ensure_same_origin(base_url: &WebUrl, url: &WebUrl) -> (r: Result<(), AppError>)
    ensures
        r is Ok <==> same_origin(*&url@, base_url@),
        r matches Err(e) ==> (e matches AppError::UnsafePaginationUrl { url: u } && u@ == url@.text),
{
    let same = crate::text::same_str(url.scheme(), base_url.scheme()) && same_opt_str(
        url.host_str(),
        base_url.host_str(),
    ) && url.port_or_known_default() == base_url.port_or_known_default();
    if same {
        Ok(())
    } else {
        Err(AppError::UnsafePaginationUrl { url: String::from_str(url.as_str()) })
    }
}

/// Where the next page is: an absolute URL as it is, a relative one resolved
/// against the current page.
pub open spec fn spec_next_page_url(current: WebUrlView, next: Seq<char>) -> Result<
    WebUrlView,
    UrlError,
> {
    match url_parse_result(next) {
        Ok(u) => Ok(u),
        Err(UrlError::RelativeUrlWithoutBase) => url_join_result(current, next),
        Err(e) => Err(e),
    }
}

/// Resolves the `next` link of a page.
pub fn parse_next_page_url(current_url: &WebUrl, next: &str) -> (r: Result<WebUrl, AppError>)
    ensures
        match spec_next_page_url(current_url@, next@) {
            Ok(u) => r matches Ok(v) && v@ == u,
            Err(e) => r matches Err(AppError::InvalidNextPageUrl { value, source }) && value@
                == next@ && source == e,
        },
{
    match parse_url(next) {
        Ok(u) => Ok(u),
        Err(UrlError::RelativeUrlWithoutBase) => match join_url(current_url, next) {
            Ok(u) => Ok(u),
            Err(e) => Err(AppError::InvalidNextPageUrl { value: String::from_str(next), source: e }),
        },
        Err(e) => Err(AppError::InvalidNextPageUrl { value: String::from_str(next), source: e }),
    }
}

/// The value of the `Authorization` header for an API token.
pub open spec fn authorization_text(token: Seq<char>) -> Seq<char> {
    "Token "@ + token
}

/// The value of the `Authorization` header that the client sends.
pub fn authorization_value(token: &crate::config::ApiToken) -> (s: String)
    ensures
        s@ == authorization_text(token@),
{
    let mut s = String::from_str("Token ");
    s.append(token.expose());
    s
}

/// At most this many characters of an error body are kept.
pub const MAX_BODY_CHARACTERS: usize = 2000;

/// An error body shortened to its first 2000 characters, with `…` when
/// something was cut.
pub open spec fn spec_truncate_body(body: Seq<char>) -> Seq<char> {
    if body.len() > 2000 {
        body.take(2000) + "…"@
    } else {
        body
    }
}

/// Shortens an error body for an error message.
pub fn truncate_body(body: &str) -> (s: String)
    ensures
        s@ == spec_truncate_body(body@),
{
    let chars = crate::text::chars_of(body);
    if chars.len() > MAX_BODY_CHARACTERS {
        let mut s = crate::text::text_from_chars(&chars, 0, MAX_BODY_CHARACTERS);
        s.append("…");
        s
    } else {
        let s = crate::text::text_from_chars(&chars, 0, chars.len());
        assert(chars@.subrange(0, chars@.len() as int) =~= chars@);
        s
    }
}

/// Told how far a paginated download has come.
pub trait PaginationObserver {
    fn page_loaded(&self, loaded_records: usize, total_records: usize);
}

/// What to do after a page has been loaded.
#[derive(Debug)]
pub enum PageStep {
    /// Load this page next.
    Next(WebUrl),
    /// All pages are loaded.
    Done,
}

/// The decisions of a paginated download: which pages may be requested,
/// when it is complete, and when it has gone wrong.
pub struct Pagination {
    base_url: WebUrl,
    max_pages: usize,
    visited: Vec<String>,
    expected_count: Option<usize>,
}

impl Pagination {
    /// The configured origin.
    pub closed spec fn base(&self) -> WebUrlView {
        self.base_url@
    }

    /// The most pages that may be requested.
    pub closed spec fn limit(&self) -> usize {
        self.max_pages
    }

    /// The URLs requested so far, in order.
    pub closed spec fn requested(&self) -> Seq<Seq<char>> {
        self.visited@.map_values(|s: String| s@)
    }

    /// The record count that the first page announced.
    pub closed spec fn expected(&self) -> Option<usize> {
        self.expected_count
    }

    /// At most the page limit was requested, each URL once.
    pub closed spec fn wf(&self) -> bool {
        &&& self.requested().len() <= self.max_pages
        &&& self.requested().no_duplicates()
    }

    /// A download from the given origin that may request at most `max_pages` pages.
    pub fn new(base_url: &WebUrl, max_pages: usize) -> (p: Pagination)
        ensures
            p.wf(),
            p.base() == base_url@,
            p.limit() == max_pages,
            p.requested().len() == 0,
            p.expected() is None,
    {
        let p = Pagination {
            base_url: base_url.copy(),
            max_pages,
            visited: Vec::new(),
            expected_count: None,
        };
        assert(p.requested() =~= Seq::<Seq<char>>::empty());
        p
    }

    fn was_requested(&self, text: &str) -> (r: bool)
        ensures
            r == self.requested().contains(text@),
    {
        let mut i: usize = 0;
        while i < self.visited.len()
            invariant
                i <= self.visited@.len(),
                forall|j: int| 0 <= j < i ==> #[trigger] self.visited@[j]@ != text@,
            decreases self.visited.len() - i,
        {
            if crate::text::same_str(self.visited[i].as_str(), text) {
                assert(self.requested()[i as int] == text@);
                return true;
            }
            i = i + 1;
        }
        assert forall|j: int| 0 <= j < self.requested().len() implies #[trigger] self.requested()[j]
            != text@ by {
            assert(self.requested()[j] == self.visited@[j]@);
        }
        false
    }

    /// Asks to request a page. Refused when the page limit is reached, when
    /// the URL is on another origin, or when it was requested before;
    /// otherwise the URL is recorded as requested.
    pub fn request(&mut self, url: &WebUrl) -> (r: Result<(), AppError>)
        requires
            old(self).wf(),
        ensures
            final(self).wf(),
            final(self).base() == old(self).base(),
            final(self).limit() == old(self).limit(),
            final(self).expected() == old(self).expected(),
            old(self).requested().len() >= old(self).limit() ==> (r matches Err(
                AppError::TooManyPages { maximum },
            ) && maximum == old(self).limit()),
            old(self).requested().len() < old(self).limit() && !same_origin(url@, old(self).base())
                ==> (r matches Err(AppError::UnsafePaginationUrl { url: u }) && u@ == url@.text),
            old(self).requested().len() < old(self).limit() && same_origin(url@, old(self).base())
                && old(self).requested().contains(url@.text) ==> (r matches Err(
                AppError::PaginationLoop { url: u },
            ) && u@ == url@.text),
            r is Ok <==> (old(self).requested().len() < old(self).limit() && same_origin(
                url@,
                old(self).base(),
            ) && !old(self).requested().contains(url@.text)),
            r is Ok ==> final(self).requested() == old(self).requested().push(url@.text),
            r is Err ==> final(self).requested() == old(self).requested(),
    {
        if self.visited.len() >= self.max_pages {
            return Err(AppError::TooManyPages { maximum: self.max_pages });
        }
        ensure_same_origin(&self.base_url, url)?;
        let canonical = url.as_str();
        if self.was_requested(canonical) {
            return Err(AppError::PaginationLoop { url: String::from_str(canonical) });
        }
        let ghost before = self.requested();
        self.visited.push(String::from_str(canonical));
        proof {
            assert(self.requested() =~= before.push(url@.text));
            assert forall|i: int, j: int|
                0 <= i < self.requested().len() && 0 <= j < self.requested().len() && i != j
                    implies self.requested()[i] != self.requested()[j] by {
                if i < before.len() && j < before.len() {
                } else if i == before.len() {
                    assert(before[j] == self.requested()[j]);
                } else {
                    assert(before[i] == self.requested()[i]);
                }
            }
        }
        Ok(())
    }

    /// The total shown to the observer: the announced count once known,
    /// otherwise the records loaded so far.
    pub fn display_total(&self, loaded_records: usize) -> (t: usize)
        ensures
            t == match self.expected() {
                Some(e) => e,
                None => loaded_records,
            },
    {
        match self.expected_count {
            Some(e) => e,
            None => loaded_records,
        }
    }

    /// Records that a page has been loaded: the first page announces the
    /// record count. Without a `next` link the download is complete, and the
    /// number of records must equal the announced count; with one, the next
    /// page is where it points, resolved against the current page.
    pub fn page_loaded(
        &mut self,
        current_url: &WebUrl,
        count: usize,
        loaded_records: usize,
        next: Option<String>,
    ) -> (r: Result<PageStep, AppError>)
        requires
            old(self).wf(),
        ensures
            final(self).wf(),
            final(self).base() == old(self).base(),
            final(self).limit() == old(self).limit(),
            final(self).requested() == old(self).requested(),
            final(self).expected() == match old(self).expected() {
                Some(e) => Some(e),
                None => Some(count),
            },
            next is None ==> (if loaded_records == final(self).expected()->0 {
                r matches Ok(PageStep::Done)
            } else {
                r matches Err(AppError::PaginationCountMismatch { expected, actual }) && expected
                    == final(self).expected()->0 && actual == loaded_records
            }),
            next matches Some(n) ==> match spec_next_page_url(current_url@, n@) {
                Ok(u) => r matches Ok(PageStep::Next(v)) && v@ == u,
                Err(e) => r matches Err(AppError::InvalidNextPageUrl { value, source }) && value@
                    == n@ && source == e,
            },
    {
        if self.expected_count.is_none() {
            self.expected_count = Some(count);
        }
        let expected = match self.expected_count {
            Some(e) => e,
            None => count,
        };
        match next {
            None => {
                if loaded_records != expected {
                    return Err(
                        AppError::PaginationCountMismatch { expected, actual: loaded_records },
                    );
                }
                Ok(PageStep::Done)
            },
            Some(n) => {
                let url = parse_next_page_url(current_url, n.as_str())?;
                Ok(PageStep::Next(url))
            },
        }
    }
}

/// A paginated download never requests more pages than its limit, and never
/// the same URL twice: this holds of every state that `new`, `request` and
/// `page_loaded` produce.
pub proof fn law_pagination_bounded(p: Pagination)
    requires
        p.wf(),
    ensures
        p.requested().len() <= p.limit(),
        forall|i: int, j: int|
            0 <= i < j < p.requested().len() ==> p.requested()[i] != p.requested()[j],
{
}

} // verus!
