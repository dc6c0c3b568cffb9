//! The configuration of a migration and its validation.
use vstd::prelude::*;

verus! {

/// A source filter value from the configuration file: a string, an integer,
/// a float (held as the text that `Display` gives it), a boolean, an array,
/// a table, or a date-time (held as its text).
#[derive(Debug)]
pub enum FilterValue {
    String(String),
    Integer(i64),
    Float(String),
    Boolean(bool),
    Array(Vec<FilterValue>),
    Table(Vec<(String, FilterValue)>),
    Datetime(String),
}

} // verus!

verus! {

/// The name of the environment variable that holds the DefectDojo URL.
pub const DOJO_URL_ENV: &'static str = "DOJO_URL";

/// The name of the environment variable that holds the API token.
pub const DOJO_API_TOKEN_ENV: &'static str = "DOJO_API_TOKEN";

/// The whole configuration file.
#[derive(Debug)]
pub struct AppConfig {
    pub source: SourceConfig,
    pub destination: DestinationConfig,
    pub matching: MatchingConfig,
    pub http: HttpConfig,
    pub output: OutputConfig,
}

/// The source product and the filters applied to its findings.
#[derive(Debug)]
pub struct SourceConfig {
    pub product_id: u64,
    /// The filters in ascending order of name.
    pub filters: Vec<(String, FilterValue)>,
}

/// The destination products.
#[derive(Debug, Clone)]
pub struct DestinationConfig {
    pub product_ids: Vec<u64>,
}

/// The matching policy switches.
#[derive(Debug, Clone)]
pub struct MatchingConfig {
    pub trim_title: bool,
    pub require_found_by: bool,
}

impl Default for MatchingConfig {
    fn default() -> (r: Self)
        ensures
            r.trim_title,
            r.require_found_by,
    {
        MatchingConfig { trim_title: true, require_found_by: true }
    }
}

/// Where plan files are written.
#[derive(Debug, Clone)]
pub struct OutputConfig {
    pub directory: String,
}

impl Default for OutputConfig {
    fn default() -> (r: Self)
        ensures
            r.directory@ == "output"@,
    {
        OutputConfig { directory: String::from_str("output") }
    }
}

/// HTTP client settings.
#[derive(Debug, Clone)]
pub struct HttpConfig {
    pub timeout_seconds: u64,
    pub page_size: usize,
    pub max_pages: usize,
    pub accept_invalid_certificates: bool,
}

impl Default for HttpConfig {
    fn default() -> (r: Self)
        ensures
            r.timeout_seconds == 30,
            r.page_size == 200,
            r.max_pages == 10_000,
            !r.accept_invalid_certificates,
    {
        HttpConfig {
            timeout_seconds: 30,
            page_size: 200,
            max_pages: 10_000,
            accept_invalid_certificates: false,
        }
    }
}

// ---------------------------------------------------------------------------
// Specification of validation
// ---------------------------------------------------------------------------

/// `source filter '<name>'`
pub open spec fn filter_label(name: Seq<char>) -> Seq<char> {
    "source filter '"@ + name + "'"@
}

pub open spec fn is_ascii_alphanumeric(c: char) -> bool {
    ('a' <= c && c <= 'z') || ('A' <= c && c <= 'Z') || ('0' <= c && c <= '9')
}

/// The names of filters that the application sets itself.
pub open spec fn is_managed_filter_name(name: Seq<char>) -> bool {
    name == "test__engagement__product"@ || name == "limit"@ || name == "offset"@
}

/// The problems with a filter name.
pub open spec fn filter_name_errors(name: Seq<char>) -> Seq<Seq<char>> {
    if name.len() == 0 {
        seq!["source filter name cannot be empty"@]
    } else if exists|i: int|
        0 <= i < name.len() && !(is_ascii_alphanumeric(#[trigger] name[i]) || name[i] == '_') {
        seq![
            filter_label(name)
                + " contains unsupported characters; only ASCII letters, digits and underscores are allowed"@,
        ]
    } else {
        seq![]
    }
}

/// A filter value that is a string, a number or a boolean.
pub open spec fn is_scalar(v: FilterValue) -> bool {
    match v {
        FilterValue::String(_) | FilterValue::Integer(_) | FilterValue::Float(_)
        | FilterValue::Boolean(_) => true,
        _ => false,
    }
}

/// The problems with a filter value.
pub open spec fn filter_value_errors(name: Seq<char>, v: FilterValue) -> Seq<Seq<char>> {
    match v {
        FilterValue::Array(values) => if values@.len() == 0 {
            seq![filter_label(name) + " cannot contain an empty array"@]
        } else if exists|i: int| 0 <= i < values@.len() && !is_scalar(#[trigger] values@[i]) {
            seq![filter_label(name) + " must contain only scalar array values"@]
        } else {
            seq![]
        },
        FilterValue::Table(_) | FilterValue::Datetime(_) => seq![
            filter_label(name)
                + " must be a string, number, boolean, or an array of scalar values"@,
        ],
        _ => seq![],
    }
}

/// The problems with one filter.
pub open spec fn filter_errors(name: Seq<char>, v: FilterValue) -> Seq<Seq<char>> {
    (if is_managed_filter_name(name) {
        seq![
            filter_label(name)
                + " is managed by the application and cannot be set in the configuration"@,
        ]
    } else {
        seq![]
    }) + filter_name_errors(name) + filter_value_errors(name, v)
}

/// The problems with the filters, in their order.
pub open spec fn filters_errors(fs: Seq<(String, FilterValue)>) -> Seq<Seq<char>>
    decreases fs.len(),
{
    if fs.len() == 0 {
        seq![]
    } else {
        filters_errors(fs.drop_last()) + filter_errors(fs.last().0@, fs.last().1)
    }
}

/// The problems with one destination id, given the ids before it.
pub open spec fn destination_id_errors(source_id: u64, id: u64, earlier: Seq<u64>) -> Seq<
    Seq<char>,
> {
    (if id == 0 {
        seq!["destination.product_ids cannot contain zero"@]
    } else {
        seq![]
    }) + (if id == source_id {
        seq![
            "source product "@ + crate::text::decimal(id as nat)
                + " cannot also be a destination product"@,
        ]
    } else {
        seq![]
    }) + (if earlier.contains(id) {
        seq![
            "destination product ID "@ + crate::text::decimal(id as nat)
                + " is specified more than once"@,
        ]
    } else {
        seq![]
    })
}

/// The problems with the destination ids, in their order.
pub open spec fn destinations_errors(source_id: u64, ids: Seq<u64>) -> Seq<Seq<char>>
    decreases ids.len(),
{
    if ids.len() == 0 {
        seq![]
    } else {
        destinations_errors(source_id, ids.drop_last()) + destination_id_errors(
            source_id,
            ids.last(),
            ids.drop_last(),
        )
    }
}

pub open spec fn when(b: bool, msg: Seq<char>) -> Seq<Seq<char>> {
    if b {
        seq![msg]
    } else {
        seq![]
    }
}

/// Every problem with a configuration, in the order in which they are reported.
pub open spec fn config_errors(c: AppConfig) -> Seq<Seq<char>> {
    when(c.source.product_id == 0, "source.product_id must be greater than zero"@) + when(
        c.destination.product_ids@.len() == 0,
        "destination.product_ids must contain at least one product ID"@,
    ) + destinations_errors(c.source.product_id, c.destination.product_ids@) + when(
        !c.matching.trim_title,
        "matching.trim_title must be true for the agreed matching policy"@,
    ) + when(
        !c.matching.require_found_by,
        "matching.require_found_by must be true for the agreed matching policy"@,
    ) + when(c.http.timeout_seconds == 0, "http.timeout_seconds must be greater than 0"@) + when(
        c.http.page_size == 0,
        "http.page_size must be greater than 0"@,
    ) + when(c.http.page_size > 1000, "http.page_size cannot be greater than 1000"@) + when(
        c.http.max_pages == 0,
        "http.max_pages must be greater than 0"@,
    ) + when(c.output.directory@.len() == 0, "output.directory cannot be empty"@)
        + filters_errors(c.source.filters@)
}

/// The list of problems as it is shown: one `  - problem` per line.
pub open spec fn format_errors(errors: Seq<Seq<char>>) -> Seq<char> {
    crate::text::join_text(errors.map_values(|e: Seq<char>| "  - "@ + e), "\n"@)
}

pub open spec fn texts(v: Seq<String>) -> Seq<Seq<char>> {
    v.map_values(|s: String| s@)
}

// ---------------------------------------------------------------------------
// Validation
// ---------------------------------------------------------------------------

fn push_text(errors: &mut Vec<String>, msg: String)
    ensures
        texts(final(errors)@) == texts(old(errors)@).push(msg@),
{
    let ghost before = texts(errors@);
    errors.push(msg);
    assert(texts(errors@) =~= before.push(msg@));
}

fn push_when(errors: &mut Vec<String>, b: bool, msg: &str)
    ensures
        texts(final(errors)@) == texts(old(errors)@) + when(b, msg@),
{
    if b {
        push_text(errors, String::from_str(msg));
        assert(texts(old(errors)@).push(msg@) =~= texts(old(errors)@) + seq![msg@]);
    } else {
        assert(texts(errors@) =~= texts(errors@) + Seq::<Seq<char>>::empty());
    }
}

fn filter_label_text(name: &str) -> (s: String)
    ensures
        s@ == filter_label(name@),
{
    let mut s = String::from_str("source filter '");
    s.append(name);
    s.append("'");
    s
}

fn is_valid_name_char(c: char) -> (r: bool)
    ensures
        r == (is_ascii_alphanumeric(c) || c == '_'),
{
    ('a' <= c && c <= 'z') || ('A' <= c && c <= 'Z') || ('0' <= c && c <= '9') || c == '_'
}

/// Reports a filter name that is empty or holds other characters than ASCII
/// letters, digits and underscores.
pub fn validate_filter_name(name: &str, errors: &mut Vec<String>)
    ensures
        texts(final(errors)@) == texts(old(errors)@) + filter_name_errors(name@),
{
    if name.is_empty() {
        let ghost before = texts(errors@);
        push_text(errors, String::from_str("source filter name cannot be empty"));
        assert(before.push("source filter name cannot be empty"@) =~= before + seq![
            "source filter name cannot be empty"@,
        ]);
        return;
    }
    let chars = crate::text::chars_of(name);
    let mut i: usize = 0;
    let mut valid = true;
    while i < chars.len()
        invariant
            chars@ == name@,
            i <= chars.len(),
            valid == forall|j: int| 0 <= j < i ==> (is_ascii_alphanumeric(#[trigger] chars@[j])
                || chars@[j] == '_'),
        decreases chars.len() - i,
    {
        if !is_valid_name_char(chars[i]) {
            valid = false;
        }
        i = i + 1;
    }
    if !valid {
        let mut msg = filter_label_text(name);
        msg.append(
            " contains unsupported characters; only ASCII letters, digits and underscores are allowed",
        );
        let ghost before = texts(errors@);
        let ghost m = msg@;
        push_text(errors, msg);
        assert(before.push(m) =~= before + seq![m]);
    } else {
        assert(texts(errors@) =~= texts(errors@) + Seq::<Seq<char>>::empty());
    }
}

pub fn value_is_scalar(v: &FilterValue) -> (r: bool)
    ensures
        r == is_scalar(*v),
{
    match v {
        FilterValue::String(_) | FilterValue::Integer(_) | FilterValue::Float(_)
        | FilterValue::Boolean(_) => true,
        _ => false,
    }
}

/// Reports a filter value that is not a scalar or a non-empty array of scalars.
pub fn validate_filter_value(name: &str, value: &FilterValue, errors: &mut Vec<String>)
    ensures
        texts(final(errors)@) == texts(old(errors)@) + filter_value_errors(name@, *value),
{
    let ghost before = texts(errors@);
    match value {
        FilterValue::Array(values) => {
            if values.len() == 0 {
                let mut msg = filter_label_text(name);
                msg.append(" cannot contain an empty array");
                let ghost m = msg@;
                push_text(errors, msg);
                assert(before.push(m) =~= before + seq![m]);
                return;
            }
            let mut i: usize = 0;
            while i < values.len()
                invariant
                    i <= values@.len(),
                    values@.len() > 0,
                    *value == FilterValue::Array(*values),
                    before == texts(old(errors)@),
                    texts(errors@) == before,
                    forall|j: int| 0 <= j < i ==> is_scalar(#[trigger] values@[j]),
                decreases values.len() - i,
            {
                if !value_is_scalar(&values[i]) {
                    let mut msg = filter_label_text(name);
                    msg.append(" must contain only scalar array values");
                    let ghost m = msg@;
                    push_text(errors, msg);
                    assert(before.push(m) =~= before + seq![m]);
                    return;
                }
                i = i + 1;
            }
            assert(texts(errors@) =~= before + Seq::<Seq<char>>::empty());
        },
        FilterValue::Table(_) | FilterValue::Datetime(_) => {
            let mut msg = filter_label_text(name);
            msg.append(" must be a string, number, boolean, or an array of scalar values");
            let ghost m = msg@;
            push_text(errors, msg);
            assert(before.push(m) =~= before + seq![m]);
        },
        _ => {
            assert(texts(errors@) =~= before + Seq::<Seq<char>>::empty());
        },
    }
}

fn is_managed_name(name: &str) -> (r: bool)
    ensures
        r == is_managed_filter_name(name@),
{
    crate::text::same_str(name, "test__engagement__product") || crate::text::same_str(name, "limit")
        || crate::text::same_str(name, "offset")
}

fn contains_id(ids: &Vec<u64>, n: usize, id: u64) -> (r: bool)
    requires
        n <= ids.len(),
    ensures
        r == ids@.take(n as int).contains(id),
{
    let mut i: usize = 0;
    while i < n
        invariant
            n <= ids.len(),
            i <= n,
            forall|j: int| 0 <= j < i ==> ids@[j] != id,
        decreases n - i,
    {
        if ids[i] == id {
            assert(ids@.take(n as int)[i as int] == id);
            return true;
        }
        i = i + 1;
    }
    false
}

/// The list of problems as it is shown: one `  - problem` per line.
pub fn format_validation_errors(errors: &Vec<String>) -> (s: String)
    ensures
        s@ == format_errors(texts(errors@)),
{
    let mut s = String::new();
    let mut i: usize = 0;
    while i < errors.len()
        invariant
            i <= errors.len(),
            s@ == format_errors(texts(errors@.take(i as int))),
        decreases errors.len() - i,
    {
        let ghost before = texts(errors@.take(i as int));
        if i > 0 {
            s.append("\n");
        }
        s.append("  - ");
        s.append(errors[i].as_str());
        proof {
            let item = "  - "@ + errors@[i as int]@;
            assert(texts(errors@.take(i + 1)) =~= before.push(errors@[i as int]@));
            assert(before.push(errors@[i as int]@).map_values(|e: Seq<char>| "  - "@ + e)
                =~= before.map_values(|e: Seq<char>| "  - "@ + e).push(item));
            crate::text::lemma_join_push(before.map_values(|e: Seq<char>| "  - "@ + e), "\n"@, item);
        }
        i = i + 1;
    }
    assert(errors@.take(errors.len() as int) =~= errors@);
    s
}

impl AppConfig {
    /// Checks the configuration; all problems are reported together, one per line.
    pub fn validate(&self) -> (r: Result<(), crate::error::AppError>)
        ensures
            r is Ok <==> config_errors(*self).len() == 0,
            r matches Err(e) ==> e matches crate::error::AppError::InvalidConfig(msg) && msg@
                == format_errors(config_errors(*self)),
    {
        let mut errors: Vec<String> = Vec::new();
        push_when(
            &mut errors,
            self.source.product_id == 0,
            "source.product_id must be greater than zero",
        );
        push_when(
            &mut errors,
            self.destination.product_ids.len() == 0,
            "destination.product_ids must contain at least one product ID",
        );
        let ghost head = texts(errors@);
        let ids = &self.destination.product_ids;
        let pid = self.source.product_id;
        let mut i: usize = 0;
        assert(ids@.take(0) =~= Seq::<u64>::empty());
        assert(texts(errors@) =~= head + destinations_errors(pid, ids@.take(0)));
        while i < ids.len()
            invariant
                i <= ids@.len(),
                pid == self.source.product_id,
                ids == &self.destination.product_ids,
                texts(errors@) == head + destinations_errors(pid, ids@.take(i as int)),
            decreases ids.len() - i,
        {
            let id = ids[i];
            let ghost before = texts(errors@);
            let ghost earlier = ids@.take(i as int);
            push_when(&mut errors, id == 0, "destination.product_ids cannot contain zero");
            if id == pid {
                let mut msg = String::from_str("source product ");
                crate::text::push_decimal(&mut msg, id);
                msg.append(" cannot also be a destination product");
                push_text(&mut errors, msg);
            }
            let ghost mid = texts(errors@);
            if contains_id(ids, i, id) {
                let mut msg = String::from_str("destination product ID ");
                crate::text::push_decimal(&mut msg, id);
                msg.append(" is specified more than once");
                push_text(&mut errors, msg);
            }
            proof {
                assert(ids@.take(i + 1).drop_last() =~= earlier);
                assert(ids@.take(i + 1).last() == id);
                let d = destination_id_errors(pid, id, earlier);
                assert(texts(errors@) =~= before + d);
                assert(head + destinations_errors(pid, earlier) + d =~= head + (
                destinations_errors(pid, earlier) + d));
            }
            i = i + 1;
        }
        assert(ids@.take(ids@.len() as int) =~= ids@);
        push_when(
            &mut errors,
            !self.matching.trim_title,
            "matching.trim_title must be true for the agreed matching policy",
        );
        push_when(
            &mut errors,
            !self.matching.require_found_by,
            "matching.require_found_by must be true for the agreed matching policy",
        );
        push_when(
            &mut errors,
            self.http.timeout_seconds == 0,
            "http.timeout_seconds must be greater than 0",
        );
        push_when(&mut errors, self.http.page_size == 0, "http.page_size must be greater than 0");
        push_when(
            &mut errors,
            self.http.page_size > 1000,
            "http.page_size cannot be greater than 1000",
        );
        push_when(&mut errors, self.http.max_pages == 0, "http.max_pages must be greater than 0");
        push_when(
            &mut errors,
            self.output.directory.as_str().is_empty(),
            "output.directory cannot be empty",
        );
        let ghost mid = texts(errors@);
        let filters = &self.source.filters;
        let mut k: usize = 0;
        assert(filters@.take(0) =~= Seq::<(String, FilterValue)>::empty());
        assert(texts(errors@) =~= mid + filters_errors(filters@.take(0)));
        while k < filters.len()
            invariant
                k <= filters@.len(),
                filters == &self.source.filters,
                texts(errors@) == mid + filters_errors(filters@.take(k as int)),
            decreases filters.len() - k,
        {
            let name = filters[k].0.as_str();
            let value = &filters[k].1;
            let ghost before = texts(errors@);
            if is_managed_name(name) {
                let mut msg = filter_label_text(name);
                msg.append(" is managed by the application and cannot be set in the configuration");
                push_text(&mut errors, msg);
            }
            validate_filter_name(name, &mut errors);
            validate_filter_value(name, value, &mut errors);
            proof {
                let prev = filters@.take(k as int);
                assert(filters@.take(k + 1).drop_last() =~= prev);
                assert(filters@.take(k + 1).last() == filters@[k as int]);
                let f = filter_errors(name@, *value);
                assert(texts(errors@) =~= before + f);
                assert(mid + filters_errors(prev) + f =~= mid + (filters_errors(prev) + f));
            }
            k = k + 1;
        }
        assert(filters@.take(filters@.len() as int) =~= filters@);
        assert(texts(errors@) =~= config_errors(*self));
        if errors.len() == 0 {
            Ok(())
        } else {
            Err(crate::error::AppError::InvalidConfig(format_validation_errors(&errors)))
        }
    }
}

/// An API token; it is never shown in debug output.
pub struct ApiToken(String);

impl View for ApiToken {
    type V = Seq<char>;

    closed spec fn view(&self) -> Seq<char> {
        self.0@
    }
}

impl ApiToken {
    /// A token with the given value.
    pub fn new(value: String) -> (t: ApiToken)
        ensures
            t@ == value@,
    {
        ApiToken(value)
    }

    /// The token's value, for the Authorization header.
    pub fn expose(&self) -> (s: &str)
        ensures
            s@ == self@,
    {
        self.0.as_str()
    }
}

} // verus!

verus! {

/// The DefectDojo URL and API token taken from the environment.
pub struct RuntimeEnvironment {
    pub base_url: crate::weburl::WebUrl,
    pub api_token: ApiToken,
}

/// The URL with a path that ends in `/`, so that relative API paths are
/// joined below it rather than in place of its last segment.
pub open spec fn spec_normalize_base_url(u: crate::weburl::WebUrlView) -> crate::weburl::WebUrlView {
    if u.path.len() > 0 && u.path.last() == '/' {
        u
    } else {
        crate::weburl::url_with_path(u, u.path.push('/'))
    }
}

/// Gives the path of the URL a trailing `/` when it lacks one.
pub fn normalize_base_url(url: crate::weburl::WebUrl) -> (r: crate::weburl::WebUrl)
    ensures
        r@ == spec_normalize_base_url(url@),
{
    let path = crate::text::chars_of(url.path());
    if path.len() > 0 && path[path.len() - 1] == '/' {
        return url;
    }
    let mut normalized = String::from_str(url.path());
    crate::text::push_char(&mut normalized, '/');
    crate::weburl::set_url_path(&url, normalized.as_str())
}

/// A required variable: missing when unset, invalid when blank, otherwise
/// its trimmed value.
pub open spec fn required_value_ok(value: Option<String>) -> bool {
    value is Some && !crate::text::is_blank(value->0@)
}

/// Checks the value of a required environment variable (`None` when unset).
pub fn read_required_environment_variable(name: &str, value: Option<String>) -> (r: Result<
    String,
    crate::error::AppError,
>)
    ensures
        value is None ==> (r matches Err(crate::error::AppError::MissingEnvironmentVariable { name: n })
            && n@ == name@),
        (value matches Some(v) && crate::text::is_blank(v@)) ==> (r matches Err(
            crate::error::AppError::InvalidEnvironmentVariable { name: n, reason },
        ) && n@ == name@ && reason@ == "value cannot be empty"@),
        required_value_ok(value) ==> (r matches Ok(t) && t@ == crate::text::trimmed(value->0@)),
{
    match value {
        None => Err(crate::error::AppError::MissingEnvironmentVariable { name: String::from_str(name) }),
        Some(v) => {
            let t = crate::text::trim(v.as_str());
            if t.as_str().is_empty() {
                return Err(
                    crate::error::AppError::InvalidEnvironmentVariable {
                        name: String::from_str(name),
                        reason: String::from_str("value cannot be empty"),
                    },
                );
            }
            Ok(t)
        },
    }
}

/// The scheme is `http` or `https`.
pub open spec fn is_web_scheme(s: Seq<char>) -> bool {
    s == "http"@ || s == "https"@
}

impl RuntimeEnvironment {
    /// Checks the values of `DOJO_URL` and `DOJO_API_TOKEN` (`None` when
    /// unset): both must be non-blank, and the URL must parse as an `http`
    /// or `https` URL with a host. The URL's path is given a trailing `/`.
    pub fn load(url_variable: Option<String>, token_variable: Option<String>) -> (r: Result<
        RuntimeEnvironment,
        crate::error::AppError,
    >)
        ensures
            url_variable is None ==> (r matches Err(
                crate::error::AppError::MissingEnvironmentVariable { name },
            ) && name@ == "DOJO_URL"@),
            (url_variable matches Some(v) && crate::text::is_blank(v@)) ==> (r matches Err(
                crate::error::AppError::InvalidEnvironmentVariable { name, reason },
            ) && name@ == "DOJO_URL"@ && reason@ == "value cannot be empty"@),
            required_value_ok(url_variable) && token_variable is None ==> (r matches Err(
                crate::error::AppError::MissingEnvironmentVariable { name },
            ) && name@ == "DOJO_API_TOKEN"@),
            (required_value_ok(url_variable) && (token_variable matches Some(v)
                && crate::text::is_blank(v@))) ==> (r matches Err(
                crate::error::AppError::InvalidEnvironmentVariable { name, reason },
            ) && name@ == "DOJO_API_TOKEN"@ && reason@ == "value cannot be empty"@),
            required_value_ok(url_variable) && required_value_ok(token_variable) ==> {
                let parsed = crate::weburl::url_parse_result(crate::text::trimmed(url_variable->0@));
                match parsed {
                    Err(e) => r matches Err(
                        crate::error::AppError::InvalidEnvironmentVariable { name, reason },
                    ) && name@ == "DOJO_URL"@ && reason@ == crate::weburl::url_error_text(e),
                    Ok(u) => if !is_web_scheme(u.scheme) {
                        r matches Err(
                            crate::error::AppError::InvalidEnvironmentVariable { name, reason },
                        ) && name@ == "DOJO_URL"@ && reason@ == "URL scheme must be http or https"@
                    } else if u.host is None {
                        r matches Err(
                            crate::error::AppError::InvalidEnvironmentVariable { name, reason },
                        ) && name@ == "DOJO_URL"@ && reason@ == "URL must contain a host"@
                    } else {
                        r matches Ok(env) && env.base_url@ == spec_normalize_base_url(u)
                            && env.api_token@ == crate::text::trimmed(token_variable->0@)
                    },
                }
            },
    {
        let raw_url = read_required_environment_variable(DOJO_URL_ENV, url_variable)?;
        let raw_token = read_required_environment_variable(DOJO_API_TOKEN_ENV, token_variable)?;
        let base_url = match crate::weburl::parse_url(raw_url.as_str()) {
            Ok(u) => u,
            Err(e) => {
                return Err(
                    crate::error::AppError::InvalidEnvironmentVariable {
                        name: String::from_str(DOJO_URL_ENV),
                        reason: e.message(),
                    },
                );
            },
        };
        let scheme = base_url.scheme();
        if !(crate::text::same_str(scheme, "http") || crate::text::same_str(scheme, "https")) {
            return Err(
                crate::error::AppError::InvalidEnvironmentVariable {
                    name: String::from_str(DOJO_URL_ENV),
                    reason: String::from_str("URL scheme must be http or https"),
                },
            );
        }
        if base_url.host_str().is_none() {
            return Err(
                crate::error::AppError::InvalidEnvironmentVariable {
                    name: String::from_str(DOJO_URL_ENV),
                    reason: String::from_str("URL must contain a host"),
                },
            );
        }
        Ok(RuntimeEnvironment { base_url: normalize_base_url(base_url), api_token: ApiToken(raw_token) })
    }
}

} // verus!
