//! The request and response model the pipeline runs on: methods, statuses,
//! headers, the typed response bodies, field-error reports, and the listing
//! query that every index endpoint parses.

use vstd::prelude::*;

use crate::forms::{
    first_value, key_count, parse_form, spec_form_pairs, str_eq, form_get,
};
use crate::models::{ApiSession, ApiUser, IndexQuery, ResolvedPost};
use crate::text::spec_parse_i64;

verus! {

#[derive(Clone, Copy, PartialEq, Eq, Structural, Debug)]
pub enum Method {
    Get,
    Post,
    Put,
    Delete,
    Options,
}

#[derive(Clone, Copy, PartialEq, Eq, Structural, Debug)]
pub enum Status {
    Okay,
    BadRequest,
    Unauthorized,
    NotFound,
}

pub struct Request {
    pub method: Method,
    pub path: String,
    pub query: Option<String>,
    pub headers: Vec<(String, String)>,
    pub body: Option<String>,
    pub client_addr: String,
}

/// First value of the header `name`, by exact name match.
pub open spec fn spec_header_get(headers: Seq<(String, String)>, name: Seq<char>) -> Option<
    String,
>
    decreases headers.len(),
{
    if headers.len() == 0 {
        None
    } else if headers[0].0@ == name {
        Some(headers[0].1)
    } else {
        spec_header_get(headers.drop_first(), name)
    }
}

pub fn header_get(headers: &Vec<(String, String)>, name: &str) -> (r: Option<String>)
    ensures
        r == spec_header_get(headers@, name@),
{
    let mut i: usize = 0;
    assert(headers@.subrange(0, headers@.len() as int) =~= headers@);
    while i < headers.len()
        invariant
            i <= headers@.len(),
            spec_header_get(headers@, name@) == spec_header_get(
                headers@.subrange(i as int, headers@.len() as int),
                name@,
            ),
        decreases headers@.len() - i,
    {
        let ghost rest = headers@.subrange(i as int, headers@.len() as int);
        assert(rest[0] == headers@[i as int]);
        if str_eq(headers[i].0.as_str(), name) {
            return Some(headers[i].1.clone());
        }
        assert(rest.drop_first() =~= headers@.subrange(i + 1, headers@.len() as int));
        i = i + 1;
    }
    None
}

impl Request {
    pub fn header(&self, name: &str) -> (r: Option<String>)
        ensures
            r == spec_header_get(self.headers@, name@),
    {
        header_get(&self.headers, name)
    }
}

/// A field-level error report: each field name with its messages, in the
/// order the errors were added.
pub struct FieldReport {
    pub errors: Vec<(String, Vec<String>)>,
}

/// Index of the first entry for a field, or the length.
pub open spec fn report_idx(errors: Seq<(String, Vec<String>)>, field: Seq<char>) -> int
    decreases errors.len(),
{
    if errors.len() == 0 {
        0
    } else if errors[0].0@ == field {
        0
    } else {
        1 + report_idx(errors.drop_first(), field)
    }
}

pub proof fn lemma_report_idx(errors: Seq<(String, Vec<String>)>, field: Seq<char>)
    ensures
        0 <= report_idx(errors, field) <= errors.len(),
        report_idx(errors, field) < errors.len() ==> errors[report_idx(errors, field)].0@ == field,
        forall|k: int|
            0 <= k < report_idx(errors, field) ==> (#[trigger] errors[k]).0@ != field,
    decreases errors.len(),
{
    if errors.len() > 0 && errors[0].0@ != field {
        lemma_report_idx(errors.drop_first(), field);
        assert forall|k: int|
            0 <= k < report_idx(errors, field) implies (#[trigger] errors[k]).0@ != field by {
            if k > 0 {
                assert(errors[k] == errors.drop_first()[k - 1]);
            }
        }
    }
}

impl FieldReport {
    pub fn new() -> (r: FieldReport)
        ensures
            r.errors@.len() == 0,
    {
        FieldReport { errors: Vec::new() }
    }

    /// Add one message under a field: appended to the field's first entry
    /// when it has one, in a fresh entry at the end otherwise.
    pub fn insert_error(&mut self, field: &str, message: &str)
        ensures
            ({
                let at = report_idx(old(self).errors@, field@);
                if at < old(self).errors@.len() {
                    final(self).errors@ == old(self).errors@.update(
                        at,
                        (
                            old(self).errors@[at].0,
                            final(self).errors@[at].1,
                        ),
                    ) && final(self).errors@[at].1@.len() == old(self).errors@[at].1@.len() + 1
                        && final(self).errors@[at].1@.last()@ == message@ && (forall|k: int|
                        0 <= k < old(self).errors@[at].1@.len()
                            ==> #[trigger] final(self).errors@[at].1@[k]
                            == old(self).errors@[at].1@[k])
                } else {
                    final(self).errors@.len() == old(self).errors@.len() + 1 && (forall|k: int|
                        0 <= k < old(self).errors@.len() ==> #[trigger] final(self).errors@[k]
                            == old(self).errors@[k]) && final(self).errors@.last().0@ == field@
                        && final(self).errors@.last().1@.len() == 1
                        && final(self).errors@.last().1@[0]@ == message@
                }
            }),
    {
        proof {
            lemma_report_idx(self.errors@, field@);
        }
        let mut i: usize = 0;
        let n = self.errors.len();
        while i < n
            invariant
                i <= n,
                n == self.errors@.len(),
                *self == *old(self),
                forall|k: int| 0 <= k < i ==> (#[trigger] self.errors@[k]).0@ != field@,
            decreases n - i,
        {
            if str_eq(self.errors[i].0.as_str(), field) {
                proof {
                    lemma_report_idx(self.errors@, field@);
                }
                assert(report_idx(self.errors@, field@) == i);
                let mut entry = self.errors.remove(i);
                entry.1.push(message.to_owned());
                let ghost e = entry;
                self.errors.insert(i, entry);
                assert(self.errors@ =~= old(self).errors@.update(i as int, e));
                return ;
            }
            i = i + 1;
        }
        proof {
            lemma_report_idx(self.errors@, field@);
        }
        assert(report_idx(self.errors@, field@) == n);
        let mut msgs: Vec<String> = Vec::new();
        msgs.push(message.to_owned());
        self.errors.push((field.to_owned(), msgs));
    }

    /// The messages stored under a field's first entry, if any.
    pub fn get_errors(&self, field: &str) -> (r: Option<&Vec<String>>)
        ensures
            ({
                let at = report_idx(self.errors@, field@);
                if at < self.errors@.len() {
                    r matches Some(v) && *v == self.errors@[at].1
                } else {
                    r is None
                }
            }),
    {
        proof {
            lemma_report_idx(self.errors@, field@);
        }
        let mut i: usize = 0;
        while i < self.errors.len()
            invariant
                i <= self.errors@.len(),
                forall|k: int| 0 <= k < i ==> (#[trigger] self.errors@[k]).0@ != field@,
            decreases self.errors@.len() - i,
        {
            if str_eq(self.errors[i].0.as_str(), field) {
                proof {
                    lemma_report_idx(self.errors@, field@);
                }
                assert(report_idx(self.errors@, field@) == i);
                return Some(&self.errors[i].1);
            }
            i = i + 1;
        }
        proof {
            lemma_report_idx(self.errors@, field@);
        }
        None
    }
}

pub struct Pagination {
    pub total: i64,
    pub page: i64,
    pub limit: i64,
}

pub enum ResponseBody {
    Empty,
    Text(String),
    Home { name: String, version: String },
    Post(ResolvedPost),
    PostList { pagination: Pagination, data: Vec<ResolvedPost> },
    User(ApiUser),
    UserList { pagination: Pagination, data: Vec<ApiUser> },
    Session(ApiSession),
    SessionList { pagination: Pagination, data: Vec<ApiSession> },
    AuthLogin { token: String, session: ApiSession, user: ApiUser },
    AuthValidate { session: ApiSession, user: ApiUser },
    Report(FieldReport),
    Search { users: Vec<ApiUser>, posts: Vec<ResolvedPost> },
}

pub struct Response {
    pub status: Status,
    pub headers: Vec<(String, String)>,
    pub body: ResponseBody,
}

impl Response {
    pub fn new() -> (r: Response)
        ensures
            r.status == Status::Okay,
            r.headers@.len() == 0,
            r.body is Empty,
    {
        Response { status: Status::Okay, headers: Vec::new(), body: ResponseBody::Empty }
    }

    pub fn with_status(status: Status) -> (r: Response)
        ensures
            r.status == status,
            r.headers@.len() == 0,
            r.body is Empty,
    {
        Response { status, headers: Vec::new(), body: ResponseBody::Empty }
    }

    pub fn status(self, status: Status) -> (r: Response)
        ensures
            r == (Response { status, ..self }),
    {
        Response { status, ..self }
    }

    pub fn body(self, body: ResponseBody) -> (r: Response)
        ensures
            r.status == self.status,
            r.headers == self.headers,
            r.body == body,
    {
        Response { body, ..self }
    }

    pub fn text(self, text: &str) -> (r: Response)
        ensures
            r.status == self.status,
            r.headers == self.headers,
            r.body is Text && r.body->Text_0@ == text@,
    {
        Response { body: ResponseBody::Text(text.to_owned()), ..self }
    }

    /// Set a header, replacing an existing value for the same name.
    pub fn header(self, name: &str, value: &str) -> (r: Response)
        ensures
            r.status == self.status,
            r.body == self.body,
            spec_header_get(r.headers@, name@) matches Some(v) && v@ == value@,
            forall|other: Seq<char>|
                other != name@ ==> #[trigger] spec_header_get(r.headers@, other)
                    == spec_header_get(self.headers@, other),
    {
        let Response { status: st, headers: mut headers, body: bd } = self;
        let ghost orig = headers@;
        let mut i: usize = 0;
        let n = headers.len();
        while i < n
            invariant
                i <= n,
                n == headers@.len(),
                headers@ == orig,
                st == self.status,
                bd == self.body,
                orig == self.headers@,
                forall|k: int| 0 <= k < i ==> (#[trigger] orig[k]).0@ != name@,
            decreases n - i,
        {
            if str_eq(headers[i].0.as_str(), name) {
                let mut entry = headers.remove(i);
                entry.1 = value.to_owned();
                let ghost e = entry;
                headers.insert(i, entry);
                proof {
                    assert(headers@ =~= orig.update(i as int, e));
                    lemma_header_get_update(orig, headers@, i as int, name@, value@);
                }
                return Response { status: st, headers, body: bd };
            }
            i = i + 1;
        }
        headers.push((name.to_owned(), value.to_owned()));
        proof {
            lemma_header_get_append(orig, headers@, name@, value@);
        }
        Response { status: st, headers, body: bd }
    }
}

proof fn lemma_header_get_update(
    orig: Seq<(String, String)>,
    updated: Seq<(String, String)>,
    i: int,
    name: Seq<char>,
    value: Seq<char>,
)
    requires
        0 <= i < orig.len(),
        updated.len() == orig.len(),
        orig[i].0@ == name,
        updated[i].0@ == name,
        updated[i].1@ == value,
        forall|k: int| 0 <= k < orig.len() && k != i ==> #[trigger] updated[k] == orig[k],
        forall|k: int| 0 <= k < i ==> (#[trigger] orig[k]).0@ != name,
    ensures
        spec_header_get(updated, name) matches Some(v) && v@ == value,
        forall|other: Seq<char>|
            other != name ==> #[trigger] spec_header_get(updated, other) == spec_header_get(
                orig,
                other,
            ),
    decreases orig.len(),
{
    if i == 0 {
        assert forall|other: Seq<char>|
            other != name implies #[trigger] spec_header_get(updated, other) == spec_header_get(
            orig,
            other,
        ) by {
            assert(forall|k: int|
                0 <= k < orig.len() - 1 ==> #[trigger] updated.drop_first()[k] == updated[k + 1]
                    && #[trigger] orig.drop_first()[k] == orig[k + 1]);
            lemma_header_get_congruent(updated.drop_first(), orig.drop_first(), other);
        }
    } else {
        lemma_header_get_update(orig.drop_first(), updated.drop_first(), i - 1, name, value);
        assert(forall|k: int|
            0 <= k < orig.len() - 1 ==> #[trigger] orig.drop_first()[k] == orig[k + 1]
                && #[trigger] updated.drop_first()[k] == updated[k + 1]);
        assert(updated[0] == orig[0]);
        assert(spec_header_get(updated, name) == spec_header_get(updated.drop_first(), name));
        assert forall|other: Seq<char>|
            other != name implies #[trigger] spec_header_get(updated, other) == spec_header_get(
            orig,
            other,
        ) by {
            assert(spec_header_get(updated.drop_first(), other) == spec_header_get(
                orig.drop_first(),
                other,
            ));
        }
    }
}

proof fn lemma_header_get_congruent(
    a: Seq<(String, String)>,
    b: Seq<(String, String)>,
    name: Seq<char>,
)
    requires
        a.len() == b.len(),
        forall|k: int| 0 <= k < a.len() ==> #[trigger] a[k] == b[k],
    ensures
        spec_header_get(a, name) == spec_header_get(b, name),
    decreases a.len(),
{
    if a.len() > 0 {
        lemma_header_get_congruent(a.drop_first(), b.drop_first(), name);
        assert(forall|k: int|
            0 <= k < a.len() - 1 ==> #[trigger] a.drop_first()[k] == a[k + 1]
                && #[trigger] b.drop_first()[k] == b[k + 1]);
    }
}

proof fn lemma_header_get_append(
    orig: Seq<(String, String)>,
    appended: Seq<(String, String)>,
    name: Seq<char>,
    value: Seq<char>,
)
    requires
        appended.len() == orig.len() + 1,
        forall|k: int| 0 <= k < orig.len() ==> #[trigger] appended[k] == orig[k],
        appended.last().0@ == name,
        appended.last().1@ == value,
        forall|k: int| 0 <= k < orig.len() ==> (#[trigger] orig[k]).0@ != name,
    ensures
        spec_header_get(appended, name) matches Some(v) && v@ == value,
        forall|other: Seq<char>|
            other != name ==> #[trigger] spec_header_get(appended, other) == spec_header_get(
                orig,
                other,
            ),
    decreases orig.len(),
{
    if orig.len() == 0 {
        assert(appended.drop_first() =~= Seq::<(String, String)>::empty());
        assert forall|other: Seq<char>|
            other != name implies #[trigger] spec_header_get(appended, other) == spec_header_get(
            orig,
            other,
        ) by {
            assert(appended[0].0@ == name);
            assert(spec_header_get(appended, other) == spec_header_get(
                appended.drop_first(),
                other,
            ));
        }
    } else {
        assert(forall|k: int|
            0 <= k < orig.len() - 1 ==> #[trigger] orig.drop_first()[k] == orig[k + 1]);
        assert(forall|k: int|
            0 <= k < orig.len() ==> #[trigger] appended.drop_first()[k] == appended[k + 1]);
        assert(appended[0] == orig[0]);
        assert(appended.drop_first().last() == appended.last());
        lemma_header_get_append(orig.drop_first(), appended.drop_first(), name, value);
        assert forall|other: Seq<char>|
            other != name implies #[trigger] spec_header_get(appended, other) == spec_header_get(
            orig,
            other,
        ) by {
            assert(spec_header_get(appended.drop_first(), other) == spec_header_get(
                orig.drop_first(),
                other,
            ));
        }
    }
}

/// The view of an optional text.
pub open spec fn opt_view(o: Option<String>) -> Option<Seq<char>> {
    match o {
        Some(t) => Some(t@),
        None => None,
    }
}

/// How the listing query parses: absent means the defaults; a malformed or
/// duplicated numeric field refuses the whole query; out-of-range values are
/// field errors.
pub enum IndexQueryOutcome {
    Parsed(IndexQuery),
    Malformed,
    Invalid(FieldReport),
}

/// The value a listing-query field takes: the first occurrence, or the
/// default when absent; more than one occurrence refuses the query.
pub open spec fn query_field_i64(
    pairs: Seq<(Seq<char>, Seq<char>)>,
    key: Seq<char>,
    default: i64,
) -> Option<i64> {
    if key_count(pairs, key) == 0 {
        Some(default)
    } else if key_count(pairs, key) == 1 {
        spec_parse_i64(first_value(pairs, key)->0)
    } else {
        None
    }
}

/// Exactly when a query string yields a well-formed listing query, and with
/// which values.
pub open spec fn index_query_ok(qs: Option<Seq<char>>, q: Seq<char>, page: i64, limit: i64) -> bool {
    match qs {
        None => q == Seq::<char>::empty() && page == 1 && limit == 20,
        Some(text) => {
            let pairs = spec_form_pairs(text);
            &&& (if key_count(pairs, "q"@) == 0 {
                q == Seq::<char>::empty()
            } else {
                key_count(pairs, "q"@) == 1 && q == first_value(pairs, "q"@)->0
            })
            &&& query_field_i64(pairs, "page"@, 1) == Some(page)
            &&& query_field_i64(pairs, "limit"@, 20) == Some(limit)
            &&& page >= 1
            &&& 1 <= limit <= 50
        },
    }
}

/// Parse and validate the listing query of an index endpoint.
pub fn parse_index_query(qs: &Option<String>) -> (r: IndexQueryOutcome)
    ensures
        ({
            let v = opt_view(*qs);
            match r {
                IndexQueryOutcome::Parsed(iq) => index_query_ok(v, iq.query@, iq.page, iq.limit),
                _ => !(exists|q: Seq<char>, page: i64, limit: i64|
                    #[trigger] index_query_ok(v, q, page, limit)),
            }
        }),
{
    let text = match qs {
        Option::Some(t) => t,
        Option::None => {
            let iq = IndexQuery { query: String::new(), page: 1, limit: 20 };
            assert(index_query_ok(None, iq.query@, 1, 20));
            return IndexQueryOutcome::Parsed(iq);
        },
    };
    let pairs = parse_form(text.as_str());
    let ghost ps = spec_form_pairs(text@);
    proof {
        assert(pairs@.map_values(|p: (String, String)| (p.0@, p.1@)) =~= ps);
    }
    let q: String = match form_get(&pairs, "q") {
        Result::Ok(Option::Some(v)) => v,
        Result::Ok(Option::None) => String::new(),
        Result::Err(_) => {
            return IndexQueryOutcome::Malformed;
        },
    };
    let page: i64 = match form_get(&pairs, "page") {
        Result::Ok(Option::Some(v)) => match crate::text::parse_i64(v.as_str()) {
            Option::Some(n) => n,
            Option::None => {
                return IndexQueryOutcome::Malformed;
            },
        },
        Result::Ok(Option::None) => 1,
        Result::Err(_) => {
            return IndexQueryOutcome::Malformed;
        },
    };
    let limit: i64 = match form_get(&pairs, "limit") {
        Result::Ok(Option::Some(v)) => match crate::text::parse_i64(v.as_str()) {
            Option::Some(n) => n,
            Option::None => {
                return IndexQueryOutcome::Malformed;
            },
        },
        Result::Ok(Option::None) => 20,
        Result::Err(_) => {
            return IndexQueryOutcome::Malformed;
        },
    };
    if !(page >= 1) {
        let mut report = FieldReport::new();
        report.insert_error("page", "must be at least 1");
        return IndexQueryOutcome::Invalid(report);
    }
    if !(1 <= limit && limit <= 50) {
        let mut report = FieldReport::new();
        report.insert_error("limit", "must be between 1 and 50");
        return IndexQueryOutcome::Invalid(report);
    }
    IndexQueryOutcome::Parsed(IndexQuery { query: q, page, limit })
}

/// The window of one page: rows `(page-1)*limit ..` up to `limit` of them.
pub open spec fn page_window<T>(rows: Seq<T>, page: i64, limit: i64) -> Seq<T> {
    let start = (page - 1) * limit;
    if start >= rows.len() {
        Seq::empty()
    } else if start + limit > rows.len() {
        rows.subrange(start as int, rows.len() as int)
    } else {
        rows.subrange(start as int, start + limit)
    }
}

} // verus!
