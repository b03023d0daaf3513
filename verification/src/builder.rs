//! Building a mock rule: what a request must look like, and what is sent back.

use crate::code::Code;
use crate::grpc_server::{mounted, reply_of, GrpcServer, Reply, SetupError};
use crate::headers::{
    all_stored_names, clone_headers, first_header_value, first_value, header_count,
    header_entries, header_pairs, insert_header, inserted, is_header_name, is_header_value,
    lemma_inserted_keeps_stored_names, lemma_inserted_members, lemma_lowered_is_stored, lowered,
    new_headers, Entry, MAX_HEADERS,
};
use tonic::codegen::http::{HeaderMap, HeaderValue};
use vstd::prelude::*;
use vstd::string::StringSliceAdditionalSpecFns;

verus! {

/// A rule as the contracts see it.
pub struct RuleView {
    /// The path that a request must have.
    pub path: Seq<char>,
    /// The status to answer with, if one was set.
    pub status_code: Option<Code>,
    /// The encoded message to answer with, if one was set.
    pub result: Option<Seq<u8>>,
    /// The headers that a request must carry.
    pub request_headers: Seq<Entry>,
    /// The headers that every answer carries.
    pub response_headers: Seq<Entry>,
}

/// Whether a request with this path and these headers meets the rule: the
/// paths are equal, and for each header of the rule the first header of that
/// name in the request has the same value.
pub open spec fn rule_matches(rule: RuleView, path: Seq<char>, headers: Seq<Entry>) -> bool {
    &&& rule.path == path
    &&& forall|i: int|
        0 <= i < rule.request_headers.len() ==> first_value(
            headers,
            (#[trigger] rule.request_headers[i]).0,
        ) == Some(rule.request_headers[i].1)
}

/// Whether two rules count as the same rule: path, status and body are equal.
/// The headers have no part in it.
pub open spec fn same_rule(a: RuleView, b: RuleView) -> bool {
    a.path == b.path && a.status_code == b.status_code && a.result == b.result
}

/// Whether a rule says what to answer: a status, a body, or both.
pub open spec fn has_response(rule: RuleView) -> bool {
    rule.status_code is Some || rule.result is Some
}

/// The response side that every stage of building shares.
pub trait Then: Sized + View<V = RuleView> {
    /// Sets the status to answer with.
    fn return_status(self, status: Code) -> (r: Self)
        ensures
            r@ == (RuleView { status_code: Some(status), ..self@ }),
    ;

    /// Sets the encoded message to answer with.
    fn return_body(self, body: Vec<u8>) -> (r: Self)
        ensures
            r@ == (RuleView { result: Some(body@), ..self@ }),
    ;

    /// The number of headers that every answer carries.
    fn response_header_count(&self) -> (n: usize)
        ensures
            n == self@.response_headers.len(),
    ;

    /// Sets a header that every answer carries. An earlier value of the
    /// same name is replaced.
    fn return_header(self, key: &str, value: &str) -> (r: Self)
        requires
            is_header_name(key@),
            is_header_value(value.spec_bytes()),
            self@.response_headers.len() <= MAX_HEADERS,
        ensures
            r@ == (RuleView {
                response_headers: inserted(
                    self@.response_headers,
                    lowered(key@),
                    value.spec_bytes(),
                ),
                ..self@
            }),
    ;
}

/// What can be registered with a server as a rule.
pub trait Mountable: Sized + View<V = RuleView> {
    /// The rule that this value stands for.
    fn into_rule(self) -> (rule: MockBuilder)
        ensures
            rule@ == self@,
    ;

    /// Registers the rule with `s`, unless it says nothing of the answer.
    fn mount(self, s: &mut GrpcServer) -> (r: Result<(), SetupError>)
        ensures
            mounted(old(s)@, self@, final(s)@, r),
    ;
}

/// A rule: the requests it matches and the answer they get.
#[derive(Debug)]
pub struct MockBuilder {
    pub(crate) path: String,
    pub(crate) status_code: Option<Code>,
    pub(crate) result: Option<Vec<u8>>,
    pub(crate) request_headers: HeaderMap<HeaderValue>,
    pub(crate) response_headers: HeaderMap<HeaderValue>,
}

/// The match side of a rule while it is being built.
#[derive(Debug)]
pub struct WhenBuilder {
    pub(crate) path: Option<String>,
    pub(crate) headers: HeaderMap<HeaderValue>,
}

/// What a `WhenBuilder` is to the contracts.
pub struct WhenView {
    /// The path to match, once set.
    pub path: Option<Seq<char>>,
    /// The headers to match.
    pub headers: Seq<Entry>,
}

/// The response side of a rule that came from a `WhenBuilder`.
#[derive(Debug)]
pub struct ThenBuilder {
    pub(crate) path: String,
    pub(crate) status_code: Option<Code>,
    pub(crate) result: Option<Vec<u8>>,
    pub(crate) request_headers: HeaderMap<HeaderValue>,
    pub(crate) response_headers: HeaderMap<HeaderValue>,
}

impl View for MockBuilder {
    type V = RuleView;

    open(crate) spec fn view(&self) -> RuleView {
        RuleView {
            path: self.path@,
            status_code: self.status_code,
            result: match self.result {
                Some(body) => Some(body@),
                None => None,
            },
            request_headers: header_entries(self.request_headers),
            response_headers: header_entries(self.response_headers),
        }
    }
}

impl View for ThenBuilder {
    type V = RuleView;

    open(crate) spec fn view(&self) -> RuleView {
        RuleView {
            path: self.path@,
            status_code: self.status_code,
            result: match self.result {
                Some(body) => Some(body@),
                None => None,
            },
            request_headers: header_entries(self.request_headers),
            response_headers: header_entries(self.response_headers),
        }
    }
}

impl View for WhenBuilder {
    type V = WhenView;

    open(crate) spec fn view(&self) -> WhenView {
        WhenView {
            path: match self.path {
                Some(p) => Some(p@),
                None => None,
            },
            headers: header_entries(self.headers),
        }
    }
}

/// A copy of an optional body.
fn clone_body(body: &Option<Vec<u8>>) -> (copy: Option<Vec<u8>>)
    ensures
        copy is Some == body is Some,
        copy is Some ==> copy->0@ == body->0@,
{
    match body {
        Some(b) => {
            let c = b.clone();
            assert(c@ =~= b@);
            Some(c)
        },
        None => None,
    }
}

impl WhenBuilder {
    #[verifier::type_invariant]
    closed spec fn names_are_stored(&self) -> bool {
        all_stored_names(header_entries(self.headers))
    }

    /// Sets the path that a request must have.
    pub fn path(&self, p: &str) -> (r: Self)
        ensures
            r@ == (WhenView { path: Some(p@), ..self@ }),
    {
        proof {
            use_type_invariant(self);
        }
        Self { path: Some(p.to_owned()), headers: clone_headers(&self.headers) }
    }

    /// Asks that a request carry the header `key` with the value `value`. An
    /// earlier demand on the same name is replaced.
    pub fn header(self, key: &str, value: &str) -> (r: Self)
        requires
            is_header_name(key@),
            is_header_value(value.spec_bytes()),
            self@.headers.len() <= MAX_HEADERS,
        ensures
            r@ == (WhenView {
                headers: inserted(self@.headers, lowered(key@), value.spec_bytes()),
                ..self@
            }),
    {
        proof {
            use_type_invariant(&self);
            lemma_lowered_is_stored(key@);
            lemma_inserted_keeps_stored_names(
                header_entries(self.headers),
                lowered(key@),
                value.spec_bytes(),
            );
        }
        let mut headers = self.headers;
        insert_header(&mut headers, key, value);
        Self { path: self.path, headers }
    }

    /// The number of headers that a request must carry.
    pub fn header_count(&self) -> (n: usize)
        ensures
            n == self@.headers.len(),
    {
        header_count(&self.headers)
    }

    /// Whether the match side is complete: a path was set.
    pub fn validate(&self) -> (ok: bool)
        ensures
            ok == self@.path is Some,
    {
        self.path.is_some()
    }

    /// Goes on to the response side, with no status and no body yet.
    pub fn then(&self) -> (r: ThenBuilder)
        requires
            self@.path is Some,
        ensures
            r@ == (RuleView {
                path: self@.path->0,
                status_code: None,
                result: None,
                request_headers: self@.headers,
                response_headers: Seq::empty(),
            }),
    {
        proof {
            use_type_invariant(self);
        }
        let path = match &self.path {
            Some(p) => p.clone(),
            None => vstd::pervasive::unreached(),
        };
        ThenBuilder {
            path,
            status_code: None,
            result: None,
            request_headers: clone_headers(&self.headers),
            response_headers: new_headers(),
        }
    }
}

impl MockBuilder {
    #[verifier::type_invariant]
    closed spec fn names_are_stored(&self) -> bool {
        all_stored_names(header_entries(self.request_headers))
    }

    /// A rule for `path` that asks for no header.
    pub fn given(path: &str) -> (r: Self)
        ensures
            r@ == (RuleView {
                path: path@,
                status_code: None,
                result: None,
                request_headers: Seq::empty(),
                response_headers: Seq::empty(),
            }),
    {
        Self {
            path: path.to_owned(),
            result: None,
            status_code: None,
            request_headers: new_headers(),
            response_headers: new_headers(),
        }
    }

    /// Starts the match side of a rule: no path, no header.
    pub fn when() -> (r: WhenBuilder)
        ensures
            r@ == (WhenView { path: None, headers: Seq::empty() }),
    {
        WhenBuilder { path: None, headers: new_headers() }
    }

    /// Whether a request with this path and these headers meets the rule.
    pub fn matches(&self, path: &str, headers: &HeaderMap<HeaderValue>) -> (b: bool)
        ensures
            b == rule_matches(self@, path@, header_entries(*headers)),
    {
        let wanted = path.to_owned();
        self.matches_owned(&wanted, headers)
    }

    /// `matches`, for a path that is already a `String`.
    pub(crate) fn matches_owned(&self, path: &String, headers: &HeaderMap<HeaderValue>) -> (b:
        bool)
        ensures
            b == rule_matches(self@, path@, header_entries(*headers)),
    {
        proof {
            use_type_invariant(self);
        }
        if self.path != *path {
            return false;
        }
        let wanted = header_pairs(&self.request_headers);
        let ghost rule = header_entries(self.request_headers);
        let ghost given = header_entries(*headers);
        let mut i: usize = 0;
        while i < wanted.len()
            invariant
                i <= wanted.len(),
                wanted.deep_view() == rule,
                rule == self@.request_headers,
                self@.path == path@,
                all_stored_names(rule),
                given == header_entries(*headers),
                forall|j: int|
                    0 <= j < i ==> first_value(given, (#[trigger] rule[j]).0) == Some(rule[j].1),
            decreases wanted.len() - i,
        {
            assert(wanted.deep_view()[i as int] == (wanted[i as int].0@, wanted[i as int].1@));
            assert(is_header_name(rule[i as int].0));
            assert(lowered(rule[i as int].0) == rule[i as int].0);
            let found = first_header_value(headers, wanted[i].0.as_str());
            let same = match &found {
                Some(v) => {
                    assert(found.deep_view() == Some(v@));
                    bytes_eq(v, &wanted[i].1)
                },
                None => false,
            };
            if !same {
                return false;
            }
            i += 1;
        }
        true
    }

    /// The answer that the rule asks for.
    pub fn reply(&self) -> (reply: Reply)
        ensures
            reply@ == reply_of(self@),
    {
        Reply {
            status: match self.status_code {
                Some(code) => code,
                None => Code::Okay,
            },
            body: clone_body(&self.result),
            headers: clone_headers(&self.response_headers),
        }
    }

    /// Whether `other` counts as the same rule: path, status and body are equal.
    pub fn same_as(&self, other: &MockBuilder) -> (same: bool)
        ensures
            same == same_rule(self@, other@),
    {
        if self.path != other.path {
            return false;
        }
        let same_status = match (self.status_code, other.status_code) {
            (Some(a), Some(b)) => a == b,
            (None, None) => true,
            _ => false,
        };
        if !same_status {
            return false;
        }
        match (&self.result, &other.result) {
            (Some(a), Some(b)) => bytes_eq(a, b),
            (None, None) => true,
            _ => false,
        }
    }

    /// The path that a request must have.
    pub fn path(&self) -> (path: &String)
        ensures
            path@ == self@.path,
    {
        &self.path
    }

    /// Whether the rule says what to answer.
    pub fn has_response(&self) -> (b: bool)
        ensures
            b == has_response(self@),
    {
        self.status_code.is_some() || self.result.is_some()
    }
}

/// Whether two byte strings are equal.
fn bytes_eq(a: &Vec<u8>, b: &Vec<u8>) -> (same: bool)
    ensures
        same == (a@ == b@),
{
    if a.len() != b.len() {
        return false;
    }
    let mut i: usize = 0;
    while i < a.len()
        invariant
            i <= a.len(),
            a.len() == b.len(),
            forall|j: int| 0 <= j < i ==> a@[j] == b@[j],
        decreases a.len() - i,
    {
        if a[i] != b[i] {
            return false;
        }
        i += 1;
    }
    assert(a@ =~= b@);
    true
}

impl Clone for MockBuilder {
    /// A second rule with the same content.
    fn clone(&self) -> (copy: Self)
        ensures
            copy@ == self@,
    {
        proof {
            use_type_invariant(self);
        }
        Self {
            path: self.path.clone(),
            status_code: self.status_code,
            result: clone_body(&self.result),
            request_headers: clone_headers(&self.request_headers),
            response_headers: clone_headers(&self.response_headers),
        }
    }
}

impl Clone for ThenBuilder {
    /// A second builder with the same content.
    fn clone(&self) -> (copy: Self)
        ensures
            copy@ == self@,
    {
        proof {
            use_type_invariant(self);
        }
        Self {
            path: self.path.clone(),
            status_code: self.status_code,
            result: clone_body(&self.result),
            request_headers: clone_headers(&self.request_headers),
            response_headers: clone_headers(&self.response_headers),
        }
    }
}

impl Clone for WhenBuilder {
    /// A second builder with the same content.
    fn clone(&self) -> (copy: Self)
        ensures
            copy@ == self@,
    {
        proof {
            use_type_invariant(self);
        }
        Self {
            path: match &self.path {
                Some(p) => Some(p.clone()),
                None => None,
            },
            headers: clone_headers(&self.headers),
        }
    }
}

impl Then for MockBuilder {
    fn return_status(self, status: Code) -> (r: Self) {
        proof {
            use_type_invariant(&self);
        }
        Self { status_code: Some(status), ..self }
    }

    fn return_body(self, body: Vec<u8>) -> (r: Self) {
        proof {
            use_type_invariant(&self);
        }
        Self { result: Some(body), ..self }
    }

    fn response_header_count(&self) -> (n: usize) {
        header_count(&self.response_headers)
    }

    fn return_header(self, key: &str, value: &str) -> (r: Self) {
        proof {
            use_type_invariant(&self);
        }
        let mut response_headers = self.response_headers;
        insert_header(&mut response_headers, key, value);
        Self {
            path: self.path,
            status_code: self.status_code,
            result: self.result,
            request_headers: self.request_headers,
            response_headers,
        }
    }
}

impl Then for ThenBuilder {
    fn return_status(self, status: Code) -> (r: Self) {
        proof {
            use_type_invariant(&self);
        }
        Self { status_code: Some(status), ..self }
    }

    fn return_body(self, body: Vec<u8>) -> (r: Self) {
        proof {
            use_type_invariant(&self);
        }
        Self { result: Some(body), ..self }
    }

    fn response_header_count(&self) -> (n: usize) {
        header_count(&self.response_headers)
    }

    fn return_header(self, key: &str, value: &str) -> (r: Self) {
        proof {
            use_type_invariant(&self);
        }
        let mut response_headers = self.response_headers;
        insert_header(&mut response_headers, key, value);
        Self {
            path: self.path,
            status_code: self.status_code,
            result: self.result,
            request_headers: self.request_headers,
            response_headers,
        }
    }
}

impl ThenBuilder {
    #[verifier::type_invariant]
    closed spec fn names_are_stored(&self) -> bool {
        all_stored_names(header_entries(self.request_headers))
    }
}

impl Mountable for MockBuilder {
    fn into_rule(self) -> (rule: MockBuilder) {
        self
    }

    fn mount(self, s: &mut GrpcServer) -> (r: Result<(), SetupError>) {
        s.register(self)
    }
}

impl Mountable for ThenBuilder {
    fn into_rule(self) -> (rule: MockBuilder) {
        proof {
            use_type_invariant(&self);
        }
        MockBuilder {
            path: self.path,
            status_code: self.status_code,
            result: self.result,
            request_headers: self.request_headers,
            response_headers: self.response_headers,
        }
    }

    fn mount(self, s: &mut GrpcServer) -> (r: Result<(), SetupError>) {
        let rb = self.into_rule();
        rb.mount(s)
    }
}

/// A rule that asks for one header more matches the requests that it matched
/// before, as far as its other headers go, and that carry the new header
/// with the value asked for. What it asked of that name before is dropped.
pub proof fn lemma_header_narrows_match(
    rule: RuleView,
    name: Seq<char>,
    value: Seq<u8>,
    path: Seq<char>,
    headers: Seq<Entry>,
)
    ensures
        rule_matches(
            RuleView { request_headers: inserted(rule.request_headers, name, value), ..rule },
            path,
            headers,
        ) <==> {
            &&& rule.path == path
            &&& first_value(headers, name) == Some(value)
            &&& forall|i: int|
                0 <= i < rule.request_headers.len() && (#[trigger] rule.request_headers[i]).0
                    != name ==> first_value(headers, rule.request_headers[i].0) == Some(
                    rule.request_headers[i].1,
                )
        },
{
    let before = rule.request_headers;
    let after = inserted(before, name, value);
    let narrowed = RuleView { request_headers: after, ..rule };
    if rule_matches(narrowed, path, headers) {
        lemma_inserted_members(before, name, value, (name, value));
        let k = choose|k: int| 0 <= k < after.len() && after[k] == (name, value);
        assert(first_value(headers, after[k].0) == Some(after[k].1));
        assert forall|i: int| 0 <= i < before.len() && (#[trigger] before[i]).0 != name implies
            first_value(headers, before[i].0) == Some(before[i].1) by {
            lemma_inserted_members(before, name, value, before[i]);
            assert(before.contains(before[i]));
            let j = choose|j: int| 0 <= j < after.len() && after[j] == before[i];
            assert(first_value(headers, after[j].0) == Some(after[j].1));
        }
    }
    if rule.path == path && first_value(headers, name) == Some(value) && (forall|i: int|
        0 <= i < before.len() && (#[trigger] before[i]).0 != name ==> first_value(
            headers,
            before[i].0,
        ) == Some(before[i].1)) {
        assert forall|j: int| 0 <= j < after.len() implies first_value(
            headers,
            (#[trigger] after[j]).0,
        ) == Some(after[j].1) by {
            lemma_inserted_members(before, name, value, after[j]);
            assert(after.contains(after[j]));
            if after[j] != (name, value) {
                let i = choose|i: int| 0 <= i < before.len() && before[i] == after[j];
                assert(before[i].0 != name);
            }
        }
    }
}

} // verus!
