//! The rule store and the dispatcher of a mock server.

use crate::builder::{has_response, rule_matches, MockBuilder, Mountable, RuleView};
use crate::code::Code;
use crate::headers::{clone_headers, header_entries, new_headers, Entry};
use crate::text::{decimal, decimal_text, push_decimal};
use tonic::codegen::http::{HeaderMap, HeaderValue};
use vstd::prelude::*;

verus! {

/// One request that a rule has matched.
#[derive(Debug)]
pub struct RequestItem {
    /// All headers of the request.
    pub headers: HeaderMap<HeaderValue>,
    /// The request's method.
    pub method: String,
    /// The request's URI.
    pub uri: String,
}

/// A request as the contracts see it.
pub struct RequestView {
    pub headers: Seq<Entry>,
    pub method: Seq<char>,
    pub uri: Seq<char>,
}

impl View for RequestItem {
    type V = RequestView;

    open spec fn view(&self) -> RequestView {
        RequestView { headers: header_entries(self.headers), method: self.method@, uri: self.uri@ }
    }
}

impl Clone for RequestItem {
    /// A second record with the same content.
    fn clone(&self) -> (copy: Self)
        ensures
            copy@ == self@,
    {
        Self {
            headers: clone_headers(&self.headers),
            method: self.method.clone(),
            uri: self.uri.clone(),
        }
    }
}

/// A registered rule with what the server has noted of it.
#[derive(Debug)]
pub(crate) struct RuleItem {
    pub(crate) rule: MockBuilder,
    pub(crate) invocations_count: u32,
    pub(crate) invocations: Vec<RequestItem>,
}

/// A registered rule as the contracts see it.
pub struct RuleItemView {
    /// The rule.
    pub rule: RuleView,
    /// How many requests the rule has matched.
    pub invocations_count: nat,
    /// The requests that the rule has matched, oldest first.
    pub invocations: Seq<RequestView>,
}

/// The views of `items`, in their order.
pub open spec fn request_views(items: Seq<RequestItem>) -> Seq<RequestView> {
    Seq::new(items.len(), |i: int| items[i]@)
}

impl View for RuleItem {
    type V = RuleItemView;

    open(crate) spec fn view(&self) -> RuleItemView {
        RuleItemView {
            rule: self.rule@,
            invocations_count: self.invocations_count as nat,
            invocations: request_views(self.invocations@),
        }
    }
}

/// A rule after it has matched `request`: one more invocation, noted last.
pub open spec fn recorded(item: RuleItemView, request: RequestView) -> RuleItemView {
    RuleItemView {
        rule: item.rule,
        invocations_count: item.invocations_count + 1,
        invocations: item.invocations.push(request),
    }
}

/// A rule as it is when it has just been registered.
pub open spec fn fresh(rule: RuleView) -> RuleItemView {
    RuleItemView { rule, invocations_count: 0, invocations: Seq::empty() }
}

impl RuleItem {
    /// Notes one more request that the rule has matched.
    pub(crate) fn record_request(&mut self, r: RequestItem)
        requires
            old(self)@.invocations_count < u32::MAX,
        ensures
            final(self)@ == recorded(old(self)@, r@),
    {
        self.invocations_count += 1;
        self.invocations.push(r);
        assert(request_views(self.invocations@) =~= request_views(old(self).invocations@).push(
            r@,
        ));
    }
}

/// Why a rule was not registered.
#[derive(Clone, Copy, Debug, PartialEq, Eq, Structural)]
pub enum SetupError {
    /// The rule sets neither a status nor a body.
    ResponseNotSet,
}

impl SetupError {
    /// The error in words.
    pub fn message(&self) -> (text: String)
        ensures
            text@ == "Must set the status code or body before attempting to mount the rule."@,
    {
        "Must set the status code or body before attempting to mount the rule.".to_owned()
    }
}

/// What the server sends back for one request.
#[derive(Debug)]
pub struct Reply {
    /// The status that the `grpc-status` header announces.
    pub status: Code,
    /// The encoded message, if the answer has one.
    pub body: Option<Vec<u8>>,
    /// Further headers of the answer.
    pub headers: HeaderMap<HeaderValue>,
}

/// An answer as the contracts see it.
pub struct ReplyView {
    pub status: Code,
    pub body: Option<Seq<u8>>,
    pub headers: Seq<Entry>,
}

impl View for Reply {
    type V = ReplyView;

    open spec fn view(&self) -> ReplyView {
        ReplyView {
            status: self.status,
            body: match self.body {
                Some(b) => Some(b@),
                None => None,
            },
            headers: header_entries(self.headers),
        }
    }
}

/// The headers that announce an answer, each with its name and value. The
/// status goes out as the number of its code under `grpc-status`; an answer
/// without a body also names its content type, which the codec does for
/// one with a body.
pub open spec fn reply_head(reply: ReplyView) -> Seq<(Seq<char>, Seq<char>)> {
    let status = ("grpc-status"@, decimal(reply.status.number() as nat));
    if reply.body is Some {
        seq![status]
    } else {
        seq![("content-type"@, "application/grpc"@), status]
    }
}

/// The names and values of `pairs`, in their order.
pub open spec fn pair_texts(pairs: Seq<(String, String)>) -> Seq<(Seq<char>, Seq<char>)> {
    Seq::new(pairs.len(), |i: int| (pairs[i].0@, pairs[i].1@))
}

impl Reply {
    /// The headers that announce the answer.
    pub fn head(&self) -> (pairs: Vec<(String, String)>)
        ensures
            pair_texts(pairs@) == reply_head(self@),
    {
        let mut pairs: Vec<(String, String)> = Vec::new();
        if self.body.is_none() {
            pairs.push(("content-type".to_owned(), "application/grpc".to_owned()));
        }
        pairs.push(("grpc-status".to_owned(), decimal_text(self.status.number())));
        assert(pair_texts(pairs@) =~= reply_head(self@));
        pairs
    }
}

/// The answer that a rule asks for: its status, or `Okay` where it has none,
/// with its body and its headers.
pub open spec fn reply_of(rule: RuleView) -> ReplyView {
    ReplyView {
        status: match rule.status_code {
            Some(code) => code,
            None => Code::Okay,
        },
        body: rule.result,
        headers: rule.response_headers,
    }
}

/// The answer to a request that no rule matches.
pub open spec fn unimplemented_reply() -> ReplyView {
    ReplyView { status: Code::Unimplemented, body: None, headers: Seq::empty() }
}

/// The state of a mock server: its port, whether it listens, and its rules
/// in the order in which they were registered.
#[derive(Debug)]
pub struct GrpcServer {
    pub(crate) port: u16,
    pub(crate) started: bool,
    pub(crate) rules: Vec<RuleItem>,
}

/// A server as the contracts see it.
pub struct ServerView {
    pub port: u16,
    pub started: bool,
    pub rules: Seq<RuleItemView>,
}

/// The views of `items`, in their order.
pub(crate) open spec fn rule_views(items: Seq<RuleItem>) -> Seq<RuleItemView> {
    Seq::new(items.len(), |i: int| items[i]@)
}

impl View for GrpcServer {
    type V = ServerView;

    open(crate) spec fn view(&self) -> ServerView {
        ServerView { port: self.port, started: self.started, rules: rule_views(self.rules@) }
    }
}

/// The index of the first rule from `from` on that `wanted` holds of.
pub open spec fn first_where(
    rules: Seq<RuleItemView>,
    wanted: spec_fn(RuleView) -> bool,
    from: int,
) -> Option<int>
    decreases rules.len() - from,
{
    if from < 0 || from >= rules.len() {
        None
    } else if wanted(rules[from].rule) {
        Some(from)
    } else {
        first_where(rules, wanted, from + 1)
    }
}

/// The index of the rule that answers a request with this path and these
/// headers: the earliest registered rule among those that match it.
pub open spec fn first_match(rules: Seq<RuleItemView>, path: Seq<char>, headers: Seq<Entry>)
    -> Option<int> {
    first_where(rules, matching(path, headers), 0)
}

/// The test that a rule matches a request with this path and these headers.
pub open spec fn matching(path: Seq<char>, headers: Seq<Entry>) -> spec_fn(RuleView) -> bool {
    |rule: RuleView| rule_matches(rule, path, headers)
}

/// The number of requests that the rules have matched, all together.
pub open spec fn total_invocations(rules: Seq<RuleItemView>) -> nat
    decreases rules.len(),
{
    if rules.len() == 0 {
        0
    } else {
        total_invocations(rules.drop_last()) + rules.last().invocations_count
    }
}

/// The server and its answer after one request: the rule that answers
/// notes the request, and its answer goes out; where no rule matches, nothing
/// is noted and the answer says "unimplemented".
pub open spec fn dispatch(server: ServerView, path: Seq<char>, request: RequestView) -> (
    ServerView,
    ReplyView,
) {
    match first_match(server.rules, path, request.headers) {
        Some(i) => (
            ServerView { rules: server.rules.update(i, recorded(server.rules[i], request)), ..server },
            reply_of(server.rules[i].rule),
        ),
        None => (server, unimplemented_reply()),
    }
}

/// How registering `rule` relates the server before to the server after and
/// to what the caller is told: a rule that says what to answer joins at the
/// end with no invocation; any other is refused and nothing changes.
pub open spec fn mounted(
    before: ServerView,
    rule: RuleView,
    after: ServerView,
    told: Result<(), SetupError>,
) -> bool {
    if has_response(rule) {
        told is Ok && after == (ServerView { rules: before.rules.push(fresh(rule)), ..before })
    } else {
        told == Err::<(), SetupError>(SetupError::ResponseNotSet) && after == before
    }
}

/// The index that `first_where` gives is that of a rule of which `wanted`
/// holds, and of none before it; it gives none only where `wanted` holds of
/// no rule from `from` on.
pub proof fn lemma_first_where(
    rules: Seq<RuleItemView>,
    wanted: spec_fn(RuleView) -> bool,
    from: int,
)
    requires
        0 <= from,
    ensures
        match first_where(rules, wanted, from) {
            Some(i) => {
                &&& from <= i < rules.len()
                &&& wanted(rules[i].rule)
                &&& forall|j: int| from <= j < i ==> !wanted(#[trigger] rules[j].rule)
            },
            None => forall|j: int| from <= j < rules.len() ==> !wanted(#[trigger] rules[j].rule),
        },
    decreases rules.len() - from,
{
    if from < rules.len() && !wanted(rules[from].rule) {
        lemma_first_where(rules, wanted, from + 1);
    }
}

/// One more invocation of one rule is one more in total.
pub proof fn lemma_total_after_record(rules: Seq<RuleItemView>, i: int, request: RequestView)
    requires
        0 <= i < rules.len(),
    ensures
        total_invocations(rules.update(i, recorded(rules[i], request))) == total_invocations(rules)
            + 1,
    decreases rules.len(),
{
    let after = rules.update(i, recorded(rules[i], request));
    if i == rules.len() - 1 {
        assert(after.drop_last() =~= rules.drop_last());
    } else {
        lemma_total_after_record(rules.drop_last(), i, request);
        assert(after.drop_last() =~= rules.drop_last().update(
            i,
            recorded(rules.drop_last()[i], request),
        ));
    }
}

impl GrpcServer {
    #[verifier::type_invariant]
    pub(crate) open spec fn counts_fit(&self) -> bool {
        total_invocations(rule_views(self.rules@)) <= u32::MAX
    }

    /// A server for `port` that does not listen yet and has no rule.
    pub fn new(port: u16) -> (server: Self)
        ensures
            server@ == (ServerView { port, started: false, rules: Seq::empty() }),
    {
        let server = Self { port, started: false, rules: Vec::new() };
        assert(rule_views(server.rules@) =~= Seq::empty());
        server
    }

    /// The port that the server was made for.
    pub fn port(&self) -> (port: u16)
        ensures
            port == self@.port,
    {
        self.port
    }

    /// The address at which the server listens: its port on the loopback
    /// interface of IPv6.
    pub fn address(&self) -> (text: String)
        ensures
            text@ == "[::1]:"@ + decimal(self@.port as nat),
    {
        let mut text = "[::1]:".to_owned();
        push_decimal(&mut text, self.port as u32);
        text
    }

    /// Whether the server listens.
    pub fn is_started(&self) -> (started: bool)
        ensures
            started == self@.started,
    {
        self.started
    }

    /// Notes that the server listens from now on.
    pub fn mark_started(&mut self)
        ensures
            final(self)@ == (ServerView { started: true, ..old(self)@ }),
    {
        proof {
            use_type_invariant(&*self);
        }
        self.started = true;
    }

    /// Registers `r` and hands back the rule, by which its invocations are
    /// found later. A rule that sets neither status nor body is refused.
    pub fn setup<M: Mountable>(&mut self, r: M) -> (handle: Result<MockBuilder, SetupError>)
        ensures
            mounted(
                old(self)@,
                r@,
                final(self)@,
                match handle {
                    Ok(_) => Ok(()),
                    Err(e) => Err(e),
                },
            ),
            handle is Ok ==> handle->Ok_0@ == r@,
    {
        let rule = r.into_rule();
        let handle = rule.clone();
        match rule.mount(self) {
            Ok(()) => Ok(handle),
            Err(e) => Err(e),
        }
    }

    /// Appends `rule` to the rules, unless it says nothing of the answer.
    pub(crate) fn register(&mut self, rule: MockBuilder) -> (r: Result<(), SetupError>)
        ensures
            mounted(old(self)@, rule@, final(self)@, r),
    {
        if !rule.has_response() {
            return Err(SetupError::ResponseNotSet);
        }
        proof {
            use_type_invariant(&*self);
        }
        let ghost before = rule_views(self.rules@);
        let mut rules: Vec<RuleItem> = Vec::new();
        assert(rule_views(rules@) =~= Seq::empty());
        core::mem::swap(&mut self.rules, &mut rules);
        let item = RuleItem { invocations_count: 0, invocations: Vec::new(), rule };
        assert(item@.invocations =~= Seq::empty());
        assert(item@ == fresh(rule@));
        rules.push(item);
        proof {
            let after = rule_views(rules@);
            assert(after =~= before.push(fresh(rule@)));
            assert(after.drop_last() =~= before);
        }
        core::mem::swap(&mut self.rules, &mut rules);
        Ok(())
    }

    /// Forgets every rule and what was noted of it.
    pub fn reset(&mut self)
        ensures
            final(self)@ == (ServerView { rules: Seq::empty(), ..old(self)@ }),
    {
        let rules: Vec<RuleItem> = Vec::new();
        assert(rule_views(rules@) =~= Seq::empty());
        self.rules = rules;
    }

    /// Answers one request. The earliest registered rule that matches the
    /// path and the headers notes the request and gives the answer; where
    /// there is none, the answer says "unimplemented" and nothing is noted.
    pub fn handle_request(&mut self, path: &str, request: RequestItem) -> (reply: Reply)
        requires
            total_invocations(old(self)@.rules) < u32::MAX,
        ensures
            (final(self)@, reply@) == dispatch(old(self)@, path@, request@),
    {
        proof {
            use_type_invariant(&*self);
        }
        let wanted = path.to_owned();
        let ghost rules = rule_views(self.rules@);
        let ghost pred = matching(path@, request@.headers);
        let mut i: usize = 0;
        while i < self.rules.len() && !self.rules[i].rule.matches_owned(&wanted, &request.headers)
            invariant
                i <= self.rules.len(),
                rules == rule_views(self.rules@),
                wanted@ == path@,
                pred == matching(path@, request@.headers),
                first_where(rules, pred, 0) == first_where(rules, pred, i as int),
            decreases self.rules.len() - i,
        {
            assert(rules[i as int].rule == self.rules[i as int].rule@);
            i += 1;
        }
        if i < self.rules.len() {
            assert(rules[i as int].rule == self.rules[i as int].rule@);
            assert(first_match(rules, path@, request@.headers) == Some(i as int));
            let reply = self.rules[i].rule.reply();
            proof {
                lemma_total_after_record(rules, i as int, request@);
                lemma_total_at_least(rules, i as int);
            }
            let mut taken: Vec<RuleItem> = Vec::new();
            assert(rule_views(taken@) =~= Seq::empty());
            core::mem::swap(&mut self.rules, &mut taken);
            taken[i].record_request(request);
            assert(rule_views(taken@) =~= rules.update(
                i as int,
                recorded(rules[i as int], request@),
            ));
            core::mem::swap(&mut self.rules, &mut taken);
            reply
        } else {
            assert(first_match(rules, path@, request@.headers) is None);
            Reply { status: Code::Unimplemented, body: None, headers: new_headers() }
        }
    }
}

/// No rule has more invocations than all rules together.
proof fn lemma_total_at_least(rules: Seq<RuleItemView>, i: int)
    requires
        0 <= i < rules.len(),
    ensures
        rules[i].invocations_count <= total_invocations(rules),
    decreases rules.len(),
{
    if i < rules.len() - 1 {
        lemma_total_at_least(rules.drop_last(), i);
    }
}

} // verus!
