//! What a server has noted: the requests that each rule has matched.

use crate::builder::{same_rule, MockBuilder, RuleView};
use crate::grpc_server::{
    first_where, lemma_first_where, request_views, rule_views, total_invocations, GrpcServer,
    RequestItem, RequestView, RuleItemView,
};
use vstd::prelude::*;

verus! {

/// The test that a rule counts as the same rule as `r`.
pub open spec fn same_as(r: RuleView) -> spec_fn(RuleView) -> bool {
    |rule: RuleView| same_rule(rule, r)
}

/// The requests noted for `r`: those of the earliest registered rule that
/// counts as the same rule, oldest first; none where no such rule is registered.
pub open spec fn found(rules: Seq<RuleItemView>, r: RuleView) -> Option<Seq<RequestView>> {
    match first_where(rules, same_as(r), 0) {
        Some(i) => Some(rules[i].invocations),
        None => None,
    }
}

/// Whether `out` is what a search for `r` hands back.
pub open spec fn is_found(rules: Seq<RuleItemView>, r: RuleView, out: Option<Vec<RequestItem>>)
    -> bool {
    match found(rules, r) {
        Some(requests) => out is Some && request_views(out->0@) == requests,
        None => out is None,
    }
}

/// The number of rules that have matched no request.
pub open spec fn unmatched_count(rules: Seq<RuleItemView>) -> nat
    decreases rules.len(),
{
    if rules.len() == 0 {
        0
    } else if rules.last().invocations_count == 0 {
        unmatched_count(rules.drop_last()) + 1
    } else {
        unmatched_count(rules.drop_last())
    }
}

/// The paths of the rules that have matched no request, in the order of the rules.
pub open spec fn unmatched_paths(rules: Seq<RuleItemView>) -> Seq<Seq<char>>
    decreases rules.len(),
{
    if rules.len() == 0 {
        Seq::empty()
    } else if rules.last().invocations_count == 0 {
        unmatched_paths(rules.drop_last()).push(rules.last().rule.path)
    } else {
        unmatched_paths(rules.drop_last())
    }
}

/// Why no single request could be handed back for a rule.
#[derive(Clone, Copy, Debug, PartialEq, Eq, Structural)]
pub enum FindError {
    /// The rule has matched no request.
    NoRequest,
    /// The rule has matched more than one request.
    MoreThanOne,
    /// The rule is not registered with the server.
    NotRegistered,
}

impl FindError {
    /// The error in words.
    pub fn message(&self) -> (text: String)
        ensures
            text@ == match *self {
                FindError::NoRequest => "No request maching the given criteria."@,
                FindError::MoreThanOne => "More then one request matching the criteria."@,
                FindError::NotRegistered =>
                    "The given MockBuilder is not registered with the mock server."@,
            },
    {
        match self {
            FindError::NoRequest => "No request maching the given criteria.".to_owned(),
            FindError::MoreThanOne => "More then one request matching the criteria.".to_owned(),
            FindError::NotRegistered =>
                "The given MockBuilder is not registered with the mock server.".to_owned(),
        }
    }
}

/// What a search for the single request of `r` hands back.
pub open spec fn found_one(rules: Seq<RuleItemView>, r: RuleView) -> Result<
    RequestView,
    FindError,
> {
    match found(rules, r) {
        None => Err(FindError::NotRegistered),
        Some(requests) => if requests.len() == 0 {
            Err(FindError::NoRequest)
        } else if requests.len() > 1 {
            Err(FindError::MoreThanOne)
        } else {
            Ok(requests[0])
        },
    }
}

impl GrpcServer {
    /// The requests that `r` has matched, oldest first; `None` where `r` is not
    /// registered. A rule is looked up by path, status and body.
    pub fn find(&self, r: &MockBuilder) -> (out: Option<Vec<RequestItem>>)
        ensures
            is_found(self@.rules, r@, out),
    {
        let ghost rules = rule_views(self.rules@);
        let mut i: usize = 0;
        while i < self.rules.len() && !self.rules[i].rule.same_as(r)
            invariant
                i <= self.rules.len(),
                rules == rule_views(self.rules@),
                first_where(rules, same_as(r@), 0) == first_where(rules, same_as(r@), i as int),
            decreases self.rules.len() - i,
        {
            assert(rules[i as int].rule == self.rules[i as int].rule@);
            i += 1;
        }
        if i < self.rules.len() {
            assert(rules[i as int].rule == self.rules[i as int].rule@);
            let item = &self.rules[i];
            let mut result: Vec<RequestItem> = Vec::new();
            let mut k: usize = 0;
            while k < item.invocations.len()
                invariant
                    k <= item.invocations.len(),
                    result.len() == k,
                    forall|j: int| 0 <= j < k ==> result@[j]@ == item.invocations@[j]@,
                decreases item.invocations.len() - k,
            {
                result.push(item.invocations[k].clone());
                k += 1;
            }
            assert(request_views(result@) =~= rules[i as int].invocations);
            Some(result)
        } else {
            None
        }
    }

    /// The one request that `r` has matched, or why there is no such one.
    pub fn try_find_one(&self, r: &MockBuilder) -> (out: Result<RequestItem, FindError>)
        ensures
            match found_one(self@.rules, r@) {
                Ok(request) => out is Ok && out->Ok_0@ == request,
                Err(e) => out is Err && out->Err_0 == e,
            },
    {
        match self.find(r) {
            Some(mut m) => {
                if m.len() == 0 {
                    Err(FindError::NoRequest)
                } else if m.len() > 1 {
                    Err(FindError::MoreThanOne)
                } else {
                    match m.pop() {
                        Some(request) => Ok(request),
                        None => Err(FindError::NoRequest),
                    }
                }
            },
            None => Err(FindError::NotRegistered),
        }
    }

    /// The one request that `r` has matched.
    pub fn find_one(&self, r: &MockBuilder) -> (request: RequestItem)
        requires
            found_one(self@.rules, r@) is Ok,
        ensures
            Ok::<RequestView, FindError>(request@) == found_one(self@.rules, r@),
    {
        match self.try_find_one(r) {
            Ok(request) => request,
            Err(_) => vstd::pervasive::unreached(),
        }
    }

    /// The number of requests that the rules have matched, all together.
    pub fn find_request_count(&self) -> (count: u32)
        ensures
            count == total_invocations(self@.rules),
    {
        proof {
            use_type_invariant(self);
        }
        let ghost rules = rule_views(self.rules@);
        let mut count: u32 = 0;
        let mut i: usize = 0;
        while i < self.rules.len()
            invariant
                i <= self.rules.len(),
                rules == rule_views(self.rules@),
                total_invocations(rules) <= u32::MAX,
                count == total_invocations(rules.take(i as int)),
            decreases self.rules.len() - i,
        {
            proof {
                assert(rules.take(i + 1).drop_last() =~= rules.take(i as int));
                lemma_total_grows(rules, i + 1);
            }
            count += self.rules[i].invocations_count;
            i += 1;
        }
        assert(rules.take(i as int) =~= rules);
        count
    }

    /// The number of rules registered with the server.
    pub fn rules_len(&self) -> (n: usize)
        ensures
            n == self@.rules.len(),
    {
        self.rules.len()
    }

    /// The number of rules that have matched no request so far.
    pub fn rules_unmatched(&self) -> (n: usize)
        ensures
            n == unmatched_count(self@.rules),
    {
        let ghost rules = rule_views(self.rules@);
        let mut n: usize = 0;
        let mut i: usize = 0;
        while i < self.rules.len()
            invariant
                i <= self.rules.len(),
                rules == rule_views(self.rules@),
                n == unmatched_count(rules.take(i as int)),
                n <= i,
            decreases self.rules.len() - i,
        {
            assert(rules.take(i + 1).drop_last() =~= rules.take(i as int));
            if self.rules[i].invocations_count == 0 {
                n += 1;
            }
            i += 1;
        }
        assert(rules.take(i as int) =~= rules);
        n
    }
}

/// The invocations of the first `n` rules are no more than those of all.
proof fn lemma_total_grows(rules: Seq<RuleItemView>, n: int)
    requires
        0 <= n <= rules.len(),
    ensures
        total_invocations(rules.take(n)) <= total_invocations(rules),
    decreases rules.len() - n,
{
    if n < rules.len() {
        lemma_total_grows(rules, n + 1);
        assert(rules.take(n + 1).drop_last() =~= rules.take(n));
    } else {
        assert(rules.take(n) =~= rules);
    }
}

impl PartialEq for MockBuilder {
    /// Two rules are equal where path, status and body are; their headers are not compared.
    fn eq(&self, other: &Self) -> (same: bool) {
        self.same_as(other)
    }
}

impl vstd::std_specs::cmp::PartialEqSpecImpl for MockBuilder {
    open spec fn obeys_eq_spec() -> bool {
        true
    }

    open spec fn eq_spec(&self, other: &Self) -> bool {
        same_rule(self@, other@)
    }
}

/// Two searches for the same rule in the same server hand back the same requests.
pub proof fn lemma_find_repeats(
    rules: Seq<RuleItemView>,
    r: RuleView,
    first: Option<Vec<RequestItem>>,
    second: Option<Vec<RequestItem>>,
)
    requires
        is_found(rules, r, first),
        is_found(rules, r, second),
    ensures
        first is Some == second is Some,
        first is Some ==> request_views(first->0@) == request_views(second->0@),
{
}

/// A server without rules knows no rule, whatever was registered before.
pub proof fn lemma_nothing_found_without_rules(r: RuleView)
    ensures
        found(Seq::<RuleItemView>::empty(), r) is None,
{
}

/// A rule that is found is registered: the requests handed back are those of
/// a rule with the same path, status and body, and of the earliest such rule.
pub proof fn lemma_found_is_earliest(rules: Seq<RuleItemView>, r: RuleView)
    ensures
        match first_where(rules, same_as(r), 0) {
            Some(i) => {
                &&& 0 <= i < rules.len()
                &&& same_rule(rules[i].rule, r)
                &&& found(rules, r) == Some(rules[i].invocations)
                &&& forall|j: int| 0 <= j < i ==> !same_rule(#[trigger] rules[j].rule, r)
            },
            None => {
                &&& found(rules, r) is None
                &&& forall|j: int| 0 <= j < rules.len() ==> !same_rule(#[trigger] rules[j].rule, r)
            },
        },
{
    lemma_first_where(rules, same_as(r), 0);
}

} // verus!
