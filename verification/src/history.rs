//! What a run of requests leaves behind in a server.

use crate::builder::{rule_matches, RuleView};
use crate::grpc_server::{
    dispatch, first_match, first_where, lemma_first_where, lemma_total_after_record, matching,
    total_invocations, RequestView, RuleItemView, ServerView,
};
use crate::headers::Entry;
use vstd::prelude::*;

verus! {

/// One request as the dispatcher takes it: its path and what is noted of it.
pub type Call = (Seq<char>, RequestView);

/// The rule that answers a request is the earliest registered rule that
/// matches it: the request has the rule's path and carries each of the rule's
/// headers with the rule's value. No rule answers only where none matches.
pub proof fn lemma_first_match_wins(
    rules: Seq<RuleItemView>,
    path: Seq<char>,
    headers: Seq<Entry>,
)
    ensures
        match first_match(rules, path, headers) {
            Some(i) => {
                &&& 0 <= i < rules.len()
                &&& rule_matches(rules[i].rule, path, headers)
                &&& forall|j: int|
                    0 <= j < i ==> !rule_matches(#[trigger] rules[j].rule, path, headers)
            },
            None => forall|j: int|
                0 <= j < rules.len() ==> !rule_matches(#[trigger] rules[j].rule, path, headers),
        },
{
    lemma_first_where(rules, matching(path, headers), 0);
}

/// The rules of `rules`, without what was noted of them.
pub open spec fn rules_of(rules: Seq<RuleItemView>) -> Seq<RuleView> {
    Seq::new(rules.len(), |i: int| rules[i].rule)
}

/// The server after it has answered `calls`, one after the other.
pub open spec fn after_calls(server: ServerView, calls: Seq<Call>) -> ServerView
    decreases calls.len(),
{
    if calls.len() == 0 {
        server
    } else {
        dispatch(after_calls(server, calls.drop_last()), calls.last().0, calls.last().1).0
    }
}

/// How many of `calls` a rule of `rules` answers.
pub open spec fn answered(rules: Seq<RuleItemView>, calls: Seq<Call>) -> nat
    decreases calls.len(),
{
    if calls.len() == 0 {
        0
    } else if first_match(rules, calls.last().0, calls.last().1.headers) is Some {
        answered(rules, calls.drop_last()) + 1
    } else {
        answered(rules, calls.drop_last())
    }
}

/// What is noted of `calls`, in their order.
pub open spec fn requests_of(calls: Seq<Call>) -> Seq<RequestView> {
    Seq::new(calls.len(), |i: int| calls[i].1)
}

/// Which rule answers a request depends on the rules alone, not on what was noted of them.
pub proof fn lemma_first_where_by_rules(
    a: Seq<RuleItemView>,
    b: Seq<RuleItemView>,
    wanted: spec_fn(RuleView) -> bool,
    from: int,
)
    requires
        rules_of(a) == rules_of(b),
    ensures
        first_where(a, wanted, from) == first_where(b, wanted, from),
    decreases a.len() - from,
{
    assert(a.len() == rules_of(a).len());
    assert(b.len() == rules_of(b).len());
    if 0 <= from < a.len() {
        assert(a[from].rule == rules_of(a)[from]);
        assert(b[from].rule == rules_of(b)[from]);
        if !wanted(a[from].rule) {
            lemma_first_where_by_rules(a, b, wanted, from + 1);
        }
    }
}

/// Answering requests changes neither the rules nor their order, nor the
/// port, nor whether the server listens.
pub proof fn lemma_calls_keep_rules(server: ServerView, calls: Seq<Call>)
    ensures
        rules_of(after_calls(server, calls).rules) == rules_of(server.rules),
        after_calls(server, calls).rules.len() == server.rules.len(),
        after_calls(server, calls).port == server.port,
        after_calls(server, calls).started == server.started,
    decreases calls.len(),
{
    if calls.len() > 0 {
        let before = after_calls(server, calls.drop_last());
        lemma_calls_keep_rules(server, calls.drop_last());
        lemma_first_match_wins(before.rules, calls.last().0, calls.last().1.headers);
        let after = after_calls(server, calls);
        assert(rules_of(after.rules) =~= rules_of(before.rules));
    }
}

/// After a run of requests that one rule answers each, that rule has
/// one invocation more for each request, and has noted them in their order; a
/// rule that was fresh before has as many invocations as there were requests.
pub proof fn lemma_count_after_calls(server: ServerView, calls: Seq<Call>, i: int)
    requires
        0 <= i < server.rules.len(),
        forall|k: int|
            0 <= k < calls.len() ==> first_match(
                server.rules,
                (#[trigger] calls[k]).0,
                calls[k].1.headers,
            ) == Some(i),
    ensures
        after_calls(server, calls).rules.len() == server.rules.len(),
        after_calls(server, calls).rules[i].invocations_count
            == server.rules[i].invocations_count + calls.len(),
        after_calls(server, calls).rules[i].invocations == server.rules[i].invocations
            + requests_of(calls),
        forall|j: int|
            0 <= j < server.rules.len() && j != i ==> after_calls(server, calls).rules[j]
                == server.rules[j],
    decreases calls.len(),
{
    if calls.len() == 0 {
        assert(server.rules[i].invocations + requests_of(calls) =~= server.rules[i].invocations);
    } else {
        let earlier = calls.drop_last();
        let before = after_calls(server, earlier);
        assert forall|k: int| 0 <= k < earlier.len() implies first_match(
            server.rules,
            (#[trigger] earlier[k]).0,
            earlier[k].1.headers,
        ) == Some(i) by {
            assert(earlier[k] == calls[k]);
        }
        lemma_count_after_calls(server, earlier, i);
        lemma_calls_keep_rules(server, earlier);
        let last = calls.last();
        assert(last == calls[calls.len() - 1]);
        lemma_first_where_by_rules(before.rules, server.rules, matching(last.0, last.1.headers), 0);
        assert(first_match(before.rules, last.0, last.1.headers) == Some(i));
        assert(requests_of(calls) =~= requests_of(earlier).push(last.1));
        assert(server.rules[i].invocations + requests_of(calls) =~= (server.rules[i].invocations
            + requests_of(earlier)).push(last.1));
    }
}

/// After a run of requests, the invocations of all rules together are as many
/// more as there were requests that a rule answered.
pub proof fn lemma_total_after_calls(server: ServerView, calls: Seq<Call>)
    ensures
        total_invocations(after_calls(server, calls).rules) == total_invocations(server.rules)
            + answered(server.rules, calls),
    decreases calls.len(),
{
    if calls.len() > 0 {
        let earlier = calls.drop_last();
        let before = after_calls(server, earlier);
        let last = calls.last();
        lemma_total_after_calls(server, earlier);
        lemma_calls_keep_rules(server, earlier);
        lemma_first_where_by_rules(before.rules, server.rules, matching(last.0, last.1.headers), 0);
        lemma_first_match_wins(before.rules, last.0, last.1.headers);
        match first_match(before.rules, last.0, last.1.headers) {
            Some(i) => {
                lemma_total_after_record(before.rules, i, last.1);
            },
            None => {},
        }
    }
}

} // verus!
