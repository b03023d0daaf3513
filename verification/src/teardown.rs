//! Taking a server down: rules that never matched a request are reported.

use crate::grpc_server::{rule_views, GrpcServer, RuleItemView, ServerView};
use crate::invocations::{unmatched_count, unmatched_paths};
use crate::text::{joined, texts};
use vstd::prelude::*;
use vstd::string::StringExecFns;

verus! {

/// The report on rules that never matched: a heading, then one path per line.
pub open spec fn teardown_message(paths: Seq<Seq<char>>) -> Seq<char> {
    "Server terminated with unmatched rules: \n"@ + joined(paths, "\n"@)
}

/// A server was taken down while rules of it had matched no request.
#[derive(Debug)]
pub struct TeardownError {
    /// The paths of those rules, in the order in which they were registered.
    pub unmatched_paths: Vec<String>,
}

impl TeardownError {
    /// The error in words.
    pub fn message(&self) -> (text: String)
        ensures
            text@ == teardown_message(texts(self.unmatched_paths@)),
    {
        let ghost paths = texts(self.unmatched_paths@);
        let mut text = "Server terminated with unmatched rules: \n".to_owned();
        let mut i: usize = 0;
        assert(paths.take(0) =~= Seq::empty());
        while i < self.unmatched_paths.len()
            invariant
                i <= self.unmatched_paths.len(),
                paths == texts(self.unmatched_paths@),
                text@ == teardown_message(paths.take(i as int)),
            decreases self.unmatched_paths.len() - i,
        {
            proof {
                assert(paths.take(i + 1).drop_last() =~= paths.take(i as int));
                assert(paths.take(i + 1).last() == self.unmatched_paths@[i as int]@);
            }
            if i > 0 {
                text.append("\n");
            }
            text.append(self.unmatched_paths[i].as_str());
            assert(text@ =~= teardown_message(paths.take(i + 1)));
            i += 1;
        }
        assert(paths.take(i as int) =~= paths);
        text
    }
}

/// What taking down `server` reports: where it listens and rules of it
/// have matched no request, the paths of those rules.
pub open spec fn torn_down(server: ServerView) -> Result<(), Seq<Seq<char>>> {
    if server.started && unmatched_count(server.rules) > 0 {
        Err(unmatched_paths(server.rules))
    } else {
        Ok(())
    }
}

/// There are as many unmatched paths as unmatched rules.
proof fn lemma_unmatched_paths_len(rules: Seq<RuleItemView>)
    ensures
        unmatched_paths(rules).len() == unmatched_count(rules),
    decreases rules.len(),
{
    if rules.len() > 0 {
        lemma_unmatched_paths_len(rules.drop_last());
    }
}

impl GrpcServer {
    /// Takes the server down. A server that listens must have used each of
    /// its rules: where one has matched no request, the paths of all such rules
    /// come back as an error.
    pub fn shutdown(self) -> (r: Result<(), TeardownError>)
        ensures
            match torn_down(self@) {
                Ok(_) => r is Ok,
                Err(paths) => r is Err && texts(r->Err_0.unmatched_paths@) == paths,
            },
    {
        let ghost rules = rule_views(self.rules@);
        proof {
            lemma_unmatched_paths_len(rules);
        }
        if !self.started {
            return Ok(());
        }
        let mut paths: Vec<String> = Vec::new();
        let mut i: usize = 0;
        assert(rules.take(0) =~= Seq::empty());
        while i < self.rules.len()
            invariant
                i <= self.rules.len(),
                rules == rule_views(self.rules@),
                texts(paths@) == unmatched_paths(rules.take(i as int)),
            decreases self.rules.len() - i,
        {
            assert(rules.take(i + 1).drop_last() =~= rules.take(i as int));
            if self.rules[i].invocations_count == 0 {
                let ghost before = texts(paths@);
                let path = self.rules[i].rule.path().clone();
                paths.push(path);
                assert(texts(paths@) =~= before.push(rules[i as int].rule.path));
            }
            i += 1;
        }
        assert(rules.take(i as int) =~= rules);
        if paths.len() > 0 {
            Err(TeardownError { unmatched_paths: paths })
        } else {
            Ok(())
        }
    }
}

} // verus!
