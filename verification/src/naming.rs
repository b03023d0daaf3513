//! The names that the generated code of a service uses.

use crate::text::concat;
use vstd::prelude::*;
use vstd::string::StringExecFns;

verus! {

/// Whether `char::is_uppercase` holds of `c`.
pub uninterp spec fn is_uppercase_char(c: char) -> bool;

/// The first character that `char::to_lowercase` yields for `c`.
pub uninterp spec fn lowercase_char(c: char) -> char;

/// `char::is_uppercase`.
pub assume_specification[ char::is_uppercase ](c: char) -> (b: bool)
    ensures
        b == is_uppercase_char(c),
;

/// `char::to_lowercase`, of which the first character is taken. The
/// iterator that it returns always yields one.
#[verifier::external_body]
fn to_lowercase_first(c: char) -> (lower: char)
    ensures
        lower == lowercase_char(c),
{
    c.to_lowercase().next().unwrap()
}

/// What the character at `i` becomes in snake case: an upper-case character
/// becomes its lower-case form, after an underscore unless it is the first;
/// any other character stays.
pub open spec fn snake_case_at(s: Seq<char>, i: int) -> Seq<char> {
    if is_uppercase_char(s[i]) {
        if i > 0 {
            seq!['_', lowercase_char(s[i])]
        } else {
            seq![lowercase_char(s[i])]
        }
    } else {
        seq![s[i]]
    }
}

/// The first `n` characters of `s` in snake case.
pub open spec fn snake_case_upto(s: Seq<char>, n: int) -> Seq<char>
    decreases n,
{
    if n <= 0 {
        Seq::empty()
    } else {
        snake_case_upto(s, n - 1) + snake_case_at(s, n - 1)
    }
}

/// `s` in snake case.
pub open spec fn snake_case(s: Seq<char>) -> Seq<char> {
    snake_case_upto(s, s.len() as int)
}

/// The path under which a method of a service is called:
/// `/package.Service/Method`.
pub open spec fn rpc_path_spec(package: Seq<char>, service: Seq<char>, method: Seq<char>) -> Seq<
    char,
> {
    seq!['/'] + package + seq!['.'] + service + seq!['/'] + method
}

/// The prefix that all methods of a service share: `package.Service`.
pub open spec fn service_prefix_spec(package: Seq<char>, service: Seq<char>) -> Seq<char> {
    package + seq!['.'] + service
}

/// `s` in snake case: `SayHello` becomes `say_hello`.
pub fn to_snake_case(s: &str) -> (result: String)
    ensures
        result@ == snake_case(s@),
{
    let mut result = String::new();
    let mut first = true;
    for ch in it: s.chars()
        invariant
            it.seq() == s@,
            first == (it.index() == 0),
            result@ == snake_case_upto(s@, it.index() as int),
    {
        if ch.is_uppercase() {
            if !first {
                result.push('_');
            }
            result.push(to_lowercase_first(ch));
        } else {
            result.push(ch);
        }
        first = false;
        assert(result@ =~= snake_case_upto(s@, it.index() as int) + snake_case_at(
            s@,
            it.index() as int,
        ));
    }
    result
}

/// The path under which a method of a service is called.
pub fn rpc_path(package: &str, service: &str, method: &str) -> (path: String)
    ensures
        path@ == rpc_path_spec(package@, service@, method@),
{
    let mut path = String::new();
    path.push('/');
    path.append(package);
    path.push('.');
    path.append(service);
    path.push('/');
    path.append(method);
    assert(path@ =~= rpc_path_spec(package@, service@, method@));
    path
}

/// The prefix that all methods of a service share.
pub fn service_prefix(package: &str, service: &str) -> (prefix: String)
    ensures
        prefix@ == service_prefix_spec(package@, service@),
{
    let mut prefix = package.to_owned();
    prefix.push('.');
    prefix.append(service);
    assert(prefix@ =~= service_prefix_spec(package@, service@));
    prefix
}

/// The name of the method that an `attach` attribute with the word `ident`
/// asks for: the word and `_order`.
pub fn attach_method_name(ident: &str) -> (name: String)
    ensures
        name@ == ident@ + "_order"@,
{
    concat(ident, "_order")
}

} // verus!
