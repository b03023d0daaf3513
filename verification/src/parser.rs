//! Finding the name of a service in generated code, and sorting the
//! dependencies of a manifest.

use crate::text::{joined, texts};
use regex::Regex;
use vstd::prelude::*;

verus! {

/// The pieces of `s` between the occurrences of `sep`, the part up to `n`
/// taken: the pieces that are complete, and the one that is begun.
pub open spec fn split_upto(s: Seq<char>, sep: char, n: int) -> (Seq<Seq<char>>, Seq<char>)
    decreases n,
{
    if n <= 0 {
        (Seq::empty(), Seq::empty())
    } else {
        let (done, begun) = split_upto(s, sep, n - 1);
        if s[n - 1] == sep {
            (done.push(begun), Seq::empty())
        } else {
            (done, begun.push(s[n - 1]))
        }
    }
}

/// The pieces of `s` between the occurrences of `sep`. There is always one
/// piece more than there are occurrences.
pub open spec fn split(s: Seq<char>, sep: char) -> Seq<Seq<char>> {
    let (done, begun) = split_upto(s, sep, s.len() as int);
    done.push(begun)
}

/// The pieces of a text hold no separator, and joined by the separator they
/// give the text again.
pub proof fn lemma_split_joins(s: Seq<char>, sep: char)
    ensures
        joined(split(s, sep), seq![sep]) == s,
        forall|i: int, j: int|
            0 <= i < split(s, sep).len() && 0 <= j < split(s, sep)[i].len() ==> split(
                s,
                sep,
            )[i][j] != sep,
{
    lemma_split_upto_joins(s, sep, s.len() as int);
    assert(s.take(s.len() as int) =~= s);
}

/// `lemma_split_joins`, for the part of a text up to `n`.
proof fn lemma_split_upto_joins(s: Seq<char>, sep: char, n: int)
    requires
        0 <= n <= s.len(),
    ensures
        ({
            let (done, begun) = split_upto(s, sep, n);
            &&& joined(done.push(begun), seq![sep]) == s.take(n)
            &&& forall|j: int| 0 <= j < begun.len() ==> begun[j] != sep
            &&& forall|i: int, j: int|
                0 <= i < done.len() && 0 <= j < done[i].len() ==> done[i][j] != sep
        }),
    decreases n,
{
    let (done, begun) = split_upto(s, sep, n);
    if n == 0 {
        assert(done.push(begun)[0] =~= s.take(0));
    } else {
        let (done0, begun0) = split_upto(s, sep, n - 1);
        lemma_split_upto_joins(s, sep, n - 1);
        let before = done0.push(begun0);
        let after = done.push(begun);
        assert(s.take(n) =~= s.take(n - 1).push(s[n - 1]));
        if s[n - 1] == sep {
            assert(after.drop_last() =~= before);
            assert(joined(after, seq![sep]) =~= joined(before, seq![sep]) + seq![sep]
                + Seq::<char>::empty());
        } else {
            if done0.len() == 0 {
                assert(joined(before, seq![sep]) == begun0);
                assert(joined(after, seq![sep]) == begun);
            } else {
                assert(after.drop_last() =~= done0);
                assert(before.drop_last() =~= done0);
                assert(joined(after, seq![sep]) =~= joined(before, seq![sep]).push(s[n - 1]));
            }
        }
    }
}

/// The first piece of `pieces` from `from` on that is not empty.
pub open spec fn first_filled(pieces: Seq<Seq<char>>, from: int) -> Option<Seq<char>>
    decreases pieces.len() - from,
{
    if from < 0 || from >= pieces.len() {
        None
    } else if pieces[from].len() > 0 {
        Some(pieces[from])
    } else {
        first_filled(pieces, from + 1)
    }
}

/// The pieces of `s` between the occurrences of `sep`.
pub fn split_on(s: &str, sep: char) -> (pieces: Vec<String>)
    ensures
        texts(pieces@) == split(s@, sep),
{
    let mut pieces: Vec<String> = Vec::new();
    let mut piece = String::new();
    for c in it: s.chars()
        invariant
            it.seq() == s@,
            (texts(pieces@), piece@) == split_upto(s@, sep, it.index() as int),
    {
        let ghost before = texts(pieces@);
        if c == sep {
            pieces.push(piece);
            piece = String::new();
            assert(texts(pieces@) =~= before.push(split_upto(s@, sep, it.index() as int).1));
        } else {
            piece.push(c);
        }
    }
    let ghost before = texts(pieces@);
    pieces.push(piece);
    assert(texts(pieces@) =~= before.push(split_upto(s@, sep, s@.len() as int).1));
    pieces
}

/// The pattern of a line that opens the arm for one path of a service: after
/// white space the path in quotes, which starts with `/`, then ` => {` at the
/// end of the line.
pub const ARM_PATTERN: &'static str = "\\s\"(/[^\"]*)\" => \\{$";

/// What the regular expression `pattern` finds in `text`: for each match, in
/// their order, the text of its first group, where the group took part in the
/// match. `None` where `pattern` is no regular expression.
pub uninterp spec fn first_groups(pattern: Seq<char>, text: Seq<char>) -> Option<
    Seq<Option<Seq<char>>>,
>;

/// What `found` is to the contracts.
pub open spec fn groups_view(found: Option<Vec<Option<String>>>) -> Option<
    Seq<Option<Seq<char>>>,
> {
    match found {
        Some(groups) => Some(
            Seq::new(
                groups@.len(),
                |i: int|
                    match groups@[i] {
                        Some(text) => Some(text@),
                        None => None,
                    },
            ),
        ),
        None => None,
    }
}

/// `Regex::new` and `Regex::captures_iter`, with `Captures::get` for the
/// first group of each match.
#[verifier::external_body]
fn find_first_groups(pattern: &str, text: &str) -> (found: Option<Vec<Option<String>>>)
    ensures
        groups_view(found) == first_groups(pattern@, text@),
{
    Regex::new(pattern).ok().map(
        |re| re.captures_iter(text).map(|c| c.get(1).map(|m| m.as_str().to_string())).collect(),
    )
}

/// The name of the service in the groups found in one line: the first part of
/// the first path that has one. A path is cut at each `/`, and empty parts
/// do not count.
pub open spec fn name_in_groups(groups: Seq<Option<Seq<char>>>, from: int) -> Option<Seq<char>>
    decreases groups.len() - from,
{
    if from < 0 || from >= groups.len() {
        None
    } else {
        let here = match groups[from] {
            Some(path) => first_filled(split(path, '/'), 0),
            None => None,
        };
        if here is Some {
            here
        } else {
            name_in_groups(groups, from + 1)
        }
    }
}

/// The name of the service in `lines` from `from` on: that of the first line
/// in which one is found.
pub open spec fn name_in_lines(lines: Seq<Seq<char>>, from: int) -> Option<Seq<char>>
    decreases lines.len() - from,
{
    if from < 0 || from >= lines.len() {
        None
    } else {
        let here = match first_groups(ARM_PATTERN@, lines[from]) {
            Some(groups) => name_in_groups(groups, 0),
            None => None,
        };
        if here is Some {
            here
        } else {
            name_in_lines(lines, from + 1)
        }
    }
}

/// What `name` is to the contracts.
pub open spec fn name_view(name: Option<String>) -> Option<Seq<char>> {
    match name {
        Some(text) => Some(text@),
        None => None,
    }
}

/// The first piece of `pieces` that is not empty.
pub fn first_filled_piece(pieces: &Vec<String>) -> (piece: Option<String>)
    ensures
        name_view(piece) == first_filled(texts(pieces@), 0),
{
    let mut i: usize = 0;
    while i < pieces.len()
        invariant
            i <= pieces.len(),
            first_filled(texts(pieces@), 0) == first_filled(texts(pieces@), i as int),
        decreases pieces.len() - i,
    {
        assert(texts(pieces@)[i as int] == pieces@[i as int]@);
        if pieces[i].as_str().unicode_len() > 0 {
            return Some(pieces[i].clone());
        }
        i += 1;
    }
    None
}

/// The name of the service in the groups found in one line.
pub fn service_name_in(groups: &Vec<Option<String>>) -> (name: Option<String>)
    ensures
        name_view(name) == name_in_groups(groups_view(Some(*groups))->0, 0),
{
    let ghost views = groups_view(Some(*groups))->0;
    let mut i: usize = 0;
    while i < groups.len()
        invariant
            i <= groups.len(),
            views == groups_view(Some(*groups))->0,
            name_in_groups(views, 0) == name_in_groups(views, i as int),
        decreases groups.len() - i,
    {
        match &groups[i] {
            Some(path) => {
                let pieces = split_on(path.as_str(), '/');
                let part = first_filled_piece(&pieces);
                if part.is_some() {
                    return part;
                }
            },
            None => {},
        }
        i += 1;
    }
    None
}

/// The name of the service that the code in `f` serves, looked for from the
/// line with the index `line` on: the first part of the path of the first
/// arm that has one.
pub fn parse_svc_name(f: &str, line: usize) -> (name: Option<String>)
    ensures
        name_view(name) == name_in_lines(split(f@, '\n'), line as int),
{
    let lines = split_on(f, '\n');
    let ghost views = texts(lines@);
    let mut i: usize = line;
    while i < lines.len()
        invariant
            line <= i,
            views == texts(lines@),
            views == split(f@, '\n'),
            name_in_lines(views, line as int) == name_in_lines(views, i as int),
        decreases lines.len() - i,
    {
        assert(views[i as int] == lines@[i as int]@);
        let found = find_first_groups(ARM_PATTERN, lines[i].as_str());
        match &found {
            Some(groups) => {
                let name = service_name_in(groups);
                if name.is_some() {
                    return name;
                }
            },
            None => {},
        }
        i += 1;
    }
    None
}

/// A dependency of a crate, by where its code comes from.
#[derive(Debug)]
pub enum Dependency {
    /// From a registry or another remote place.
    Remote(String),
    /// From a directory: the name and the path.
    Local(String, String),
}

/// How a manifest states one dependency.
#[derive(Debug)]
pub enum ManifestDependency {
    /// By a version alone.
    Simple(String),
    /// In detail, with a path: the path from the manifest's directory on, and
    /// whether anything is there.
    WithPath(String, bool),
    /// In detail, without a path.
    WithoutPath,
}

/// A dependency as the contracts see it.
pub enum DependencyView {
    Remote(Seq<char>),
    Local(Seq<char>, Seq<char>),
}

impl View for Dependency {
    type V = DependencyView;

    open spec fn view(&self) -> DependencyView {
        match *self {
            Dependency::Remote(name) => DependencyView::Remote(name@),
            Dependency::Local(name, path) => DependencyView::Local(name@, path@),
        }
    }
}

/// What one entry of a manifest counts as. An entry with a version alone is
/// remote and goes by its version; one with a path is local where the path
/// leads somewhere, and is left out where it does not; any other is remote
/// and goes by its name.
pub open spec fn sorted_entry(entry: (String, ManifestDependency)) -> Option<DependencyView> {
    match entry.1 {
        ManifestDependency::Simple(version) => Some(DependencyView::Remote(version@)),
        ManifestDependency::WithPath(path, exists) => if exists {
            Some(DependencyView::Local(entry.0@, path@))
        } else {
            None
        },
        ManifestDependency::WithoutPath => Some(DependencyView::Remote(entry.0@)),
    }
}

/// What the first `n` entries of a manifest count as, in their order.
pub open spec fn sorted_entries(entries: Seq<(String, ManifestDependency)>, n: int) -> Seq<
    DependencyView,
>
    decreases n,
{
    if n <= 0 {
        Seq::empty()
    } else {
        match sorted_entry(entries[n - 1]) {
            Some(dep) => sorted_entries(entries, n - 1).push(dep),
            None => sorted_entries(entries, n - 1),
        }
    }
}

/// The views of `items`, in their order.
pub open spec fn dependency_views(items: Seq<Dependency>) -> Seq<DependencyView> {
    Seq::new(items.len(), |i: int| items[i]@)
}

/// The dependencies of a manifest, each remote or local.
pub fn parse_dependencies(entries: Vec<(String, ManifestDependency)>) -> (deps: Vec<Dependency>)
    ensures
        dependency_views(deps@) == sorted_entries(entries@, entries@.len() as int),
{
    let mut deps: Vec<Dependency> = Vec::new();
    let mut i: usize = 0;
    while i < entries.len()
        invariant
            i <= entries.len(),
            dependency_views(deps@) == sorted_entries(entries@, i as int),
        decreases entries.len() - i,
    {
        let ghost before = dependency_views(deps@);
        let name = entries[i].0.clone();
        match &entries[i].1 {
            ManifestDependency::Simple(version) => {
                deps.push(Dependency::Remote(version.clone()));
                assert(dependency_views(deps@) =~= before.push(DependencyView::Remote(version@)));
            },
            ManifestDependency::WithPath(path, exists) => {
                if *exists {
                    deps.push(Dependency::Local(name, path.clone()));
                    assert(dependency_views(deps@) =~= before.push(
                        DependencyView::Local(entries@[i as int].0@, path@),
                    ));
                }
            },
            ManifestDependency::WithoutPath => {
                deps.push(Dependency::Remote(name));
                assert(dependency_views(deps@) =~= before.push(
                    DependencyView::Remote(entries@[i as int].0@),
                ));
            },
        }
        i += 1;
    }
    deps
}

} // verus!
