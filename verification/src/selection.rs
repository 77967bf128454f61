//! The repositories that a run is asked to work on, chosen by name.

use crate::config::{self, clone_repos, RepoConfig};
use crate::text;
use vstd::prelude::*;

verus! {

/// Whether `a` stands before `b` in the order of their characters.
pub open spec fn comes_before(a: Seq<char>, b: Seq<char>) -> bool
    decreases a.len(),
{
    if b.len() == 0 {
        false
    } else if a.len() == 0 {
        true
    } else if a[0] != b[0] {
        a[0] < b[0]
    } else {
        comes_before(a.skip(1), b.skip(1))
    }
}

/// The ordered names with one more, which is not put in twice.
pub open spec fn inserted(names: Seq<Seq<char>>, name: Seq<char>) -> Seq<Seq<char>>
    decreases names.len(),
{
    if names.len() == 0 {
        seq![name]
    } else if names[0] == name {
        names
    } else if comes_before(name, names[0]) {
        seq![name] + names
    } else {
        seq![names[0]] + inserted(names.skip(1), name)
    }
}

/// The names that no repository has, in order and each once.
pub open spec fn unknown_names(
    wanted: Seq<Seq<char>>,
    repos: Seq<config::RepoConfigView>,
) -> Seq<Seq<char>>
    decreases wanted.len(),
{
    if wanted.len() == 0 {
        Seq::empty()
    } else {
        let rest = unknown_names(wanted.drop_last(), repos);
        if is_known(repos, wanted.last()) {
            rest
        } else {
            inserted(rest, wanted.last())
        }
    }
}

/// Whether a repository has this name.
pub open spec fn is_known(repos: Seq<config::RepoConfigView>, name: Seq<char>) -> bool {
    exists|i: int| 0 <= i < repos.len() && #[trigger] repos[i].name == name
}

/// The repositories with one of the names, in their own order.
pub open spec fn named_repos(
    repos: Seq<config::RepoConfigView>,
    wanted: Seq<Seq<char>>,
) -> Seq<config::RepoConfigView>
    decreases repos.len(),
{
    if repos.len() == 0 {
        Seq::empty()
    } else {
        let rest = named_repos(repos.drop_last(), wanted);
        if wanted.contains(repos.last().name) {
            rest.push(repos.last())
        } else {
            rest
        }
    }
}

/// The repositories asked for by name, all of them where no name is given, or
/// what is said of names that no repository has.
pub open spec fn selected(
    repos: Seq<config::RepoConfigView>,
    only: Seq<Seq<char>>,
) -> Result<Seq<config::RepoConfigView>, Seq<char>> {
    if only.len() == 0 {
        Ok(repos)
    } else if unknown_names(only, repos).len() > 0 {
        Err("unknown repo name(s): "@ + text::joined(unknown_names(only, repos), ", "@))
    } else {
        Ok(named_repos(repos, only))
    }
}

fn before(a: &Vec<char>, b: &Vec<char>) -> (r: bool)
    ensures
        r == comes_before(a@, b@),
{
    let mut i: usize = 0;
    assert(a@.skip(0) == a@ && b@.skip(0) == b@);
    while i < a.len() && i < b.len() && a[i] == b[i]
        invariant
            i <= a@.len(),
            i <= b@.len(),
            comes_before(a@.skip(i as int), b@.skip(i as int)) == comes_before(a@, b@),
        decreases a@.len() - i,
    {
        assert(a@.skip(i as int).skip(1) == a@.skip(i + 1));
        assert(b@.skip(i as int).skip(1) == b@.skip(i + 1));
        i = i + 1;
    }
    if i >= b.len() {
        false
    } else if i >= a.len() {
        true
    } else {
        a[i] < b[i]
    }
}

/// What is inserted behind names that stand before it.
proof fn lemma_inserted(names: Seq<Seq<char>>, name: Seq<char>, i: int)
    requires
        0 <= i <= names.len(),
        forall|j: int|
            0 <= j < i ==> #[trigger] names[j] != name && !comes_before(name, names[j]),
    ensures
        inserted(names, name) == names.take(i) + inserted(names.skip(i), name),
    decreases i,
{
    if i > 0 {
        lemma_inserted(names.skip(1), name, i - 1);
        assert(names.skip(1).skip(i - 1) == names.skip(i));
        assert(names.take(i) == seq![names[0]] + names.skip(1).take(i - 1));
        assert(names[0] != name && !comes_before(name, names[0]));
        assert(inserted(names, name) =~= names.take(i) + inserted(names.skip(i), name));
    } else {
        assert(names.skip(0) == names);
        assert(inserted(names, name) =~= names.take(0) + inserted(names.skip(0), name));
    }
}

fn insert_name(names: &mut Vec<String>, name: &String)
    ensures
        text::texts(final(names)@) == inserted(text::texts(old(names)@), name@),
{
    let ghost views = text::texts(names@);
    let chars = text::chars_of(name.as_str());
    let mut i: usize = 0;
    while i < names.len()
        invariant
            *names == *old(names),
            views == text::texts(names@),
            chars@ == name@,
            i <= names@.len(),
            forall|j: int|
                0 <= j < i ==> #[trigger] views[j] != name@ && !comes_before(name@, views[j]),
        ensures
            *names == *old(names),
            i <= names@.len(),
            forall|j: int|
                0 <= j < i ==> #[trigger] views[j] != name@ && !comes_before(name@, views[j]),
            i < views.len() ==> views[i as int] != name@ && comes_before(name@, views[i as int]),
        decreases names@.len() - i,
    {
        assert(views[i as int] == names@[i as int]@);
        if text::same_text(names[i].as_str(), name.as_str()) {
            proof {
                lemma_inserted(views, name@, i as int);
                assert(views.skip(i as int)[0] == views[i as int]);
                assert(views.take(i as int) + views.skip(i as int) == views);
            }
            return;
        }
        let other = text::chars_of(names[i].as_str());
        if before(&chars, &other) {
            break;
        }
        i = i + 1;
    }
    proof {
        lemma_inserted(views, name@, i as int);
        if i < views.len() {
            assert(views.skip(i as int)[0] == views[i as int]);
        }
    }
    names.insert(i, name.clone());
    assert(text::texts(names@) =~= inserted(views, name@));
}

fn known(repos: &Vec<RepoConfig>, name: &String) -> (r: bool)
    ensures
        r == is_known(config::repo_views(repos@), name@),
{
    let ghost views = config::repo_views(repos@);
    for i in 0..repos.len()
        invariant
            views == config::repo_views(repos@),
            forall|j: int| 0 <= j < i ==> #[trigger] views[j].name != name@,
    {
        assert(views[i as int].name == repos@[i as int].name@);
        if text::same_text(repos[i].name.as_str(), name.as_str()) {
            return true;
        }
    }
    false
}

fn listed(names: &Vec<String>, name: &String) -> (r: bool)
    ensures
        r == text::texts(names@).contains(name@),
{
    let ghost views = text::texts(names@);
    for i in 0..names.len()
        invariant
            views == text::texts(names@),
            forall|j: int| 0 <= j < i ==> #[trigger] views[j] != name@,
    {
        assert(views[i as int] == names@[i as int]@);
        if text::same_text(names[i].as_str(), name.as_str()) {
            return true;
        }
    }
    false
}

/// Takes the repositories asked for by name; all of them where no name is
/// given. A name that no repository has is an error, which tells all such
/// names.
pub fn select_repos(repos: &Vec<RepoConfig>, only: &Vec<String>) -> (r: Result<
    Vec<RepoConfig>,
    String,
>)
    ensures
        match selected(config::repo_views(repos@), text::texts(only@)) {
            Ok(chosen) => r is Ok && config::repo_views(r->Ok_0@) == chosen,
            Err(words) => r is Err && r->Err_0@ == words,
        },
{
    if only.len() == 0 {
        return Ok(clone_repos(repos));
    }
    let ghost all = config::repo_views(repos@);
    let ghost wanted = text::texts(only@);
    let mut missing: Vec<String> = Vec::new();
    assert(text::texts(missing@) =~= Seq::empty());
    for i in 0..only.len()
        invariant
            all == config::repo_views(repos@),
            wanted == text::texts(only@),
            text::texts(missing@) == unknown_names(wanted.take(i as int), all),
    {
        assert(wanted.take(i + 1).drop_last() == wanted.take(i as int));
        assert(wanted.take(i + 1).last() == only@[i as int]@);
        if !known(repos, &only[i]) {
            insert_name(&mut missing, &only[i]);
        }
    }
    assert(wanted.take(wanted.len() as int) == wanted);
    if missing.len() > 0 {
        return Err(
            "unknown repo name(s): ".to_owned().concat(text::join_text(&missing, ", ").as_str()),
        );
    }
    let mut chosen: Vec<RepoConfig> = Vec::new();
    assert(config::repo_views(chosen@) =~= Seq::empty());
    for i in 0..repos.len()
        invariant
            all == config::repo_views(repos@),
            wanted == text::texts(only@),
            config::repo_views(chosen@) == named_repos(all.take(i as int), wanted),
    {
        assert(all.take(i + 1).drop_last() == all.take(i as int));
        assert(all.take(i + 1).last() == repos@[i as int]@);
        if listed(only, &repos[i].name) {
            let ghost before = config::repo_views(chosen@);
            chosen.push(repos[i].clone());
            assert(config::repo_views(chosen@) =~= before.push(repos@[i as int]@));
        }
    }
    assert(all.take(all.len() as int) == all);
    Ok(chosen)
}

proof fn lemma_before_is_total(a: Seq<char>, b: Seq<char>)
    ensures
        a == b ==> !comes_before(a, b),
        a != b ==> comes_before(a, b) != comes_before(b, a),
    decreases a.len(),
{
    if a.len() > 0 && b.len() > 0 && a[0] == b[0] {
        lemma_before_is_total(a.skip(1), b.skip(1));
        if a.skip(1) == b.skip(1) {
            assert(a == seq![a[0]] + a.skip(1));
            assert(b == seq![b[0]] + b.skip(1));
        }
    } else if a.len() == 0 && b.len() == 0 {
        assert(a == b);
    }
}

proof fn lemma_before_is_transitive(a: Seq<char>, b: Seq<char>, c: Seq<char>)
    requires
        comes_before(a, b),
        comes_before(b, c),
    ensures
        comes_before(a, c),
    decreases a.len(),
{
    if a.len() > 0 && a[0] == b[0] && b[0] == c[0] {
        lemma_before_is_transitive(a.skip(1), b.skip(1), c.skip(1));
    }
}

/// Whether each name stands before all that follow it.
pub open spec fn is_ordered(names: Seq<Seq<char>>) -> bool {
    forall|i: int, j: int|
        0 <= i < j < names.len() ==> comes_before(#[trigger] names[i], #[trigger] names[j])
}

proof fn lemma_inserted_contains(names: Seq<Seq<char>>, name: Seq<char>, other: Seq<char>)
    ensures
        inserted(names, name).contains(other) <==> names.contains(other) || other == name,
    decreases names.len(),
{
    let all = inserted(names, name);
    if names.len() == 0 {
        assert(all[0] == name);
    } else if names[0] == name {
        assert(names.contains(names[0]));
    } else if comes_before(name, names[0]) {
        assert(all[0] == name);
        if names.contains(other) {
            assert(all[names.index_of(other) + 1] == other);
        }
        if all.contains(other) && other != name {
            assert(names[all.index_of(other) - 1] == other);
        }
    } else {
        let rest = names.skip(1);
        lemma_inserted_contains(rest, name, other);
        let tail = inserted(rest, name);
        assert(all[0] == names[0]);
        if names.contains(other) && other != names[0] {
            assert(rest[names.index_of(other) - 1] == other);
        }
        if rest.contains(other) {
            assert(names[rest.index_of(other) + 1] == other);
        }
        if tail.contains(other) {
            assert(all[tail.index_of(other) + 1] == other);
        }
        if all.contains(other) && other != names[0] {
            assert(tail[all.index_of(other) - 1] == other);
        }
        if other == names[0] {
            assert(names.contains(other));
            assert(all.contains(other));
        }
    }
}

proof fn lemma_inserted_is_ordered(names: Seq<Seq<char>>, name: Seq<char>)
    requires
        is_ordered(names),
    ensures
        is_ordered(inserted(names, name)),
    decreases names.len(),
{
    let all = inserted(names, name);
    if names.len() > 0 && names[0] != name {
        lemma_before_is_total(name, names[0]);
        if comes_before(name, names[0]) {
            assert forall|i: int, j: int| 0 <= i < j < all.len() implies comes_before(
                #[trigger] all[i],
                #[trigger] all[j],
            ) by {
                if i > 0 {
                    assert(all[i] == names[i - 1] && all[j] == names[j - 1]);
                } else if j > 1 {
                    assert(all[j] == names[j - 1]);
                    assert(comes_before(names[0], names[j - 1]));
                    lemma_before_is_transitive(name, names[0], all[j]);
                }
            }
        } else {
            let rest = names.skip(1);
            assert forall|i: int, j: int| 0 <= i < j < rest.len() implies comes_before(
                #[trigger] rest[i],
                #[trigger] rest[j],
            ) by {
                assert(comes_before(names[i + 1], names[j + 1]));
            }
            lemma_inserted_is_ordered(rest, name);
            let tail = inserted(rest, name);
            assert forall|i: int, j: int| 0 <= i < j < all.len() implies comes_before(
                #[trigger] all[i],
                #[trigger] all[j],
            ) by {
                if i > 0 {
                    assert(comes_before(tail[i - 1], tail[j - 1]));
                } else {
                    let other = tail[j - 1];
                    assert(tail.contains(other));
                    lemma_inserted_contains(rest, name, other);
                    if other != name {
                        let k = rest.index_of(other);
                        assert(comes_before(names[0], names[k + 1]));
                    }
                }
            }
        }
    }
}

/// The names that are reported as unknown are just those that were asked for and
/// that no repository has, in order and each once.
pub proof fn unknown_names_are_exact(
    wanted: Seq<Seq<char>>,
    repos: Seq<config::RepoConfigView>,
    name: Seq<char>,
)
    ensures
        is_ordered(unknown_names(wanted, repos)),
        unknown_names(wanted, repos).contains(name) <==> wanted.contains(name) && !is_known(
            repos,
            name,
        ),
    decreases wanted.len(),
{
    if wanted.len() > 0 {
        let rest = wanted.drop_last();
        unknown_names_are_exact(rest, repos, name);
        lemma_inserted_is_ordered(unknown_names(rest, repos), wanted.last());
        lemma_inserted_contains(unknown_names(rest, repos), wanted.last(), name);
        assert(wanted == rest.push(wanted.last()));
        if wanted.contains(name) && name != wanted.last() {
            assert(rest[wanted.index_of(name)] == name);
        }
        if rest.contains(name) {
            assert(wanted[rest.index_of(name)] == name);
        }
        if name == wanted.last() {
            assert(wanted[wanted.len() - 1] == name);
        }
    }
}

/// Where every name is known, just the repositories with one of the names are
/// taken.
pub proof fn named_repos_are_exact(
    repos: Seq<config::RepoConfigView>,
    wanted: Seq<Seq<char>>,
    repo: config::RepoConfigView,
)
    ensures
        named_repos(repos, wanted).contains(repo) <==> repos.contains(repo) && wanted.contains(
            repo.name,
        ),
    decreases repos.len(),
{
    if repos.len() > 0 {
        let rest = repos.drop_last();
        named_repos_are_exact(rest, wanted, repo);
        let taken = named_repos(rest, wanted);
        let all = named_repos(repos, wanted);
        if repos.contains(repo) && repo != repos.last() {
            assert(rest[repos.index_of(repo)] == repo);
        }
        if rest.contains(repo) {
            assert(repos[rest.index_of(repo)] == repo);
        }
        if repo == repos.last() {
            assert(repos[repos.len() - 1] == repo);
        }
        if taken.contains(repo) {
            assert(all[taken.index_of(repo)] == repo);
        }
        if wanted.contains(repos.last().name) {
            assert(all[all.len() - 1] == repos.last());
        }
        if all.contains(repo) && repo != repos.last() {
            assert(taken[all.index_of(repo)] == repo);
        }
    }
}

/// Without a name every repository is taken; with one that is unknown none is, and
/// the unknown ones are told; else those with one of the names are.
pub proof fn names_select_repositories(
    repos: Seq<config::RepoConfigView>,
    only: Seq<Seq<char>>,
)
    ensures
        only.len() == 0 ==> selected(repos, only) == Ok::<Seq<config::RepoConfigView>, Seq<char>>(
            repos,
        ),
        only.len() > 0 && (forall|i: int|
            0 <= i < only.len() ==> is_known(repos, #[trigger] only[i])) ==> selected(repos, only)
            == Ok::<Seq<config::RepoConfigView>, Seq<char>>(named_repos(repos, only)),
        (exists|i: int| 0 <= i < only.len() && !is_known(repos, #[trigger] only[i])) ==> selected(
            repos,
            only,
        ) == Err::<Seq<config::RepoConfigView>, Seq<char>>(
            "unknown repo name(s): "@ + text::joined(unknown_names(only, repos), ", "@),
        ),
{
    let unknown = unknown_names(only, repos);
    if unknown.len() > 0 {
        unknown_names_are_exact(only, repos, unknown[0]);
        assert(unknown.contains(unknown[0]));
        let i = only.index_of(unknown[0]);
        assert(!is_known(repos, only[i]));
    }
    if exists|i: int| 0 <= i < only.len() && !is_known(repos, #[trigger] only[i]) {
        let i = choose|i: int| 0 <= i < only.len() && !is_known(repos, #[trigger] only[i]);
        unknown_names_are_exact(only, repos, only[i]);
        assert(only.contains(only[i]));
        assert(unknown.contains(only[i]));
    }
}

/// The repositories are taken in their own order, whatever the order of the names:
/// a further one comes behind the others, if it is named.
pub proof fn the_order_of_the_names_does_not_matter(
    repos: Seq<config::RepoConfigView>,
    repo: config::RepoConfigView,
    wanted: Seq<Seq<char>>,
)
    ensures
        named_repos(Seq::empty(), wanted).len() == 0,
        wanted.contains(repo.name) ==> named_repos(repos.push(repo), wanted) == named_repos(
            repos,
            wanted,
        ).push(repo),
        !wanted.contains(repo.name) ==> named_repos(repos.push(repo), wanted) == named_repos(
            repos,
            wanted,
        ),
{
    assert(repos.push(repo).drop_last() =~= repos);
}

/// Names are in the order of a dictionary: the first character in which they differ
/// decides, and where one begins with the other the shorter stands before it.
pub proof fn the_first_difference_decides(
    start: Seq<char>,
    a: char,
    b: char,
    rest: Seq<char>,
    other: Seq<char>,
)
    ensures
        a != b ==> comes_before(start + seq![a] + rest, start + seq![b] + other) == (a < b),
        comes_before(start, start + seq![a] + rest),
        !comes_before(start + seq![a] + rest, start),
        !comes_before(start, start),
    decreases start.len(),
{
    let x = start + seq![a] + rest;
    let y = start + seq![b] + other;
    if start.len() > 0 {
        let less = start.skip(1);
        the_first_difference_decides(less, a, b, rest, other);
        assert(x.skip(1) =~= less + seq![a] + rest);
        assert(y.skip(1) =~= less + seq![b] + other);
        assert(x[0] == start[0] && y[0] == start[0]);
    } else {
        assert(x[0] == a && y[0] == b);
    }
}

} // verus!
