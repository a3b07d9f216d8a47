//! All dependencies of a package: the order in which they stand, and the
//! sections they stand in.

use vstd::prelude::*;
use vstd::string::StringExecFns;
use crate::dependency::{
    dependency_lines,
    render_dependency,
    resolved,
    resolves,
    section_header,
    section_of,
    table_of,
    Section,
};
use crate::extra::ManifestExtra;
use crate::model::{
    opt_platform,
    views,
    DepKind,
    Dependency,
    DependencyView,
    Platform,
    PlatformView,
};
use crate::text::{
    lemma_lex_le_antisymmetric,
    lemma_lex_le_reflexive,
    lemma_lex_le_total,
    lemma_lex_le_transitive,
    lex_le,
    push_line,
    push_lines,
    str_eq,
    str_le,
    texts,
};

verus! {

/// The order of two platforms: by rank, and by their text where the ranks
/// are the same.
pub open spec fn platform_le(p: PlatformView, q: PlatformView) -> bool {
    p.rank < q.rank || (p.rank == q.rank && lex_le(p.text, q.text))
}

/// The order of the sections: the dependencies of all platforms, those of
/// each platform in the order of the platforms, the development
/// dependencies, the build dependencies.
pub open spec fn section_le(a: Section, b: Section) -> bool {
    match a {
        Section::Normal(None) => true,
        Section::Normal(Some(p)) => match b {
            Section::Normal(None) => false,
            Section::Normal(Some(q)) => platform_le(p, q),
            _ => true,
        },
        Section::Development => !(b is Normal),
        Section::Build => b is Build,
    }
}

/// The order in which dependencies stand: by section, and within a section
/// by key.
pub open spec fn dependency_le(a: DependencyView, b: DependencyView) -> bool {
    if section_of(a) == section_of(b) {
        lex_le(a.name, b.name)
    } else {
        section_le(section_of(a), section_of(b))
    }
}

/// `sorted` with `d` put behind everything that stands no later than `d`.
pub open spec fn insert_ordered(sorted: Seq<DependencyView>, d: DependencyView) -> Seq<
    DependencyView,
>
    decreases sorted.len(),
{
    if sorted.len() == 0 || dependency_le(sorted.last(), d) {
        sorted.push(d)
    } else {
        insert_ordered(sorted.drop_last(), d).push(sorted.last())
    }
}

/// The dependencies in the order in which they are written. Those that
/// compare equal keep the order they came in.
pub open spec fn ordered(deps: Seq<DependencyView>) -> Seq<DependencyView>
    decreases deps.len(),
{
    if deps.len() == 0 {
        Seq::empty()
    } else {
        insert_ordered(ordered(deps.drop_last()), deps.last())
    }
}

/// What stands before entry `i` of `sorted`: a blank line and the header
/// where the entry is the first of its section.
pub open spec fn section_opening(sorted: Seq<DependencyView>, i: int) -> Seq<Seq<char>> {
    if i == 0 || section_of(sorted[i - 1]) != section_of(sorted[i]) {
        seq![Seq::empty(), section_header(section_of(sorted[i]))]
    } else {
        Seq::empty()
    }
}

/// The lines of the first `n` entries of `sorted`, with the headers of
/// their sections.
pub open spec fn section_lines(
    base: Seq<char>,
    sorted: Seq<DependencyView>,
    comments: Map<Seq<char>, Seq<Seq<char>>>,
    n: int,
) -> Seq<Seq<char>>
    decreases n,
{
    if n <= 0 {
        Seq::empty()
    } else {
        section_lines(base, sorted, comments, n - 1) + section_opening(sorted, n - 1)
            + dependency_lines(sorted[n - 1], resolved(base, sorted[n - 1]), comments)
    }
}

/// Whether every dependency resolves.
pub open spec fn all_resolve(base: Seq<char>, deps: Seq<DependencyView>) -> bool {
    forall|i: int| 0 <= i < deps.len() ==> resolves(base, #[trigger] deps[i])
}

/// The lines of all dependencies of a package rooted at `base`: every
/// section that has an entry, its entries in order; `None` where a path
/// cannot be written from `base`.
pub open spec fn rendered_dependencies(
    base: Seq<char>,
    deps: Seq<DependencyView>,
    comments: Map<Seq<char>, Seq<Seq<char>>>,
) -> Option<Seq<Seq<char>>> {
    let sorted = ordered(deps);
    if all_resolve(base, sorted) {
        Some(section_lines(base, sorted, comments, sorted.len() as int))
    } else {
        None
    }
}

/// Of two sections, one stands no later than the other.
pub proof fn lemma_section_le_total(a: Section, b: Section)
    ensures
        section_le(a, b) || section_le(b, a),
{
    match (a, b) {
        (Section::Normal(Some(p)), Section::Normal(Some(q))) => {
            lemma_lex_le_total(p.text, q.text);
        },
        _ => {},
    }
}

pub proof fn lemma_section_le_transitive(a: Section, b: Section, c: Section)
    requires
        section_le(a, b),
        section_le(b, c),
    ensures
        section_le(a, c),
{
    match (a, b, c) {
        (Section::Normal(Some(p)), Section::Normal(Some(q)), Section::Normal(Some(r))) => {
            if p.rank == q.rank && q.rank == r.rank {
                lemma_lex_le_transitive(p.text, q.text, r.text);
            }
        },
        _ => {},
    }
}

/// Two sections of which each stands no later than the other are one.
pub proof fn lemma_section_le_antisymmetric(a: Section, b: Section)
    requires
        section_le(a, b),
        section_le(b, a),
    ensures
        a == b,
{
    match (a, b) {
        (Section::Normal(Some(p)), Section::Normal(Some(q))) => {
            lemma_lex_le_antisymmetric(p.text, q.text);
        },
        _ => {},
    }
}

/// Of two dependencies, one stands no later than the other.
pub proof fn lemma_dependency_le_total(a: DependencyView, b: DependencyView)
    ensures
        dependency_le(a, b) || dependency_le(b, a),
{
    lemma_section_le_total(section_of(a), section_of(b));
    lemma_lex_le_total(a.name, b.name);
}

pub proof fn lemma_dependency_le_transitive(a: DependencyView, b: DependencyView, c: DependencyView)
    requires
        dependency_le(a, b),
        dependency_le(b, c),
    ensures
        dependency_le(a, c),
{
    let sa = section_of(a);
    let sb = section_of(b);
    let sc = section_of(c);
    if sa == sb && sb == sc {
        lemma_lex_le_transitive(a.name, b.name, c.name);
    } else if sa != sb && sb != sc {
        lemma_section_le_transitive(sa, sb, sc);
        if sa == sc {
            lemma_section_le_antisymmetric(sa, sb);
        }
    }
}

/// Whether each dependency stands no later than those behind it.
pub open spec fn is_ordered(deps: Seq<DependencyView>) -> bool {
    forall|i: int, j: int| 0 <= i < j < deps.len() ==> dependency_le(deps[i], deps[j])
}

/// Whether each of `deps` stands no later than `d`.
pub open spec fn all_before(deps: Seq<DependencyView>, d: DependencyView) -> bool {
    forall|i: int| 0 <= i < deps.len() ==> dependency_le(#[trigger] deps[i], d)
}

proof fn lemma_insert_stays_before(sorted: Seq<DependencyView>, d: DependencyView, x: DependencyView)
    requires
        all_before(sorted, x),
        dependency_le(d, x),
    ensures
        all_before(insert_ordered(sorted, d), x),
    decreases sorted.len(),
{
    if sorted.len() == 0 || dependency_le(sorted.last(), d) {
        assert forall|i: int| 0 <= i < sorted.push(d).len() implies dependency_le(
            #[trigger] sorted.push(d)[i],
            x,
        ) by {
            if i < sorted.len() {
                assert(sorted.push(d)[i] == sorted[i]);
            }
        }
    } else {
        let rest = sorted.drop_last();
        assert forall|i: int| 0 <= i < rest.len() implies dependency_le(#[trigger] rest[i], x) by {
            assert(rest[i] == sorted[i]);
        }
        lemma_insert_stays_before(rest, d, x);
        let ins = insert_ordered(rest, d);
        assert(dependency_le(sorted.last(), x)) by {
            assert(sorted[sorted.len() - 1] == sorted.last());
        }
        assert forall|i: int| 0 <= i < ins.push(sorted.last()).len() implies dependency_le(
            #[trigger] ins.push(sorted.last())[i],
            x,
        ) by {
            if i < ins.len() {
                assert(ins.push(sorted.last())[i] == ins[i]);
            }
        }
    }
}

/// Putting a dependency into an ordered sequence keeps the order, and adds
/// that dependency and nothing else.
pub proof fn lemma_insert_ordered(sorted: Seq<DependencyView>, d: DependencyView)
    requires
        is_ordered(sorted),
    ensures
        is_ordered(insert_ordered(sorted, d)),
        insert_ordered(sorted, d).len() == sorted.len() + 1,
        insert_ordered(sorted, d).to_multiset() == sorted.to_multiset().insert(d),
    decreases sorted.len(),
{
    broadcast use vstd::seq_lib::to_multiset_build;

    if sorted.len() == 0 || dependency_le(sorted.last(), d) {
        let out = sorted.push(d);
        assert forall|i: int, j: int| 0 <= i < j < out.len() implies dependency_le(
            out[i],
            out[j],
        ) by {
            if j == sorted.len() {
                if i < sorted.len() - 1 {
                    lemma_dependency_le_transitive(sorted[i], sorted.last(), d);
                }
            }
        }
    } else {
        let rest = sorted.drop_last();
        let last = sorted.last();
        lemma_insert_ordered(rest, d);
        lemma_dependency_le_total(last, d);
        assert forall|i: int| 0 <= i < rest.len() implies dependency_le(#[trigger] rest[i], last) by {
            assert(rest[i] == sorted[i]);
        }
        lemma_insert_stays_before(rest, d, last);
        let ins = insert_ordered(rest, d);
        let out = ins.push(last);
        assert forall|i: int, j: int| 0 <= i < j < out.len() implies dependency_le(
            out[i],
            out[j],
        ) by {
            if j == ins.len() {
                assert(out[i] == ins[i]);
            } else {
                assert(out[i] == ins[i] && out[j] == ins[j]);
            }
        }
        assert(sorted == rest.push(last));
        assert(out.to_multiset() =~= sorted.to_multiset().insert(d));
    }
}

/// The order in which dependencies are written is an order: each stands no
/// later than those behind it. And it is an order of the dependencies that
/// were given: it holds each of them as often as it was given, and nothing
/// else.
pub proof fn lemma_ordered(deps: Seq<DependencyView>)
    ensures
        is_ordered(ordered(deps)),
        ordered(deps).len() == deps.len(),
        ordered(deps).to_multiset() == deps.to_multiset(),
    decreases deps.len(),
{
    broadcast use vstd::seq_lib::to_multiset_build;

    if deps.len() > 0 {
        lemma_ordered(deps.drop_last());
        lemma_insert_ordered(ordered(deps.drop_last()), deps.last());
        assert(deps == deps.drop_last().push(deps.last()));
    } else {
        assert(ordered(deps) =~= deps);
    }
}

/// The order holds the dependencies that were given, and no other.
pub proof fn lemma_ordered_members(deps: Seq<DependencyView>)
    ensures
        forall|d: DependencyView| ordered(deps).contains(d) <==> deps.contains(d),
{
    broadcast use vstd::seq_lib::group_to_multiset_ensures;

    lemma_ordered(deps);
    assert forall|d: DependencyView| ordered(deps).contains(d) <==> deps.contains(d) by {
        assert(ordered(deps).contains(d) <==> ordered(deps).to_multiset().count(d) > 0);
        assert(deps.contains(d) <==> deps.to_multiset().count(d) > 0);
    }
}

/// Whether a key stands once in a section: two of `deps` that stand in one
/// section under one key are one and the same dependency.
pub open spec fn keys_are_unique(deps: Seq<DependencyView>) -> bool {
    forall|i: int, j: int|
        0 <= i < deps.len() && 0 <= j < deps.len() && section_of(deps[i]) == section_of(deps[j])
            && deps[i].name == deps[j].name ==> deps[i] == deps[j]
}

/// Two sequences in order that hold the same dependencies, each key once in
/// its section, are the same sequence.
pub proof fn lemma_order_is_unique(x: Seq<DependencyView>, y: Seq<DependencyView>)
    requires
        is_ordered(x),
        is_ordered(y),
        x.to_multiset() == y.to_multiset(),
        keys_are_unique(x),
    ensures
        x == y,
    decreases x.len(),
{
    broadcast use vstd::seq_lib::group_to_multiset_ensures;

    x.to_multiset_ensures();
    y.to_multiset_ensures();
    assert(x.len() == y.len());
    if x.len() == 0 {
        assert(x =~= y);
    } else {
        let a = x.last();
        let b = y.last();
        assert(y.contains(b)) by {
            assert(y[y.len() - 1] == b);
        }
        assert(x.contains(a)) by {
            assert(x[x.len() - 1] == a);
        }
        assert(x.to_multiset().count(b) > 0);
        assert(x.contains(b));
        assert(y.to_multiset().count(a) > 0);
        assert(y.contains(a));
        let i = choose|i: int| 0 <= i < x.len() && x[i] == b;
        let j = choose|j: int| 0 <= j < y.len() && y[j] == a;
        lemma_lex_le_reflexive(a.name);
        lemma_lex_le_reflexive(b.name);
        assert(dependency_le(b, a)) by {
            if i < x.len() - 1 {
                assert(dependency_le(x[i], x[x.len() - 1]));
            }
        }
        assert(dependency_le(a, b)) by {
            if j < y.len() - 1 {
                assert(dependency_le(y[j], y[y.len() - 1]));
            }
        }
        if section_of(a) != section_of(b) {
            lemma_section_le_antisymmetric(section_of(a), section_of(b));
        }
        lemma_lex_le_antisymmetric(a.name, b.name);
        assert(x[i] == x[x.len() - 1]);
        assert(a == b);
        let xs = x.drop_last();
        let ys = y.drop_last();
        assert(x == xs.push(a));
        assert(y == ys.push(a));
        assert(xs.to_multiset() =~= ys.to_multiset()) by {
            assert(x.to_multiset() =~= xs.to_multiset().insert(a));
            assert(y.to_multiset() =~= ys.to_multiset().insert(a));
            assert forall|d: DependencyView| xs.to_multiset().count(d) == ys.to_multiset().count(d) by {
                assert(xs.to_multiset().insert(a).count(d) == ys.to_multiset().insert(a).count(d));
            }
        }
        assert(is_ordered(xs)) by {
            assert forall|p: int, q: int| 0 <= p < q < xs.len() implies dependency_le(
                xs[p],
                xs[q],
            ) by {
                assert(xs[p] == x[p] && xs[q] == x[q]);
            }
        }
        assert(is_ordered(ys)) by {
            assert forall|p: int, q: int| 0 <= p < q < ys.len() implies dependency_le(
                ys[p],
                ys[q],
            ) by {
                assert(ys[p] == y[p] && ys[q] == y[q]);
            }
        }
        assert(keys_are_unique(xs)) by {
            assert forall|p: int, q: int|
                0 <= p < xs.len() && 0 <= q < xs.len() && section_of(xs[p]) == section_of(xs[q])
                    && xs[p].name == xs[q].name implies xs[p] == xs[q] by {
                assert(xs[p] == x[p] && xs[q] == x[q]);
            }
        }
        lemma_order_is_unique(xs, ys);
    }
}

/// The order in which the dependencies are given does not matter: given in
/// another order, the same dependencies, each key once in its section, are
/// written in the same order, and so as the same lines.
pub proof fn lemma_given_order_does_not_matter(
    base: Seq<char>,
    deps: Seq<DependencyView>,
    again: Seq<DependencyView>,
    comments: Map<Seq<char>, Seq<Seq<char>>>,
)
    requires
        deps.to_multiset() == again.to_multiset(),
        keys_are_unique(deps),
    ensures
        ordered(deps) == ordered(again),
        rendered_dependencies(base, deps, comments) == rendered_dependencies(
            base,
            again,
            comments,
        ),
{
    lemma_ordered(deps);
    lemma_ordered(again);
    lemma_ordered_members(deps);
    let x = ordered(deps);
    assert(keys_are_unique(x)) by {
        assert forall|p: int, q: int|
            0 <= p < x.len() && 0 <= q < x.len() && section_of(x[p]) == section_of(x[q])
                && x[p].name == x[q].name implies x[p] == x[q] by {
            assert(x.contains(x[p]) && x.contains(x[q]));
            assert(deps.contains(x[p]) && deps.contains(x[q]));
            let i = choose|i: int| 0 <= i < deps.len() && deps[i] == x[p];
            let j = choose|j: int| 0 <= j < deps.len() && deps[j] == x[q];
            assert(deps[i] == deps[j]);
        }
    }
    lemma_order_is_unique(x, ordered(again));
}

/// Within a section the entries stand in the order of their keys, whatever
/// the order in which the dependencies were given.
pub proof fn lemma_sections_are_sorted(deps: Seq<DependencyView>, i: int, j: int)
    requires
        0 <= i < j < ordered(deps).len(),
        section_of(ordered(deps)[i]) == section_of(ordered(deps)[j]),
    ensures
        lex_le(ordered(deps)[i].name, ordered(deps)[j].name),
{
    lemma_ordered(deps);
    assert(dependency_le(ordered(deps)[i], ordered(deps)[j]));
}

/// The entries of a section stand together: what stands between two
/// entries of one section is of that section.
pub proof fn lemma_sections_are_whole(deps: Seq<DependencyView>, i: int, k: int, j: int)
    requires
        0 <= i <= k <= j < ordered(deps).len(),
        section_of(ordered(deps)[i]) == section_of(ordered(deps)[j]),
    ensures
        section_of(ordered(deps)[k]) == section_of(ordered(deps)[i]),
{
    lemma_ordered(deps);
    let o = ordered(deps);
    if i < k && k < j && section_of(o[k]) != section_of(o[i]) {
        assert(dependency_le(o[i], o[k]));
        assert(dependency_le(o[k], o[j]));
        lemma_section_le_antisymmetric(section_of(o[i]), section_of(o[k]));
    }
}

fn same_platform(a: &Option<Platform>, b: &Option<Platform>) -> (r: bool)
    ensures
        r == (opt_platform(*a) == opt_platform(*b)),
{
    match a {
        None => match b {
            None => true,
            Some(_) => false,
        },
        Some(p) => match b {
            None => false,
            Some(q) => p.rank == q.rank && str_eq(p.text.as_str(), q.text.as_str()),
        },
    }
}

/// Whether `a` stands no later than `b`.
fn stands_before(a: &Dependency, b: &Dependency) -> (r: bool)
    ensures
        r == dependency_le(a@, b@),
{
    match a.kind {
        DepKind::Normal => match b.kind {
            DepKind::Normal => {
                if same_platform(&a.platform, &b.platform) {
                    str_le(a.name_in_toml.as_str(), b.name_in_toml.as_str())
                } else {
                    match &a.platform {
                        None => true,
                        Some(p) => match &b.platform {
                            None => false,
                            Some(q) => p.rank < q.rank || (p.rank == q.rank && str_le(
                                p.text.as_str(),
                                q.text.as_str(),
                            )),
                        },
                    }
                }
            },
            _ => true,
        },
        DepKind::Development => match b.kind {
            DepKind::Normal => false,
            DepKind::Development => str_le(a.name_in_toml.as_str(), b.name_in_toml.as_str()),
            DepKind::Build => true,
        },
        DepKind::Build => match b.kind {
            DepKind::Build => str_le(a.name_in_toml.as_str(), b.name_in_toml.as_str()),
            _ => false,
        },
    }
}

/// The dependencies that `order` picks, in its order.
pub open spec fn picked(order: Seq<usize>, deps: Seq<DependencyView>) -> Seq<DependencyView> {
    Seq::new(order.len(), |j: int| deps[order[j] as int])
}

/// The places of `deps` in the order in which the dependencies are written.
pub fn sort_dependencies(deps: &Vec<Dependency>) -> (order: Vec<usize>)
    ensures
        order.len() == deps.len(),
        forall|j: int| 0 <= j < order.len() ==> order[j] < deps.len(),
        picked(order@, views(deps@)) == ordered(views(deps@)),
{
    let mut order: Vec<usize> = Vec::new();
    let mut k: usize = 0;
    assert(picked(order@, views(deps@)) =~= ordered(views(deps@).take(0)));
    while k < deps.len()
        invariant
            k <= deps.len(),
            order.len() == k,
            forall|j: int| 0 <= j < order.len() ==> order[j] < deps.len(),
            picked(order@, views(deps@)) == ordered(views(deps@).take(k as int)),
        decreases deps.len() - k,
    {
        let ghost all = views(deps@);
        let ghost d = all[k as int];
        let ghost before = picked(order@, all);
        let mut pos: usize = order.len();
        assert(before.take(pos as int) == before);
        assert(before.skip(pos as int) =~= Seq::<DependencyView>::empty());
        assert(insert_ordered(before, d) =~= insert_ordered(before.take(pos as int), d)
            + before.skip(pos as int));
        while pos > 0 && !stands_before(&deps[order[pos - 1]], &deps[k])
            invariant
                pos <= order.len(),
                k < deps.len(),
                all == views(deps@),
                d == all[k as int],
                before == picked(order@, all),
                forall|j: int| 0 <= j < order.len() ==> order[j] < deps.len(),
                insert_ordered(before, d) == insert_ordered(before.take(pos as int), d)
                    + before.skip(pos as int),
            decreases pos,
        {
            proof {
                let head = before.take(pos as int);
                assert(head.last() == before[pos - 1]);
                assert(head.drop_last() == before.take(pos - 1));
                assert(!dependency_le(head.last(), d));
                assert(insert_ordered(head, d) == insert_ordered(head.drop_last(), d).push(
                    head.last(),
                ));
                assert(insert_ordered(head.drop_last(), d).push(head.last()) + before.skip(
                    pos as int,
                ) =~= insert_ordered(head.drop_last(), d) + before.skip(pos - 1));
            }
            pos -= 1;
        }
        proof {
            let head = before.take(pos as int);
            if pos > 0 {
                assert(head.last() == before[pos - 1]);
            }
            assert(insert_ordered(head, d) == head.push(d));
        }
        order.insert(pos, k);
        proof {
            assert(picked(order@, all) =~= before.take(pos as int).push(d) + before.skip(
                pos as int,
            ));
            assert(all.take(k + 1).drop_last() == all.take(k as int));
            assert(all.take(k + 1).last() == d);
        }
        k += 1;
    }
    assert(views(deps@).take(k as int) == views(deps@));
    order
}

/// Writes all dependencies of a package rooted at `base`, section by
/// section.
pub fn render_dependencies(base: &str, deps: &Vec<Dependency>, extra: &ManifestExtra) -> (r:
    Option<Vec<String>>)
    ensures
        match r {
            Some(lines) => rendered_dependencies(base@, views(deps@), extra@.comments) == Some(
                texts(lines@),
            ),
            None => rendered_dependencies(base@, views(deps@), extra@.comments) is None,
        },
{
    let order = sort_dependencies(deps);
    let ghost sorted = ordered(views(deps@));
    let mut out: Vec<String> = Vec::new();
    assert(texts(out@) =~= Seq::<Seq<char>>::empty());
    let mut j: usize = 0;
    while j < order.len()
        invariant
            j <= order.len(),
            order.len() == deps.len(),
            sorted == ordered(views(deps@)),
            sorted == picked(order@, views(deps@)),
            forall|i: int| 0 <= i < order.len() ==> order[i] < deps.len(),
            forall|i: int| 0 <= i < j ==> resolves(base@, #[trigger] sorted[i]),
            texts(out@) == section_lines(base@, sorted, extra@.comments, j as int),
        decreases order.len() - j,
    {
        let dep = &deps[order[j]];
        assert(dep@ == sorted[j as int]);
        let opens = j == 0 || !same_section(&deps[order[j - 1]], dep);
        if opens {
            push_line(&mut out, String::new());
            push_line(&mut out, header_of(dep));
        }
        assert(texts(out@) =~= section_lines(base@, sorted, extra@.comments, j as int)
            + section_opening(sorted, j as int));
        match render_dependency(base, dep, extra) {
            Some(lines) => {
                push_lines(&mut out, lines);
            },
            None => {
                assert(!resolves(base@, sorted[j as int]));
                return None;
            },
        }
        j += 1;
    }
    Some(out)
}

fn same_section(a: &Dependency, b: &Dependency) -> (r: bool)
    ensures
        r == (section_of(a@) == section_of(b@)),
{
    match a.kind {
        DepKind::Normal => match b.kind {
            DepKind::Normal => same_platform(&a.platform, &b.platform),
            _ => false,
        },
        DepKind::Development => match b.kind {
            DepKind::Development => true,
            _ => false,
        },
        DepKind::Build => match b.kind {
            DepKind::Build => true,
            _ => false,
        },
    }
}

fn header_of(dep: &Dependency) -> (r: String)
    ensures
        r@ == section_header(section_of(dep@)),
{
    let table = table_of(dep);
    let mut r = String::new();
    r.push('[');
    r.append(table.as_str());
    r.push(']');
    assert(r@ =~= section_header(section_of(dep@)));
    r
}

} // verus!
