//! Which plugins serve which domains.
use vstd::prelude::*;

use crate::name_map::{lemma_entry, NameMap};
use crate::plugin::{wildcard_match, wildcard_takes};
use crate::text;

verus! {

broadcast use vstd::string::group_string_axioms;

/// Lists of names by domain.
pub type DomainLists = Map<Seq<char>, Seq<Seq<char>>>;

/// The lists of a map from domains to names.
pub open spec fn lists_of(m: NameMap<Vec<String>>) -> DomainLists {
    m@.map_values(|v: Vec<String>| text::views(v@))
}

/// The list of a domain, empty where it has none.
pub open spec fn list_of(lists: DomainLists, domain: Seq<char>) -> Seq<Seq<char>> {
    if lists.contains_key(domain) {
        lists[domain]
    } else {
        Seq::empty()
    }
}

/// The lists with a name added to the end of that of each of these domains.
pub open spec fn with_domains(
    lists: DomainLists,
    domains: Seq<Seq<char>>,
    name: Seq<char>,
) -> DomainLists
    decreases domains.len(),
{
    if domains.len() == 0 {
        lists
    } else {
        let before = with_domains(lists, domains.drop_last(), name);
        before.insert(domains.last(), list_of(before, domains.last()).push(name))
    }
}

/// A list of names without one of them.
pub open spec fn without(names: Seq<Seq<char>>, name: Seq<char>) -> Seq<Seq<char>>
    decreases names.len(),
{
    if names.len() == 0 {
        names
    } else {
        let rest = without(names.drop_last(), name);
        if names.last() == name {
            rest
        } else {
            rest.push(names.last())
        }
    }
}

/// The lists without a name; a domain whose list becomes empty is gone.
pub open spec fn without_domains(lists: DomainLists, name: Seq<char>) -> DomainLists {
    Map::new(
        |d: Seq<char>| lists.contains_key(d) && without(lists[d], name).len() > 0,
        |d: Seq<char>| without(lists[d], name),
    )
}

/// Whether a name is to be found for a domain: in the domain's own list, or in that of a pattern
/// with a wildcard that takes the domain.
pub open spec fn serves(lists: DomainLists, domain: Seq<char>, name: Seq<char>) -> bool {
    ||| list_of(lists, domain).contains(name)
    ||| exists|pattern: Seq<char>| #[trigger]
        lists.contains_key(pattern) && wildcard_takes(pattern, domain) && lists[pattern].contains(
            name,
        )
}

pub proof fn lemma_without_contains(names: Seq<Seq<char>>, name: Seq<char>, n: Seq<char>)
    ensures
        without(names, name).contains(n) <==> names.contains(n) && n != name,
    decreases names.len(),
{
    if names.len() > 0 {
        let rest = names.drop_last();
        let kept = without(rest, name);
        lemma_without_contains(rest, name, n);
        if names.contains(n) && n != name {
            let i = choose|i: int| 0 <= i < names.len() && names[i] == n;
            if i < rest.len() {
                assert(rest[i] == n);
                let j = choose|j: int| 0 <= j < kept.len() && kept[j] == n;
                assert(without(names, name)[j] == n);
            } else {
                assert(without(names, name)[kept.len() as int] == n);
            }
        }
        if without(names, name).contains(n) {
            let j = choose|j: int| 0 <= j < without(names, name).len() && without(names, name)[j]
                == n;
            if j < kept.len() {
                assert(kept[j] == n);
                let i = choose|i: int| 0 <= i < rest.len() && rest[i] == n;
                assert(names[i] == n);
            } else {
                assert(names[names.len() - 1] == n);
            }
        }
    }
}

pub proof fn lemma_without_absent(names: Seq<Seq<char>>, name: Seq<char>)
    requires
        !names.contains(name),
    ensures
        without(names, name) == names,
    decreases names.len(),
{
    if names.len() > 0 {
        let rest = names.drop_last();
        assert(names[names.len() - 1] == names.last());
        assert forall|i: int| 0 <= i < rest.len() implies rest[i] != name by {
            assert(names[i] != name);
        }
        lemma_without_absent(rest, name);
        assert(rest.push(names.last()) =~= names);
    }
}

/// Adds a name to the lists of domains.
pub fn add_domains(m: &mut NameMap<Vec<String>>, domains: &Vec<String>, name: &str)
    requires
        old(m).wf(),
    ensures
        final(m).wf(),
        lists_of(*final(m)) == with_domains(lists_of(*old(m)), text::views(domains@), name@),
{
    let ghost before = lists_of(*m);
    let ghost all = text::views(domains@);
    let mut i: usize = 0;
    while i < domains.len()
        invariant
            i <= domains@.len(),
            all == text::views(domains@),
            m.wf(),
            lists_of(*m) == with_domains(before, all.take(i as int), name@),
        decreases domains@.len() - i,
    {
        let ghost here = lists_of(*m);
        let ghost domain = domains@[i as int]@;
        let found = match m.get_mut(domains[i].as_str()) {
            Some(list) => {
                let ghost short = list@;
                list.push(name.to_string());
                assert(text::views(list@) =~= text::views(short).push(name@));
                true
            },
            None => false,
        };
        if !found {
            let mut list: Vec<String> = Vec::new();
            list.push(name.to_string());
            assert(text::views(list@) =~= Seq::<Seq<char>>::empty().push(name@));
            let _ = m.insert(domains[i].clone(), list);
        }
        proof {
            assert(lists_of(*m) =~= here.insert(domain, list_of(here, domain).push(name@)));
            assert(all.take(i + 1).drop_last() =~= all.take(i as int));
            assert(all.take(i + 1).last() == domain);
        }
        i += 1;
    }
    assert(all.take(i as int) =~= all);
}

/// A list of names without one of them.
pub fn without_name(list: &Vec<String>, name: &str) -> (result: Vec<String>)
    ensures
        text::views(result@) == without(text::views(list@), name@),
{
    let ghost all = text::views(list@);
    let mut kept: Vec<String> = Vec::new();
    let mut i: usize = 0;
    assert(text::views(kept@) =~= all.take(0));
    while i < list.len()
        invariant
            i <= list@.len(),
            all == text::views(list@),
            text::views(kept@) == without(all.take(i as int), name@),
        decreases list@.len() - i,
    {
        let ghost short = kept@;
        if !text::eq(list[i].as_str(), name) {
            kept.push(list[i].clone());
            assert(text::views(kept@) =~= text::views(short).push(list@[i as int]@));
        }
        proof {
            assert(all.take(i + 1).drop_last() =~= all.take(i as int));
            assert(all.take(i + 1).last() == list@[i as int]@);
        }
        i += 1;
    }
    assert(all.take(i as int) =~= all);
    kept
}

/// Takes a name out of the lists of all domains.
pub fn remove_from_domains(m: &NameMap<Vec<String>>, name: &str) -> (result: NameMap<Vec<String>>)
    requires
        m.wf(),
    ensures
        result.wf(),
        lists_of(result) == without_domains(lists_of(*m), name@),
{
    let mut kept: NameMap<Vec<String>> = NameMap::new();
    let ghost lists = lists_of(*m);
    let mut i: usize = 0;
    while i < m.entries.len()
        invariant
            i <= m.entries@.len(),
            m.wf(),
            kept.wf(),
            lists == lists_of(*m),
            forall|d: Seq<char>| #[trigger]
                kept@.contains_key(d) <==> without_domains(lists, name@).contains_key(d) && (exists|
                    j: int,
                |
                    0 <= j < i && (#[trigger] m.entries@[j]).0@ == d),
            forall|d: Seq<char>| #[trigger]
                kept@.contains_key(d) ==> text::views(kept@[d]@) == without(lists[d], name@),
        decreases m.entries@.len() - i,
    {
        let list = without_name(&m.entries[i].1, name);
        proof {
            lemma_entry(m.entries@, i as int);
        }
        let ghost here = m.entries@[i as int].0@;
        let ghost before = kept@;
        assert(text::views(list@) == without(lists[here], name@));
        assert(text::views(list@).len() == list@.len());
        if list.len() > 0 {
            let _ = kept.insert(m.entries[i].0.clone(), list);
        }
        proof {
            assert forall|d: Seq<char>| #[trigger] kept@.contains_key(d) <==> without_domains(
                lists,
                name@,
            ).contains_key(d) && (exists|j: int|
                0 <= j < i + 1 && (#[trigger] m.entries@[j]).0@ == d) by {
                if d == here {
                    assert(m.entries@[i as int].0@ == d);
                    if before.contains_key(d) && list@.len() == 0 {
                        assert(without_domains(lists, name@).contains_key(d));
                    }
                } else {
                    assert(kept@.contains_key(d) == before.contains_key(d));
                }
            }
        }
        i += 1;
    }
    proof {
        assert forall|d: Seq<char>| lists.contains_key(d) implies exists|j: int|
            0 <= j < m.entries@.len() && (#[trigger] m.entries@[j]).0@ == d by {
            assert(m.keys().contains(d));
            let j = m.keys().index_of(d);
            assert(m.entries@[j].0@ == d);
        }
        assert(lists_of(kept) =~= without_domains(lists, name@));
    }
    kept
}

// ---------------------------------------------------------------------------------------------
// Lists in alphabetical order
// ---------------------------------------------------------------------------------------------

/// The names stand in alphabetical order, and none occurs twice.
pub open spec fn sorted(names: Seq<Seq<char>>) -> bool {
    forall|i: int, j: int|
        0 <= i < j < names.len() ==> text::lex_le(#[trigger] names[i], #[trigger] names[j])
            && names[i] != names[j]
}

/// Adds a name to a list in alphabetical order, unless it is there.
pub fn insert_sorted(names: &mut Vec<String>, name: &str)
    requires
        sorted(text::views(old(names)@)),
    ensures
        sorted(text::views(final(names)@)),
        forall|n: Seq<char>| #[trigger]
            text::views(final(names)@).contains(n) <==> text::views(old(names)@).contains(n) || n
                == name@,
{
    let ghost before = text::views(names@);
    let mut i: usize = 0;
    while i < names.len() && !text::le(name, names[i].as_str())
        invariant
            i <= names@.len(),
            before == text::views(names@),
            forall|j: int| 0 <= j < i ==> !text::lex_le(name@, #[trigger] before[j]),
        decreases names@.len() - i,
    {
        assert(before[i as int] == names@[i as int]@);
        i += 1;
    }
    if i < names.len() && text::eq(name, names[i].as_str()) {
        assert(before[i as int] == name@);
        return;
    }
    names.insert(i, name.to_string());
    proof {
        let after = text::views(names@);
        assert(after =~= before.insert(i as int, name@));
        assert forall|a: int, b: int| 0 <= a < b < after.len() implies text::lex_le(
            #[trigger] after[a],
            #[trigger] after[b],
        ) && after[a] != after[b] by {
            if b == i {
                assert(after[a] == before[a]);
                text::lemma_lex_total(name@, before[a]);
            } else if a == i {
                assert(after[b] == before[b - 1]);
                let first = before[i as int];
                assert(text::lex_le(name@, first));
                if b - 1 > i {
                    text::lemma_lex_transitive(name@, first, before[b - 1]);
                    if before[b - 1] == name@ {
                        text::lemma_lex_antisymmetric(name@, first);
                    }
                }
            } else {
                let x = if a < i {
                    a
                } else {
                    a - 1
                };
                let y = if b < i {
                    b
                } else {
                    b - 1
                };
                assert(after[a] == before[x] && after[b] == before[y]);
            }
        }
        assert forall|n: Seq<char>| #[trigger] after.contains(n) <==> before.contains(n) || n
            == name@ by {
            if before.contains(n) {
                let k = before.index_of(n);
                if k < i {
                    assert(after[k] == n);
                } else {
                    assert(after[k + 1] == n);
                }
            }
            if n == name@ {
                assert(after[i as int] == n);
            }
            if after.contains(n) {
                let k = after.index_of(n);
                if k < i {
                    assert(before[k] == n);
                } else if k > i {
                    assert(before[k - 1] == n);
                }
            }
        }
    }
}

/// Adds names to a list in alphabetical order, each unless it is there.
pub fn insert_all(names: &mut Vec<String>, more: &Vec<String>)
    requires
        sorted(text::views(old(names)@)),
    ensures
        sorted(text::views(final(names)@)),
        forall|n: Seq<char>| #[trigger]
            text::views(final(names)@).contains(n) <==> text::views(old(names)@).contains(n)
                || text::views(more@).contains(n),
{
    let ghost before = text::views(names@);
    let ghost all = text::views(more@);
    let mut i: usize = 0;
    while i < more.len()
        invariant
            i <= more@.len(),
            all == text::views(more@),
            sorted(text::views(names@)),
            forall|n: Seq<char>| #[trigger]
                text::views(names@).contains(n) <==> before.contains(n) || (exists|j: int|
                    0 <= j < i && #[trigger] all[j] == n),
        decreases more@.len() - i,
    {
        let ghost here = text::views(names@);
        insert_sorted(names, more[i].as_str());
        proof {
            assert(all[i as int] == more@[i as int]@);
            assert forall|n: Seq<char>| #[trigger] text::views(names@).contains(n)
                <==> before.contains(n) || (exists|j: int| 0 <= j < i + 1 && #[trigger] all[j]
                == n) by {
                assert(here.contains(n) <==> before.contains(n) || (exists|j: int|
                    0 <= j < i && #[trigger] all[j] == n));
            }
        }
        i += 1;
    }
}

/// Two lists in alphabetical order with the same names are the same list.
pub proof fn law_order_fixes_the_list(a: Seq<Seq<char>>, b: Seq<Seq<char>>)
    requires
        sorted(a),
        sorted(b),
        forall|n: Seq<char>| #[trigger] a.contains(n) <==> b.contains(n),
    ensures
        a == b,
    decreases a.len(),
{
    if a.len() == 0 {
        if b.len() > 0 {
            assert(b.contains(b[0]));
            assert(a.contains(b[0]));
        }
        assert(a =~= b);
    } else {
        assert(a.contains(a.last()));
        assert(b.len() > 0);
        let i = b.index_of(a.last());
        assert(b.contains(b.last()));
        assert(a.contains(b.last()));
        let j = a.index_of(b.last());
        if a.last() != b.last() {
            assert(text::lex_le(b[i], b[b.len() - 1]));
            assert(text::lex_le(a[j], a[a.len() - 1]));
            text::lemma_lex_antisymmetric(a.last(), b.last());
        }
        let x = a.drop_last();
        let y = b.drop_last();
        assert forall|n: Seq<char>| #[trigger] x.contains(n) <==> y.contains(n) by {
            if x.contains(n) {
                let k = x.index_of(n);
                assert(a[k] == n);
                assert(a.contains(n));
                assert(a[k] != a[a.len() - 1]);
                let l = b.index_of(n);
                assert(y[l] == n);
            }
            if y.contains(n) {
                let k = y.index_of(n);
                assert(b[k] == n);
                assert(b.contains(n));
                assert(b[k] != b[b.len() - 1]);
                assert(a.contains(n));
                let l = a.index_of(n);
                assert(x[l] == n);
            }
        }
        law_order_fixes_the_list(x, y);
        assert(a =~= x.push(a.last()));
        assert(b =~= y.push(b.last()));
    }
}

/// The names that serve a domain, in alphabetical order.
pub fn find_for_domain(m: &NameMap<Vec<String>>, domain: &str) -> (result: Vec<String>)
    requires
        m.wf(),
    ensures
        sorted(text::views(result@)),
        forall|n: Seq<char>| #[trigger]
            text::views(result@).contains(n) <==> serves(lists_of(*m), domain@, n),
{
    let ghost lists = lists_of(*m);
    let mut names: Vec<String> = Vec::new();
    if let Some(exact) = m.get(domain) {
        insert_all(&mut names, exact);
    }
    assert forall|n: Seq<char>| #[trigger] text::views(names@).contains(n) <==> list_of(
        lists,
        domain@,
    ).contains(n) by {}
    let mut i: usize = 0;
    while i < m.entries.len()
        invariant
            i <= m.entries@.len(),
            m.wf(),
            lists == lists_of(*m),
            sorted(text::views(names@)),
            forall|n: Seq<char>| #[trigger]
                text::views(names@).contains(n) <==> list_of(lists, domain@).contains(n) || (exists|
                    j: int,
                |
                    0 <= j < i && wildcard_takes((#[trigger] m.entries@[j]).0@, domain@)
                        && text::views(m.entries@[j].1@).contains(n)),
        decreases m.entries@.len() - i,
    {
        let ghost here = text::views(names@);
        let taken = match wildcard_match(m.entries[i].0.as_str(), domain) {
            Some(b) => b,
            None => false,
        };
        if taken {
            insert_all(&mut names, &m.entries[i].1);
        }
        proof {
            assert forall|n: Seq<char>| #[trigger] text::views(names@).contains(n) <==> list_of(
                lists,
                domain@,
            ).contains(n) || (exists|j: int|
                0 <= j < i + 1 && wildcard_takes((#[trigger] m.entries@[j]).0@, domain@)
                    && text::views(m.entries@[j].1@).contains(n)) by {
                assert(here.contains(n) <==> list_of(lists, domain@).contains(n) || (exists|j: int|
                    0 <= j < i && wildcard_takes((#[trigger] m.entries@[j]).0@, domain@)
                        && text::views(m.entries@[j].1@).contains(n)));
                assert(taken == wildcard_takes(m.entries@[i as int].0@, domain@));
            }
        }
        i += 1;
    }
    proof {
        assert forall|n: Seq<char>| #[trigger] text::views(names@).contains(n) <==> serves(
            lists,
            domain@,
            n,
        ) by {
            if exists|j: int|
                0 <= j < i && wildcard_takes((#[trigger] m.entries@[j]).0@, domain@)
                    && text::views(m.entries@[j].1@).contains(n) {
                let j = choose|j: int|
                    0 <= j < i && wildcard_takes((#[trigger] m.entries@[j]).0@, domain@)
                        && text::views(m.entries@[j].1@).contains(n);
                lemma_entry(m.entries@, j);
                assert(lists.contains_key(m.entries@[j].0@));
            }
            if exists|pattern: Seq<char>| #[trigger]
                lists.contains_key(pattern) && wildcard_takes(pattern, domain@)
                    && lists[pattern].contains(n) {
                let pattern = choose|pattern: Seq<char>| #[trigger]
                    lists.contains_key(pattern) && wildcard_takes(pattern, domain@)
                        && lists[pattern].contains(n);
                assert(m.keys().contains(pattern));
                let j = m.keys().index_of(pattern);
                assert(m.entries@[j].0@ == pattern);
                lemma_entry(m.entries@, j);
            }
        }
    }
    names
}

// ---------------------------------------------------------------------------------------------
// Coming and going
// ---------------------------------------------------------------------------------------------

/// Every list has names in it.
pub open spec fn none_empty(lists: DomainLists) -> bool {
    forall|d: Seq<char>| #[trigger] lists.contains_key(d) ==> lists[d].len() > 0
}

/// A name is in no list.
pub open spec fn absent(lists: DomainLists, name: Seq<char>) -> bool {
    forall|d: Seq<char>| #[trigger] lists.contains_key(d) ==> !lists[d].contains(name)
}

proof fn lemma_with_domains(
    lists: DomainLists,
    domains: Seq<Seq<char>>,
    name: Seq<char>,
    d: Seq<char>,
)
    requires
        absent(lists, name),
    ensures
        with_domains(lists, domains, name).contains_key(d) <==> lists.contains_key(d)
            || domains.contains(d),
        without(list_of(with_domains(lists, domains, name), d), name) == list_of(lists, d),
        domains.contains(d) ==> with_domains(lists, domains, name)[d].contains(name),
        !domains.contains(d) ==> list_of(with_domains(lists, domains, name), d) == list_of(
            lists,
            d,
        ),
    decreases domains.len(),
{
    let after = with_domains(lists, domains, name);
    if domains.len() == 0 {
        lemma_without_absent(list_of(lists, d), name);
    } else {
        let rest = domains.drop_last();
        let before = with_domains(lists, rest, name);
        lemma_with_domains(lists, rest, name, d);
        assert(domains[domains.len() - 1] == domains.last());
        if domains.contains(d) && d != domains.last() {
            let k = domains.index_of(d);
            assert(rest[k] == d);
        }
        if rest.contains(d) {
            let k = rest.index_of(d);
            assert(domains[k] == d);
        }
        if d == domains.last() {
            let list = list_of(before, d);
            assert(list.push(name).drop_last() =~= list);
            assert(list.push(name)[list.len() as int] == name);
        }
    }
}

/// What the lists hold once a name was added: names in them, and no new name but that one.
pub proof fn lemma_lists_after(lists: DomainLists, domains: Seq<Seq<char>>, name: Seq<char>)
    requires
        none_empty(lists),
    ensures
        none_empty(with_domains(lists, domains, name)),
        forall|d: Seq<char>, n: Seq<char>| #[trigger]
            list_of(with_domains(lists, domains, name), d).contains(n) && n != name ==> list_of(
                lists,
                d,
            ).contains(n),
        forall|d: Seq<char>, n: Seq<char>|
            with_domains(lists, domains, name).contains_key(d) && #[trigger] with_domains(
                lists,
                domains,
                name,
            )[d].contains(n) && n != name ==> list_of(lists, d).contains(n),
    decreases domains.len(),
{
    if domains.len() > 0 {
        let before = with_domains(lists, domains.drop_last(), name);
        let after = with_domains(lists, domains, name);
        lemma_lists_after(lists, domains.drop_last(), name);
        assert forall|d: Seq<char>, n: Seq<char>| #[trigger]
            list_of(after, d).contains(n) && n != name implies list_of(lists, d).contains(n) by {
            if d == domains.last() {
                let list = list_of(before, d);
                let k = list.push(name).index_of(n);
                assert(list[k] == n);
            }
            assert(list_of(before, d).contains(n));
        }
        assert forall|d: Seq<char>, n: Seq<char>|
            after.contains_key(d) && #[trigger] after[d].contains(n) && n != name implies list_of(
            lists,
            d,
        ).contains(n) by {
            assert(list_of(after, d).contains(n));
        }
    } else {
        assert forall|d: Seq<char>, n: Seq<char>|
            lists.contains_key(d) && #[trigger] lists[d].contains(n) implies list_of(
            lists,
            d,
        ).contains(n) by {}
    }
}

/// A plugin that serves no domain yet serves those it is registered for, and once it is taken out
/// again everything is as it was.
pub proof fn law_domains_round_trip(
    lists: DomainLists,
    domains: Seq<Seq<char>>,
    name: Seq<char>,
)
    requires
        none_empty(lists),
        absent(lists, name),
    ensures
        forall|d: Seq<char>| #[trigger]
            domains.contains(d) ==> serves(with_domains(lists, domains, name), d, name),
        without_domains(with_domains(lists, domains, name), name) == lists,
{
    let after = with_domains(lists, domains, name);
    assert forall|d: Seq<char>| #[trigger] domains.contains(d) implies serves(after, d, name) by {
        lemma_with_domains(lists, domains, name, d);
    }
    assert forall|d: Seq<char>| #[trigger]
        without_domains(after, name).contains_key(d) <==> lists.contains_key(d) by {
        lemma_with_domains(lists, domains, name, d);
    }
    assert forall|d: Seq<char>| #[trigger] lists.contains_key(d) implies without_domains(
        after,
        name,
    )[d] == lists[d] by {
        lemma_with_domains(lists, domains, name, d);
    }
    assert(without_domains(after, name) =~= lists);
}

/// Once a plugin is taken out, it serves no domain, and the others serve what they served.
pub proof fn law_removed_serves_nothing(
    lists: DomainLists,
    name: Seq<char>,
    domain: Seq<char>,
    other: Seq<char>,
)
    ensures
        !serves(without_domains(lists, name), domain, name),
        other != name ==> (serves(without_domains(lists, name), domain, other) <==> serves(
            lists,
            domain,
            other,
        )),
{
    let after = without_domains(lists, name);
    assert forall|d: Seq<char>, n: Seq<char>| #[trigger]
        list_of(after, d).contains(n) <==> list_of(lists, d).contains(n) && n != name by {
        if lists.contains_key(d) {
            lemma_without_contains(lists[d], name, n);
        }
    }
    assert forall|d: Seq<char>, n: Seq<char>| after.contains_key(d) implies after[d].contains(n)
        == list_of(after, d).contains(n) by {}
    if serves(lists, domain, other) && other != name && !list_of(lists, domain).contains(other) {
        let pattern = choose|pattern: Seq<char>| #[trigger]
            lists.contains_key(pattern) && wildcard_takes(pattern, domain)
                && lists[pattern].contains(other);
        assert(list_of(after, pattern).contains(other));
        assert(after.contains_key(pattern));
    }
    if serves(after, domain, other) && !list_of(after, domain).contains(other) {
        let pattern = choose|pattern: Seq<char>| #[trigger]
            after.contains_key(pattern) && wildcard_takes(pattern, domain)
                && after[pattern].contains(other);
        assert(list_of(after, pattern).contains(other));
        assert(lists.contains_key(pattern));
    }
    if serves(after, domain, name) {
        if !list_of(after, domain).contains(name) {
            let pattern = choose|pattern: Seq<char>| #[trigger]
                after.contains_key(pattern) && wildcard_takes(pattern, domain)
                    && after[pattern].contains(name);
            assert(list_of(after, pattern).contains(name));
        }
    }
}

} // verus!
