//! Which plugin has which port.
use vstd::prelude::*;

use crate::text;

verus! {

broadcast use vstd::string::group_string_axioms;

/// Ports with the name of the plugin that has each. No port occurs twice.
#[derive(Debug)]
pub struct PortMap {
    pub entries: Vec<(u16, String)>,
}

/// The ports of a list of entries, in order.
pub open spec fn ports_of(entries: Seq<(u16, String)>) -> Seq<u16> {
    entries.map_values(|e: (u16, String)| e.0)
}

/// The map that a list of entries stands for.
pub open spec fn owners_of(entries: Seq<(u16, String)>) -> Map<u16, Seq<char>> {
    Map::new(
        |p: u16| ports_of(entries).contains(p),
        |p: u16| entries[ports_of(entries).index_of(p)].1@,
    )
}

impl View for PortMap {
    type V = Map<u16, Seq<char>>;

    open spec fn view(&self) -> Map<u16, Seq<char>> {
        owners_of(self.entries@)
    }
}

/// The ports with each of these given to a name.
pub open spec fn with_ports(owners: Map<u16, Seq<char>>, ports: Seq<u16>, name: Seq<char>) -> Map<
    u16,
    Seq<char>,
>
    decreases ports.len(),
{
    if ports.len() == 0 {
        owners
    } else {
        with_ports(owners, ports.drop_last(), name).insert(ports.last(), name)
    }
}

/// The ports without those of a name.
pub open spec fn without_ports(owners: Map<u16, Seq<char>>, name: Seq<char>) -> Map<
    u16,
    Seq<char>,
> {
    Map::new(|p: u16| owners.contains_key(p) && owners[p] != name, |p: u16| owners[p])
}

/// The first of these ports that belongs to somebody.
pub open spec fn first_taken(owners: Map<u16, Seq<char>>, ports: Seq<u16>) -> Option<u16>
    decreases ports.len(),
{
    if ports.len() == 0 {
        None
    } else if owners.contains_key(ports[0]) {
        Some(ports[0])
    } else {
        first_taken(owners, ports.drop_first())
    }
}

proof fn lemma_owner(entries: Seq<(u16, String)>, i: int)
    requires
        ports_of(entries).no_duplicates(),
        0 <= i < entries.len(),
    ensures
        owners_of(entries).contains_key(entries[i].0),
        owners_of(entries)[entries[i].0] == entries[i].1@,
{
    let ports = ports_of(entries);
    assert(ports[i] == entries[i].0);
    assert(ports.contains(ports[i]));
    let j = ports.index_of(ports[i]);
    assert(ports[j] == ports[i]);
}

/// No port of these belongs to anybody exactly where no first one is found.
pub proof fn lemma_first_taken(owners: Map<u16, Seq<char>>, ports: Seq<u16>)
    ensures
        match first_taken(owners, ports) {
            Some(p) => ports.contains(p) && owners.contains_key(p),
            None => forall|p: u16| #[trigger] ports.contains(p) ==> !owners.contains_key(p),
        },
    decreases ports.len(),
{
    if ports.len() > 0 {
        let rest = ports.drop_first();
        lemma_first_taken(owners, rest);
        match first_taken(owners, ports) {
            Some(p) => {
                if owners.contains_key(ports[0]) {
                    assert(ports.contains(ports[0]));
                } else {
                    let k = rest.index_of(p);
                    assert(ports[k + 1] == p);
                }
            },
            None => {
                assert forall|p: u16| #[trigger] ports.contains(p) implies !owners.contains_key(
                    p,
                ) by {
                    let k = ports.index_of(p);
                    if k > 0 {
                        assert(rest[k - 1] == p);
                        assert(rest.contains(p));
                    }
                }
            },
        }
    }
}

impl PortMap {
    /// No port occurs twice.
    pub open spec fn wf(self) -> bool {
        ports_of(self.entries@).no_duplicates()
    }

    /// A map without ports.
    pub fn new() -> (result: Self)
        ensures
            result.wf(),
            result@ == Map::<u16, Seq<char>>::empty(),
    {
        let result = PortMap { entries: Vec::new() };
        assert(result@ =~= Map::<u16, Seq<char>>::empty());
        result
    }

    /// The name that has a port.
    pub fn get(&self, port: u16) -> (result: Option<&String>)
        requires
            self.wf(),
        ensures
            match result {
                Some(n) => self@.contains_key(port) && n@ == self@[port],
                None => !self@.contains_key(port),
            },
    {
        match self.position(port) {
            Some(i) => Some(&self.entries[i].1),
            None => None,
        }
    }

    fn position(&self, port: u16) -> (result: Option<usize>)
        requires
            self.wf(),
        ensures
            match result {
                Some(i) => i < self.entries@.len() && self.entries@[i as int].0 == port
                    && self@.contains_key(port) && self@[port] == self.entries@[i as int].1@,
                None => !self@.contains_key(port),
            },
    {
        let mut i: usize = 0;
        while i < self.entries.len()
            invariant
                i <= self.entries@.len(),
                self.wf(),
                forall|j: int| 0 <= j < i ==> (#[trigger] self.entries@[j]).0 != port,
            decreases self.entries@.len() - i,
        {
            if self.entries[i].0 == port {
                proof {
                    lemma_owner(self.entries@, i as int);
                }
                return Some(i);
            }
            i += 1;
        }
        proof {
            if ports_of(self.entries@).contains(port) {
                let j = ports_of(self.entries@).index_of(port);
                assert(self.entries@[j].0 == port);
            }
        }
        None
    }

    /// Gives a port to a name.
    pub fn insert(&mut self, port: u16, name: &str)
        requires
            old(self).wf(),
        ensures
            final(self).wf(),
            final(self)@ == old(self)@.insert(port, name@),
    {
        let ghost before = self.entries@;
        match self.position(port) {
            Some(i) => {
                self.entries.set(i, (port, name.to_string()));
                proof {
                    let after = self.entries@;
                    assert(ports_of(after) =~= ports_of(before));
                    assert forall|p: u16| ports_of(after).contains(p) implies owners_of(after)[p]
                        == owners_of(before).insert(port, name@)[p] by {
                        let j = ports_of(after).index_of(p);
                        assert(ports_of(after)[j] == p);
                        assert(ports_of(before)[j] == p);
                        assert(ports_of(before)[i as int] == port);
                    }
                    assert(owners_of(after) =~= owners_of(before).insert(port, name@));
                }
            },
            None => {
                self.entries.push((port, name.to_string()));
                proof {
                    let after = self.entries@;
                    assert(ports_of(after) =~= ports_of(before).push(port));
                    assert forall|a: int, b: int|
                        0 <= a < ports_of(after).len() && 0 <= b < ports_of(after).len() && a
                            != b implies ports_of(after)[a] != ports_of(after)[b] by {
                        if a == before.len() {
                            assert(ports_of(before).contains(ports_of(before)[b]));
                        }
                        if b == before.len() {
                            assert(ports_of(before).contains(ports_of(before)[a]));
                        }
                    }
                    assert(ports_of(after)[before.len() as int] == port);
                    lemma_owner(after, before.len() as int);
                    assert forall|p: u16|
                        ports_of(after).contains(p) == (ports_of(before).contains(p) || p
                            == port) by {
                        if ports_of(before).contains(p) {
                            let j = ports_of(before).index_of(p);
                            assert(ports_of(after)[j] == p);
                        }
                        if ports_of(after).contains(p) {
                            let j = ports_of(after).index_of(p);
                            if j < before.len() {
                                assert(ports_of(before)[j] == p);
                            }
                        }
                    }
                    assert forall|p: u16| ports_of(before).contains(p) implies owners_of(after)[p]
                        == owners_of(before)[p] by {
                        let j = ports_of(before).index_of(p);
                        assert(ports_of(before)[j] == p);
                        assert(after[j] == before[j]);
                        lemma_owner(after, j);
                    }
                    assert(owners_of(after) =~= owners_of(before).insert(port, name@));
                }
            },
        }
    }

    /// Gives ports to a name.
    pub fn insert_all(&mut self, ports: &Vec<u16>, name: &str)
        requires
            old(self).wf(),
        ensures
            final(self).wf(),
            final(self)@ == with_ports(old(self)@, ports@, name@),
    {
        let ghost before = self@;
        let mut i: usize = 0;
        assert(ports@.take(0) =~= Seq::<u16>::empty());
        while i < ports.len()
            invariant
                i <= ports@.len(),
                self.wf(),
                self@ == with_ports(before, ports@.take(i as int), name@),
            decreases ports@.len() - i,
        {
            self.insert(ports[i], name);
            proof {
                assert(ports@.take(i + 1).drop_last() =~= ports@.take(i as int));
                assert(ports@.take(i + 1).last() == ports@[i as int]);
            }
            i += 1;
        }
        assert(ports@.take(i as int) =~= ports@);
    }

    /// Takes the ports of a name away from it.
    pub fn remove_name(&mut self, name: &str)
        requires
            old(self).wf(),
        ensures
            final(self).wf(),
            final(self)@ == without_ports(old(self)@, name@),
    {
        let ghost before = self.entries@;
        let mut kept: PortMap = PortMap::new();
        let mut i: usize = 0;
        while i < self.entries.len()
            invariant
                i <= before.len(),
                self.entries@ == before,
                ports_of(before).no_duplicates(),
                kept.wf(),
                forall|p: u16| #[trigger]
                    kept@.contains_key(p) <==> (exists|j: int|
                        0 <= j < i && (#[trigger] before[j]).0 == p && before[j].1@ != name@),
                forall|p: u16| #[trigger]
                    kept@.contains_key(p) ==> kept@[p] == owners_of(before)[p],
            decreases before.len() - i,
        {
            let ghost here = kept@;
            proof {
                lemma_owner(before, i as int);
            }
            let other = !text::eq(self.entries[i].1.as_str(), name);
            if other {
                kept.insert(self.entries[i].0, self.entries[i].1.as_str());
            }
            proof {
                assert forall|p: u16| #[trigger] kept@.contains_key(p) <==> (exists|j: int|
                    0 <= j < i + 1 && (#[trigger] before[j]).0 == p && before[j].1@ != name@) by {
                    assert(here.contains_key(p) <==> (exists|j: int|
                        0 <= j < i && (#[trigger] before[j]).0 == p && before[j].1@ != name@));
                    assert(other == (before[i as int].1@ != name@));
                }
            }
            i += 1;
        }
        proof {
            assert forall|p: u16| #[trigger] kept@.contains_key(p) <==> without_ports(
                owners_of(before),
                name@,
            ).contains_key(p) by {
                if kept@.contains_key(p) {
                    let j = choose|j: int|
                        0 <= j < i && (#[trigger] before[j]).0 == p && before[j].1@ != name@;
                    lemma_owner(before, j);
                }
                if owners_of(before).contains_key(p) {
                    let j = ports_of(before).index_of(p);
                    assert(before[j].0 == p);
                    lemma_owner(before, j);
                }
            }
            assert(kept@ =~= without_ports(owners_of(before), name@));
        }
        *self = kept;
    }

    /// The first of these ports that belongs to somebody, and to whom.
    pub fn find_taken(&self, ports: &Vec<u16>) -> (result: Option<(u16, String)>)
        requires
            self.wf(),
        ensures
            match result {
                Some((p, n)) => first_taken(self@, ports@) == Some(p) && n@ == self@[p],
                None => first_taken(self@, ports@) is None,
            },
    {
        let mut i: usize = 0;
        assert(ports@.skip(0) =~= ports@);
        while i < ports.len()
            invariant
                i <= ports@.len(),
                self.wf(),
                first_taken(self@, ports@) == first_taken(self@, ports@.skip(i as int)),
            decreases ports@.len() - i,
        {
            assert(ports@.skip(i as int).drop_first() =~= ports@.skip(i + 1));
            if let Some(n) = self.get(ports[i]) {
                return Some((ports[i], n.clone()));
            }
            i += 1;
        }
        None
    }
}

proof fn lemma_with_ports(
    owners: Map<u16, Seq<char>>,
    ports: Seq<u16>,
    name: Seq<char>,
    p: u16,
)
    ensures
        with_ports(owners, ports, name).contains_key(p) <==> owners.contains_key(p)
            || ports.contains(p),
        with_ports(owners, ports, name)[p] == (if ports.contains(p) {
            name
        } else {
            owners[p]
        }),
    decreases ports.len(),
{
    if ports.len() > 0 {
        let rest = ports.drop_last();
        lemma_with_ports(owners, rest, name, p);
        assert(ports[ports.len() - 1] == ports.last());
        if ports.contains(p) && p != ports.last() {
            let k = ports.index_of(p);
            assert(rest[k] == p);
        }
        if rest.contains(p) {
            let k = rest.index_of(p);
            assert(ports[k] == p);
        }
    }
}

/// Who has ports once some were given to a name: whoever had them, and that name.
pub proof fn lemma_owners_after(owners: Map<u16, Seq<char>>, ports: Seq<u16>, name: Seq<char>)
    ensures
        forall|p: u16| #[trigger]
            with_ports(owners, ports, name).contains_key(p) ==> with_ports(owners, ports, name)[p]
                == name || owners.contains_key(p) && with_ports(owners, ports, name)[p]
                == owners[p],
{
    assert forall|p: u16| #[trigger]
        with_ports(owners, ports, name).contains_key(p) implies with_ports(owners, ports, name)[p]
        == name || owners.contains_key(p) && with_ports(owners, ports, name)[p] == owners[p] by {
        lemma_with_ports(owners, ports, name, p);
    }
}

/// A plugin without ports has those that it is given where nobody had them, and once they are taken
/// away again everything is as it was.
pub proof fn law_ports_round_trip(
    owners: Map<u16, Seq<char>>,
    ports: Seq<u16>,
    name: Seq<char>,
)
    requires
        first_taken(owners, ports) is None,
        forall|p: u16| #[trigger] owners.contains_key(p) ==> owners[p] != name,
    ensures
        forall|p: u16| #[trigger]
            ports.contains(p) ==> with_ports(owners, ports, name).contains_key(p) && with_ports(
                owners,
                ports,
                name,
            )[p] == name,
        without_ports(with_ports(owners, ports, name), name) == owners,
{
    let after = with_ports(owners, ports, name);
    lemma_first_taken(owners, ports);
    assert forall|p: u16| #[trigger] ports.contains(p) implies after.contains_key(p) && after[p]
        == name by {
        lemma_with_ports(owners, ports, name, p);
    }
    assert forall|p: u16| #[trigger]
        without_ports(after, name).contains_key(p) <==> owners.contains_key(p) by {
        lemma_with_ports(owners, ports, name, p);
    }
    assert forall|p: u16| #[trigger] owners.contains_key(p) implies without_ports(after, name)[p]
        == owners[p] by {
        lemma_with_ports(owners, ports, name, p);
    }
    assert(without_ports(after, name) =~= owners);
}

/// Giving ports that nobody has to a plugin takes none away from another.
pub proof fn law_ports_are_kept(
    owners: Map<u16, Seq<char>>,
    ports: Seq<u16>,
    name: Seq<char>,
    p: u16,
)
    requires
        first_taken(owners, ports) is None,
        owners.contains_key(p),
    ensures
        with_ports(owners, ports, name).contains_key(p),
        with_ports(owners, ports, name)[p] == owners[p],
{
    lemma_first_taken(owners, ports);
    lemma_with_ports(owners, ports, name, p);
}

/// The port that is told to be taken is the first of those asked for that somebody has.
pub proof fn law_first_taken_is_told(owners: Map<u16, Seq<char>>, ports: Seq<u16>, k: int)
    requires
        0 <= k < ports.len(),
        owners.contains_key(ports[k]),
        forall|j: int| 0 <= j < k ==> !owners.contains_key(#[trigger] ports[j]),
    ensures
        first_taken(owners, ports) == Some(ports[k]),
    decreases k,
{
    if k > 0 {
        assert(!owners.contains_key(ports[0]));
        let rest = ports.drop_first();
        assert forall|j: int| 0 <= j < k - 1 implies !owners.contains_key(#[trigger] rest[j]) by {
            assert(!owners.contains_key(ports[j + 1]));
        }
        law_first_taken_is_told(owners, rest, k - 1);
    }
}

} // verus!
