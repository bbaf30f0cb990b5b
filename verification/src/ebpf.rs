//! A registry of the BPF maps the interceptor uses, kept by name.

use crate::text::str_eq;
use vstd::prelude::*;

verus! {

/// The kind of a BPF map.
#[derive(Debug, Clone, Copy, PartialEq, Eq, Structural)]
pub enum EbpfMapType {
    Hash,
    Array,
    PerCpuHash,
    PerCpuArray,
    RingBuf,
}

/// A BPF map's description.
#[derive(Debug)]
pub struct EbpfMap {
    pub name: String,
    pub map_type: EbpfMapType,
    pub max_entries: u32,
}

/// Map descriptions by name, each name at most once.
#[derive(Debug)]
pub struct EbpfMapManager {
    maps: Vec<EbpfMap>,
}

/// What a description records besides its name.
pub open spec fn entry_of(m: EbpfMap) -> (EbpfMapType, u32) {
    (m.map_type, m.max_entries)
}

/// The map from names to descriptions that a list of descriptions holds,
/// later entries replacing earlier ones.
pub open spec fn by_name(s: Seq<EbpfMap>) -> Map<Seq<char>, (EbpfMapType, u32)>
    decreases s.len(),
{
    if s.len() == 0 {
        Map::empty()
    } else {
        by_name(s.drop_last()).insert(s.last().name@, entry_of(s.last()))
    }
}

pub open spec fn names_unique(s: Seq<EbpfMap>) -> bool {
    forall|i: int, j: int| 0 <= i < j < s.len() ==> s[i].name@ != s[j].name@
}

proof fn lemma_by_name(s: Seq<EbpfMap>)
    requires
        names_unique(s),
    ensures
        forall|k: Seq<char>| #[trigger]
            by_name(s).contains_key(k) <==> exists|i: int| 0 <= i < s.len() && s[i].name@ == k,
        forall|i: int| 0 <= i < s.len() ==> #[trigger] by_name(s)[s[i].name@] == entry_of(s[i]),
    decreases s.len(),
{
    if s.len() > 0 {
        let p = s.drop_last();
        assert(names_unique(p));
        lemma_by_name(p);
        assert forall|k: Seq<char>| #[trigger]
            by_name(s).contains_key(k) <==> exists|i: int| 0 <= i < s.len() && s[i].name@ == k by {
            if by_name(s).contains_key(k) {
                if k != s.last().name@ {
                    assert(by_name(p).contains_key(k));
                    let i = choose|i: int| 0 <= i < p.len() && p[i].name@ == k;
                    assert(s[i] == p[i]);
                } else {
                    assert(s[s.len() - 1].name@ == k);
                }
            }
            if exists|i: int| 0 <= i < s.len() && s[i].name@ == k {
                let i = choose|i: int| 0 <= i < s.len() && s[i].name@ == k;
                if i < s.len() - 1 {
                    assert(p[i] == s[i]);
                    assert(by_name(p).contains_key(k));
                }
            }
        }
        assert forall|i: int| 0 <= i < s.len() implies #[trigger] by_name(s)[s[i].name@] == entry_of(
            s[i],
        ) by {
            if i < s.len() - 1 {
                assert(p[i] == s[i]);
                assert(s[i].name@ != s[s.len() - 1].name@);
                assert(by_name(p)[p[i].name@] == entry_of(p[i]));
            }
        }
    }
}

impl EbpfMapManager {
    #[verifier::type_invariant]
    spec fn unique(&self) -> bool {
        names_unique(self.maps@)
    }

    /// The descriptions by name.
    pub closed spec fn view(&self) -> Map<Seq<char>, (EbpfMapType, u32)> {
        by_name(self.maps@)
    }

    /// An empty registry.
    pub fn new() -> (r: Self)
        ensures
            r@ == Map::<Seq<char>, (EbpfMapType, u32)>::empty(),
    {
        EbpfMapManager { maps: Vec::new() }
    }

    fn index_of(&self, name: &str) -> (r: Option<usize>)
        ensures
            match r {
                Some(i) => i < self.maps@.len() && self.maps@[i as int].name@ == name@,
                None => forall|i: int| 0 <= i < self.maps@.len() ==> self.maps@[i].name@ != name@,
            },
    {
        let mut i: usize = 0;
        while i < self.maps.len()
            invariant
                i <= self.maps@.len(),
                forall|k: int| 0 <= k < i ==> self.maps@[k].name@ != name@,
            decreases self.maps@.len() - i,
        {
            if str_eq(self.maps[i].name.as_str(), name) {
                return Some(i);
            }
            i = i + 1;
        }
        None
    }

    /// Records a map description under `name`, replacing any description
    /// of that name.
    pub fn create_map(&mut self, name: &str, map_type: EbpfMapType, max_entries: u32) -> (r: Result<
        (),
        String,
    >)
        ensures
            r is Ok,
            final(self)@ == old(self)@.insert(name@, (map_type, max_entries)),
    {
        proof {
            use_type_invariant(&*self);
            lemma_by_name(self.maps@);
        }
        let m = EbpfMap { name: name.to_owned(), map_type, max_entries };
        match self.index_of(name) {
            Some(i) => {
                let ghost old_maps = self.maps@;
                let mut maps: Vec<EbpfMap> = Vec::new();
                std::mem::swap(&mut maps, &mut self.maps);
                maps.set(i, m);
                proof {
                    assert(names_unique(maps@)) by {
                        assert forall|a: int, b: int| 0 <= a < b < maps@.len() implies maps@[a].name@
                            != maps@[b].name@ by {
                            assert(old_maps[a].name@ == maps@[a].name@);
                            assert(old_maps[b].name@ == maps@[b].name@);
                        }
                    }
                    lemma_by_name(maps@);
                    assert(by_name(maps@) =~= by_name(old_maps).insert(name@, (map_type, max_entries)))
                        by {
                        assert forall|k: Seq<char>| #[trigger]
                            by_name(maps@).contains_key(k) == by_name(old_maps).insert(
                                name@,
                                (map_type, max_entries),
                            ).contains_key(k) by {
                            if exists|j: int| 0 <= j < maps@.len() && maps@[j].name@ == k {
                                let j = choose|j: int| 0 <= j < maps@.len() && maps@[j].name@ == k;
                                assert(old_maps[j].name@ == k);
                            }
                            if exists|j: int| 0 <= j < old_maps.len() && old_maps[j].name@ == k {
                                let j = choose|j: int| 0 <= j < old_maps.len() && old_maps[j].name@ == k;
                                assert(maps@[j].name@ == k);
                            }
                        }
                        assert forall|k: Seq<char>| #[trigger] by_name(maps@).contains_key(k) implies by_name(
                            maps@,
                        )[k] == by_name(old_maps).insert(name@, (map_type, max_entries))[k] by {
                            let j = choose|j: int| 0 <= j < maps@.len() && maps@[j].name@ == k;
                            assert(by_name(maps@)[maps@[j].name@] == entry_of(maps@[j]));
                            if j != i {
                                assert(old_maps[j] == maps@[j]);
                                assert(by_name(old_maps)[old_maps[j].name@] == entry_of(old_maps[j]));
                            }
                        }
                    }
                }
                self.maps = maps;
            },
            None => {
                let ghost old_maps = self.maps@;
                let mut maps: Vec<EbpfMap> = Vec::new();
                std::mem::swap(&mut maps, &mut self.maps);
                maps.push(m);
                proof {
                    assert(maps@.drop_last() =~= old_maps);
                    assert(names_unique(maps@)) by {
                        assert forall|a: int, b: int| 0 <= a < b < maps@.len() implies maps@[a].name@
                            != maps@[b].name@ by {
                            if b < maps@.len() - 1 {
                                assert(old_maps[a] == maps@[a]);
                                assert(old_maps[b] == maps@[b]);
                            } else {
                                assert(old_maps[a] == maps@[a]);
                            }
                        }
                    }
                }
                self.maps = maps;
            },
        }
        Ok(())
    }

    /// The description recorded under `name`.
    pub fn get_map(&self, name: &str) -> (r: Option<&EbpfMap>)
        ensures
            match r {
                Some(m) => self@.contains_key(name@) && m.name@ == name@ && self@[name@] == entry_of(
                    *m,
                ),
                None => !self@.contains_key(name@),
            },
    {
        proof {
            use_type_invariant(self);
            lemma_by_name(self.maps@);
        }
        match self.index_of(name) {
            Some(i) => Some(&self.maps[i]),
            None => None,
        }
    }

    /// Forgets the description recorded under `name`; whether there was one.
    pub fn delete_map(&mut self, name: &str) -> (r: bool)
        ensures
            r == old(self)@.contains_key(name@),
            final(self)@ == old(self)@.remove(name@),
    {
        proof {
            use_type_invariant(&*self);
            lemma_by_name(self.maps@);
        }
        match self.index_of(name) {
            Some(i) => {
                let ghost old_maps = self.maps@;
                let mut maps: Vec<EbpfMap> = Vec::new();
                std::mem::swap(&mut maps, &mut self.maps);
                let _removed = maps.remove(i);
                proof {
                    assert(maps@ =~= old_maps.remove(i as int));
                    assert(names_unique(maps@)) by {
                        assert forall|a: int, b: int| 0 <= a < b < maps@.len() implies maps@[a].name@
                            != maps@[b].name@ by {
                            let oa = if a < i { a } else { a + 1 };
                            let ob = if b < i { b } else { b + 1 };
                            assert(maps@[a] == old_maps[oa]);
                            assert(maps@[b] == old_maps[ob]);
                        }
                    }
                    lemma_by_name(maps@);
                    assert(by_name(maps@) =~= by_name(old_maps).remove(name@)) by {
                        assert forall|k: Seq<char>| #[trigger]
                            by_name(maps@).contains_key(k) == by_name(old_maps).remove(name@).contains_key(k) by {
                            if exists|j: int| 0 <= j < maps@.len() && maps@[j].name@ == k {
                                let j = choose|j: int| 0 <= j < maps@.len() && maps@[j].name@ == k;
                                let oj = if j < i { j } else { j + 1 };
                                assert(maps@[j] == old_maps[oj]);
                                assert(oj != i);
                            }
                            if k != name@ && exists|j: int| 0 <= j < old_maps.len() && old_maps[j].name@ == k {
                                let j = choose|j: int| 0 <= j < old_maps.len() && old_maps[j].name@ == k;
                                assert(j != i);
                                let mj = if j < i { j } else { j - 1 };
                                assert(maps@[mj] == old_maps[j]);
                            }
                        }
                        assert forall|k: Seq<char>| #[trigger] by_name(maps@).contains_key(k) implies by_name(
                            maps@,
                        )[k] == by_name(old_maps)[k] by {
                            let j = choose|j: int| 0 <= j < maps@.len() && maps@[j].name@ == k;
                            let oj = if j < i { j } else { j + 1 };
                            assert(maps@[j] == old_maps[oj]);
                            assert(by_name(maps@)[maps@[j].name@] == entry_of(maps@[j]));
                            assert(by_name(old_maps)[old_maps[oj].name@] == entry_of(old_maps[oj]));
                        }
                    }
                }
                self.maps = maps;
                true
            },
            None => {
                proof {
                    assert(by_name(self.maps@).remove(name@) =~= by_name(self.maps@));
                }
                false
            },
        }
    }
}

impl Default for EbpfMapManager {
    fn default() -> (r: Self)
        ensures
            r@ == Map::<Seq<char>, (EbpfMapType, u32)>::empty(),
    {
        Self::new()
    }
}

/// Keeps the per-process server rules the kernel side reads.
#[derive(Debug)]
pub struct RuleManager {}

impl RuleManager {
    pub fn new() -> (r: Self) {
        RuleManager {  }
    }
}

impl Default for RuleManager {
    fn default() -> (r: Self) {
        Self::new()
    }
}

/// Recording a description makes it the one found under its name.
pub proof fn lemma_created_map_is_found(
    m: Map<Seq<char>, (EbpfMapType, u32)>,
    name: Seq<char>,
    t: EbpfMapType,
    max_entries: u32,
)
    ensures
        m.insert(name, (t, max_entries)).contains_key(name),
        m.insert(name, (t, max_entries))[name] == (t, max_entries),
{
}

/// Deleting after recording under a fresh name gives back the registry as it was.
pub proof fn lemma_delete_undoes_create(
    m: Map<Seq<char>, (EbpfMapType, u32)>,
    name: Seq<char>,
    t: EbpfMapType,
    max_entries: u32,
)
    requires
        !m.contains_key(name),
    ensures
        m.insert(name, (t, max_entries)).remove(name) == m,
{
    assert(m.insert(name, (t, max_entries)).remove(name) =~= m);
}

} // verus!
