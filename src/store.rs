//! The identifier-keyed store of registered media, in which the first
//! registration of an identifier wins.
use vstd::prelude::*;
use crate::sniff::MediaKind;

verus! {

/// A registered file: its identifier, where it was stored, and its kind.
pub struct MediaRecord {
    pub identifier: String,
    pub path: String,
    pub kind: MediaKind,
}

/// What the store holds for an identifier: the stored path and the kind.
pub type Entry = (Seq<char>, MediaKind);

/// The map from identifier to entry that a sequence of records stands for.
pub open spec fn records_map(rs: Seq<MediaRecord>) -> Map<Seq<char>, Entry>
    decreases rs.len(),
{
    if rs.len() == 0 {
        Map::empty()
    } else {
        let last = rs.last();
        records_map(rs.drop_last()).insert(last.identifier@, (last.path@, last.kind))
    }
}

/// No two records share an identifier.
pub open spec fn unique_identifiers(rs: Seq<MediaRecord>) -> bool {
    forall|i: int, j: int|
        0 <= i < rs.len() && 0 <= j < rs.len() && i != j ==> #[trigger] rs[i].identifier@
            != #[trigger] rs[j].identifier@
}

/// The store after `register(identifier, path, kind)` on a store holding `m`.
pub open spec fn registered(m: Map<Seq<char>, Entry>, identifier: Seq<char>, path: Seq<char>, kind: MediaKind) -> Map<Seq<char>, Entry> {
    if m.contains_key(identifier) {
        m
    } else {
        m.insert(identifier, (path, kind))
    }
}

/// A store of registered media, keyed by identifier.
pub struct AddressStore {
    records: Vec<MediaRecord>,
}

proof fn lemma_records_map_absent(rs: Seq<MediaRecord>, k: Seq<char>)
    requires
        forall|i: int| 0 <= i < rs.len() ==> rs[i].identifier@ != k,
    ensures
        !records_map(rs).contains_key(k),
    decreases rs.len(),
{
    if rs.len() > 0 {
        lemma_records_map_absent(rs.drop_last(), k);
    }
}

proof fn lemma_records_map_entry(rs: Seq<MediaRecord>, i: int)
    requires
        unique_identifiers(rs),
        0 <= i < rs.len(),
    ensures
        records_map(rs).contains_key(rs[i].identifier@),
        records_map(rs)[rs[i].identifier@] == (rs[i].path@, rs[i].kind),
    decreases rs.len(),
{
    if i < rs.len() - 1 {
        let front = rs.drop_last();
        assert(unique_identifiers(front)) by {
            assert forall|a: int, b: int|
                0 <= a < front.len() && 0 <= b < front.len() && a != b implies #[trigger] front[a].identifier@
                != #[trigger] front[b].identifier@ by {
                assert(front[a] == rs[a] && front[b] == rs[b]);
            }
        }
        lemma_records_map_entry(front, i);
        assert(rs[i].identifier@ != rs[rs.len() - 1].identifier@);
    }
}

impl AddressStore {
    pub closed spec fn view(&self) -> Map<Seq<char>, Entry> {
        records_map(self.records@)
    }

    /// The store's invariant: no identifier is held twice.
    pub closed spec fn wf(&self) -> bool {
        unique_identifiers(self.records@)
    }

    /// An empty store.
    pub fn new() -> (r: AddressStore)
        ensures
            r.wf(),
            r@ == Map::<Seq<char>, Entry>::empty(),
    {
        AddressStore { records: Vec::new() }
    }

    /// The index of the record under `identifier`, if there is one.
    fn position(&self, identifier: &str) -> (r: Option<usize>)
        requires
            self.wf(),
        ensures
            match r {
                None => !self@.contains_key(identifier@),
                Some(i) => i < self.records@.len() && self.records@[i as int].identifier@
                    == identifier@,
            },
    {
        let key = String::from_str(identifier);
        let mut i: usize = 0;
        while i < self.records.len()
            invariant
                key@ == identifier@,
                i <= self.records@.len(),
                forall|j: int| 0 <= j < i ==> self.records@[j].identifier@ != identifier@,
            decreases self.records@.len() - i,
        {
            if self.records[i].identifier == key {
                return Some(i);
            }
            i = i + 1;
        }
        proof {
            lemma_records_map_absent(self.records@, identifier@);
        }
        None
    }

    /// Registers `path` and `kind` under `identifier` if no record holds it
    /// yet, and says whether it did; a held identifier is never overwritten.
    pub fn register(&mut self, identifier: &str, path: &str, kind: MediaKind) -> (r: bool)
        requires
            old(self).wf(),
        ensures
            final(self).wf(),
            r == !old(self)@.contains_key(identifier@),
            final(self)@ == registered(old(self)@, identifier@, path@, kind),
    {
        match self.position(identifier) {
            Some(i) => {
                proof {
                    lemma_records_map_entry(self.records@, i as int);
                }
                false
            },
            None => {
                let ghost before = self.records@;
                let record = MediaRecord {
                    identifier: String::from_str(identifier),
                    path: String::from_str(path),
                    kind,
                };
                self.records.push(record);
                proof {
                    assert(self.records@.drop_last() =~= before);
                    assert forall|j: int| 0 <= j < before.len() implies before[j].identifier@
                        != identifier@ by {
                        if before[j].identifier@ == identifier@ {
                            lemma_records_map_entry(before, j);
                        }
                    }
                }
                true
            },
        }
    }

    /// A copy of the record under `identifier`, or `None` if there is none.
    pub fn lookup(&self, identifier: &str) -> (r: Option<MediaRecord>)
        requires
            self.wf(),
        ensures
            match r {
                None => !self@.contains_key(identifier@),
                Some(rec) => self@.contains_key(identifier@) && rec.identifier@ == identifier@
                    && self@[identifier@] == (rec.path@, rec.kind),
            },
    {
        match self.position(identifier) {
            None => None,
            Some(i) => {
                proof {
                    lemma_records_map_entry(self.records@, i as int);
                }
                let rec = &self.records[i];
                Some(
                    MediaRecord {
                        identifier: rec.identifier.clone(),
                        path: rec.path.clone(),
                        kind: rec.kind,
                    },
                )
            },
        }
    }
}

/// The first registration of an identifier wins: on a store that does not
/// hold `identifier`, a first registration is accepted and a second one
/// refused, and the store keeps the first path and kind.
pub proof fn lemma_first_registration_wins(
    m: Map<Seq<char>, Entry>,
    identifier: Seq<char>,
    path1: Seq<char>,
    kind1: MediaKind,
    path2: Seq<char>,
    kind2: MediaKind,
)
    requires
        !m.contains_key(identifier),
    ensures
        registered(m, identifier, path1, kind1).contains_key(identifier),
        registered(registered(m, identifier, path1, kind1), identifier, path2, kind2) == registered(
            m,
            identifier,
            path1,
            kind1,
        ),
        registered(registered(m, identifier, path1, kind1), identifier, path2, kind2)[identifier]
            == (path1, kind1),
{
}

} // verus!
