//! The per-device settings table: device names mapped to their settings,
//! with every name present at most once.
use vstd::prelude::*;
use crate::config::DeviceConfig;

verus! {

/// The names of a list of entries, in order.
pub open spec fn entry_keys(entries: Seq<(String, DeviceConfig)>) -> Seq<Seq<char>> {
    entries.map_values(|e: (String, DeviceConfig)| e.0@)
}

/// The map that a list of entries describes (a later entry for a name wins).
pub open spec fn entries_map(entries: Seq<(String, DeviceConfig)>) -> Map<Seq<char>, DeviceConfig>
    decreases entries.len(),
{
    if entries.len() == 0 {
        Map::empty()
    } else {
        entries_map(entries.drop_last()).insert(entries.last().0@, entries.last().1)
    }
}

/// The names that the map of `entries` holds are those of its entries.
pub proof fn lemma_entries_map_dom(entries: Seq<(String, DeviceConfig)>, k: Seq<char>)
    ensures
        entries_map(entries).contains_key(k) <==> entry_keys(entries).contains(k),
    decreases entries.len(),
{
    if entries.len() > 0 {
        let init = entries.drop_last();
        lemma_entries_map_dom(init, k);
        if entry_keys(init).contains(k) {
            let i = choose|i: int| 0 <= i < entry_keys(init).len() && entry_keys(init)[i] == k;
            assert(entry_keys(entries)[i] == k);
        }
        if entry_keys(entries).contains(k) {
            let i = choose|i: int| 0 <= i < entry_keys(entries).len() && entry_keys(entries)[i] == k;
            if i < init.len() {
                assert(entry_keys(init)[i] == k);
            }
        }
        assert(entry_keys(entries)[entries.len() - 1] == entries.last().0@);
    }
}

/// In a list without repeated names, the map gives each entry's settings.
pub proof fn lemma_entries_map_value(entries: Seq<(String, DeviceConfig)>, i: int)
    requires
        entry_keys(entries).no_duplicates(),
        0 <= i < entries.len(),
    ensures
        entries_map(entries).contains_key(entries[i].0@),
        entries_map(entries)[entries[i].0@] == entries[i].1,
    decreases entries.len(),
{
    let init = entries.drop_last();
    if i < entries.len() - 1 {
        assert(entry_keys(init) =~= entry_keys(entries).drop_last());
        assert(entry_keys(entries)[i] != entry_keys(entries)[entries.len() - 1]);
        lemma_entries_map_value(init, i);
    }
}

/// The entries with every device's settings brought into range.
pub open spec fn sanitized_entries(entries: Seq<(String, DeviceConfig)>) -> Seq<(String, DeviceConfig)> {
    entries.map_values(|e: (String, DeviceConfig)| (e.0, e.1.sanitized()))
}

/// Sanitizing each entry sanitizes each value of the map.
pub proof fn lemma_sanitized_entries_map(entries: Seq<(String, DeviceConfig)>)
    ensures
        entries_map(sanitized_entries(entries)) == entries_map(entries).map_values(
            |d: DeviceConfig| d.sanitized(),
        ),
    decreases entries.len(),
{
    let f = |d: DeviceConfig| d.sanitized();
    if entries.len() == 0 {
        assert(entries_map(entries).map_values(f) =~= Map::<Seq<char>, DeviceConfig>::empty());
    } else {
        let init = entries.drop_last();
        assert(sanitized_entries(entries).drop_last() =~= sanitized_entries(init));
        lemma_sanitized_entries_map(init);
        assert(entries_map(sanitized_entries(entries)) =~= entries_map(entries).map_values(f));
    }
}

/// A table of per-device settings keyed by device name.
pub struct DeviceMap {
    entries: Vec<(String, DeviceConfig)>,
}

impl View for DeviceMap {
    type V = Map<Seq<char>, DeviceConfig>;

    closed spec fn view(&self) -> Map<Seq<char>, DeviceConfig> {
        entries_map(self.entries@)
    }
}

impl DeviceMap {
    /// No device name occurs twice.
    #[verifier::type_invariant]
    closed spec fn names_unique(self) -> bool {
        entry_keys(self.entries@).no_duplicates()
    }

    /// An empty table.
    pub fn new() -> (r: Self)
        ensures
            r@ == Map::<Seq<char>, DeviceConfig>::empty(),
    {
        DeviceMap { entries: Vec::new() }
    }

    /// Whether the table holds no device.
    pub fn is_empty(&self) -> (r: bool)
        ensures
            r == (self@ == Map::<Seq<char>, DeviceConfig>::empty()),
    {
        if self.entries.len() == 0 {
            assert(self@ =~= Map::<Seq<char>, DeviceConfig>::empty());
            true
        } else {
            let ghost k = self.entries@.last().0@;
            proof {
                lemma_entries_map_dom(self.entries@, k);
                assert(entry_keys(self.entries@)[self.entries@.len() - 1] == k);
            }
            assert(self@.contains_key(k));
            false
        }
    }

    /// The position of `key` among the entries.
    fn find(&self, key: &str) -> (r: Option<usize>)
        ensures
            match r {
                Some(i) => i < self.entries@.len() && self.entries@[i as int].0@ == key@,
                None => !entry_keys(self.entries@).contains(key@),
            },
    {
        let mut i: usize = 0;
        while i < self.entries.len()
            invariant
                i <= self.entries@.len(),
                forall|j: int| 0 <= j < i ==> self.entries@[j].0@ != key@,
            decreases self.entries@.len() - i,
        {
            if str_eq(self.entries[i].0.as_str(), key) {
                return Some(i);
            }
            i += 1;
        }
        proof {
            if entry_keys(self.entries@).contains(key@) {
                let j = choose|j: int|
                    0 <= j < entry_keys(self.entries@).len() && entry_keys(self.entries@)[j] == key@;
                assert(self.entries@[j].0@ == key@);
            }
        }
        None
    }

    /// The settings of device `key`, if the table holds it.
    pub fn get(&self, key: &str) -> (r: Option<&DeviceConfig>)
        ensures
            match r {
                Some(d) => self@.contains_key(key@) && *d == self@[key@],
                None => !self@.contains_key(key@),
            },
    {
        proof {
            use_type_invariant(self);
            lemma_entries_map_dom(self.entries@, key@);
        }
        match self.find(key) {
            Some(i) => {
                proof {
                    lemma_entries_map_value(self.entries@, i as int);
                }
                Some(&self.entries[i].1)
            },
            None => None,
        }
    }

    /// Brings the settings of every device into range.
    pub fn sanitize_all(&mut self)
        ensures
            final(self)@ == old(self)@.map_values(|d: DeviceConfig| d.sanitized()),
    {
        proof {
            use_type_invariant(&*self);
        }
        let ghost old_entries = self.entries@;
        let mut entries: Vec<(String, DeviceConfig)> = Vec::new();
        let mut i: usize = 0;
        while i < self.entries.len()
            invariant
                i <= self.entries@.len(),
                self.entries@ == old_entries,
                entries@ == sanitized_entries(old_entries.take(i as int)),
            decreases self.entries@.len() - i,
        {
            let name = self.entries[i].0.clone();
            let mut settings = self.entries[i].1;
            settings.sanitize();
            entries.push((name, settings));
            i += 1;
            assert(entries@ =~= sanitized_entries(old_entries.take(i as int)));
        }
        proof {
            assert(old_entries.take(old_entries.len() as int) =~= old_entries);
            assert(entry_keys(entries@) =~= entry_keys(old_entries));
            lemma_sanitized_entries_map(old_entries);
        }
        self.entries = entries;
    }

    /// The entries of the table: each device once, with its settings.
    pub fn entries(&self) -> (r: Vec<(String, DeviceConfig)>)
        ensures
            entries_map(r@) == self@,
            entry_keys(r@).no_duplicates(),
    {
        proof {
            use_type_invariant(self);
        }
        let mut r: Vec<(String, DeviceConfig)> = Vec::new();
        let mut i: usize = 0;
        while i < self.entries.len()
            invariant
                i <= self.entries@.len(),
                r@ == self.entries@.take(i as int),
            decreases self.entries@.len() - i,
        {
            r.push((self.entries[i].0.clone(), self.entries[i].1));
            i += 1;
            assert(r@ =~= self.entries@.take(i as int));
        }
        assert(self.entries@.take(self.entries@.len() as int) =~= self.entries@);
        r
    }

    /// Sets the settings of device `key`, giving back those it had before.
    pub fn insert(&mut self, key: String, value: DeviceConfig) -> (r: Option<DeviceConfig>)
        ensures
            final(self)@ == old(self)@.insert(key@, value),
            match r {
                Some(d) => old(self)@.contains_key(key@) && d == old(self)@[key@],
                None => !old(self)@.contains_key(key@),
            },
    {
        proof {
            use_type_invariant(&*self);
            lemma_entries_map_dom(self.entries@, key@);
        }
        let ghost old_entries = self.entries@;
        match self.find(key.as_str()) {
            Some(i) => {
                let previous = self.entries[i].1;
                proof {
                    lemma_entries_map_value(old_entries, i as int);
                }
                let mut entries = Vec::new();
                std::mem::swap(&mut entries, &mut self.entries);
                entries.set(i, (key, value));
                proof {
                    assert(entry_keys(entries@) =~= entry_keys(old_entries));
                    assert(entry_keys(old_entries)[i as int] == key@);
                    let m_new = entries_map(entries@);
                    let m_want = entries_map(old_entries).insert(key@, value);
                    assert forall|k: Seq<char>| m_new.contains_key(k) <==> m_want.contains_key(k) by {
                        lemma_entries_map_dom(entries@, k);
                        lemma_entries_map_dom(old_entries, k);
                    }
                    assert forall|k: Seq<char>| m_new.contains_key(k) implies m_new[k] == m_want[k] by {
                        lemma_entries_map_dom(entries@, k);
                        let j = choose|j: int| 0 <= j < entry_keys(entries@).len() && entry_keys(entries@)[j] == k;
                        lemma_entries_map_value(entries@, j);
                        if j != i {
                            assert(entry_keys(old_entries)[j] != entry_keys(old_entries)[i as int]);
                            lemma_entries_map_value(old_entries, j);
                        }
                    }
                    assert(entries_map(entries@) =~= entries_map(old_entries).insert(key@, value));
                }
                self.entries = entries;
                Some(previous)
            },
            None => {
                let mut entries = Vec::new();
                std::mem::swap(&mut entries, &mut self.entries);
                entries.push((key, value));
                proof {
                    assert(entries@.drop_last() =~= old_entries);
                    assert(entry_keys(entries@) =~= entry_keys(old_entries).push(key@));
                }
                self.entries = entries;
                None
            },
        }
    }
}

/// Whether two strings hold the same characters (`str == str`).
///
/// Trusted: the contract claims that `==` on `str` compares the characters.
#[verifier::external_body]
pub(crate) fn str_eq(a: &str, b: &str) -> (r: bool)
    ensures
        r == (a@ == b@),
{
    a == b
}

} // verus!
