use vstd::prelude::*;

verus! {

/// One saved connection: a display name and the connection string filed
/// under it (the string may be empty when the secret lives elsewhere).
#[derive(Debug, Clone)]
pub struct UriEntry {
    pub name: String,
    pub uri: String,
}

/// The saved connections, in the order they were added. Whoever persists
/// this does so outside the library; everything it decides — where a name
/// goes, which entry a name denotes — is decided here.
#[derive(Debug, Clone)]
pub struct Config {
    pub uris: Vec<UriEntry>,
}

/// Whether some entry carries this name.
pub open spec fn contains_name(entries: Seq<UriEntry>, name: Seq<char>) -> bool {
    exists|i: int| 0 <= i < entries.len() && entries[i].name@ == name
}

/// Whether `i` is the first entry carrying this name.
pub open spec fn first_with_name(entries: Seq<UriEntry>, name: Seq<char>, i: int) -> bool {
    &&& 0 <= i < entries.len()
    &&& entries[i].name@ == name
    &&& forall|j: int| 0 <= j < i ==> (#[trigger] entries[j]).name@ != name
}

/// Keeps the entries whose name differs from `name`.
pub open spec fn keeps(name: Seq<char>) -> spec_fn(UriEntry) -> bool {
    |e: UriEntry| e.name@ != name
}

/// The entries left when every entry named `name` is dropped, order kept.
pub open spec fn without_name(entries: Seq<UriEntry>, name: Seq<char>) -> Seq<UriEntry> {
    entries.filter(keeps(name))
}

impl Config {
    /// An empty set of saved connections.
    pub fn new() -> (c: Self)
        ensures
            c.uris@.len() == 0,
    {
        Config { uris: Vec::new() }
    }

    /// Save `uri` under `name`: the first entry already carrying the name is
    /// updated in place, otherwise a new entry is appended.
    pub fn add_uri(&mut self, name: String, uri: String)
        ensures
            contains_name(old(self).uris@, name@) ==> exists|i: int|
                first_with_name(old(self).uris@, name@, i)
                    && final(self).uris@ == old(self).uris@.update(
                    i,
                    UriEntry { name: old(self).uris@[i].name, uri },
                ),
            !contains_name(old(self).uris@, name@) ==> final(self).uris@ == old(
                self,
            ).uris@.push(UriEntry { name, uri }),
    {
        let n = self.uris.len();
        let mut i: usize = 0;
        while i < n
            invariant
                n == self.uris@.len(),
                i <= n,
                forall|j: int| 0 <= j < i ==> (#[trigger] self.uris@[j]).name@ != name@,
                self == old(self),
            decreases n - i,
        {
            if self.uris[i].name == name {
                self.uris[i].uri = uri;
                proof {
                    assert(first_with_name(old(self).uris@, name@, i as int));
                    assert(self.uris@ =~= old(self).uris@.update(
                        i as int,
                        UriEntry {
                            name: old(self).uris@[i as int].name,
                            uri: self.uris@[i as int].uri,
                        },
                    ));
                }
                return ;
            }
            i = i + 1;
        }
        self.uris.push(UriEntry { name, uri });
    }

    /// Drop every entry named `name`, keeping the order of the rest; reports
    /// whether anything was dropped.
    pub fn remove_uri(&mut self, name: &str) -> (removed: bool)
        ensures
            final(self).uris@ == without_name(old(self).uris@, name@),
            removed == contains_name(old(self).uris@, name@),
    {
        let target = name.to_owned();
        let mut kept: Vec<UriEntry> = Vec::new();
        let mut found = false;
        let n = self.uris.len();
        let mut i: usize = 0;
        proof {
            assert(without_name(old(self).uris@.take(0), name@) =~= Seq::<UriEntry>::empty());
        }
        while i < n
            invariant
                n == self.uris@.len(),
                i <= n,
                self == old(self),
                target@ == name@,
                kept@ == without_name(self.uris@.take(i as int), name@),
                found == contains_name(self.uris@.take(i as int), name@),
            decreases n - i,
        {
            let ghost taken = self.uris@.take(i as int);
            proof {
                assert(self.uris@.take(i as int + 1) =~= taken.push(self.uris@[i as int]));
                taken.lemma_filter_push(self.uris@[i as int], keeps(name@));
            }
            if self.uris[i].name == target {
                found = true;
                proof {
                    let s1 = self.uris@.take(i as int + 1);
                    assert(s1[i as int].name@ == name@);
                    assert(contains_name(s1, name@));
                }
            } else {
                let entry_name = self.uris[i].name.clone();
                let entry_uri = self.uris[i].uri.clone();
                kept.push(UriEntry { name: entry_name, uri: entry_uri });
                proof {
                    assert(UriEntry { name: entry_name, uri: entry_uri }
                        == self.uris@[i as int]);
                    let s1 = self.uris@.take(i as int + 1);
                    if contains_name(s1, name@) {
                        let j = choose|j: int| 0 <= j < s1.len() && s1[j].name@ == name@;
                        assert(j < i as int ==> taken[j] == s1[j]);
                        assert(contains_name(taken, name@));
                    }
                    if contains_name(taken, name@) {
                        let j = choose|j: int|
                            0 <= j < taken.len() && taken[j].name@ == name@;
                        assert(s1[j] == taken[j]);
                        assert(contains_name(s1, name@));
                    }
                }
            }
            i = i + 1;
        }
        proof {
            assert(self.uris@.take(n as int) =~= self.uris@);
        }
        self.uris = kept;
        found
    }

    /// The connection string of the first entry named `name`, if any.
    pub fn get_uri(&self, name: &str) -> (r: Option<&str>)
        ensures
            r is Some <==> contains_name(self.uris@, name@),
            r matches Some(u) ==> exists|i: int|
                first_with_name(self.uris@, name@, i) && u@ == self.uris@[i].uri@,
    {
        let target = name.to_owned();
        let n = self.uris.len();
        let mut i: usize = 0;
        while i < n
            invariant
                n == self.uris@.len(),
                i <= n,
                target@ == name@,
                forall|j: int| 0 <= j < i ==> (#[trigger] self.uris@[j]).name@ != name@,
            decreases n - i,
        {
            if self.uris[i].name == target {
                proof {
                    assert(first_with_name(self.uris@, name@, i as int));
                }
                return Some(self.uris[i].uri.as_str());
            }
            i = i + 1;
        }
        None
    }

    /// The saved names, in order.
    pub fn list_names(&self) -> (names: Vec<String>)
        ensures
            names@.len() == self.uris@.len(),
            forall|i: int|
                0 <= i < names@.len() ==> (#[trigger] names@[i])@ == self.uris@[i].name@,
    {
        let n = self.uris.len();
        let mut names: Vec<String> = Vec::new();
        let mut i: usize = 0;
        while i < n
            invariant
                n == self.uris@.len(),
                i <= n,
                names@.len() == i,
                forall|j: int| 0 <= j < i ==> (#[trigger] names@[j])@ == self.uris@[j].name@,
            decreases n - i,
        {
            names.push(self.uris[i].name.clone());
            i = i + 1;
        }
        names
    }
}

impl Default for Config {
    /// Same as `Config::new`: no saved connections.
    fn default() -> (c: Self)
        ensures
            c.uris@.len() == 0,
    {
        Config { uris: Vec::new() }
    }
}

} // verus!
