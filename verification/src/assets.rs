use vstd::prelude::*;

verus! {

/// One animation in the embedded asset pack: its name and the byte range
/// `start .. start + len` of its WebM data inside the pack.
pub struct AssetEntry {
    pub name: String,
    pub start: usize,
    pub len: usize,
}

/// The embedded animation pack: an index of named byte ranges over one
/// blob. Every range lies inside the blob.
pub struct AssetPack {
    entries: Vec<AssetEntry>,
    pak: Vec<u8>,
}

/// Whether every entry's range lies inside a blob of `pak_len` bytes.
pub open spec fn ranges_fit(entries: Seq<AssetEntry>, pak_len: int) -> bool {
    forall|i: int| 0 <= i < entries.len() ==> #[trigger] entries[i].start + entries[i].len <= pak_len
}

/// The first position in `names` that holds `name`, if any.
pub open spec fn first_index_of(names: Seq<Seq<char>>, name: Seq<char>) -> Option<int>
    decreases names.len(),
{
    if names.len() == 0 {
        None
    } else {
        match first_index_of(names.drop_last(), name) {
            Some(i) => Some(i),
            None => if names.last() == name { Some(names.len() - 1) } else { None },
        }
    }
}

pub proof fn lemma_first_index_of(names: Seq<Seq<char>>, name: Seq<char>)
    ensures
        match first_index_of(names, name) {
            Some(i) => 0 <= i < names.len() && names[i] == name && forall|j: int|
                0 <= j < i ==> names[j] != name,
            None => forall|j: int| 0 <= j < names.len() ==> names[j] != name,
        },
    decreases names.len(),
{
    if names.len() > 0 {
        lemma_first_index_of(names.drop_last(), name);
        assert(forall|j: int| 0 <= j < names.len() - 1 ==> names.drop_last()[j] == names[j]);
    }
}

/// The names of the entries, in order.
pub open spec fn entry_names(entries: Seq<AssetEntry>) -> Seq<Seq<char>> {
    entries.map_values(|e: AssetEntry| e.name@)
}

/// Whether two strings hold the same characters.
pub fn str_eq(a: &str, b: &str) -> (r: bool)
    ensures
        r == (a@ == b@),
{
    let n = a.unicode_len();
    let m = b.unicode_len();
    if n != m {
        return false;
    }
    let mut i: usize = 0;
    while i < n
        invariant
            n == a@.len(),
            m == b@.len(),
            n == m,
            i <= n,
            forall|j: int| 0 <= j < i ==> a@[j] == b@[j],
        decreases n - i,
    {
        if a.get_char(i) != b.get_char(i) {
            return false;
        }
        i = i + 1;
    }
    assert(a@ =~= b@);
    true
}

impl AssetPack {
    #[verifier::type_invariant]
    spec fn inv(self) -> bool {
        ranges_fit(self.entries@, self.pak@.len() as int)
    }

    /// The entries of the pack, in order.
    pub closed spec fn entries(&self) -> Seq<AssetEntry> {
        self.entries@
    }

    /// The blob that the entries index.
    pub closed spec fn pak(&self) -> Seq<u8> {
        self.pak@
    }

    /// Builds a pack from its index and blob; `None` where some entry's
    /// range does not lie inside the blob.
    pub fn new(entries: Vec<AssetEntry>, pak: Vec<u8>) -> (r: Option<AssetPack>)
        ensures
            r is Some <==> ranges_fit(entries@, pak@.len() as int),
            r matches Some(p) ==> p.entries() == entries@ && p.pak() == pak@,
    {
        let mut i: usize = 0;
        while i < entries.len()
            invariant
                i <= entries@.len(),
                forall|j: int|
                    0 <= j < i ==> #[trigger] entries@[j].start + entries@[j].len <= pak@.len(),
            decreases entries@.len() - i,
        {
            let e = &entries[i];
            if e.start > pak.len() || e.len > pak.len() - e.start {
                assert(!(entries@[i as int].start + entries@[i as int].len <= pak@.len()));
                return None;
            }
            i = i + 1;
        }
        Some(AssetPack { entries, pak })
    }

    /// The names of all animations in the pack, in order.
    pub fn names(&self) -> (r: Vec<String>)
        ensures
            r.deep_view() == entry_names(self.entries()),
    {
        let mut r: Vec<String> = Vec::new();
        let mut i: usize = 0;
        while i < self.entries.len()
            invariant
                i <= self.entries@.len(),
                r.deep_view() =~= entry_names(self.entries@).take(i as int),
            decreases self.entries@.len() - i,
        {
            r.push(self.entries[i].name.clone());
            assert(entry_names(self.entries@).take(i + 1) =~= entry_names(self.entries@).take(
                i as int,
            ).push(self.entries@[i as int].name@));
            i = i + 1;
        }
        r
    }

    fn lookup(&self, name: &str) -> (r: Option<&[u8]>)
        ensures
            match first_index_of(entry_names(self.entries()), name@) {
                Some(i) => r matches Some(b) && b@ == self.pak().subrange(
                    self.entries()[i].start as int,
                    self.entries()[i].start + self.entries()[i].len,
                ),
                None => r is None,
            },
    {
        proof {
            use_type_invariant(self);
            lemma_first_index_of(entry_names(self.entries@), name@);
        }
        let mut i: usize = 0;
        while i < self.entries.len()
            invariant
                i <= self.entries@.len(),
                ranges_fit(self.entries@, self.pak@.len() as int),
                forall|j: int| 0 <= j < i ==> entry_names(self.entries@)[j] != name@,
            decreases self.entries@.len() - i,
        {
            let e = &self.entries[i];
            if str_eq(e.name.as_str(), name) {
                let s = e.start;
                let l = e.len;
                let _plen = self.pak.len();
                assert(self.entries@[i as int].start + self.entries@[i as int].len <= self.pak@.len());
                assert(entry_names(self.entries@)[i as int] == name@);
                proof {
                    let names = entry_names(self.entries@);
                    lemma_first_index_of(names, name@);
                    match first_index_of(names, name@) {
                        Some(k) => {
                            if k < i {
                                assert(names[k] != name@);
                            } else if k > i {
                                assert(names[i as int] != name@);
                            }
                        },
                        None => {
                            assert(names[i as int] != name@);
                        },
                    }
                }
                let b = vstd::slice::slice_subrange(self.pak.as_slice(), s, s + l);
                return Some(b);
            }
            assert(entry_names(self.entries@)[i as int] != name@);
            i = i + 1;
        }
        None
    }
}

/// The WebM bytes of the first animation named `name` in the pack, if any.
pub fn asset<'a>(pack: &'a AssetPack, name: &str) -> (r: Option<&'a [u8]>)
    ensures
        match first_index_of(entry_names(pack.entries()), name@) {
            Some(i) => r matches Some(b) && b@ == pack.pak().subrange(
                pack.entries()[i].start as int,
                pack.entries()[i].start + pack.entries()[i].len,
            ),
            None => r is None,
        },
{
    pack.lookup(name)
}

} // verus!
