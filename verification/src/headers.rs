//! The header fields of a request, as the rewrite protocol sees them.
//!
//! A name is matched without regard to the case of its letters, and a field
//! has one value. The value is a run of bytes: it need not be text.
use vstd::prelude::*;
use vstd::string::StringSliceAdditionalSpecFns;

verus! {

/// A byte with an upper-case ASCII letter brought to lower case.
pub open spec fn lower_byte(b: u8) -> u8 {
    if 0x41 <= b <= 0x5a {
        (b + 0x20) as u8
    } else {
        b
    }
}

/// A name with its upper-case ASCII letters brought to lower case.
pub open spec fn lower(name: Seq<u8>) -> Seq<u8> {
    Seq::new(name.len(), |i: int| lower_byte(name[i]))
}

/// The key under which the field called `name` is kept.
pub open spec fn key(name: &str) -> Seq<u8> {
    lower(name.spec_bytes())
}

/// Lower case does not change under `lower`.
pub proof fn lemma_lower_idempotent(name: Seq<u8>)
    ensures
        lower(lower(name)) == lower(name),
{
    assert(lower(lower(name)) =~= lower(name));
}

/// Whether two runs of bytes are the same.
pub fn same_bytes(a: &[u8], b: &[u8]) -> (r: bool)
    ensures
        r == (a@ == b@),
{
    if a.len() != b.len() {
        return false;
    }
    let mut i: usize = 0;
    while i < a.len()
        invariant
            a@.len() == b@.len(),
            i <= a@.len(),
            forall|j: int| 0 <= j < i ==> a@[j] == b@[j],
        decreases a@.len() - i,
    {
        if a[i] != b[i] {
            return false;
        }
        i += 1;
    }
    assert(a@ =~= b@);
    true
}

/// The key of the field called `name`.
pub fn key_of(name: &str) -> (k: Vec<u8>)
    ensures
        k@ == key(name),
{
    let bytes = name.as_bytes();
    let mut k: Vec<u8> = Vec::with_capacity(bytes.len());
    let mut i: usize = 0;
    while i < bytes.len()
        invariant
            i <= bytes@.len(),
            k@.len() == i,
            forall|j: int| 0 <= j < i ==> k@[j] == lower_byte(bytes@[j]),
        decreases bytes@.len() - i,
    {
        let b = bytes[i];
        if 0x41 <= b && b <= 0x5a {
            k.push(b + 0x20);
        } else {
            k.push(b);
        }
        i += 1;
    }
    assert(k@ =~= lower(bytes@));
    k
}

/// The header fields of one request.
pub struct Headers {
    entries: Vec<(Vec<u8>, Vec<u8>)>,
}

impl View for Headers {
    type V = Map<Seq<u8>, Seq<u8>>;

    /// The fields as a map from key to value.
    closed spec fn view(&self) -> Map<Seq<u8>, Seq<u8>> {
        Map::new(
            |k: Seq<u8>| self.keys().contains(k),
            |k: Seq<u8>| self.entries@[self.keys().index_of(k)].1@,
        )
    }
}

impl Headers {
    /// The keys of the fields, in the order in which the fields are kept.
    pub closed spec fn keys(&self) -> Seq<Seq<u8>> {
        Seq::new(self.entries@.len(), |i: int| self.entries@[i].0@)
    }

    /// What holds of the fields between calls: no key occurs twice, and
    /// every key is in lower case.
    pub closed spec fn wf(&self) -> bool {
        &&& self.keys().no_duplicates()
        &&& forall|i: int|
            0 <= i < self.keys().len() ==> lower(#[trigger] self.keys()[i]) == self.keys()[i]
    }

    /// No fields.
    pub fn new() -> (h: Headers)
        ensures
            h.wf(),
            h@ == Map::<Seq<u8>, Seq<u8>>::empty(),
            h.keys().len() == 0,
    {
        let h = Headers { entries: Vec::new() };
        assert(h@ =~= Map::<Seq<u8>, Seq<u8>>::empty());
        h
    }

    /// The keys and the map say the same: a key is in the map exactly if it
    /// is among the keys, and the field at a position is the map's entry
    /// for its key.
    pub proof fn lemma_keys(&self)
        requires
            self.wf(),
        ensures
            forall|k: Seq<u8>| self@.contains_key(k) <==> self.keys().contains(k),
            self.keys().no_duplicates(),
            forall|k: Seq<u8>| #[trigger] self@.contains_key(k) ==> lower(k) == k,
    {
        assert forall|k: Seq<u8>| #[trigger] self@.contains_key(k) implies lower(k) == k by {
            let i = self.keys().index_of(k);
            assert(self.keys()[i] == k);
        }
    }

    /// Where the field with key `k` is kept, if there is one.
    fn position(&self, k: &Vec<u8>) -> (at: Option<usize>)
        requires
            self.wf(),
        ensures
            match at {
                Some(i) => i < self.keys().len() && self.keys()[i as int] == k@
                    && self.keys().index_of(k@) == i,
                None => !self.keys().contains(k@),
            },
    {
        let mut i: usize = 0;
        while i < self.entries.len()
            invariant
                self.wf(),
                i <= self.entries@.len(),
                self.keys().len() == self.entries@.len(),
                forall|j: int| 0 <= j < i ==> self.keys()[j] != k@,
            decreases self.entries@.len() - i,
        {
            if same_bytes(self.entries[i].0.as_slice(), k.as_slice()) {
                proof {
                    let j = self.keys().index_of(k@);
                    assert(self.keys()[i as int] == k@);
                    assert(self.keys().contains(k@));
                    assert(self.keys()[j] == k@);
                }
                return Some(i);
            }
            i += 1;
        }
        proof {
            if self.keys().contains(k@) {
                let j = self.keys().index_of(k@);
                assert(self.keys()[j] == k@);
            }
        }
        None
    }

    /// The number of fields.
    pub fn len(&self) -> (n: usize)
        ensures
            n == self.keys().len(),
    {
        self.entries.len()
    }

    /// The key of the field at position `i`.
    pub fn key_at(&self, i: usize) -> (k: &Vec<u8>)
        requires
            i < self.keys().len(),
        ensures
            k@ == self.keys()[i as int],
    {
        &self.entries[i].0
    }

    /// The value of the field at position `i`.
    pub fn value_at(&self, i: usize) -> (v: &Vec<u8>)
        requires
            self.wf(),
            i < self.keys().len(),
        ensures
            self@.contains_key(self.keys()[i as int]),
            v@ == self@[self.keys()[i as int]],
    {
        proof {
            let k = self.keys()[i as int];
            assert(self.keys().contains(k));
            let j = self.keys().index_of(k);
            assert(self.keys()[j] == k);
        }
        &self.entries[i].1
    }

    /// Whether there is a field called `name`.
    pub fn contains(&self, name: &str) -> (b: bool)
        requires
            self.wf(),
        ensures
            b == self@.contains_key(key(name)),
    {
        let k = key_of(name);
        self.position(&k).is_some()
    }

    /// The value of the field called `name`, if there is one.
    pub fn get(&self, name: &str) -> (v: Option<&Vec<u8>>)
        requires
            self.wf(),
        ensures
            match v {
                Some(value) => self@.contains_key(key(name)) && value@ == self@[key(name)],
                None => !self@.contains_key(key(name)),
            },
    {
        let k = key_of(name);
        match self.position(&k) {
            Some(i) => Some(&self.entries[i].1),
            None => None,
        }
    }

    /// Sets the field called `name` to `value`, in place of the value that
    /// it had, if it had one.
    pub fn insert(&mut self, name: &str, value: &[u8])
        requires
            old(self).wf(),
        ensures
            final(self).wf(),
            final(self)@ == old(self)@.insert(key(name), value@),
    {
        let k = key_of(name);
        let v = vec_of(value);
        proof {
            lemma_lower_idempotent(name.spec_bytes());
        }
        let ghost before = *self;
        match self.position(&k) {
            Some(i) => {
                self.entries.set(i, (k, v));
                proof {
                    assert(self.keys() =~= before.keys());
                    assert(self@ =~= before@.insert(key(name), value@));
                }
            },
            None => {
                self.entries.push((k, v));
                proof {
                    let n = before.keys().len() as int;
                    assert(self.keys() =~= before.keys().push(key(name)));
                    assert forall|x: Seq<u8>| self.keys().contains(x) <==> (x == key(name)
                        || before.keys().contains(x)) by {
                        if x == key(name) {
                            assert(self.keys()[n] == x);
                        }
                        if before.keys().contains(x) {
                            let j = before.keys().index_of(x);
                            assert(self.keys()[j] == x);
                        }
                    }
                    assert forall|x: Seq<u8>| self.keys().contains(x) implies #[trigger] self@[x]
                        == before@.insert(key(name), value@)[x] by {
                        let j = self.keys().index_of(x);
                        assert(self.keys()[j] == x);
                        if x != key(name) {
                            let j0 = before.keys().index_of(x);
                            assert(before.keys()[j0] == x);
                            assert(self.keys()[j0] == x);
                        }
                    }
                    assert(self@ =~= before@.insert(key(name), value@));
                }
            },
        }
    }

    /// Takes the field called `name` out, and gives back the value that it
    /// had, if it had one.
    pub fn remove(&mut self, name: &str) -> (v: Option<Vec<u8>>)
        requires
            old(self).wf(),
        ensures
            final(self).wf(),
            final(self)@ == old(self)@.remove(key(name)),
            match v {
                Some(value) => old(self)@.contains_key(key(name)) && value@ == old(self)@[key(
                    name,
                )],
                None => !old(self)@.contains_key(key(name)),
            },
    {
        let k = key_of(name);
        let ghost before = *self;
        match self.position(&k) {
            Some(i) => {
                let gone = self.entries.remove(i);
                proof {
                    assert(self.keys() =~= before.keys().remove(i as int));
                    assert forall|a: int, b: int|
                        0 <= a < self.keys().len() && 0 <= b < self.keys().len() && a
                            != b implies self.keys()[a] != self.keys()[b] by {
                        let a0 = if a < i { a } else { a + 1 };
                        let b0 = if b < i { b } else { b + 1 };
                        assert(self.keys()[a] == before.keys()[a0]);
                        assert(self.keys()[b] == before.keys()[b0]);
                    }
                    assert forall|j: int| 0 <= j < self.keys().len() implies lower(
                        #[trigger] self.keys()[j],
                    ) == self.keys()[j] by {
                        let j0 = if j < i { j } else { j + 1 };
                        assert(self.keys()[j] == before.keys()[j0]);
                    }
                    assert forall|x: Seq<u8>| self.keys().contains(x) <==> (x != key(name)
                        && before.keys().contains(x)) by {
                        if self.keys().contains(x) {
                            let j = self.keys().index_of(x);
                            assert(self.keys()[j] == x);
                            let j0 = if j < i { j } else { j + 1 };
                            assert(before.keys()[j0] == x);
                        }
                        if x != key(name) && before.keys().contains(x) {
                            let j0 = before.keys().index_of(x);
                            assert(before.keys()[j0] == x);
                            let j = if j0 < i { j0 } else { j0 - 1 };
                            assert(self.keys()[j] == x);
                        }
                    }
                    assert forall|x: Seq<u8>| self.keys().contains(x) implies #[trigger] self@[x]
                        == before@.remove(key(name))[x] by {
                        let j = self.keys().index_of(x);
                        assert(self.keys()[j] == x);
                        let j0 = if j < i { j } else { j + 1 };
                        assert(before.keys()[j0] == x);
                        let c = before.keys().index_of(x);
                        assert(before.keys()[c] == x);
                    }
                    assert(self@ =~= before@.remove(key(name)));
                }
                Some(gone.1)
            },
            None => {
                proof {
                    assert(self@ =~= before@.remove(key(name)));
                }
                None
            },
        }
    }
}

/// One change to the header fields of a request.
pub enum Edit {
    /// The field with the name gets the value, in place of any that it had.
    Put(&'static str, Vec<u8>),
    /// The field with the name goes.
    Remove(&'static str),
}

/// A change as contracts speak of it: by the key of the field.
pub enum Change {
    Put(Seq<u8>, Seq<u8>),
    Remove(Seq<u8>),
}

impl View for Edit {
    type V = Change;

    open spec fn view(&self) -> Change {
        match self {
            Edit::Put(name, value) => Change::Put(key(name), value@),
            Edit::Remove(name) => Change::Remove(key(name)),
        }
    }
}

/// The changes that `edits` stand for, in order.
pub open spec fn changes_of(edits: Seq<Edit>) -> Seq<Change> {
    Seq::new(edits.len(), |i: int| edits[i]@)
}

/// The fields `h` after the change `c`.
pub open spec fn apply(h: Map<Seq<u8>, Seq<u8>>, c: Change) -> Map<Seq<u8>, Seq<u8>> {
    match c {
        Change::Put(k, v) => h.insert(k, v),
        Change::Remove(k) => h.remove(k),
    }
}

/// The fields `h` after the changes `cs`, one after the other.
pub open spec fn apply_all(h: Map<Seq<u8>, Seq<u8>>, cs: Seq<Change>) -> Map<Seq<u8>, Seq<u8>>
    decreases cs.len(),
{
    if cs.len() == 0 {
        h
    } else {
        apply(apply_all(h, cs.drop_last()), cs.last())
    }
}

/// A copy of `bytes`.
pub fn vec_of(bytes: &[u8]) -> (v: Vec<u8>)
    ensures
        v@ == bytes@,
{
    let mut v: Vec<u8> = Vec::with_capacity(bytes.len());
    let mut i: usize = 0;
    while i < bytes.len()
        invariant
            i <= bytes@.len(),
            v@ == bytes@.subrange(0, i as int),
        decreases bytes@.len() - i,
    {
        v.push(bytes[i]);
        assert(v@ =~= bytes@.subrange(0, i + 1));
        i += 1;
    }
    assert(v@ =~= bytes@);
    v
}

} // verus!
