//! Process arguments and environment.
//!
//! The kernel hands a process its arguments and its `KEY=VALUE` environment
//! entries at start. [`QuantumArgv`] and [`QuantumEnv`] answer lookups over
//! them; [`EnvSnapshot`] keeps the FNV-1a hash of each key with its value
//! for lookups by a [`PhaseKey`].

use vstd::prelude::*;

verus! {

pub const MAX_ARGV: usize = 64;
pub const MAX_ENV_VARS: usize = 128;
pub const MAX_ENV_KEY: usize = 64;
pub const MAX_ENV_VAL: usize = 256;

/// The longest value an environment snapshot keeps.
pub const MAX_SNAPSHOT_VALUE: usize = 65535;

pub const FNV_OFFSET: u64 = 0xcbf2_9ce4_8422_2325;
pub const FNV_PRIME: u64 = 0x0000_0100_0000_01b3;

pub const EQUALS_SIGN: u8 = 0x3d;

// ---------------------------------------------------------------------------
// FNV-1a

/// The 64-bit FNV-1a hash of the bytes.
pub open spec fn spec_fnv1a(bytes: Seq<u8>) -> u64
    decreases bytes.len(),
{
    if bytes.len() == 0 {
        FNV_OFFSET
    } else {
        (spec_fnv1a(bytes.drop_last()) ^ (bytes.last() as u64)).wrapping_mul(FNV_PRIME)
    }
}

/// The 64-bit FNV-1a hash of the bytes.
pub fn fnv1a_const(bytes: &[u8]) -> (r: u64)
    ensures
        r == spec_fnv1a(bytes@),
{
    let mut hash = FNV_OFFSET;
    let mut i: usize = 0;
    while i < bytes.len()
        invariant
            i <= bytes@.len(),
            hash == spec_fnv1a(bytes@.take(i as int)),
        decreases bytes@.len() - i,
    {
        proof {
            assert(bytes@.take(i + 1).drop_last() =~= bytes@.take(i as int));
        }
        hash = (hash ^ (bytes[i] as u64)).wrapping_mul(FNV_PRIME);
        i = i + 1;
    }
    proof {
        assert(bytes@.take(bytes@.len() as int) =~= bytes@);
    }
    hash
}

/// An environment key identified by its FNV-1a hash.
#[derive(Clone, Copy, Debug, PartialEq, Eq, Structural)]
pub struct PhaseKey(pub u64);

impl PhaseKey {
    pub fn from_bytes(bytes: &[u8]) -> (r: PhaseKey)
        ensures
            r == PhaseKey(spec_fnv1a(bytes@)),
    {
        PhaseKey(fnv1a_const(bytes))
    }
}

// ---------------------------------------------------------------------------
// Arguments

/// The process arguments, at most `MAX_ARGV` of them.
pub struct QuantumArgv {
    args: Vec<Vec<u8>>,
}

impl View for QuantumArgv {
    type V = Seq<Seq<u8>>;

    closed spec fn view(&self) -> Seq<Seq<u8>> {
        Seq::new(self.args@.len(), |i: int| self.args@[i]@)
    }
}

impl QuantumArgv {
    /// The arguments the kernel passed, of which the first `MAX_ARGV` are
    /// kept.
    pub fn from_args(args: Vec<Vec<u8>>) -> (r: QuantumArgv)
        ensures
            r@.len() == if args@.len() < MAX_ARGV {
                args@.len()
            } else {
                MAX_ARGV as nat
            },
            forall|i: int| 0 <= i < r@.len() ==> #[trigger] r@[i] == args@[i]@,
    {
        let mut args = args;
        if args.len() > MAX_ARGV {
            args.truncate(MAX_ARGV);
        }
        QuantumArgv { args }
    }

    pub fn len(&self) -> (r: usize)
        ensures
            r == self@.len(),
    {
        self.args.len()
    }

    pub fn is_empty(&self) -> (r: bool)
        ensures
            r == (self@.len() == 0),
    {
        self.args.len() == 0
    }

    /// Argument `index`, if there is one.
    pub fn get(&self, index: usize) -> (r: Option<&[u8]>)
        ensures
            index < self@.len() ==> r is Some && r->Some_0@ == self@[index as int],
            index >= self@.len() ==> r is None,
    {
        if index >= self.args.len() {
            return None;
        }
        Some(self.args[index].as_slice())
    }

    /// A cursor over the arguments in order.
    pub fn iter(&self) -> (r: ArgvIter<'_>)
        ensures
            r.remaining() == self@,
    {
        let r = ArgvIter { argv: self, index: 0 };
        assert(r.remaining() =~= self@);
        r
    }
}

/// A cursor over the process arguments.
pub struct ArgvIter<'a> {
    argv: &'a QuantumArgv,
    index: usize,
}

impl<'a> ArgvIter<'a> {
    #[verifier::type_invariant]
    closed spec fn cursor_wf(self) -> bool {
        self.index <= self.argv@.len()
    }

    /// The arguments not yet handed out.
    pub closed spec fn remaining(&self) -> Seq<Seq<u8>> {
        self.argv@.skip(self.index as int)
    }

    /// The next argument, if any.
    pub fn next(&mut self) -> (r: Option<&'a [u8]>)
        ensures
            old(self).remaining().len() == 0 ==> r is None && final(self).remaining()
                == old(self).remaining(),
            old(self).remaining().len() > 0 ==> r is Some && r->Some_0@ == old(
                self,
            ).remaining()[0] && final(self).remaining() == old(self).remaining().drop_first(),
    {
        proof {
            use_type_invariant(&*self);
        }
        if self.index >= self.argv.args.len() {
            return None;
        }
        let argument = self.argv.args[self.index].as_slice();
        self.index = self.index + 1;
        assert(self.argv@.skip(self.index as int) =~= old(self).argv@.skip(
            old(self).index as int,
        ).drop_first());
        Some(argument)
    }
}

// ---------------------------------------------------------------------------
// Environment

/// `entry` reads `key=...` with a nonempty value.
pub open spec fn entry_has_key(entry: Seq<u8>, key: Seq<u8>) -> bool {
    &&& entry.len() > key.len() + 1
    &&& entry.take(key.len() as int) == key
    &&& entry[key.len() as int] == EQUALS_SIGN
}

/// The value of the first entry from `from` on that names `key`.
pub open spec fn lookup_key(entries: Seq<Seq<u8>>, key: Seq<u8>, from: int) -> Option<Seq<u8>>
    decreases entries.len() - from,
{
    if from < 0 || from >= entries.len() {
        None
    } else if entry_has_key(entries[from], key) {
        Some(entries[from].skip(key.len() as int + 1))
    } else {
        lookup_key(entries, key, from + 1)
    }
}

/// The environment's answer for a key is the value of the first entry that
/// spells the key, then '=', then a nonempty value; no entry before it does
/// so, and when there is no answer no entry does.
pub proof fn lemma_lookup_is_first_match(entries: Seq<Seq<u8>>, key: Seq<u8>)
    ensures
        lookup_key(entries, key, 0) matches Some(v) ==> exists|k: int|
            #![trigger entries[k]]
            {
                &&& 0 <= k < entries.len()
                &&& v.len() > 0
                &&& entries[k] == key + seq![0x3du8] + v
                &&& forall|j: int|
                    0 <= j < k ==> !(#[trigger] entries[j].len() > key.len() + 1 && entries[j].take(
                        key.len() as int,
                    ) == key && entries[j][key.len() as int] == 0x3d)
            },
        lookup_key(entries, key, 0) is None ==> forall|j: int|
            0 <= j < entries.len() ==> !(#[trigger] entries[j].len() > key.len() + 1
                && entries[j].take(key.len() as int) == key && entries[j][key.len() as int] == 0x3d),
{
    lemma_lookup_from(entries, key, 0);
}

proof fn lemma_lookup_from(entries: Seq<Seq<u8>>, key: Seq<u8>, from: int)
    requires
        0 <= from,
    ensures
        lookup_key(entries, key, from) matches Some(v) ==> exists|k: int|
            #![trigger entries[k]]
            {
                &&& from <= k < entries.len()
                &&& v.len() > 0
                &&& entries[k] == key + seq![0x3du8] + v
                &&& forall|j: int|
                    from <= j < k ==> !(#[trigger] entries[j].len() > key.len() + 1
                        && entries[j].take(key.len() as int) == key && entries[j][key.len() as int]
                        == 0x3d)
            },
        lookup_key(entries, key, from) is None ==> forall|j: int|
            from <= j < entries.len() ==> !(#[trigger] entries[j].len() > key.len() + 1
                && entries[j].take(key.len() as int) == key && entries[j][key.len() as int] == 0x3d),
    decreases entries.len() - from,
{
    if from < entries.len() {
        lemma_lookup_from(entries, key, from + 1);
        let e = entries[from];
        if entry_has_key(e, key) {
            let v = e.skip(key.len() as int + 1);
            assert(e =~= key + seq![0x3du8] + v) by {
                assert(e.take(key.len() as int) == key);
                assert forall|i: int| 0 <= i < e.len() implies e[i] == (key + seq![0x3du8] + v)[i] by {
                    if i < key.len() {
                        assert(e.take(key.len() as int)[i] == e[i]);
                    }
                }
            }
        }
    }
}

/// The position of the first `=` in the entry.
pub open spec fn separator(entry: Seq<u8>, from: int) -> Option<int>
    decreases entry.len() - from,
{
    if from < 0 || from >= entry.len() {
        None
    } else if entry[from] == EQUALS_SIGN {
        Some(from)
    } else {
        separator(entry, from + 1)
    }
}

/// The scan by key hash: the value of the first entry whose key hashes to
/// `hash`; the scan gives up at the first entry without a separator.
pub open spec fn lookup_hash(entries: Seq<Seq<u8>>, hash: u64, from: int) -> Option<Seq<u8>>
    decreases entries.len() - from,
{
    if from < 0 || from >= entries.len() {
        None
    } else {
        match separator(entries[from], 0) {
            None => None,
            Some(sep) => if spec_fnv1a(entries[from].take(sep)) == hash {
                Some(entries[from].skip(sep + 1))
            } else {
                lookup_hash(entries, hash, from + 1)
            },
        }
    }
}

fn find_separator(entry: &[u8]) -> (r: Option<usize>)
    ensures
        r is None <==> separator(entry@, 0) is None,
        r is Some ==> separator(entry@, 0) == Some(r->Some_0 as int),
        r is Some ==> r->Some_0 < entry@.len() && entry@[r->Some_0 as int] == EQUALS_SIGN,
{
    let mut i: usize = 0;
    while i < entry.len()
        invariant
            i <= entry@.len(),
            separator(entry@, 0) == separator(entry@, i as int),
        decreases entry@.len() - i,
    {
        if entry[i] == EQUALS_SIGN {
            return Some(i);
        }
        i = i + 1;
    }
    None
}

fn slices_equal(a: &[u8], b: &[u8]) -> (r: bool)
    requires
        a@.len() == b@.len(),
    ensures
        r == (a@ == b@),
{
    let mut i: usize = 0;
    while i < a.len()
        invariant
            a@.len() == b@.len(),
            i <= a@.len(),
            forall|k: int| 0 <= k < i ==> a@[k] == b@[k],
        decreases a@.len() - i,
    {
        if a[i] != b[i] {
            return false;
        }
        i = i + 1;
    }
    assert(a@ =~= b@);
    true
}

/// The process environment: its `KEY=VALUE` entries in order.
pub struct QuantumEnv {
    entries: Vec<Vec<u8>>,
}

impl View for QuantumEnv {
    type V = Seq<Seq<u8>>;

    closed spec fn view(&self) -> Seq<Seq<u8>> {
        Seq::new(self.entries@.len(), |i: int| self.entries@[i]@)
    }
}

impl QuantumEnv {
    pub fn from_entries(entries: Vec<Vec<u8>>) -> (r: QuantumEnv)
        ensures
            r@.len() == entries@.len(),
            forall|i: int| 0 <= i < r@.len() ==> #[trigger] r@[i] == entries@[i]@,
    {
        QuantumEnv { entries }
    }

    /// The value of the first entry `key=value` with a nonempty value; the
    /// key is compared byte for byte.
    pub fn get(&self, key: &[u8]) -> (r: Option<&[u8]>)
        ensures
            match lookup_key(self@, key@, 0) {
                None => r is None,
                Some(v) => r is Some && r->Some_0@ == v,
            },
    {
        let mut i: usize = 0;
        while i < self.entries.len()
            invariant
                i <= self.entries@.len(),
                lookup_key(self@, key@, 0) == lookup_key(self@, key@, i as int),
            decreases self.entries@.len() - i,
        {
            let entry = self.entries[i].as_slice();
            assert(entry@ == self@[i as int]);
            if entry.len() > key.len() && entry.len() - key.len() > 1 {
                let head = vstd::slice::slice_subrange(entry, 0, key.len());
                if slices_equal(head, key) && entry[key.len()] == EQUALS_SIGN {
                    assert(head@ =~= entry@.take(key@.len() as int));
                    let value = vstd::slice::slice_subrange(entry, key.len() + 1, entry.len());
                    assert(value@ =~= entry@.skip(key@.len() as int + 1));
                    return Some(value);
                }
                assert(head@ =~= entry@.take(key@.len() as int));
            }
            i = i + 1;
        }
        None
    }

    /// The value of the first entry whose key hashes to `key`; the scan
    /// stops at the first entry without a separator.
    pub fn get_phase(&self, key: PhaseKey) -> (r: Option<&[u8]>)
        ensures
            match lookup_hash(self@, key.0, 0) {
                None => r is None,
                Some(v) => r is Some && r->Some_0@ == v,
            },
    {
        let mut i: usize = 0;
        while i < self.entries.len()
            invariant
                i <= self.entries@.len(),
                lookup_hash(self@, key.0, 0) == lookup_hash(self@, key.0, i as int),
            decreases self.entries@.len() - i,
        {
            let entry = self.entries[i].as_slice();
            assert(entry@ == self@[i as int]);
            let found = find_separator(entry);
            if found.is_none() {
                assert(lookup_hash(self@, key.0, i as int) == None::<Seq<u8>>);
                return None;
            }
            let sep = found.unwrap();
            let length = entry.len();
            assert(sep < length);
            let name = vstd::slice::slice_subrange(entry, 0, sep);
            assert(name@ =~= entry@.take(sep as int));
            let hash = fnv1a_const(name);
            if hash == key.0 {
                let value = vstd::slice::slice_subrange(entry, sep + 1, entry.len());
                assert(value@ =~= entry@.skip(sep + 1));
                assert(lookup_hash(self@, key.0, i as int) == Some(value@));
                return Some(value);
            }
            assert(lookup_hash(self@, key.0, i as int) == lookup_hash(self@, key.0, i + 1));
            i = i + 1;
        }
        None
    }
}

// ---------------------------------------------------------------------------
// Snapshot

/// One snapshot entry: the key's hash and the value, cut at
/// `MAX_SNAPSHOT_VALUE` bytes.
pub struct EnvEntry {
    pub key_hash: u64,
    pub value: Vec<u8>,
}

/// The hashed form of the entries that have a separator, in order.
pub open spec fn hashed_entries(entries: Seq<Seq<u8>>) -> Seq<(u64, Seq<u8>)>
    decreases entries.len(),
{
    if entries.len() == 0 {
        Seq::empty()
    } else {
        let rest = hashed_entries(entries.drop_last());
        let e = entries.last();
        match separator(e, 0) {
            None => rest,
            Some(sep) => {
                let value = e.skip(sep + 1);
                let kept = if value.len() <= MAX_SNAPSHOT_VALUE {
                    value
                } else {
                    value.take(MAX_SNAPSHOT_VALUE as int)
                };
                rest.push((spec_fnv1a(e.take(sep)), kept))
            },
        }
    }
}

/// The value of the first hashed entry with the hash.
pub open spec fn snapshot_lookup(hashed: Seq<(u64, Seq<u8>)>, hash: u64, from: int) -> Option<
    Seq<u8>,
>
    decreases hashed.len() - from,
{
    if from < 0 || from >= hashed.len() {
        None
    } else if hashed[from].0 == hash {
        Some(hashed[from].1)
    } else {
        snapshot_lookup(hashed, hash, from + 1)
    }
}

/// The environment collapsed into at most `MAX_ENV_VARS` hashed entries.
pub struct EnvSnapshot {
    entries: Vec<EnvEntry>,
}

impl View for EnvSnapshot {
    type V = Seq<(u64, Seq<u8>)>;

    closed spec fn view(&self) -> Seq<(u64, Seq<u8>)> {
        Seq::new(self.entries@.len(), |i: int| (self.entries@[i].key_hash, self.entries@[i].value@))
    }
}

impl EnvSnapshot {
    pub fn empty() -> (r: EnvSnapshot)
        ensures
            r@ == Seq::<(u64, Seq<u8>)>::empty(),
    {
        let r = EnvSnapshot { entries: Vec::new() };
        assert(r@ =~= Seq::<(u64, Seq<u8>)>::empty());
        r
    }

    /// Hashes the key of every entry that has a separator and keeps the
    /// first `MAX_ENV_VARS` of them with their values.
    pub fn collapse(env: &QuantumEnv) -> (r: EnvSnapshot)
        ensures
            ({
                let all = hashed_entries(env@);
                r@ == if all.len() <= MAX_ENV_VARS {
                    all
                } else {
                    all.take(MAX_ENV_VARS as int)
                }
            }),
    {
        let mut snapshot = EnvSnapshot::empty();
        let mut i: usize = 0;
        while i < env.entries.len()
            invariant
                i <= env.entries@.len(),
                ({
                    let all = hashed_entries(env@.take(i as int));
                    snapshot@ == if all.len() <= MAX_ENV_VARS {
                        all
                    } else {
                        all.take(MAX_ENV_VARS as int)
                    }
                }),
                snapshot@.len() <= MAX_ENV_VARS,
            decreases env.entries@.len() - i,
        {
            let entry = env.entries[i].as_slice();
            let ghost before = hashed_entries(env@.take(i as int));
            proof {
                assert(env@.take(i + 1).drop_last() =~= env@.take(i as int));
                assert(env@.take(i + 1).last() == entry@);
            }
            match find_separator(entry) {
                None => {},
                Some(sep) => {
                    let ghost item_value = entry@.skip(sep + 1);
                    let name = vstd::slice::slice_subrange(entry, 0, sep);
                    assert(name@ =~= entry@.take(sep as int));
                    let hash = fnv1a_const(name);
                    let end = if entry.len() - (sep + 1) <= MAX_SNAPSHOT_VALUE {
                        entry.len()
                    } else {
                        sep + 1 + MAX_SNAPSHOT_VALUE
                    };
                    let kept = vstd::slice::slice_subrange(entry, sep + 1, end);
                    let ghost kept_view = if item_value.len() <= MAX_SNAPSHOT_VALUE {
                        item_value
                    } else {
                        item_value.take(MAX_SNAPSHOT_VALUE as int)
                    };
                    assert(kept@ =~= kept_view);
                    let ghost item = (hash, kept_view);
                    proof {
                        let t = env@.take(i + 1);
                        assert(t.len() == i + 1);
                        assert(t.last() == entry@);
                        assert(separator(t.last(), 0) == Some(sep as int));
                        assert(hash == spec_fnv1a(t.last().take(sep as int)));
                        assert(hashed_entries(t) == hashed_entries(t.drop_last()).push(item));
                    }
                    if snapshot.entries.len() < MAX_ENV_VARS {
                        let ghost old_view = snapshot@;
                        snapshot.entries.push(EnvEntry { key_hash: hash, value: vstd::slice::slice_to_vec(kept) });
                        assert(snapshot@ =~= old_view.push(item));
                        assert(before.len() <= MAX_ENV_VARS);
                        assert(before.push(item).len() <= MAX_ENV_VARS ==> snapshot@ =~= before.push(
                            item,
                        ));
                        assert(before.push(item).len() > MAX_ENV_VARS ==> snapshot@ =~= before.push(
                            item,
                        ).take(MAX_ENV_VARS as int));
                    } else {
                        assert(before.len() >= MAX_ENV_VARS);
                        assert(before.push(item).take(MAX_ENV_VARS as int) =~= before.take(
                            MAX_ENV_VARS as int,
                        ));
                    }
                },
            }
            i = i + 1;
        }
        assert(env@.take(env.entries@.len() as int) =~= env@);
        snapshot
    }

    /// The value of the first entry whose key hash is `key`.
    pub fn get(&self, key: PhaseKey) -> (r: Option<&[u8]>)
        ensures
            match snapshot_lookup(self@, key.0, 0) {
                None => r is None,
                Some(v) => r is Some && r->Some_0@ == v,
            },
    {
        let mut i: usize = 0;
        while i < self.entries.len()
            invariant
                i <= self.entries@.len(),
                snapshot_lookup(self@, key.0, 0) == snapshot_lookup(self@, key.0, i as int),
            decreases self.entries@.len() - i,
        {
            if self.entries[i].key_hash == key.0 {
                return Some(self.entries[i].value.as_slice());
            }
            i = i + 1;
        }
        None
    }
}

} // verus!
