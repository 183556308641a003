use vstd::prelude::*;

verus! {

/// The version used when a caller does not ask for one.
pub const DEFAULT_VERSION: i32 = 61;

/// Why a secret version could not be chosen.
#[derive(Debug, Clone, Copy, PartialEq, Eq, Structural)]
pub enum SecretError {
    /// The table holds no version at all.
    Empty,
    /// The table does not hold this version.
    MissingVersion(i32),
}

/// Whether `c` is an ASCII decimal digit.
pub open spec fn is_digit(c: char) -> bool {
    '0' <= c && c <= '9'
}

/// The value of a text of decimal digits.
pub open spec fn digits_value(s: Seq<char>) -> int
    decreases s.len(),
{
    if s.len() == 0 {
        0
    } else {
        digits_value(s.drop_last()) * 10 + (s.last() as int - '0' as int)
    }
}

/// The version that a key of the remote secret table names: a key is the
/// plain decimal text of a version, without sign or leading zeros.
pub open spec fn version_of_key(s: Seq<char>) -> Option<i32> {
    if s.len() > 0 && (forall|i: int| 0 <= i < s.len() ==> is_digit(#[trigger] s[i])) && (s.len()
        == 1 || s[0] != '0') && digits_value(s) <= i32::MAX {
        Some(digits_value(s) as i32)
    } else {
        None
    }
}

proof fn lemma_digits_value_nonneg(s: Seq<char>)
    requires
        forall|i: int| 0 <= i < s.len() ==> is_digit(#[trigger] s[i]),
    ensures
        digits_value(s) >= 0,
    decreases s.len(),
{
    if s.len() > 0 {
        lemma_digits_value_nonneg(s.drop_last());
    }
}

proof fn lemma_digits_value_prefix(s: Seq<char>, k: int)
    requires
        0 <= k <= s.len(),
        forall|i: int| 0 <= i < s.len() ==> is_digit(#[trigger] s[i]),
    ensures
        digits_value(s.subrange(0, k)) <= digits_value(s),
    decreases s.len(),
{
    if k == s.len() {
        assert(s.subrange(0, k) =~= s);
    } else {
        let t = s.drop_last();
        assert(t.subrange(0, k) =~= s.subrange(0, k));
        lemma_digits_value_prefix(t, k);
        lemma_digits_value_nonneg(t);
    }
}

/// Reads a remote table key as a version number, see `version_of_key`.
pub fn parse_version(key: &str) -> (r: Option<i32>)
    ensures
        r == version_of_key(key@),
{
    let n = key.unicode_len();
    if n == 0 {
        return None;
    }
    let mut acc: u64 = 0;
    let mut i: usize = 0;
    while i < n
        invariant
            n == key@.len(),
            i <= n,
            forall|j: int| 0 <= j < i ==> is_digit(#[trigger] key@[j]),
            acc as int == digits_value(key@.subrange(0, i as int)),
            acc <= i32::MAX,
        decreases n - i,
    {
        let c = key.get_char(i);
        if !('0' <= c && c <= '9') {
            return None;
        }
        let d = (c as u32 - '0' as u32) as u64;
        let next = acc * 10 + d;
        assert(key@.subrange(0, i as int + 1).drop_last() =~= key@.subrange(0, i as int));
        if next > i32::MAX as u64 {
            proof {
                let k = i as int + 1;
                if forall|j: int| 0 <= j < n ==> is_digit(#[trigger] key@[j]) {
                    lemma_digits_value_prefix(key@, k);
                }
            }
            return None;
        }
        acc = next;
        i = i + 1;
    }
    assert(key@.subrange(0, n as int) =~= key@);
    if n > 1 && key.get_char(0) == '0' {
        return None;
    }
    Some(acc as i32)
}

/// Obfuscated secret bytes by version number.
pub struct SecretTable {
    entries: Vec<(i32, Vec<u8>)>,
    model: Ghost<Map<i32, Seq<u8>>>,
}

impl SecretTable {
    /// The versions and bytes that the table holds.
    pub closed spec fn view(&self) -> Map<i32, Seq<u8>> {
        self.model@
    }

    /// Each version stands once in `entries`, and `entries` and the map agree.
    pub closed spec fn wf(&self) -> bool {
        &&& forall|i: int, j: int|
            0 <= i < j < self.entries@.len() ==> self.entries@[i].0 != self.entries@[j].0
        &&& forall|i: int|
            0 <= i < self.entries@.len() ==> #[trigger] self.model@.contains_key(
                self.entries@[i].0,
            ) && self.model@[self.entries@[i].0] == self.entries@[i].1@
        &&& forall|k: i32|
            #[trigger] self.model@.contains_key(k) ==> exists|i: int|
                0 <= i < self.entries@.len() && self.entries@[i].0 == k
    }

    /// An empty table.
    pub fn new() -> (r: Self)
        ensures
            r.wf(),
            r@ == Map::<i32, Seq<u8>>::empty(),
    {
        SecretTable { entries: Vec::new(), model: Ghost(Map::empty()) }
    }

    /// Whether the table holds no version.
    pub fn is_empty(&self) -> (r: bool)
        requires
            self.wf(),
        ensures
            r == (self@ == Map::<i32, Seq<u8>>::empty()),
    {
        if self.entries.len() == 0 {
            assert(self@ =~= Map::<i32, Seq<u8>>::empty());
            true
        } else {
            assert(self.model@.contains_key(self.entries@[0].0));
            false
        }
    }

    /// Position of `version` in `entries`, if present.
    fn find(&self, version: i32) -> (r: Option<usize>)
        requires
            self.wf(),
        ensures
            match r {
                Some(i) => i < self.entries@.len() && self.entries@[i as int].0 == version,
                None => !self@.contains_key(version),
            },
    {
        let mut i: usize = 0;
        while i < self.entries.len()
            invariant
                self.wf(),
                i <= self.entries@.len(),
                forall|j: int| 0 <= j < i ==> self.entries@[j].0 != version,
            decreases self.entries@.len() - i,
        {
            if self.entries[i].0 == version {
                return Some(i);
            }
            i = i + 1;
        }
        None
    }

    /// Whether `version` is held.
    pub fn contains(&self, version: i32) -> (r: bool)
        requires
            self.wf(),
        ensures
            r == self@.contains_key(version),
    {
        self.find(version).is_some()
    }

    /// The bytes of `version`, if held.
    pub fn get(&self, version: i32) -> (r: Option<&Vec<u8>>)
        requires
            self.wf(),
        ensures
            match r {
                Some(b) => self@.contains_key(version) && b@ == self@[version],
                None => !self@.contains_key(version),
            },
    {
        match self.find(version) {
            Some(i) => {
                assert(self.model@.contains_key(self.entries@[i as int].0));
                Some(&self.entries[i].1)
            },
            None => None,
        }
    }

    /// Inserts `bytes` under `version`, replacing what it held.
    pub fn insert(&mut self, version: i32, bytes: Vec<u8>)
        requires
            old(self).wf(),
        ensures
            final(self).wf(),
            final(self)@ == old(self)@.insert(version, bytes@),
    {
        let ghost b = bytes@;
        let ghost pre = self.entries@;
        let ghost m = self.model@.insert(version, b);
        let found = self.find(version);
        match found {
            Some(i) => {
                self.entries.set(i, (version, bytes));
                self.model = Ghost(m);
                assert forall|k: i32| #[trigger] self.model@.contains_key(k) implies exists|j: int|
                    0 <= j < self.entries@.len() && self.entries@[j].0 == k by {
                    if k != version {
                        assert(old(self).model@.contains_key(k));
                        let j = choose|j: int| 0 <= j < pre.len() && pre[j].0 == k;
                        assert(self.entries@[j].0 == k);
                    } else {
                        assert(self.entries@[i as int].0 == k);
                    }
                }
                assert forall|j: int| 0 <= j < self.entries@.len() implies
                    #[trigger] self.model@.contains_key(self.entries@[j].0)
                    && self.model@[self.entries@[j].0] == self.entries@[j].1@ by {
                    if j != i {
                        assert(old(self).model@.contains_key(pre[j].0));
                    }
                }
            },
            None => {
                self.entries.push((version, bytes));
                self.model = Ghost(m);
                assert forall|k: i32| #[trigger] self.model@.contains_key(k) implies exists|j: int|
                    0 <= j < self.entries@.len() && self.entries@[j].0 == k by {
                    if k != version {
                        assert(old(self).model@.contains_key(k));
                        let j = choose|j: int| 0 <= j < pre.len() && pre[j].0 == k;
                        assert(self.entries@[j].0 == k);
                    } else {
                        assert(self.entries@[pre.len() as int].0 == k);
                    }
                }
                assert forall|j: int| 0 <= j < self.entries@.len() implies
                    #[trigger] self.model@.contains_key(self.entries@[j].0)
                    && self.model@[self.entries@[j].0] == self.entries@[j].1@ by {
                    if j < pre.len() {
                        assert(old(self).model@.contains_key(pre[j].0));
                    }
                }
                assert forall|a: int, c: int| 0 <= a < c < self.entries@.len() implies
                    self.entries@[a].0 != self.entries@[c].0 by {
                    if c == pre.len() {
                        assert(old(self).model@.contains_key(pre[a].0));
                    }
                }
            },
        }
    }
}

} // verus!
