use vstd::prelude::*;

verus! {

/// The OAuth token triple a completed login leaves for the client.
pub struct PendingAuth {
    pub access_token: String,
    pub refresh_token: String,
    pub expires_in: i64,
}

/// The logins after completing one under `state`.
pub open spec fn after_complete(m: Map<Seq<char>, PendingAuth>, state: Seq<char>, auth: PendingAuth) -> Map<Seq<char>, PendingAuth> {
    if state.len() == 0 {
        m
    } else {
        m.insert(state, auth)
    }
}

/// What a poll for `state` returns.
pub open spec fn poll_result(m: Map<Seq<char>, PendingAuth>, state: Seq<char>) -> Option<PendingAuth> {
    if m.contains_key(state) {
        Some(m[state])
    } else {
        None
    }
}

/// Completed logins by the client-chosen state string, each handed out once.
pub struct OAuthRelay {
    entries: Vec<(String, PendingAuth)>,
    model: Ghost<Map<Seq<char>, PendingAuth>>,
}

impl OAuthRelay {
    /// The completed logins not yet polled.
    pub closed spec fn view(&self) -> Map<Seq<char>, PendingAuth> {
        self.model@
    }

    /// Each state stands once in `entries`, and `entries` and the map agree.
    pub closed spec fn wf(&self) -> bool {
        &&& forall|i: int, j: int|
            0 <= i < j < self.entries@.len() ==> self.entries@[i].0@ != self.entries@[j].0@
        &&& forall|i: int|
            0 <= i < self.entries@.len() ==> #[trigger] self.model@.contains_key(
                self.entries@[i].0@,
            ) && self.model@[self.entries@[i].0@] == self.entries@[i].1
        &&& forall|k: Seq<char>|
            #[trigger] self.model@.contains_key(k) ==> exists|i: int|
                0 <= i < self.entries@.len() && self.entries@[i].0@ == k
    }

    /// A relay with no completed login.
    pub fn new() -> (r: Self)
        ensures
            r.wf(),
            r@ == Map::<Seq<char>, PendingAuth>::empty(),
    {
        OAuthRelay { entries: Vec::new(), model: Ghost(Map::empty()) }
    }

    fn find(&self, state: &String) -> (r: Option<usize>)
        requires
            self.wf(),
        ensures
            match r {
                Some(i) => i < self.entries@.len() && self.entries@[i as int].0@ == state@,
                None => !self@.contains_key(state@),
            },
    {
        let mut i: usize = 0;
        while i < self.entries.len()
            invariant
                self.wf(),
                i <= self.entries@.len(),
                forall|j: int| 0 <= j < i ==> self.entries@[j].0@ != state@,
            decreases self.entries@.len() - i,
        {
            if self.entries[i].0 == *state {
                return Some(i);
            }
            i = i + 1;
        }
        None
    }

    /// Records a completed login under `state`, replacing an earlier one.
    /// A login with an empty state is not recorded: nobody can poll for it.
    pub fn complete(&mut self, state: String, auth: PendingAuth)
        requires
            old(self).wf(),
        ensures
            final(self).wf(),
            final(self)@ == after_complete(old(self)@, state@, auth),
    {
        if state.as_str().is_empty() {
            return;
        }
        let ghost key = state@;
        let ghost pre = self.entries@;
        let ghost m = self.model@.insert(key, auth);
        match self.find(&state) {
            Some(i) => {
                self.entries.set(i, (state, auth));
                self.model = Ghost(m);
                assert forall|k: Seq<char>| #[trigger] self.model@.contains_key(k) implies exists|
                    j: int,
                | 0 <= j < self.entries@.len() && self.entries@[j].0@ == k by {
                    if k != key {
                        assert(old(self).model@.contains_key(k));
                        let j = choose|j: int| 0 <= j < pre.len() && pre[j].0@ == k;
                        assert(self.entries@[j].0@ == k);
                    } else {
                        assert(self.entries@[i as int].0@ == k);
                    }
                }
                assert forall|j: int| 0 <= j < self.entries@.len() implies
                    #[trigger] self.model@.contains_key(self.entries@[j].0@)
                    && self.model@[self.entries@[j].0@] == self.entries@[j].1 by {
                    if j != i {
                        assert(old(self).model@.contains_key(pre[j].0@));
                    }
                }
            },
            None => {
                self.entries.push((state, auth));
                self.model = Ghost(m);
                assert forall|k: Seq<char>| #[trigger] self.model@.contains_key(k) implies exists|
                    j: int,
                | 0 <= j < self.entries@.len() && self.entries@[j].0@ == k by {
                    if k != key {
                        assert(old(self).model@.contains_key(k));
                        let j = choose|j: int| 0 <= j < pre.len() && pre[j].0@ == k;
                        assert(self.entries@[j].0@ == k);
                    } else {
                        assert(self.entries@[pre.len() as int].0@ == k);
                    }
                }
                assert forall|j: int| 0 <= j < self.entries@.len() implies
                    #[trigger] self.model@.contains_key(self.entries@[j].0@)
                    && self.model@[self.entries@[j].0@] == self.entries@[j].1 by {
                    if j < pre.len() {
                        assert(old(self).model@.contains_key(pre[j].0@));
                    }
                }
                assert forall|a: int, c: int| 0 <= a < c < self.entries@.len() implies
                    self.entries@[a].0@ != self.entries@[c].0@ by {
                    if c == pre.len() {
                        assert(old(self).model@.contains_key(pre[a].0@));
                    }
                }
            },
        }
    }

    /// Takes the completed login for `state`: it is returned once and removed,
    /// so a later poll for the same state finds nothing.
    pub fn poll(&mut self, state: &String) -> (r: Option<PendingAuth>)
        requires
            old(self).wf(),
        ensures
            final(self).wf(),
            final(self)@ == old(self)@.remove(state@),
            r == poll_result(old(self)@, state@),
    {
        let ghost pre = self.entries@;
        match self.find(state) {
            Some(i) => {
                let (_, auth) = self.entries.remove(i);
                assert(old(self).model@.contains_key(pre[i as int].0@));
                self.model = Ghost(self.model@.remove(state@));
                assert forall|k: Seq<char>| #[trigger] self.model@.contains_key(k) implies exists|
                    j: int,
                | 0 <= j < self.entries@.len() && self.entries@[j].0@ == k by {
                    assert(old(self).model@.contains_key(k));
                    let j = choose|j: int| 0 <= j < pre.len() && pre[j].0@ == k;
                    assert(j != i);
                    if j < i {
                        assert(self.entries@[j].0@ == k);
                    } else {
                        assert(self.entries@[j - 1].0@ == k);
                    }
                }
                assert forall|j: int| 0 <= j < self.entries@.len() implies
                    #[trigger] self.model@.contains_key(self.entries@[j].0@)
                    && self.model@[self.entries@[j].0@] == self.entries@[j].1 by {
                    if j < i {
                        assert(old(self).model@.contains_key(pre[j].0@));
                    } else {
                        assert(old(self).model@.contains_key(pre[j + 1].0@));
                    }
                }
                Some(auth)
            },
            None => {
                assert(self.model@.remove(state@) =~= self.model@);
                None
            },
        }
    }
}

/// A poll after a completion for the same state returns the stored login,
/// and a second poll right after it finds nothing.
pub proof fn lemma_poll_once(m: Map<Seq<char>, PendingAuth>, state: Seq<char>, auth: PendingAuth)
    requires
        state.len() > 0,
    ensures
        poll_result(after_complete(m, state, auth), state) == Some(auth),
        poll_result(after_complete(m, state, auth).remove(state), state).is_none(),
{
}

} // verus!
