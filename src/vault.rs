//! Signer vault for account-abstraction wallets: the seed of each registered
//! address, held in memory for the life of the process and never stored.
//!
//! The vault itself is single-threaded; a process that shares it wraps it in
//! a reader/writer lock, so that reads run side by side and each write is
//! applied whole.
use vstd::prelude::*;

use crate::error::AppError;
use crate::text::str_equal;

verus! {

/// Prefix of a relay receipt.
pub const RELAY_RECEIPT_PREFIX: &'static str = "aa_relayed_";

/// Relies on `uuid::Uuid::new_v4` and its `Display`: a random version-4 UUID
/// in hyphenated form, which has 36 characters.
#[verifier::external_body]
pub(crate) fn random_uuid() -> (r: String)
    ensures
        r@.len() == 36,
{
    uuid::Uuid::new_v4().to_string()
}

/// Seeds by address.
pub struct AaService {
    entries: Vec<(String, String)>,
    contents: Ghost<Map<Seq<char>, Seq<char>>>,
}

impl View for AaService {
    type V = Map<Seq<char>, Seq<char>>;

    closed spec fn view(&self) -> Map<Seq<char>, Seq<char>> {
        self.contents@
    }
}

impl AaService {
    /// The entries hold each address once, and exactly the addresses and
    /// seeds of the map view.
    pub closed spec fn wf(&self) -> bool {
        &&& forall|i: int, j: int|
            #![trigger self.entries@[i], self.entries@[j]]
            0 <= i < j < self.entries@.len() ==> self.entries@[i].0@ != self.entries@[j].0@
        &&& forall|i: int|
            0 <= i < self.entries@.len() ==> self.contents@.contains_key(
                (#[trigger] self.entries@[i]).0@,
            ) && self.contents@[self.entries@[i].0@] == self.entries@[i].1@
        &&& forall|k: Seq<char>|
            #[trigger] self.contents@.contains_key(k) ==> exists|i: int|
                0 <= i < self.entries@.len() && (#[trigger] self.entries@[i]).0@ == k
        &&& self.contents@.dom().finite()
        &&& self.contents@.dom().len() == self.entries@.len()
    }

    /// An empty vault.
    pub fn new() -> (r: Self)
        ensures
            r.wf(),
            r@ == Map::<Seq<char>, Seq<char>>::empty(),
    {
        let r = AaService { entries: Vec::new(), contents: Ghost(Map::empty()) };
        proof {
            assert(r.contents@.dom() =~= Set::empty());
        }
        r
    }

    fn find(&self, pubkey: &str) -> (r: Option<usize>)
        requires
            self.wf(),
        ensures
            r matches Some(i) ==> i < self.entries@.len() && self.entries@[i as int].0@ == pubkey@,
            r is None ==> !self@.contains_key(pubkey@),
    {
        let mut i: usize = 0;
        while i < self.entries.len()
            invariant
                i <= self.entries@.len(),
                forall|j: int| 0 <= j < i ==> (#[trigger] self.entries@[j]).0@ != pubkey@,
            decreases self.entries@.len() - i,
        {
            if str_equal(self.entries[i].0.as_str(), pubkey) {
                return Some(i);
            }
            i = i + 1;
        }
        None
    }

    /// Removes the entry at `i`, which holds `key`.
    fn remove_at(&mut self, i: usize)
        requires
            old(self).wf(),
            i < old(self).entries@.len(),
        ensures
            final(self).wf(),
            final(self)@ == old(self)@.remove(old(self).entries@[i as int].0@),
    {
        let ghost key = self.entries@[i as int].0@;
        let ghost old_entries = self.entries@;
        let ghost old_map = self.contents@;
        self.entries.remove(i);
        self.contents = Ghost(old_map.remove(key));
        proof {
            let n = self.entries@.len();
            assert forall|a: int, b: int|
                #![trigger self.entries@[a], self.entries@[b]]
                0 <= a < b < n implies self.entries@[a].0@ != self.entries@[b].0@ by {
                let oa = if a < i {
                    a
                } else {
                    a + 1
                };
                let ob = if b < i {
                    b
                } else {
                    b + 1
                };
                assert(self.entries@[a] == old_entries[oa]);
                assert(self.entries@[b] == old_entries[ob]);
                assert(old_entries[oa].0@ != old_entries[ob].0@);
            }
            assert forall|a: int| 0 <= a < n implies self.contents@.contains_key(
                (#[trigger] self.entries@[a]).0@,
            ) && self.contents@[self.entries@[a].0@] == self.entries@[a].1@ by {
                let oa = if a < i {
                    a
                } else {
                    a + 1
                };
                assert(self.entries@[a] == old_entries[oa]);
                assert(old_entries[oa].0@ != old_entries[i as int].0@);
            }
            assert forall|k: Seq<char>| #[trigger]
                self.contents@.contains_key(k) implies exists|a: int|
                0 <= a < n && (#[trigger] self.entries@[a]).0@ == k by {
                let oa = choose|oa: int| 0 <= oa < old_entries.len() && old_entries[oa].0@ == k;
                assert(oa != i);
                let a = if oa < i {
                    oa
                } else {
                    oa - 1
                };
                assert(self.entries@[a] == old_entries[oa]);
            }
            assert(self.contents@.dom() =~= old_map.dom().remove(key));
        }
    }

    /// Registers the seed of `pubkey`, replacing any seed it had.
    pub fn register_signer(&mut self, pubkey: &str, secret_seed: &str) -> (r: Result<(), AppError>)
        requires
            old(self).wf(),
        ensures
            final(self).wf(),
            final(self)@ == old(self)@.insert(pubkey@, secret_seed@),
            r is Ok,
    {
        let ghost start = self@;
        match self.find(pubkey) {
            Some(i) => {
                self.remove_at(i);
            },
            None => {},
        }
        let ghost old_entries = self.entries@;
        let ghost old_map = self.contents@;
        assert(!old_map.contains_key(pubkey@));
        self.entries.push((String::from_str(pubkey), String::from_str(secret_seed)));
        self.contents = Ghost(old_map.insert(pubkey@, secret_seed@));
        proof {
            let n = self.entries@.len();
            assert(self.entries@[n - 1].0@ == pubkey@);
            assert forall|a: int, b: int|
                #![trigger self.entries@[a], self.entries@[b]]
                0 <= a < b < n implies self.entries@[a].0@ != self.entries@[b].0@ by {
                if b == n - 1 {
                    assert(self.entries@[a] == old_entries[a]);
                    assert(old_map.contains_key(old_entries[a].0@));
                } else {
                    assert(self.entries@[a] == old_entries[a]);
                    assert(self.entries@[b] == old_entries[b]);
                }
            }
            assert forall|a: int| 0 <= a < n implies self.contents@.contains_key(
                (#[trigger] self.entries@[a]).0@,
            ) && self.contents@[self.entries@[a].0@] == self.entries@[a].1@ by {
                if a < n - 1 {
                    assert(self.entries@[a] == old_entries[a]);
                    assert(old_map.contains_key(old_entries[a].0@));
                }
            }
            assert forall|k: Seq<char>| #[trigger]
                self.contents@.contains_key(k) implies exists|a: int|
                0 <= a < n && (#[trigger] self.entries@[a]).0@ == k by {
                if k == pubkey@ {
                    assert(self.entries@[n - 1].0@ == k);
                } else {
                    let oa = choose|oa: int| 0 <= oa < old_entries.len() && old_entries[oa].0@ == k;
                    assert(self.entries@[oa] == old_entries[oa]);
                }
            }
            assert(self.contents@.dom() =~= old_map.dom().insert(pubkey@));
            assert(self@ =~= start.insert(pubkey@, secret_seed@));
        }
        Ok(())
    }

    /// The seed registered for `pubkey`, if any.
    pub fn get_signer(&self, pubkey: &str) -> (r: Option<String>)
        requires
            self.wf(),
        ensures
            r is Some <==> self@.contains_key(pubkey@),
            r matches Some(s) ==> s@ == self@[pubkey@],
    {
        match self.find(pubkey) {
            Some(i) => Some(self.entries[i].1.clone()),
            None => None,
        }
    }

    /// Whether a seed is registered for `pubkey`.
    pub fn has_signer(&self, pubkey: &str) -> (r: bool)
        requires
            self.wf(),
        ensures
            r == self@.contains_key(pubkey@),
    {
        self.find(pubkey).is_some()
    }

    /// Forgets the seed of `pubkey`, if it had one.
    pub fn remove_signer(&mut self, pubkey: &str) -> (r: Result<(), AppError>)
        requires
            old(self).wf(),
        ensures
            final(self).wf(),
            final(self)@ == old(self)@.remove(pubkey@),
            r is Ok,
    {
        match self.find(pubkey) {
            Some(i) => {
                self.remove_at(i);
            },
            None => {
                assert(self@ =~= self@.remove(pubkey@));
            },
        }
        Ok(())
    }

    /// Every registered address, each once, in no particular order.
    pub fn list_signers(&self) -> (r: Vec<String>)
        requires
            self.wf(),
        ensures
            r@.len() == self@.dom().len(),
            forall|i: int| 0 <= i < r@.len() ==> self@.contains_key(#[trigger] r@[i]@),
            forall|k: Seq<char>| #[trigger]
                self@.contains_key(k) ==> exists|i: int| 0 <= i < r@.len() && r@[i]@ == k,
            forall|i: int, j: int|
                #![trigger r@[i], r@[j]]
                0 <= i < j < r@.len() ==> r@[i]@ != r@[j]@,
    {
        let mut out: Vec<String> = Vec::new();
        let mut i: usize = 0;
        while i < self.entries.len()
            invariant
                self.wf(),
                i <= self.entries@.len(),
                out@.len() == i,
                forall|j: int| 0 <= j < i ==> (#[trigger] out@[j])@ == self.entries@[j].0@,
            decreases self.entries@.len() - i,
        {
            out.push(self.entries[i].0.clone());
            i = i + 1;
        }
        proof {
            assert forall|a: int| 0 <= a < out@.len() implies self@.contains_key(
                #[trigger] out@[a]@,
            ) by {
                assert(self.contents@.contains_key(self.entries@[a].0@));
            }
            assert forall|k: Seq<char>| #[trigger]
                self@.contains_key(k) implies exists|a: int| 0 <= a < out@.len() && out@[a]@ == k by {
                let a = choose|a: int| 0 <= a < self.entries@.len() && self.entries@[a].0@ == k;
                assert(out@[a]@ == k);
            }
            assert forall|a: int, b: int|
                #![trigger out@[a], out@[b]]
                0 <= a < b < out@.len() implies out@[a]@ != out@[b]@ by {
                assert(self.entries@[a].0@ != self.entries@[b].0@);
            }
        }
        out
    }

    /// Hands a transaction to the registered signer of `pubkey` and returns
    /// the relay receipt: the prefix `aa_relayed_` and a fresh UUID. Fails
    /// when no seed is registered for `pubkey`.
    pub fn relay_transaction(&self, pubkey: &str, tx_xdr: &str) -> (r: Result<String, AppError>)
        requires
            self.wf(),
        ensures
            r is Err <==> !self@.contains_key(pubkey@),
            r matches Err(e) ==> e is AccountAbstractionError,
            r matches Ok(h) ==> h@.len() == RELAY_RECEIPT_PREFIX@.len() + 36 && h@.subrange(
                0,
                RELAY_RECEIPT_PREFIX@.len() as int,
            ) == RELAY_RECEIPT_PREFIX@,
    {
        if !self.has_signer(pubkey) {
            return Err(
                AppError::AccountAbstractionError(
                    String::from_str("No signer registered for this account"),
                ),
            );
        }
        let mut receipt = String::from_str(RELAY_RECEIPT_PREFIX);
        let id = random_uuid();
        receipt.append(id.as_str());
        assert(receipt@.subrange(0, RELAY_RECEIPT_PREFIX@.len() as int) =~= RELAY_RECEIPT_PREFIX@);
        Ok(receipt)
    }
}

impl Default for AaService {
    fn default() -> (r: Self)
        ensures
            r.wf(),
            r@ == Map::<Seq<char>, Seq<char>>::empty(),
    {
        Self::new()
    }
}

/// The vault after registering `secrets[i]` for `keys[i]`, in order, starting
/// from `start`.
pub open spec fn register_all(
    start: Map<Seq<char>, Seq<char>>,
    keys: Seq<Seq<char>>,
    secrets: Seq<Seq<char>>,
) -> Map<Seq<char>, Seq<char>>
    decreases keys.len(),
{
    if keys.len() == 0 {
        start
    } else {
        register_all(start, keys.drop_last(), secrets.drop_last()).insert(
            keys.last(),
            secrets.last(),
        )
    }
}

/// Registering `n` distinct addresses into an empty vault leaves exactly those
/// `n` addresses registered, so listing it yields `n` entries.
pub proof fn lemma_register_distinct_keys(keys: Seq<Seq<char>>, secrets: Seq<Seq<char>>)
    requires
        keys.len() == secrets.len(),
        keys.no_duplicates(),
    ensures
        register_all(Map::empty(), keys, secrets).dom() == keys.to_set(),
        register_all(Map::empty(), keys, secrets).dom().finite(),
        register_all(Map::empty(), keys, secrets).dom().len() == keys.len(),
    decreases keys.len(),
{
    let m = register_all(Map::empty(), keys, secrets);
    if keys.len() == 0 {
        assert(m.dom() =~= Set::empty());
        assert(keys.to_set() =~= Set::empty());
    } else {
        let pre = keys.drop_last();
        assert(pre.no_duplicates()) by {
            assert forall|i: int, j: int| 0 <= i < pre.len() && 0 <= j < pre.len() && i != j implies pre[i]
                != pre[j] by {
                assert(pre[i] == keys[i] && pre[j] == keys[j]);
            }
        }
        lemma_register_distinct_keys(pre, secrets.drop_last());
        let before = register_all(Map::empty(), pre, secrets.drop_last());
        assert(!pre.to_set().contains(keys.last())) by {
            if pre.to_set().contains(keys.last()) {
                let i = choose|i: int| 0 <= i < pre.len() && pre[i] == keys.last();
                assert(keys[i] == keys[keys.len() - 1]);
            }
        }
        assert(m.dom() =~= before.dom().insert(keys.last()));
        assert(keys.to_set() =~= pre.to_set().insert(keys.last())) by {
            assert(keys =~= pre.push(keys.last()));
            assert forall|x| keys.to_set().contains(x) <==> pre.to_set().insert(
                keys.last(),
            ).contains(x) by {
                if keys.to_set().contains(x) {
                    let i = choose|i: int| 0 <= i < keys.len() && keys[i] == x;
                    if i < keys.len() - 1 {
                        assert(pre[i] == x);
                    }
                }
                if pre.to_set().contains(x) {
                    let i = choose|i: int| 0 <= i < pre.len() && pre[i] == x;
                    assert(keys[i] == x);
                }
            }
        }
    }
}

} // verus!
