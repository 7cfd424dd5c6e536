//! Security service: PCR measurement banks, a key vault with owner checks,
//! and capability tokens with expiry.

pub mod crypto;

use vstd::prelude::*;
use crate::table::find_free;

verus! {

pub const MAX_PCR_REGISTERS: usize = 24;
pub const MAX_KEYS: usize = 32;
pub const MAX_CAPABILITY_TOKENS: usize = 64;
pub const SHA256_DIGEST_LEN: usize = 32;

#[derive(Debug, Clone, Copy, PartialEq, Eq)]
pub struct PcrMeasurement {
    pub index: u8,
    pub digest: [u8; SHA256_DIGEST_LEN],
}

#[derive(Debug, Clone, Copy)]
pub struct SecurityToken {
    pub token_id: u64,
    pub subject_pid: u32,
    pub capabilities: u64,
    pub issued_at: u64,
    pub expires_at: u64,
    pub hmac_signature: [u8; 16],
}

impl SecurityToken {
    pub open spec fn spec_valid_at(&self, timestamp: u64, required_cap: u64) -> bool {
        self.issued_at <= timestamp <= self.expires_at && self.capabilities & required_cap == required_cap
    }

    /// Valid within its lifetime (both ends included) for capabilities it holds.
    pub fn is_valid_at(&self, timestamp: u64, required_cap: u64) -> (r: bool)
        ensures
            r == self.spec_valid_at(timestamp, required_cap),
    {
        if timestamp < self.issued_at || timestamp > self.expires_at {
            return false;
        }
        (self.capabilities & required_cap) == required_cap
    }
}

#[derive(Debug, Clone, Copy)]
pub struct VaultKey {
    pub key_id: u32,
    pub owner_pid: u32,
    pub key_data: [u8; 32],
}

/// Byte `i` of a token's tag: salt, little-endian pid and capabilities combined.
pub open spec fn tag_byte(salt: Seq<u8>, subject_pid: u32, capabilities: u64, i: int) -> u8 {
    salt[i] ^ ((subject_pid >> (8 * (i % 4)) as u32) as u8) ^ ((capabilities >> (8 * (i % 8)) as u64) as u8)
}

/// Keys and tokens fill their slots in order and are never removed; the
/// `n`-th key has id `n + 1`, the `n`-th token id `n + 1`.
#[derive(Debug)]
pub struct SecurityDaemon {
    pcr_banks: [[u8; SHA256_DIGEST_LEN]; MAX_PCR_REGISTERS],
    keys: [Option<VaultKey>; MAX_KEYS],
    tokens: [Option<SecurityToken>; MAX_CAPABILITY_TOKENS],
    secret_salt: [u8; 16],
    token_counter: u64,
    key_counter: u32,
}

impl SecurityDaemon {
    pub closed spec fn wf(&self) -> bool {
        &&& 1 <= self.key_counter <= 1 + MAX_KEYS
        &&& forall|i: int| 0 <= i < MAX_KEYS ==> ((#[trigger] self.keys@[i]) is Some <==> i < self.key_counter - 1)
        &&& forall|i: int| 0 <= i < self.key_counter - 1 ==> (#[trigger] self.keys@[i])->Some_0.key_id == i + 1
        &&& 1 <= self.token_counter <= 1 + MAX_CAPABILITY_TOKENS
        &&& forall|i: int| 0 <= i < MAX_CAPABILITY_TOKENS ==> ((#[trigger] self.tokens@[i]) is Some <==> i < self.token_counter - 1)
    }

    /// The PCR banks.
    pub closed spec fn pcrs(&self) -> Seq<Seq<u8>> {
        Seq::new(MAX_PCR_REGISTERS as nat, |i: int| self.pcr_banks@[i]@)
    }

    /// Stored keys, oldest first.
    pub closed spec fn key_list(&self) -> Seq<VaultKey> {
        Seq::new((self.key_counter - 1) as nat, |i: int| self.keys@[i]->Some_0)
    }

    /// Issued tokens, oldest first.
    pub closed spec fn token_list(&self) -> Seq<SecurityToken> {
        Seq::new((self.token_counter - 1) as nat, |i: int| self.tokens@[i]->Some_0)
    }

    pub closed spec fn salt(&self) -> Seq<u8> {
        self.secret_salt@
    }

    pub fn new(secret_salt: [u8; 16]) -> (d: Self)
        ensures
            d.wf(),
            d.pcrs() == Seq::new(MAX_PCR_REGISTERS as nat, |i: int| Seq::new(SHA256_DIGEST_LEN as nat, |j: int| 0u8)),
            d.key_list() == Seq::<VaultKey>::empty(),
            d.token_list() == Seq::<SecurityToken>::empty(),
            d.salt() == secret_salt@,
    {
        let d = SecurityDaemon {
            pcr_banks: [[0u8; SHA256_DIGEST_LEN]; MAX_PCR_REGISTERS],
            keys: [None; MAX_KEYS],
            tokens: [None; MAX_CAPABILITY_TOKENS],
            secret_salt,
            token_counter: 1,
            key_counter: 1,
        };
        assert forall|i: int| 0 <= i < MAX_PCR_REGISTERS implies #[trigger] d.pcr_banks@[i]@ =~= Seq::new(SHA256_DIGEST_LEN as nat, |j: int| 0u8) by {}
        assert(d.pcrs() =~= Seq::new(MAX_PCR_REGISTERS as nat, |i: int| Seq::new(SHA256_DIGEST_LEN as nat, |j: int| 0u8)));
        assert(d.key_list() =~= Seq::<VaultKey>::empty());
        assert(d.token_list() =~= Seq::<SecurityToken>::empty());
        d
    }

    /// Folds a measurement into PCR `pcr_index` (byte-wise exclusive or).
    pub fn extend_pcr(&mut self, pcr_index: usize, event_digest: &[u8; SHA256_DIGEST_LEN]) -> (r: Result<(), &'static str>)
        requires
            old(self).wf(),
        ensures
            final(self).wf(),
            final(self).key_list() == old(self).key_list(),
            final(self).token_list() == old(self).token_list(),
            final(self).salt() == old(self).salt(),
            pcr_index >= MAX_PCR_REGISTERS ==> r == Err::<(), &'static str>("PCR index out of bounds") && final(self).pcrs() == old(self).pcrs(),
            pcr_index < MAX_PCR_REGISTERS ==> r == Ok::<(), &'static str>(()) && final(self).pcrs() == old(self).pcrs().update(
                pcr_index as int,
                Seq::new(SHA256_DIGEST_LEN as nat, |j: int| old(self).pcrs()[pcr_index as int][j] ^ event_digest@[j]),
            ),
    {
        if pcr_index >= MAX_PCR_REGISTERS {
            return Err("PCR index out of bounds");
        }
        let mut bank = self.pcr_banks[pcr_index];
        let ghost old_bank = bank@;
        let mut i: usize = 0;
        while i < SHA256_DIGEST_LEN
            invariant
                i <= SHA256_DIGEST_LEN,
                bank@.len() == SHA256_DIGEST_LEN,
                old_bank.len() == SHA256_DIGEST_LEN,
                forall|j: int| 0 <= j < i ==> bank@[j] == old_bank[j] ^ event_digest@[j],
                forall|j: int| i <= j < SHA256_DIGEST_LEN ==> bank@[j] == old_bank[j],
            decreases SHA256_DIGEST_LEN - i,
        {
            bank[i] = bank[i] ^ event_digest[i];
            i += 1;
        }
        assert(old_bank == old(self).pcrs()[pcr_index as int]);
        assert(bank@ =~= Seq::new(SHA256_DIGEST_LEN as nat, |j: int| old(self).pcrs()[pcr_index as int][j] ^ event_digest@[j]));
        self.pcr_banks[pcr_index] = bank;
        assert(self.pcrs() =~= old(self).pcrs().update(
            pcr_index as int,
            Seq::new(SHA256_DIGEST_LEN as nat, |j: int| old(self).pcrs()[pcr_index as int][j] ^ event_digest@[j]),
        ));
        assert(self.key_list() =~= old(self).key_list());
        assert(self.token_list() =~= old(self).token_list());
        Ok(())
    }

    pub fn get_pcr(&self, pcr_index: usize) -> (r: Result<[u8; SHA256_DIGEST_LEN], &'static str>)
        ensures
            pcr_index >= MAX_PCR_REGISTERS ==> r == Err::<[u8; SHA256_DIGEST_LEN], &'static str>("PCR index out of bounds"),
            pcr_index < MAX_PCR_REGISTERS ==> r is Ok && r->Ok_0@ == self.pcrs()[pcr_index as int],
    {
        if pcr_index >= MAX_PCR_REGISTERS {
            return Err("PCR index out of bounds");
        }
        Ok(self.pcr_banks[pcr_index])
    }

    /// Stores a key for its owner; keys get ids 1, 2, 3, ... in order.
    pub fn store_key(&mut self, owner_pid: u32, key_data: [u8; 32]) -> (r: Result<u32, &'static str>)
        requires
            old(self).wf(),
        ensures
            final(self).wf(),
            final(self).pcrs() == old(self).pcrs(),
            final(self).token_list() == old(self).token_list(),
            final(self).salt() == old(self).salt(),
            old(self).key_list().len() == MAX_KEYS ==> r == Err::<u32, &'static str>("Vault key capacity reached")
                && final(self).key_list() == old(self).key_list(),
            old(self).key_list().len() < MAX_KEYS ==> {
                let kid = (old(self).key_list().len() + 1) as u32;
                &&& r == Ok::<u32, &'static str>(kid)
                &&& final(self).key_list() == old(self).key_list().push(VaultKey { key_id: kid, owner_pid, key_data })
            },
    {
        let kid = self.key_counter;
        match find_free(&self.keys) {
            Some(i) => {
                assert(i == self.key_counter - 1) by {
                    if i < self.key_counter - 1 {
                        assert(self.keys@[i as int] is Some);
                    } else if i > self.key_counter - 1 {
                        assert(self.keys@[self.key_counter - 1] is None);
                    }
                }
                let ghost before = self.key_list();
                let ghost pcrs = self.pcrs();
                let ghost toks = self.token_list();
                self.keys[i] = Some(VaultKey { key_id: kid, owner_pid, key_data });
                self.key_counter = self.key_counter + 1;
                assert(self.key_list() =~= before.push(VaultKey { key_id: kid, owner_pid, key_data }));
                assert(self.pcrs() =~= pcrs);
                assert(self.token_list() =~= toks);
                Ok(kid)
            },
            None => {
                assert(self.key_counter - 1 == MAX_KEYS) by {
                    if self.key_counter - 1 < MAX_KEYS {
                        assert(self.keys@[self.key_counter - 1] is None);
                    }
                }
                Err("Vault key capacity reached")
            },
        }
    }

    /// Returns a key to its owner.
    pub fn get_key(&self, key_id: u32, requester_pid: u32) -> (r: Result<[u8; 32], &'static str>)
        requires
            self.wf(),
        ensures
            ({
                let ks = self.key_list();
                if 1 <= key_id <= ks.len() {
                    let k = ks[key_id - 1];
                    if k.owner_pid != requester_pid {
                        r == Err::<[u8; 32], &'static str>("Access denied: key ownership mismatch")
                    } else {
                        r == Ok::<[u8; 32], &'static str>(k.key_data)
                    }
                } else {
                    r == Err::<[u8; 32], &'static str>("Key not found")
                }
            }),
    {
        let mut i: usize = 0;
        while i < MAX_KEYS
            invariant
                self.wf(),
                i <= MAX_KEYS,
                !(1 <= key_id <= i && key_id <= self.key_counter - 1),
            decreases MAX_KEYS - i,
        {
            if let Some(key) = self.keys[i] {
                assert(key.key_id == i + 1);
                if key.key_id == key_id {
                    assert(self.key_list()[key_id - 1] == key);
                    if key.owner_pid != requester_pid {
                        return Err("Access denied: key ownership mismatch");
                    }
                    return Ok(key.key_data);
                }
            }
            i += 1;
        }
        Err("Key not found")
    }

    /// Issues a token valid from `now` to `now + ttl` with a tag mixing the
    /// daemon's salt with the subject and capabilities.
    pub fn issue_token(&mut self, subject_pid: u32, capabilities: u64, now: u64, ttl: u64) -> (r: Result<SecurityToken, &'static str>)
        requires
            old(self).wf(),
            now + ttl <= u64::MAX,
        ensures
            final(self).wf(),
            final(self).pcrs() == old(self).pcrs(),
            final(self).key_list() == old(self).key_list(),
            final(self).salt() == old(self).salt(),
            old(self).token_list().len() == MAX_CAPABILITY_TOKENS ==> r == Err::<SecurityToken, &'static str>("Capability token vault full")
                && final(self).token_list() == old(self).token_list(),
            old(self).token_list().len() < MAX_CAPABILITY_TOKENS ==> {
                &&& r is Ok
                &&& r->Ok_0.token_id == old(self).token_list().len() + 1
                &&& r->Ok_0.subject_pid == subject_pid && r->Ok_0.capabilities == capabilities
                &&& r->Ok_0.issued_at == now && r->Ok_0.expires_at == now + ttl
                &&& r->Ok_0.hmac_signature@ == Seq::new(16, |i: int| tag_byte(old(self).salt(), subject_pid, capabilities, i))
                &&& final(self).token_list() == old(self).token_list().push(r->Ok_0)
            },
    {
        let tid = self.token_counter;
        let expires_at = now + ttl;
        let mut hmac = [0u8; 16];
        let mut i: usize = 0;
        while i < 16
            invariant
                i <= 16,
                hmac@.len() == 16,
                self.secret_salt@.len() == 16,
                forall|j: int| 0 <= j < i ==> hmac@[j] == tag_byte(self.secret_salt@, subject_pid, capabilities, j),
            decreases 16 - i,
        {
            let pid_byte = (subject_pid >> (8 * (i % 4) as u32)) as u8;
            let cap_byte = (capabilities >> (8 * (i % 8) as u64)) as u8;
            hmac[i] = self.secret_salt[i] ^ pid_byte ^ cap_byte;
            i += 1;
        }
        assert(hmac@ =~= Seq::new(16, |i: int| tag_byte(old(self).salt(), subject_pid, capabilities, i)));
        let token = SecurityToken { token_id: tid, subject_pid, capabilities, issued_at: now, expires_at, hmac_signature: hmac };
        match find_free(&self.tokens) {
            Some(k) => {
                assert(k == self.token_counter - 1) by {
                    if k < self.token_counter - 1 {
                        assert(self.tokens@[k as int] is Some);
                    } else if k > self.token_counter - 1 {
                        assert(self.tokens@[self.token_counter - 1] is None);
                    }
                }
                let ghost before = self.token_list();
                let ghost pcrs = self.pcrs();
                let ghost ks = self.key_list();
                self.tokens[k] = Some(token);
                self.token_counter = self.token_counter + 1;
                assert(self.token_list() =~= before.push(token));
                assert(self.pcrs() =~= pcrs);
                assert(self.key_list() =~= ks);
                Ok(token)
            },
            None => {
                assert(self.token_counter - 1 == MAX_CAPABILITY_TOKENS) by {
                    if self.token_counter - 1 < MAX_CAPABILITY_TOKENS {
                        assert(self.tokens@[self.token_counter - 1] is None);
                    }
                }
                Err("Capability token vault full")
            },
        }
    }

    /// Checks the first token with this id and subject.
    pub fn validate_token(&self, token_id: u64, subject_pid: u32, required_cap: u64, now: u64) -> (r: bool)
        requires
            self.wf(),
        ensures
            r == exists|i: int| {
                &&& 0 <= i < self.token_list().len()
                &&& (#[trigger] self.token_list()[i]).token_id == token_id && self.token_list()[i].subject_pid == subject_pid
                &&& forall|j: int| 0 <= j < i ==> !((#[trigger] self.token_list()[j]).token_id == token_id && self.token_list()[j].subject_pid == subject_pid)
                &&& self.token_list()[i].spec_valid_at(now, required_cap)
            },
    {
        let n = (self.token_counter - 1) as usize;
        let mut i: usize = 0;
        while i < n
            invariant
                self.wf(),
                n == self.token_list().len(),
                i <= n,
                forall|j: int| 0 <= j < i ==> !((#[trigger] self.token_list()[j]).token_id == token_id && self.token_list()[j].subject_pid == subject_pid),
            decreases n - i,
        {
            assert(self.tokens@[i as int] is Some);
            let t = self.tokens[i].unwrap();
            assert(self.token_list()[i as int] == t);
            if t.token_id == token_id && t.subject_pid == subject_pid {
                let ok = t.is_valid_at(now, required_cap);
                proof {
                    if !ok {
                        assert forall|k: int| 0 <= k < self.token_list().len() && (#[trigger] self.token_list()[k]).token_id == token_id
                            && self.token_list()[k].subject_pid == subject_pid
                            && (forall|j: int| 0 <= j < k ==> !((#[trigger] self.token_list()[j]).token_id == token_id && self.token_list()[j].subject_pid == subject_pid))
                            implies !self.token_list()[k].spec_valid_at(now, required_cap) by {
                            if k > i { assert(self.token_list()[i as int] == t); }
                        }
                    }
                }
                return ok;
            }
            i += 1;
        }
        false
    }
}

/// A stored key is returned to its owner: the key stored `n`-th has id
/// `n + 1`, so asking for that id with the owner's pid yields its data.
pub proof fn lemma_store_then_get(keys: Seq<VaultKey>, owner_pid: u32, key_data: [u8; 32])
    ensures
        ({
            let kid = keys.len() + 1;
            let ks = keys.push(VaultKey { key_id: kid as u32, owner_pid, key_data });
            1 <= kid <= ks.len() && ks[kid - 1].owner_pid == owner_pid && ks[kid - 1].key_data == key_data
        }),
{
}

} // verus!
