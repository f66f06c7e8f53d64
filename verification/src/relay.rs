//! The relay's session table: live passphrases mapped to pending file
//! offers.  Admitting an offer mints a fresh passphrase, a lookup is
//! idempotent, and a claim whose hash matches removes the offer for good.
//! The surrounding UDP loop lives in the embedding binary; every decision
//! about the table is made here.

use vstd::prelude::*;
use crate::codec;
use crate::error::NudgeError;
use crate::error::Result;
use crate::models::FileInfo;
use crate::models::FileInfoModel;
use crate::models::R2XRequestFileInfoMessage;
use crate::models::R2XRequestSenderConnectionMessage;
use crate::models::S2XRequestPassphraseMessage;
use crate::models::X2SSenderConnectToReceiverMessage;
use crate::passphrase::Passphrase;
use crate::passphrase::PassphraseGenerator;

verus! {

/// Offers older than this many milliseconds are evicted.
pub const DEFAULT_OFFER_TTL_MS: u64 = 600000;

/// How often the minter retries a colliding passphrase before giving up.
pub const MINT_RETRY_LIMIT: usize = 16;

/// The three requests a relay understands, and everything else.
#[derive(Debug, PartialEq, Eq, Structural)]
pub enum RelayCommand {
    SenderRequestPassphrase,
    ReceiverRequestFileInfo,
    ReceiverRequestSenderConnection,
    Unknown,
}

/// The record the relay keeps for an admitted offer.
pub open spec fn offer_model(
    msg: crate::models::OfferRequestModel,
    sender_addr: Seq<char>,
    now: u64,
) -> FileInfoModel {
    FileInfoModel {
        file_size: msg.file_size,
        file_name: msg.file_name,
        file_hash: msg.file_hash,
        sender_host: msg.sender_host,
        created_at: now,
        sender_addr: sender_addr,
    }
}

/// Whether an offer admitted at `created_at` is still live at `now`.
pub open spec fn offer_live(info: FileInfoModel, ttl_ms: u64, now: u64) -> bool {
    info.created_at + ttl_ms > now
}

/// The relay's state: the passphrase minter and the table of live offers.
pub struct RelayServer {
    passphrase_generator: PassphraseGenerator,
    client_map: Vec<(Passphrase, FileInfo)>,
    ttl_ms: u64,
}

impl RelayServer {
    /// The offers as stored, in admission order.
    pub closed spec fn entries(&self) -> Seq<(Passphrase, FileInfo)> {
        self.client_map@
    }

    /// No passphrase appears behind two offers at once.
    pub closed spec fn keys_unique(&self) -> bool {
        forall|i: int, j: int|
            0 <= i < j < self.entries().len() ==> (#[trigger] self.entries()[i]).0@ != (
            #[trigger] self.entries()[j]).0@
    }

    /// A usable relay: a word list to mint from, and unique live keys.
    pub closed spec fn wf(&self) -> bool {
        self.passphrase_generator.wf() && self.keys_unique()
    }

    /// Whether some offer is stored under `k`.
    pub closed spec fn has_key(&self, k: Seq<char>) -> bool {
        exists|i: int| 0 <= i < self.entries().len() && (#[trigger] self.entries()[i]).0@ == k
    }

    /// The position of the offer stored under `k`.
    pub closed spec fn index_of(&self, k: Seq<char>) -> int {
        choose|i: int| 0 <= i < self.entries().len() && (#[trigger] self.entries()[i]).0@ == k
    }

    /// The table of live offers as a map from passphrase text to offer.
    pub closed spec fn table(&self) -> Map<Seq<char>, FileInfoModel> {
        Map::new(|k: Seq<char>| self.has_key(k), |k: Seq<char>| self.entries()[self.index_of(k)].1@)
    }

    /// The configured offer lifetime in milliseconds.
    pub closed spec fn spec_ttl_ms(&self) -> u64 {
        self.ttl_ms
    }

    proof fn lemma_at(&self, k: Seq<char>, i: int)
        requires
            self.keys_unique(),
            0 <= i < self.entries().len(),
            self.entries()[i].0@ == k,
        ensures
            self.has_key(k),
            self.index_of(k) == i,
            self.table().contains_key(k),
            self.table()[k] == self.entries()[i].1@,
    {
        let j = self.index_of(k);
        if i != j {
            assert(self.entries()[i].0@ != self.entries()[j].0@);
        }
    }

    /// A fresh relay with an empty table and the default offer lifetime.
    pub fn new() -> (r: Result<RelayServer>)
        ensures
            r matches Ok(s) && s.wf() && s.table() == Map::<Seq<char>, FileInfoModel>::empty()
                && s.spec_ttl_ms() == DEFAULT_OFFER_TTL_MS,
    {
        let generator = match PassphraseGenerator::new() {
            Ok(g) => g,
            Err(e) => {
                return Err(e);
            },
        };
        let server = RelayServer {
            passphrase_generator: generator,
            client_map: Vec::new(),
            ttl_ms: DEFAULT_OFFER_TTL_MS,
        };
        proof {
            assert(server.table() =~= Map::<Seq<char>, FileInfoModel>::empty());
        }
        Ok(server)
    }

    /// The stored position of the offer under `p`, where one is live.
    fn find_offer(&self, p: &Passphrase) -> (r: Option<usize>)
        ensures
            match r {
                Option::Some(i) => i < self.entries().len() && self.entries()[i as int].0@ == p@,
                Option::None => !self.has_key(p@),
            },
    {
        let n = self.client_map.len();
        for i in 0..n
            invariant
                n == self.entries().len(),
                forall|j: int| 0 <= j < i ==> (#[trigger] self.entries()[j]).0@ != p@,
        {
            if self.client_map[i].0 == *p {
                return Option::Some(i);
            }
        }
        Option::None
    }

    fn insert_offer(&mut self, p: Passphrase, info: FileInfo)
        requires
            old(self).wf(),
            !old(self).has_key(p@),
        ensures
            final(self).wf(),
            final(self).table() == old(self).table().insert(p@, info@),
            final(self).passphrase_generator == old(self).passphrase_generator,
            final(self).spec_ttl_ms() == old(self).spec_ttl_ms(),
    {
        let ghost oldself = *old(self);
        let ghost key = p@;
        let ghost model = info@;
        self.client_map.push((p, info));
        proof {
            let n = self.entries().len() as int;
            assert(self.entries()[n - 1].0@ == key);
            assert forall|i: int, j: int| 0 <= i < j < n implies (#[trigger] self.entries()[i]).0@
                != (#[trigger] self.entries()[j]).0@ by {
                if j < n - 1 {
                    assert(oldself.entries()[i].0@ != oldself.entries()[j].0@);
                } else {
                    if oldself.entries()[i].0@ == key {
                        assert(oldself.has_key(key));
                    }
                }
            }
            assert forall|k: Seq<char>| #[trigger]
                self.has_key(k) implies (k == key || oldself.has_key(k)) by {
                let i = choose|i: int|
                    0 <= i < self.entries().len() && (#[trigger] self.entries()[i]).0@ == k;
                if i < n - 1 {
                    assert(oldself.entries()[i].0@ == k);
                }
            }
            assert forall|k: Seq<char>| #[trigger] oldself.has_key(k) implies self.has_key(k) by {
                let i = choose|i: int|
                    0 <= i < oldself.entries().len() && (#[trigger] oldself.entries()[i]).0@ == k;
                assert(self.entries()[i].0@ == k);
            }
            self.lemma_at(key, n - 1);
            assert forall|k: Seq<char>|
                oldself.has_key(k) && k != key implies self.table()[k] == oldself.table()[k] by {
                let i = choose|i: int|
                    0 <= i < oldself.entries().len() && (#[trigger] oldself.entries()[i]).0@ == k;
                assert(self.entries()[i].0@ == k);
                self.lemma_at(k, i);
                oldself.lemma_at(k, i);
            }
            assert(self.table() =~= oldself.table().insert(key, model));
        }
    }

    fn remove_offer(&mut self, i: usize)
        requires
            old(self).wf(),
            i < old(self).entries().len(),
        ensures
            final(self).wf(),
            final(self).table() == old(self).table().remove(old(self).entries()[i as int].0@),
            final(self).entries() == old(self).entries().subrange(0, i as int) + old(
                self,
            ).entries().subrange(i as int + 1, old(self).entries().len() as int),
            final(self).passphrase_generator == old(self).passphrase_generator,
            final(self).spec_ttl_ms() == old(self).spec_ttl_ms(),
    {
        let ghost oldself = *old(self);
        let ghost key = oldself.entries()[i as int].0@;
        self.client_map.remove(i);
        proof {
            let n = self.entries().len() as int;
            assert forall|j: int| 0 <= j < n implies #[trigger] self.entries()[j]
                == if j < i as int {
                oldself.entries()[j]
            } else {
                oldself.entries()[j + 1]
            } by {}
            assert forall|a: int, b: int| 0 <= a < b < n implies (#[trigger] self.entries()[a]).0@
                != (#[trigger] self.entries()[b]).0@ by {
                let a0 = if a < i as int { a } else { a + 1 };
                let b0 = if b < i as int { b } else { b + 1 };
                assert(oldself.entries()[a0].0@ != oldself.entries()[b0].0@);
            }
            assert forall|k: Seq<char>| #[trigger]
                self.has_key(k) implies (oldself.has_key(k) && k != key) by {
                let j = choose|j: int|
                    0 <= j < self.entries().len() && (#[trigger] self.entries()[j]).0@ == k;
                let j0 = if j < i as int { j } else { j + 1 };
                assert(oldself.entries()[j0].0@ == k);
                if k == key {
                    assert(oldself.entries()[i as int].0@ == oldself.entries()[j0].0@);
                    assert(j0 != i as int ==> false);
                }
            }
            assert forall|k: Seq<char>|
                oldself.has_key(k) && k != key implies self.has_key(k) && self.table()[k]
                    == oldself.table()[k] by {
                let j0 = choose|j: int|
                    0 <= j < oldself.entries().len() && (#[trigger] oldself.entries()[j]).0@ == k;
                oldself.lemma_at(k, j0);
                let j = if j0 < i as int {
                    j0
                } else {
                    j0 - 1
                };
                assert(self.entries()[j].0@ == k);
                self.lemma_at(k, j);
            }
            assert(self.table() =~= oldself.table().remove(key));
        }
    }

    /// Drops every offer whose lifetime has run out at `now`; the live
    /// offers survive untouched.
    pub fn evict_expired(&mut self, now: u64)
        requires
            old(self).wf(),
        ensures
            final(self).wf(),
            forall|k: Seq<char>|
                final(self).table().contains_key(k) <==> (#[trigger] old(
                    self,
                ).table().contains_key(k) && offer_live(
                    old(self).table()[k],
                    old(self).spec_ttl_ms(),
                    now,
                )),
            forall|k: Seq<char>| #[trigger]
                final(self).table().contains_key(k) ==> final(self).table()[k] == old(
                    self,
                ).table()[k],
            final(self).spec_ttl_ms() == old(self).spec_ttl_ms(),
    {
        let ghost oldself = *old(self);
        let mut idx: usize = 0;
        while idx < self.client_map.len()
            invariant
                self.wf(),
                idx <= self.entries().len(),
                self.passphrase_generator == oldself.passphrase_generator,
                self.spec_ttl_ms() == oldself.spec_ttl_ms(),
                forall|j: int|
                    0 <= j < idx ==> offer_live(
                        (#[trigger] self.entries()[j]).1@,
                        oldself.ttl_ms,
                        now,
                    ),
                forall|k: Seq<char>| #[trigger]
                    self.table().contains_key(k) ==> (oldself.table().contains_key(k)
                        && self.table()[k] == oldself.table()[k]),
                forall|k: Seq<char>| #[trigger]
                    oldself.table().contains_key(k) && offer_live(
                        oldself.table()[k],
                        oldself.ttl_ms,
                        now,
                    ) ==> self.table().contains_key(k),
            decreases self.entries().len() - idx,
        {
            let created = self.client_map[idx].1.created_at;
            let expired = !(created as u128 + self.ttl_ms as u128 > now as u128);
            if expired {
                let ghost k = self.entries()[idx as int].0@;
                let ghost cur = *self;
                proof {
                    self.lemma_at(k, idx as int);
                }
                self.remove_offer(idx);
                proof {
                    assert(!offer_live(cur.table()[k], oldself.ttl_ms, now));
                    assert forall|q: Seq<char>| #[trigger]
                        self.table().contains_key(q) implies (oldself.table().contains_key(q)
                        && self.table()[q] == oldself.table()[q]) by {
                        assert(cur.table().contains_key(q));
                        assert(self.table()[q] == cur.table()[q]);
                    }
                    assert forall|q: Seq<char>| #[trigger]
                        oldself.table().contains_key(q) && offer_live(
                        oldself.table()[q],
                        oldself.ttl_ms,
                        now,
                    ) implies self.table().contains_key(q) by {
                        assert(cur.table().contains_key(q));
                        assert(q != k);
                    }
                    assert forall|j: int|
                        0 <= j < idx implies offer_live(
                        (#[trigger] self.entries()[j]).1@,
                        oldself.ttl_ms,
                        now,
                    ) by {
                        assert(self.entries()[j] == cur.entries()[j]);
                    }
                }
            } else {
                proof {
                    self.lemma_at(self.entries()[idx as int].0@, idx as int);
                }
                idx = idx + 1;
            }
        }
        proof {
            assert forall|k: Seq<char>| #[trigger]
                self.table().contains_key(k) implies offer_live(
                self.table()[k],
                oldself.ttl_ms,
                now,
            ) by {
                let j = choose|j: int|
                    0 <= j < self.entries().len() && (#[trigger] self.entries()[j]).0@ == k;
                self.lemma_at(k, j);
            }
        }
    }

    /// Admits the sender's offer under a freshly minted passphrase: the
    /// minter retries colliding passphrases a bounded number of times, and
    /// on success the table gains exactly the new offer.
    pub fn handle_sender_request_passphrase_message(
        &mut self,
        msg: &S2XRequestPassphraseMessage,
        sender_addr: &str,
        now: u64,
    ) -> (r: Result<Passphrase>)
        requires
            old(self).wf(),
        ensures
            final(self).wf(),
            final(self).spec_ttl_ms() == old(self).spec_ttl_ms(),
            r matches Ok(p) ==> !old(self).table().contains_key(p@) && final(self).table() == old(
                self,
            ).table().insert(p@, offer_model(msg@, sender_addr@, now)),
            r is Err ==> (r matches Err(e) && e is PassphraseGenerationError && final(self).table()
                == old(self).table()),
            old(self).table() == Map::<Seq<char>, FileInfoModel>::empty() ==> r is Ok,
    {
        for attempt in 0..MINT_RETRY_LIMIT
            invariant
                self == old(self),
                self.wf(),
                attempt > 0 ==> exists|k: Seq<char>| old(self).table().contains_key(k),
        {
            let p = match self.passphrase_generator.generate() {
                Option::Some(p) => p,
                Option::None => {
                    return Err(NudgeError::PassphraseGenerationError);
                },
            };
            match self.find_offer(&p) {
                Option::None => {
                    let info = FileInfo {
                        file_size: msg.file_size,
                        file_name: msg.file_name.clone(),
                        file_hash: msg.file_hash.clone(),
                        sender_host: msg.sender_host.clone(),
                        created_at: now,
                        sender_addr: sender_addr.to_owned(),
                    };
                    let token = p.clone();
                    let ghost key = p@;
                    self.insert_offer(p, info);
                    proof {
                        assert(token@ == key);
                    }
                    return Ok(token);
                },
                Option::Some(i) => {
                    // A collision: the passphrase is already live, so the
                    // table cannot have been empty.
                    proof {
                        self.lemma_at(p@, i as int);
                    }
                },
            }
        }
        Err(NudgeError::PassphraseGenerationError)
    }

    /// Answers a receiver's metadata query: the stored offer where the
    /// passphrase is live, `PassphraseNotFound` otherwise.  Asking never
    /// changes the table, so the query may be repeated freely.
    pub fn handle_receiver_request_file_info(&self, msg: &R2XRequestFileInfoMessage) -> (r: Result<
        FileInfo,
    >)
        requires
            self.wf(),
        ensures
            self.table().contains_key(msg.passphrase@) ==> (r matches Ok(info) && info@
                == self.table()[msg.passphrase@]),
            !self.table().contains_key(msg.passphrase@) ==> (r matches Err(e)
                && e is PassphraseNotFound),
    {
        match self.find_offer(&msg.passphrase) {
            Option::Some(i) => {
                proof {
                    self.lemma_at(msg.passphrase@, i as int);
                }
                Ok(self.client_map[i].1.clone())
            },
            Option::None => Err(NudgeError::PassphraseNotFound),
        }
    }

    /// Settles a receiver's claim.  Where the passphrase is live and the
    /// quoted hash matches the offer's, the offer is removed for good and
    /// the sender's stored endpoint is handed back together with the
    /// message for the sender; any other claim leaves the table as it was
    /// and is answered `PassphraseNotFound`.
    pub fn handle_receiver_accept(
        &mut self,
        msg: R2XRequestSenderConnectionMessage,
        receiver_addr: &str,
    ) -> (r: Result<(String, X2SSenderConnectToReceiverMessage)>)
        requires
            old(self).wf(),
        ensures
            final(self).wf(),
            final(self).spec_ttl_ms() == old(self).spec_ttl_ms(),
            old(self).table().contains_key(msg.passphrase@) && old(self).table()[msg.passphrase@].file_hash
                == msg.file_hash@ ==> (r matches Ok((sender_addr, reply)) && sender_addr@ == old(
                self,
            ).table()[msg.passphrase@].sender_addr && reply.receiver_addr@ == receiver_addr@
                && reply.receiver_host@ == msg.receiver_host@ && final(self).table() == old(
                self,
            ).table().remove(msg.passphrase@)),
            !(old(self).table().contains_key(msg.passphrase@) && old(
                self,
            ).table()[msg.passphrase@].file_hash == msg.file_hash@) ==> (r matches Err(e)
                && e is PassphraseNotFound && final(self).table() == old(self).table()),
    {
        match self.find_offer(&msg.passphrase) {
            Option::Some(i) => {
                proof {
                    self.lemma_at(msg.passphrase@, i as int);
                }
                if self.client_map[i].1.file_hash == msg.file_hash {
                    let sender_addr = self.client_map[i].1.sender_addr.clone();
                    self.remove_offer(i);
                    let reply = X2SSenderConnectToReceiverMessage {
                        receiver_addr: receiver_addr.to_owned(),
                        receiver_host: msg.receiver_host,
                    };
                    Ok((sender_addr, reply))
                } else {
                    Err(NudgeError::PassphraseNotFound)
                }
            },
            Option::None => Err(NudgeError::PassphraseNotFound),
        }
    }
}

/// Sorts an inbound tag into the request it names.
pub fn classify_message_tag(tag: &str) -> (r: RelayCommand)
    ensures
        r is SenderRequestPassphrase <==> tag@ == codec::TAG_S2X_RP@,
        r is ReceiverRequestFileInfo <==> tag@ == codec::TAG_R2X_RFI@,
        r is ReceiverRequestSenderConnection <==> tag@ == codec::TAG_R2X_RSC@,
{
    proof {
        reveal_strlit("S2X_RP");
        reveal_strlit("R2X_RFI");
        reveal_strlit("R2X_RSC");
        assert(codec::TAG_S2X_RP@.len() == 6);
        assert(codec::TAG_R2X_RFI@.len() == 7);
        assert(codec::TAG_R2X_RSC@.len() == 7);
        assert(codec::TAG_R2X_RFI@[5] != codec::TAG_R2X_RSC@[5]);
    }
    if codec::str_eq(tag, codec::TAG_S2X_RP) {
        RelayCommand::SenderRequestPassphrase
    } else if codec::str_eq(tag, codec::TAG_R2X_RFI) {
        RelayCommand::ReceiverRequestFileInfo
    } else if codec::str_eq(tag, codec::TAG_R2X_RSC) {
        RelayCommand::ReceiverRequestSenderConnection
    } else {
        RelayCommand::Unknown
    }
}

/// A claimed passphrase is gone: once an offer is removed from the table,
/// no later lookup or claim of the same passphrase can find it.
pub proof fn lemma_claim_is_one_shot(t: Map<Seq<char>, FileInfoModel>, p: Seq<char>)
    ensures
        !t.remove(p).contains_key(p),
{
}

} // verus!
