//! The marketplace state machine: the pattern record store, the ownership
//! index and the mint counter, with the four operations that mutate them.
//! Every operation is atomic: all of its mutations apply, or none do, and
//! the ownership bijection and the capacity bound hold in every reachable
//! state.
use vstd::prelude::*;
use std::collections::HashMap;
use nanorand::WyRand;
use crate::AccountId;
use crate::PatternId;
use crate::balances::BalanceSource;
use crate::cipher::cipher_code;
use crate::cipher::generate_random_iv;
use crate::cipher::generate_random_key;
use crate::cipher::masked_bytes;
use crate::hashing::PatternHasher;
use crate::seed::PatternSeed;

verus! {

broadcast use vstd::std_specs::hash::group_hash_axioms;

/// Why an operation was refused. Every failure leaves the whole state
/// exactly as it was.
#[derive(Clone, Copy, Debug, PartialEq, Eq)]
pub enum Error {
    /// The ownership index contradicted a stored record: an internal
    /// invariant breach, never expected in correct operation.
    PatternityOwned,
    /// One more mint would wrap the mint counter.
    PatternCntOverflow,
    /// The receiving account's ownership list is full.
    ExceedMaxPatternityOwned,
    /// A buyer bid on a pattern it already owns.
    BuyerIsPatternOwner,
    /// An owner tried to transfer a pattern to itself.
    TransferToSelf,
    /// No record is stored under the given identifier.
    PatternNotExist,
    /// The caller does not own the pattern.
    NotPatternOwner,
    /// The pattern has no ask price set.
    PatternNotForSale,
    /// The bid is below the ask price.
    PatternBidPriceTooLow,
    /// The buyer cannot pay the bid.
    NotEnoughBalance,
}

/// What a successful operation reports to outside observers.
#[derive(Clone, Copy, Debug, PartialEq, Eq)]
pub enum Event {
    Created(AccountId, PatternId),
    PriceSet(AccountId, PatternId, Option<u64>),
    Transferred(AccountId, AccountId, PatternId),
    Bought(AccountId, AccountId, PatternId, u64),
}

/// The host-chosen constants: the ownership-list bound, the payload
/// bound, and the fixed text template that every payload masks.
pub struct Config {
    /// How many patterns one account may own at once.
    pub max_patternity_owned: u32,
    /// The longest payload a record may hold.
    pub max_byte_cipher: u32,
    /// The opaque template that the content generator masks.
    pub text_base: Vec<u8>,
}

impl Config {
    /// The template must fit the payload bound, so minting never
    /// produces an overlong payload.
    pub open spec fn wf(self) -> bool {
        self.text_base@.len() <= self.max_byte_cipher
    }
}

/// No identifier occurs twice in `s`.
pub open spec fn nodup(s: Seq<PatternId>) -> bool {
    forall|i: int, j: int| #![trigger s[i], s[j]] 0 <= i < j < s.len() ==> s[i] != s[j]
}

/// The whole marketplace state: configuration, record store, ownership
/// index, mint counter, and the events emitted so far.
pub struct Pallet {
    pub config: Config,
    pub patternity: HashMap<PatternId, PatternSeed>,
    pub patternity_owned: HashMap<AccountId, Vec<PatternId>>,
    pub patternity_cnt: u64,
    pub events: Vec<Event>,
}

impl Pallet {
    /// The record store as a map.
    pub open spec fn patterns(self) -> Map<PatternId, PatternSeed> {
        self.patternity@
    }

    /// The ownership list of `account`; an account never seen owns
    /// nothing.
    pub open spec fn owned_of(self, account: AccountId) -> Seq<PatternId> {
        if self.patternity_owned@.contains_key(account) {
            self.patternity_owned@[account]@
        } else {
            Seq::empty()
        }
    }

    /// The ownership-list bound.
    pub open spec fn max_owned(self) -> int {
        self.config.max_patternity_owned as int
    }

    /// Whether a record is stored under `id`.
    pub open spec fn has_pattern(self, id: PatternId) -> bool {
        self.patterns().contains_key(id)
    }

    /// The owner of the record stored under `id`.
    pub open spec fn owner_of(self, id: PatternId) -> AccountId {
        self.patterns()[id].owner
    }

    /// The ask price of the record stored under `id`.
    pub open spec fn price_of(self, id: PatternId) -> Option<u64> {
        self.patterns()[id].price
    }

    /// Whether the record under `id` is for sale at or under `bid`.
    pub open spec fn ask_at_most(self, id: PatternId, bid: u64) -> bool {
        match self.patterns()[id].price {
            Option::Some(ask) => ask <= bid,
            Option::None => false,
        }
    }

    /// The ledger invariants: every ownership list is bounded and
    /// duplicate-free; every listed identifier is a stored record owned
    /// by the listing account; every stored record is listed by its
    /// owner; and every stored payload fits the payload bound.
    pub open spec fn wf(self) -> bool {
        &&& self.config.wf()
        &&& forall|a: AccountId| (#[trigger] self.owned_of(a)).len() <= self.max_owned()
        &&& forall|a: AccountId| nodup(#[trigger] self.owned_of(a))
        &&& forall|a: AccountId, i: int|
            0 <= i < self.owned_of(a).len() ==> self.patterns().contains_key(
                #[trigger] self.owned_of(a)[i],
            ) && self.patterns()[self.owned_of(a)[i]].owner == a
        &&& forall|id: PatternId| #[trigger]
            self.patterns().contains_key(id) ==> self.owned_of(
                self.patterns()[id].owner,
            ).contains(id)
        &&& forall|id: PatternId|
            self.patterns().contains_key(id) ==> (#[trigger] self.patterns()[id]).cipher@.len()
                <= self.config.max_byte_cipher
    }

    /// An empty marketplace under `config`.
    pub fn new(config: Config) -> (r: Pallet)
        requires
            config.wf(),
        ensures
            r.wf(),
            r.config == config,
            r.patterns() == Map::<PatternId, PatternSeed>::empty(),
            forall|a: AccountId| #[trigger] r.owned_of(a) == Seq::<PatternId>::empty(),
            r.patternity_cnt == 0,
            r.events@ == Seq::<Event>::empty(),
    {
        Pallet {
            config,
            patternity: HashMap::new(),
            patternity_owned: HashMap::new(),
            patternity_cnt: 0,
            events: Vec::new(),
        }
    }

    /// Whether `acct` owns the pattern stored under `pattern_id`; an
    /// unknown identifier is refused.
    pub fn is_pattern_owner(&self, pattern_id: PatternId, acct: AccountId) -> (r: Result<
        bool,
        Error,
    >)
        ensures
            match r {
                Ok(b) => self.has_pattern(pattern_id) && (b <==> self.owner_of(pattern_id)
                    == acct),
                Err(e) => e == Error::PatternNotExist && !self.has_pattern(pattern_id),
            },
    {
        match self.patternity.get(&pattern_id) {
            Option::Some(pattern) => Ok(pattern.owner == acct),
            Option::None => Err(Error::PatternNotExist),
        }
    }

    /// Overwrites the ask price of a pattern the caller owns; an empty
    /// price delists it. Nothing but that one record's price and the
    /// event log changes.
    pub fn set_price(&mut self, sender: AccountId, pattern_id: PatternId, new_price: Option<
        u64,
    >) -> (r: Result<(), Error>)
        requires
            old(self).wf(),
        ensures
            final(self).wf(),
            match r {
                Ok(()) => {
                    &&& old(self).has_pattern(pattern_id)
                    &&& old(self).owner_of(pattern_id) == sender
                    &&& final(self).patterns() == old(self).patterns().insert(
                        pattern_id,
                        with_price(old(self).patterns()[pattern_id], new_price),
                    )
                    &&& forall|a: AccountId| #[trigger]
                        final(self).owned_of(a) == old(self).owned_of(a)
                    &&& final(self).patternity_cnt == old(self).patternity_cnt
                    &&& final(self).config == old(self).config
                    &&& final(self).events@ == old(self).events@.push(
                        Event::PriceSet(sender, pattern_id, new_price),
                    )
                },
                Err(e) => {
                    &&& *final(self) == *old(self)
                    &&& ((e == Error::PatternNotExist) <==> !old(self).has_pattern(pattern_id))
                    &&& ((e == Error::NotPatternOwner) <==> (old(self).has_pattern(pattern_id)
                        && old(self).owner_of(pattern_id) != sender))
                    &&& (e == Error::PatternNotExist || e == Error::NotPatternOwner)
                },
            },
    {
        match self.is_pattern_owner(pattern_id, sender) {
            Err(e) => {
                return Err(e);
            },
            Ok(false) => {
                return Err(Error::NotPatternOwner);
            },
            Ok(true) => {},
        }
        let pattern = match self.patternity.remove(&pattern_id) {
            Option::Some(s) => s,
            Option::None => {
                proof {
                    assert(false);
                }
                return Err(Error::PatternNotExist);
            },
        };
        let updated = PatternSeed { price: new_price, ..pattern };
        self.patternity.insert(pattern_id, updated);
        self.events.push(Event::PriceSet(sender, pattern_id, new_price));
        proof {
            assert(final(self).patterns() =~= old(self).patterns().insert(
                pattern_id,
                with_price(old(self).patterns()[pattern_id], new_price),
            ));
            lemma_same_lists_same_owners_wf(*old(self), *final(self));
        }
        Ok(())
    }
    /// Builds a fresh record for `account_id`: a random key and IV from
    /// the caller's generator, the payload derived from them, and the
    /// asked initial price. Nothing is stored yet.
    pub fn mint(&self, rng: &mut WyRand, account_id: AccountId, price: Option<u64>) -> (seed:
        PatternSeed)
        ensures
            seed.owner == account_id,
            seed.price == price,
            seed.cipher@ == masked_bytes(seed.key@, seed.iv@, self.config.text_base@),
            seed.cipher@.len() == self.config.text_base@.len(),
    {
        let key = generate_random_key(rng);
        let iv = generate_random_iv(rng);
        let cipher = cipher_code(key, iv, &self.config.text_base);
        PatternSeed { key, iv, cipher, price, owner: account_id }
    }

    /// Mints a new pattern for `sender`: generates the record, names it
    /// by the hashing service, stores it, lists it under `sender` and
    /// counts it — all of that, or, on any failure, nothing at all.
    pub fn create_pattern<H: PatternHasher>(
        &mut self,
        rng: &mut WyRand,
        hasher: &H,
        sender: AccountId,
        price: Option<u64>,
    ) -> (r: Result<PatternId, Error>)
        requires
            old(self).wf(),
        ensures
            final(self).wf(),
            create_outcome(*old(self), *final(self), *hasher, sender, price, r),
    {
        let seed = self.mint(rng, sender, price);
        let pattern_id = hasher.hash_of(&seed);
        let owned_len = match self.patternity_owned.get(&sender) {
            Option::Some(l) => l.len(),
            Option::None => 0,
        };
        assert(owned_len == old(self).owned_of(sender).len());
        if owned_len >= self.config.max_patternity_owned as usize {
            return Err(Error::ExceedMaxPatternityOwned);
        }
        if self.patternity_cnt == u64::MAX {
            return Err(Error::PatternCntOverflow);
        }
        if self.patternity.contains_key(&pattern_id) {
            assert(old(self).patterns().contains_key(hasher.hash_spec(seed)));
            return Err(Error::PatternityOwned);
        }
        let ghost old_list = old(self).owned_of(sender);
        let mut list = match self.patternity_owned.remove(&sender) {
            Option::Some(l) => l,
            Option::None => Vec::new(),
        };
        assert(list@ == old_list);
        list.push(pattern_id);
        self.patternity_owned.insert(sender, list);
        self.patternity.insert(pattern_id, seed);
        self.patternity_cnt = self.patternity_cnt + 1;
        self.events.push(Event::Created(sender, pattern_id));
        proof {
            let pre = *old(self);
            let post = *final(self);
            assert(post.owned_of(sender) == old_list.push(pattern_id));
            assert forall|a: AccountId| a != sender implies #[trigger] post.owned_of(a)
                == pre.owned_of(a) by {}
            lemma_push_contains(old_list, pattern_id);
            // the fresh identifier is in nobody's old list
            assert forall|a: AccountId, i: int| 0 <= i < pre.owned_of(a).len() implies #[trigger]
                pre.owned_of(a)[i] != pattern_id by {
                assert(pre.patterns().contains_key(pre.owned_of(a)[i]));
            }
            assert forall|a: AccountId| (#[trigger] post.owned_of(a)).len()
                <= post.max_owned() by {
                if a != sender {
                    assert(post.owned_of(a) == pre.owned_of(a));
                }
            }
            assert forall|a: AccountId| nodup(#[trigger] post.owned_of(a)) by {
                if a == sender {
                    assert forall|i: int, j: int|
                        #![trigger post.owned_of(a)[i], post.owned_of(a)[j]]
                        0 <= i < j < post.owned_of(a).len() implies post.owned_of(a)[i]
                        != post.owned_of(a)[j] by {
                        if j < old_list.len() {
                            assert(pre.owned_of(sender)[i] != pre.owned_of(sender)[j]);
                        } else {
                            assert(post.owned_of(a)[j] == pattern_id);
                            assert(pre.owned_of(sender)[i] != pattern_id);
                        }
                    }
                } else {
                    assert(post.owned_of(a) == pre.owned_of(a));
                }
            }
            assert forall|a: AccountId, i: int| 0 <= i < post.owned_of(a).len() implies post
                .patterns().contains_key(#[trigger] post.owned_of(a)[i]) && post.patterns()[post
                .owned_of(a)[i]].owner == a by {
                if a == sender && i == old_list.len() {
                    assert(post.owned_of(a)[i] == pattern_id);
                } else {
                    assert(pre.owned_of(a)[i] == post.owned_of(a)[i]);
                    assert(pre.patterns().contains_key(pre.owned_of(a)[i]));
                    assert(pre.owned_of(a)[i] != pattern_id);
                }
            }
            assert forall|id: PatternId| #[trigger] post.patterns().contains_key(id) implies post
                .owned_of(post.patterns()[id].owner).contains(id) by {
                if id == pattern_id {
                    assert(post.owned_of(sender)[old_list.len() as int] == pattern_id);
                } else {
                    assert(pre.patterns().contains_key(id));
                    let o = pre.patterns()[id].owner;
                    assert(pre.owned_of(o).contains(id));
                    if o == sender {
                        assert(post.owned_of(o).contains(id));
                    } else {
                        assert(post.owned_of(o) == pre.owned_of(o));
                    }
                }
            }
            assert(create_outcome(pre, post, *hasher, sender, price, Ok(pattern_id)));
        }
        Ok(pattern_id)
    }

    /// Reassigns a stored pattern to `to`: delists it from its present
    /// owner, lists it under `to`, hands the record over and clears its
    /// ask price — all of that, or, on any failure, nothing at all.
    pub fn transfer_pattern_to(&mut self, pattern_id: PatternId, to: AccountId) -> (r: Result<
        (),
        Error,
    >)
        requires
            old(self).wf(),
        ensures
            final(self).wf(),
            match r {
                Ok(()) => {
                    &&& old(self).has_pattern(pattern_id)
                    &&& (old(self).owner_of(pattern_id) == to || old(self).owned_of(to).len()
                        < old(self).max_owned())
                    &&& pattern_moved(*old(self), *final(self), pattern_id, to)
                    &&& final(self).events@ == old(self).events@
                },
                Err(e) => {
                    &&& *final(self) == *old(self)
                    &&& ((e == Error::PatternNotExist) <==> !old(self).has_pattern(pattern_id))
                    &&& ((e == Error::ExceedMaxPatternityOwned) <==> (old(self).has_pattern(
                        pattern_id,
                    ) && old(self).owner_of(pattern_id) != to && old(self).owned_of(to).len()
                        >= old(self).max_owned()))
                    &&& (e == Error::PatternNotExist || e == Error::ExceedMaxPatternityOwned)
                },
            },
    {
        let prev_owner = match self.patternity.get(&pattern_id) {
            Option::Some(s) => s.owner,
            Option::None => {
                return Err(Error::PatternNotExist);
            },
        };
        if to != prev_owner {
            let to_len = match self.patternity_owned.get(&to) {
                Option::Some(l) => l.len(),
                Option::None => 0,
            };
            if to_len >= self.config.max_patternity_owned as usize {
                return Err(Error::ExceedMaxPatternityOwned);
            }
        }
        let ghost pre = *old(self);
        let ghost prev_list_old = pre.owned_of(prev_owner);
        proof {
            assert(pre.owned_of(prev_owner).contains(pattern_id));
            assert(pre.patternity_owned@.contains_key(prev_owner));
        }
        let mut prev_list = match self.patternity_owned.remove(&prev_owner) {
            Option::Some(l) => l,
            Option::None => {
                proof {
                    assert(false);
                }
                return Err(Error::PatternityOwned);
            },
        };
        let ind = match position_of(&prev_list, pattern_id) {
            Option::Some(i) => i,
            Option::None => {
                proof {
                    let j = choose|j: int|
                        0 <= j < prev_list_old.len() && prev_list_old[j] == pattern_id;
                    assert(prev_list@[j] == pattern_id);
                    assert(false);
                }
                return Err(Error::PatternityOwned);
            },
        };
        prev_list.swap_remove(ind);
        proof {
            lemma_swap_remove_set(prev_list_old, ind as int, pattern_id);
        }
        let ghost shrunk = prev_list@;
        if to == prev_owner {
            prev_list.push(pattern_id);
            self.patternity_owned.insert(prev_owner, prev_list);
        } else {
            self.patternity_owned.insert(prev_owner, prev_list);
            let mut to_list = match self.patternity_owned.remove(&to) {
                Option::Some(l) => l,
                Option::None => Vec::new(),
            };
            to_list.push(pattern_id);
            self.patternity_owned.insert(to, to_list);
        }
        let seed = match self.patternity.remove(&pattern_id) {
            Option::Some(s) => s,
            Option::None => {
                proof {
                    assert(false);
                }
                return Err(Error::PatternNotExist);
            },
        };
        self.patternity.insert(pattern_id, PatternSeed { owner: to, price: Option::None, ..seed });
        proof {
            let post = *final(self);
            let ghost moved = PatternSeed {
                key: seed.key,
                iv: seed.iv,
                cipher: seed.cipher,
                price: Option::None,
                owner: to,
            };
            assert(post.patterns() =~= pre.patterns().insert(pattern_id, moved));
            lemma_push_contains(shrunk, pattern_id);
            if to == prev_owner {
                assert(post.owned_of(to) == shrunk.push(pattern_id));
                assert forall|a: AccountId| a != to implies #[trigger] post.owned_of(a)
                    == pre.owned_of(a) by {}
                assert forall|x: PatternId| #[trigger]
                    post.owned_of(to).contains(x) <==> (pre.owned_of(to).contains(x) || x
                        == pattern_id) by {}
            } else {
                lemma_push_contains(pre.owned_of(to), pattern_id);
                assert(post.owned_of(prev_owner) == shrunk);
                assert(post.owned_of(to) == pre.owned_of(to).push(pattern_id));
                assert forall|a: AccountId| a != prev_owner && a != to implies #[trigger] post
                    .owned_of(a) == pre.owned_of(a) by {}
            }
            assert(pattern_moved(pre, post, pattern_id, to));
            if to == prev_owner {
                lemma_push_nodup(shrunk, pattern_id);
            } else {
                assert(nodup(post.owned_of(prev_owner)));
                if pre.owned_of(to).contains(pattern_id) {
                    let j = choose|j: int|
                        0 <= j < pre.owned_of(to).len() && pre.owned_of(to)[j] == pattern_id;
                    assert(pre.patterns()[pre.owned_of(to)[j]].owner == to);
                    assert(false);
                }
                lemma_push_nodup(pre.owned_of(to), pattern_id);
            }
            lemma_moved_wf(pre, post, pattern_id, to);
        }
        Ok(())
    }

    /// Hands a pattern the caller owns over to another account. The
    /// receiver must be distinct and have room; the moved record's price
    /// is cleared.
    pub fn transfer(&mut self, from: AccountId, to: AccountId, pattern_id: PatternId) -> (r:
        Result<(), Error>)
        requires
            old(self).wf(),
        ensures
            final(self).wf(),
            transfer_outcome(*old(self), from, to, pattern_id, r),
            r is Ok ==> pattern_moved(*old(self), *final(self), pattern_id, to)
                && final(self).events@ == old(self).events@.push(
                Event::Transferred(from, to, pattern_id),
            ),
            r is Err ==> *final(self) == *old(self),
    {
        match self.is_pattern_owner(pattern_id, from) {
            Err(e) => {
                return Err(e);
            },
            Ok(false) => {
                return Err(Error::NotPatternOwner);
            },
            Ok(true) => {},
        }
        if from == to {
            return Err(Error::TransferToSelf);
        }
        let to_len = match self.patternity_owned.get(&to) {
            Option::Some(l) => l.len(),
            Option::None => 0,
        };
        if to_len >= self.config.max_patternity_owned as usize {
            return Err(Error::ExceedMaxPatternityOwned);
        }
        match self.transfer_pattern_to(pattern_id, to) {
            Ok(()) => {},
            Err(e) => {
                proof {
                    assert(false);
                }
                return Err(e);
            },
        }
        let ghost mid = *self;
        self.events.push(Event::Transferred(from, to, pattern_id));
        proof {
            let post = *final(self);
            assert forall|a: AccountId| #[trigger] post.owned_of(a) == mid.owned_of(a) by {}
            assert(post.wf());
            assert(pattern_moved(*old(self), post, pattern_id, to));
        }
        Ok(())
    }

    /// Buys a pattern another account has put up for sale. The funds
    /// move through the balance collaborator first; only if that
    /// succeeds does ownership move, so a failed payment leaves the
    /// ledger untouched and a successful one always hands the pattern
    /// over.
    pub fn buy_pattern<B: BalanceSource>(
        &mut self,
        balances: &mut B,
        buyer: AccountId,
        pattern_id: PatternId,
        bid_price: u64,
    ) -> (r: Result<(), Error>)
        requires
            old(self).wf(),
        ensures
            final(self).wf(),
            buy_outcome(*old(self), *old(balances), buyer, pattern_id, bid_price, r),
            r is Ok ==> pattern_moved(*old(self), *final(self), pattern_id, buyer)
                && final(self).events@ == old(self).events@.push(
                Event::Bought(buyer, old(self).owner_of(pattern_id), pattern_id, bid_price),
            ) && final(balances).balance_of(buyer) == old(balances).balance_of(buyer) - bid_price
                && final(balances).balance_of(old(self).owner_of(pattern_id)) == old(balances).balance_of(
                old(self).owner_of(pattern_id),
            ) + bid_price && (forall|a: AccountId|
                a != buyer && a != old(self).owner_of(pattern_id)
                    ==> final(balances).balance_of(a) == old(balances).balance_of(a)),
            r is Err ==> *final(self) == *old(self) && (forall|a: AccountId|
                final(balances).balance_of(a) == old(balances).balance_of(a)),
    {
        let (owner, ask) = match self.patternity.get(&pattern_id) {
            Option::Some(p) => (p.owner, p.price),
            Option::None => {
                return Err(Error::PatternNotExist);
            },
        };
        if owner == buyer {
            return Err(Error::BuyerIsPatternOwner);
        }
        let ask_price = match ask {
            Option::Some(a) => a,
            Option::None => {
                return Err(Error::PatternNotForSale);
            },
        };
        if ask_price > bid_price {
            return Err(Error::PatternBidPriceTooLow);
        }
        if balances.free_balance(buyer) < bid_price {
            return Err(Error::NotEnoughBalance);
        }
        let to_len = match self.patternity_owned.get(&buyer) {
            Option::Some(l) => l.len(),
            Option::None => 0,
        };
        if to_len >= self.config.max_patternity_owned as usize {
            return Err(Error::ExceedMaxPatternityOwned);
        }
        let seller = owner;
        match balances.transfer(buyer, seller, bid_price) {
            Ok(()) => {},
            Err(_funds_error) => {
                return Err(Error::NotEnoughBalance);
            },
        }
        match self.transfer_pattern_to(pattern_id, buyer) {
            Ok(()) => {},
            Err(e) => {
                proof {
                    assert(false);
                }
                return Err(e);
            },
        }
        let ghost mid = *self;
        self.events.push(Event::Bought(buyer, seller, pattern_id, bid_price));
        proof {
            let post = *final(self);
            assert forall|a: AccountId| #[trigger] post.owned_of(a) == mid.owned_of(a) by {}
            assert(post.wf());
            assert(pattern_moved(*old(self), post, pattern_id, buyer));
        }
        Ok(())
    }
}

impl Pallet {
    /// The record stored under `pattern_id`, if any.
    pub fn patternity(&self, pattern_id: PatternId) -> (r: Option<&PatternSeed>)
        ensures
            match r {
                Some(seed) => self.has_pattern(pattern_id) && *seed == self.patterns()[pattern_id],
                None => !self.has_pattern(pattern_id),
            },
    {
        self.patternity.get(&pattern_id)
    }

    /// A copy of the ownership list of `account`.
    pub fn patternity_owned(&self, account: AccountId) -> (r: Vec<PatternId>)
        ensures
            r@ == self.owned_of(account),
    {
        let mut out: Vec<PatternId> = Vec::new();
        match self.patternity_owned.get(&account) {
            Option::Some(list) => {
                let mut i: usize = 0;
                while i < list.len()
                    invariant
                        i <= list@.len(),
                        out@ == list@.take(i as int),
                    decreases list@.len() - i,
                {
                    out.push(list[i]);
                    i = i + 1;
                }
                assert(out@ =~= list@);
            },
            Option::None => {},
        }
        out
    }

    /// How many patterns have been minted so far.
    pub fn patternity_cnt(&self) -> (r: u64)
        ensures
            r == self.patternity_cnt,
    {
        self.patternity_cnt
    }
}

/// The initial ledger content: a list of accounts and optional prices,
/// each minted unconditionally at startup.
pub struct GenesisConfig {
    pub patternity_genesis: Vec<(AccountId, Option<u64>)>,
}

impl Default for GenesisConfig {
    /// An empty genesis: nothing is minted at startup.
    fn default() -> (r: GenesisConfig)
        ensures
            r.patternity_genesis@ == Seq::<(AccountId, Option<u64>)>::empty(),
    {
        GenesisConfig { patternity_genesis: Vec::new() }
    }
}

/// A run of the genesis pairs as mints: `states` chains from the
/// initial ledger to the final one, and step `i` is one
/// `create_pattern` outcome for pair `i` — the mint of that pair's
/// owner and price, with `results[i]` saying how it ended.
pub open spec fn genesis_trace<H: PatternHasher>(
    pairs: Seq<(AccountId, Option<u64>)>,
    hasher: H,
    states: Seq<Pallet>,
    results: Seq<Result<PatternId, Error>>,
) -> bool {
    &&& states.len() == pairs.len() + 1
    &&& results.len() == pairs.len()
    &&& forall|i: int| #![trigger results[i]]
        0 <= i < pairs.len() ==> create_outcome(
            states[i],
            states[i + 1],
            hasher,
            pairs[i].0,
            pairs[i].1,
            results[i],
        )
}

/// Each pair of `pairs` was processed as one mint, in order: some
/// chain of intermediate states and mint outcomes leads from `pre` to
/// `post` with exactly one `create_pattern` step per pair.
pub open spec fn genesis_processed<H: PatternHasher>(
    pairs: Seq<(AccountId, Option<u64>)>,
    hasher: H,
    pre: Pallet,
    post: Pallet,
) -> bool {
    exists|states: Seq<Pallet>, results: Seq<Result<PatternId, Error>>|
        #![auto]
        {
            &&& genesis_trace(pairs, hasher, states, results)
            &&& states[0] == pre
            &&& states[pairs.len() as int] == post
        }
}

impl GenesisConfig {
    /// Processes each genesis pair as one mint on `pallet`, in order,
    /// ignoring individual failures: the final state is reached from
    /// the old one by exactly one `create_pattern` step per pair
    /// (`genesis_processed`). The ledger invariants hold throughout,
    /// and the counter and the event log grow together, by at most one
    /// per pair.
    pub fn build<H: PatternHasher>(&self, pallet: &mut Pallet, rng: &mut WyRand, hasher: &H)
        requires
            old(pallet).wf(),
        ensures
            final(pallet).wf(),
            final(pallet).config == old(pallet).config,
            old(pallet).patternity_cnt <= final(pallet).patternity_cnt <= old(
                pallet,
            ).patternity_cnt + self.patternity_genesis@.len(),
            final(pallet).events@.len() - old(pallet).events@.len() == final(pallet).patternity_cnt
                - old(pallet).patternity_cnt,
            genesis_processed(self.patternity_genesis@, *hasher, *old(pallet), *final(pallet)),
    {
        let ghost mut states: Seq<Pallet> = seq![*pallet];
        let ghost mut results: Seq<Result<PatternId, Error>> = Seq::empty();
        let mut i: usize = 0;
        while i < self.patternity_genesis.len()
            invariant
                i <= self.patternity_genesis@.len(),
                pallet.wf(),
                pallet.config == old(pallet).config,
                old(pallet).patternity_cnt <= pallet.patternity_cnt <= old(pallet).patternity_cnt
                    + i,
                pallet.events@.len() - old(pallet).events@.len() == pallet.patternity_cnt - old(
                    pallet).patternity_cnt,
                states.len() == i + 1,
                results.len() == i as int,
                states[0] == *old(pallet),
                states[i as int] == *pallet,
                forall|j: int| #![trigger results[j]]
                    0 <= j < i ==> create_outcome(
                        states[j],
                        states[j + 1],
                        *hasher,
                        self.patternity_genesis@[j].0,
                        self.patternity_genesis@[j].1,
                        results[j],
                    ),
            decreases self.patternity_genesis@.len() - i,
        {
            let (owner, price) = self.patternity_genesis[i];
            let ghost before = *pallet;
            let minted = pallet.create_pattern(rng, hasher, owner, price);
            proof {
                states = states.push(*pallet);
                results = results.push(minted);
                assert(create_outcome(before, *pallet, *hasher, owner, price, minted));
                assert forall|j: int| #![trigger results[j]] 0 <= j < i + 1 implies create_outcome(
                    states[j],
                    states[j + 1],
                    *hasher,
                    self.patternity_genesis@[j].0,
                    self.patternity_genesis@[j].1,
                    results[j],
                ) by {
                    if j < i {
                        assert(states[j] == states.drop_last()[j]);
                    }
                }
            }
            i = i + 1;
        }
        proof {
            let n = self.patternity_genesis@.len() as int;
            assert(genesis_trace(self.patternity_genesis@, *hasher, states, results));
            assert(states[0] == *old(pallet) && states[n] == *final(pallet));
        }
    }
}

/// One below the bound still succeeds: a mint for a sender whose list
/// has room, while the counter has room, succeeds and grows that list
/// by exactly one, staying within the bound — unless the drawn record's
/// hash collided with a stored identifier, the defensive case the
/// operation reports as the internal-breach error and nothing else.
pub proof fn lemma_mint_succeeds_below_bound<H: PatternHasher>(
    pre: Pallet,
    post: Pallet,
    hasher: H,
    sender: AccountId,
    price: Option<u64>,
    r: Result<PatternId, Error>,
)
    requires
        create_outcome(pre, post, hasher, sender, price, r),
        pre.owned_of(sender).len() < pre.max_owned(),
        pre.patternity_cnt < u64::MAX,
    ensures
        r is Ok || r == Err::<PatternId, Error>(Error::PatternityOwned),
        r is Ok ==> post.owned_of(sender).len() == pre.owned_of(sender).len() + 1,
        r is Ok ==> post.owned_of(sender).len() <= pre.max_owned(),
{
}

/// The ownership bijection: in any well-formed state — and every
/// operation returns one — the list of `account` holds exactly the
/// identifiers whose stored record names `account` as owner, each at
/// most once.
pub proof fn lemma_ownership_bijection(pallet: Pallet, account: AccountId)
    requires
        pallet.wf(),
    ensures
        forall|id: PatternId| #[trigger]
            pallet.owned_of(account).contains(id) <==> (pallet.has_pattern(id)
                && pallet.owner_of(id) == account),
        nodup(pallet.owned_of(account)),
{
    assert forall|id: PatternId| #[trigger]
        pallet.owned_of(account).contains(id) implies (pallet.has_pattern(id) && pallet.owner_of(
        id,
    ) == account) by {
        let i = choose|i: int|
            0 <= i < pallet.owned_of(account).len() && pallet.owned_of(account)[i] == id;
        assert(pallet.patterns().contains_key(pallet.owned_of(account)[i]));
    }
}

/// Finds the position of `id` in `list`.
fn position_of(list: &Vec<PatternId>, id: PatternId) -> (r: Option<usize>)
    ensures
        match r {
            Some(i) => i < list@.len() && list@[i as int] == id,
            None => forall|j: int| 0 <= j < list@.len() ==> list@[j] != id,
        },
{
    let mut i: usize = 0;
    while i < list.len()
        invariant
            i <= list@.len(),
            forall|j: int| 0 <= j < i ==> list@[j] != id,
        decreases list@.len() - i,
    {
        if list[i] == id {
            return Some(i);
        }
        i = i + 1;
    }
    None
}

/// Swap-removing the one occurrence of `id` from a duplicate-free list
/// keeps every other member exactly once and shortens it by one.
proof fn lemma_swap_remove_set(s: Seq<PatternId>, ind: int, id: PatternId)
    requires
        0 <= ind < s.len(),
        s[ind] == id,
        nodup(s),
    ensures
        ({
            let s2 = s.update(ind, s.last()).drop_last();
            &&& s2.len() == s.len() - 1
            &&& nodup(s2)
            &&& forall|x: PatternId| #[trigger] s2.contains(x) <==> (s.contains(x) && x != id)
        }),
{
    let s2 = s.update(ind, s.last()).drop_last();
    assert forall|x: PatternId| #[trigger] s2.contains(x) implies (s.contains(x) && x != id) by {
        let j = choose|j: int| 0 <= j < s2.len() && s2[j] == x;
        if j == ind {
            assert(s[s.len() - 1] == x);
            if x == id {
                assert(s[s.len() - 1] == s[ind]);
                assert(false);
            }
        } else {
            assert(s[j] == x);
            if x == id {
                assert(s[j] == s[ind]);
                assert(false);
            }
        }
    }
    assert forall|x: PatternId| (s.contains(x) && x != id) implies #[trigger] s2.contains(x) by {
        let j = choose|j: int| 0 <= j < s.len() && s[j] == x;
        assert(j != ind);
        if j < s.len() - 1 {
            assert(s2[j] == x);
        } else {
            assert(ind < s.len() - 1);
            assert(s2[ind] == s[s.len() - 1]);
            assert(s2.contains(x));
        }
    }
    assert forall|i: int, j: int| #![trigger s2[i], s2[j]] 0 <= i < j < s2.len() implies s2[i]
        != s2[j] by {
        let si: int = if i == ind {
            s.len() - 1
        } else {
            i
        };
        let sj: int = if j == ind {
            s.len() - 1
        } else {
            j
        };
        assert(s2[i] == s[si]);
        assert(s2[j] == s[sj]);
        assert(si != sj);
    }
}

/// A duplicate-free list stays duplicate-free when a fresh identifier
/// is pushed.
proof fn lemma_push_nodup(s: Seq<PatternId>, x: PatternId)
    requires
        nodup(s),
        !s.contains(x),
    ensures
        nodup(s.push(x)),
{
    assert forall|i: int, j: int| #![trigger s.push(x)[i], s.push(x)[j]] 0 <= i < j < s.push(
        x,
    ).len() implies s.push(x)[i] != s.push(x)[j] by {
        if j < s.len() {
            assert(s.push(x)[i] == s[i]);
            assert(s.push(x)[j] == s[j]);
        } else {
            assert(s.push(x)[j] == x);
            assert(s.push(x)[i] == s[i]);
            if s[i] == x {
                assert(s.contains(x));
            }
        }
    }
}

/// A state reached from a well-formed one by moving one stored pattern
/// to a listed receiver is well-formed again.
proof fn lemma_moved_wf(pre: Pallet, post: Pallet, id: PatternId, to: AccountId)
    requires
        pre.wf(),
        pre.has_pattern(id),
        pattern_moved(pre, post, id, to),
        pre.owner_of(id) == to || post.owned_of(to).len() <= pre.max_owned(),
        nodup(post.owned_of(pre.owner_of(id))),
        nodup(post.owned_of(to)),
    ensures
        post.wf(),
{
    let prev = pre.patterns()[id].owner;
    assert forall|a: AccountId| (#[trigger] post.owned_of(a)).len() <= post.max_owned() by {
        if a != prev && a != to {
            assert(post.owned_of(a) == pre.owned_of(a));
        }
    }
    assert forall|a: AccountId| nodup(#[trigger] post.owned_of(a)) by {
        if a != prev && a != to {
            assert(post.owned_of(a) == pre.owned_of(a));
        }
    }
    assert forall|a: AccountId, i: int| 0 <= i < post.owned_of(a).len() implies post.patterns()
        .contains_key(#[trigger] post.owned_of(a)[i]) && post.patterns()[post.owned_of(a)[i]].owner
        == a by {
        let x = post.owned_of(a)[i];
        assert(post.owned_of(a).contains(x));
        if x == id {
            assert(post.owned_of(to).contains(id));
            assert(a == to);
        } else {
            assert(pre.owned_of(a).contains(x));
            let j = choose|j: int| 0 <= j < pre.owned_of(a).len() && pre.owned_of(a)[j] == x;
            assert(pre.patterns().contains_key(pre.owned_of(a)[j]));
        }
    }
    assert forall|id2: PatternId| #[trigger] post.patterns().contains_key(id2) implies post
        .owned_of(post.patterns()[id2].owner).contains(id2) by {
        if id2 != id {
            assert(pre.patterns().contains_key(id2));
            let o = pre.patterns()[id2].owner;
            assert(pre.owned_of(o).contains(id2));
        }
    }
    assert forall|id2: PatternId| post.patterns().contains_key(id2) implies (#[trigger] post
        .patterns()[id2]).cipher@.len() <= post.config.max_byte_cipher by {
        if id2 != id {
            assert(pre.patterns().contains_key(id2));
        }
    }
}

/// The common effect of `transfer` and `buy_pattern` on the ledger: the
/// record under `id` is handed to `to` with its price cleared, `id`
/// leaves its previous owner's list and joins `to`'s, and nothing else
/// in the stores or the counter changes. The lists are read as sets:
/// their order is irrelevant.
pub open spec fn pattern_moved(pre: Pallet, post: Pallet, id: PatternId, to: AccountId) -> bool {
    let seed = pre.patterns()[id];
    let prev = seed.owner;
    &&& post.patterns() == pre.patterns().insert(
        id,
        PatternSeed {
            key: seed.key,
            iv: seed.iv,
            cipher: seed.cipher,
            price: Option::None,
            owner: to,
        },
    )
    &&& forall|x: PatternId| #[trigger]
        post.owned_of(to).contains(x) <==> (pre.owned_of(to).contains(x) || x == id)
    &&& (prev != to ==> forall|x: PatternId| #[trigger]
        post.owned_of(prev).contains(x) <==> (pre.owned_of(prev).contains(x) && x != id))
    &&& (prev != to ==> post.owned_of(prev).len() == pre.owned_of(prev).len() - 1)
    &&& (prev != to ==> post.owned_of(to).len() == pre.owned_of(to).len() + 1)
    &&& (prev == to ==> post.owned_of(to).len() == pre.owned_of(to).len())
    &&& forall|a: AccountId|
        (a != prev && a != to) ==> #[trigger] post.owned_of(a) == pre.owned_of(a)
    &&& post.patternity_cnt == pre.patternity_cnt
    &&& post.config == pre.config
}

/// What `transfer` guarantees besides the move itself: it succeeds
/// exactly when the caller owns a stored pattern, hands it to a distinct
/// account with room, and on failure the error names the first failing
/// precondition.
pub open spec fn transfer_outcome(
    pre: Pallet,
    from: AccountId,
    to: AccountId,
    id: PatternId,
    r: Result<(), Error>,
) -> bool {
    let exists_p = pre.has_pattern(id);
    let owner_ok = exists_p && pre.owner_of(id) == from;
    let not_self = owner_ok && from != to;
    let cap_ok = not_self && pre.owned_of(to).len() < pre.max_owned();
    match r {
        Ok(()) => cap_ok,
        Err(e) => {
            &&& !cap_ok
            &&& ((e == Error::PatternNotExist) <==> !exists_p)
            &&& ((e == Error::NotPatternOwner) <==> (exists_p && !owner_ok))
            &&& ((e == Error::TransferToSelf) <==> (owner_ok && !not_self))
            &&& ((e == Error::ExceedMaxPatternityOwned) <==> (not_self && !cap_ok))
        },
    }
}

/// What `buy_pattern` guarantees besides the move and the payment: it
/// succeeds exactly when a stored pattern another account offers at or
/// under the bid meets a buyer with room, enough balance, and a payment
/// the balance collaborator accepts; on failure the error names the
/// first failing precondition, with a refused payment surfacing as
/// `NotEnoughBalance`.
pub open spec fn buy_outcome<B: BalanceSource>(
    pre: Pallet,
    prebal: B,
    buyer: AccountId,
    id: PatternId,
    bid: u64,
    r: Result<(), Error>,
) -> bool {
    let exists_p = pre.has_pattern(id);
    let not_own = exists_p && pre.owner_of(id) != buyer;
    let for_sale = not_own && pre.price_of(id) is Some;
    let bid_ok = for_sale && pre.ask_at_most(id, bid);
    let funded = bid_ok && prebal.balance_of(buyer) >= bid;
    let cap_ok = funded && pre.owned_of(buyer).len() < pre.max_owned();
    let pay_ok = cap_ok && prebal.can_transfer(buyer, pre.owner_of(id), bid);
    match r {
        Ok(()) => pay_ok,
        Err(e) => {
            &&& !pay_ok
            &&& ((e == Error::PatternNotExist) <==> !exists_p)
            &&& ((e == Error::BuyerIsPatternOwner) <==> (exists_p && !not_own))
            &&& ((e == Error::PatternNotForSale) <==> (not_own && !for_sale))
            &&& ((e == Error::PatternBidPriceTooLow) <==> (for_sale && !bid_ok))
            &&& ((e == Error::NotEnoughBalance) <==> ((bid_ok && !funded) || (cap_ok && !pay_ok)))
            &&& ((e == Error::ExceedMaxPatternityOwned) <==> (funded && !cap_ok))
        },
    }
}

/// Every member of a list stays a member after a push, and the pushed
/// identifier becomes one.
proof fn lemma_push_contains(s: Seq<PatternId>, x: PatternId)
    ensures
        forall|y: PatternId| #[trigger] s.push(x).contains(y) <==> (s.contains(y) || y == x),
{
    assert forall|y: PatternId| #[trigger] s.push(x).contains(y) implies (s.contains(y) || y
        == x) by {
        let i = choose|i: int| 0 <= i < s.push(x).len() && s.push(x)[i] == y;
        if i < s.len() {
            assert(s[i] == y);
        }
    }
    assert forall|y: PatternId| (s.contains(y) || y == x) implies #[trigger] s.push(x).contains(
        y,
    ) by {
        if s.contains(y) {
            let i = choose|i: int| 0 <= i < s.len() && s[i] == y;
            assert(s.push(x)[i] == y);
        } else {
            assert(s.push(x)[s.len() as int] == x);
        }
    }
}

/// What `create_pattern` guarantees: on success a fresh record with the
/// asked price, owner and derived payload is stored under a new
/// identifier that the hashing service assigned, the sender's list grows
/// by exactly that identifier, the counter grows by one and a `Created`
/// event is emitted; on failure nothing changes and the error names the
/// first failing precondition.
pub open spec fn create_outcome<H: PatternHasher>(
    pre: Pallet,
    post: Pallet,
    hasher: H,
    sender: AccountId,
    price: Option<u64>,
    r: Result<PatternId, Error>,
) -> bool {
    match r {
        Ok(id) => {
            &&& pre.owned_of(sender).len() < pre.max_owned()
            &&& pre.patternity_cnt < u64::MAX
            &&& exists|seed: PatternSeed|
                #![auto]
                {
                    &&& seed.owner == sender
                    &&& seed.price == price
                    &&& seed.cipher@ == masked_bytes(seed.key@, seed.iv@, pre.config.text_base@)
                    &&& id == hasher.hash_spec(seed)
                    &&& !pre.patterns().contains_key(id)
                    &&& post.patterns() == pre.patterns().insert(id, seed)
                }
            &&& post.owned_of(sender) == pre.owned_of(sender).push(id)
            &&& forall|a: AccountId| a != sender ==> #[trigger] post.owned_of(a) == pre.owned_of(a)
            &&& post.patternity_cnt == pre.patternity_cnt + 1
            &&& post.events@ == pre.events@.push(Event::Created(sender, id))
            &&& post.config == pre.config
        },
        Err(e) => {
            &&& post == pre
            &&& ((e == Error::ExceedMaxPatternityOwned) <==> pre.owned_of(sender).len()
                >= pre.max_owned())
            &&& ((e == Error::PatternCntOverflow) <==> (pre.owned_of(sender).len()
                < pre.max_owned() && pre.patternity_cnt == u64::MAX))
            &&& (e == Error::PatternityOwned ==> (pre.owned_of(sender).len() < pre.max_owned()
                && pre.patternity_cnt < u64::MAX && exists|seed: PatternSeed|
                #![auto]
                {
                    &&& seed.owner == sender
                    &&& seed.price == price
                    &&& seed.cipher@ == masked_bytes(seed.key@, seed.iv@, pre.config.text_base@)
                    &&& pre.patterns().contains_key(hasher.hash_spec(seed))
                }))
            &&& (e == Error::ExceedMaxPatternityOwned || e == Error::PatternCntOverflow || e
                == Error::PatternityOwned)
        },
    }
}

/// `seed` with its price replaced.
pub open spec fn with_price(seed: PatternSeed, price: Option<u64>) -> PatternSeed {
    PatternSeed { key: seed.key, iv: seed.iv, cipher: seed.cipher, price, owner: seed.owner }
}

/// Well-formedness carries over to a state with the same ownership
/// lists and counter whose records keep their owners and payloads.
proof fn lemma_same_lists_same_owners_wf(pre: Pallet, post: Pallet)
    requires
        pre.wf(),
        post.config == pre.config,
        forall|a: AccountId| #[trigger] post.owned_of(a) == pre.owned_of(a),
        post.patterns().dom() == pre.patterns().dom(),
        forall|id: PatternId| #[trigger]
            pre.patterns().contains_key(id) ==> post.patterns()[id].owner
                == pre.patterns()[id].owner && post.patterns()[id].cipher
                == pre.patterns()[id].cipher,
    ensures
        post.wf(),
{
    assert forall|id: PatternId| #[trigger] post.patterns().contains_key(id) implies post.owned_of(
        post.patterns()[id].owner,
    ).contains(id) by {
        assert(pre.patterns().dom().contains(id));
        assert(pre.owned_of(pre.patterns()[id].owner).contains(id));
    }
    assert forall|a: AccountId, i: int| 0 <= i < post.owned_of(a).len() implies post.patterns()
        .contains_key(#[trigger] post.owned_of(a)[i]) && post.patterns()[post.owned_of(a)[i]].owner
        == a by {
        assert(pre.patterns().contains_key(pre.owned_of(a)[i]));
        assert(pre.patterns().dom().contains(pre.owned_of(a)[i]));
    }
}

} // verus!
