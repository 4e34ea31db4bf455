//! The registrar: commit-reveal registration and renewal of leaf names under
//! one root. A client first commits the hash of `name ‖ owner ‖ secret ‖ salt`,
//! waits out a minimum age, then reveals the four inputs; the registrar
//! validates the timing window and the name's availability, charges the
//! price, and records the new expiry. Registered names pass through a grace
//! period after expiry before becoming available again.

use vstd::prelude::*;
use crate::assoc::AssocMap;
use crate::bytes::{
    bytes_eq,
    bytes_clone,
    bytes_list_append,
    bytes_list_contains,
    is_b32,
    lemma_bytes_deep_view,
};
use crate::hashing::{commitment_of, make_commitment};

verus! {

broadcast use crate::bytes::lemma_deep_view_is_view;

/// A name component may hold at most this many bytes.
pub const MAX_LABEL_LENGTH: usize = 256;

/// At most this many labels may be reserved in one call.
pub const MAX_LABELS_RESERVED: usize = 100;

/// At most this many commitments may be live at once.
pub const MAX_COMMITMENTS: usize = 1000;

/// Notification payloads the registrar's mutators return.
#[derive(Debug, Clone, PartialEq, Eq)]
pub enum RegistrarEvent {
    CommitSubmitted { commitment: Vec<u8>, timestamp: u64 },
    NameRegistered { name: Vec<u8>, owner: Vec<u8>, expires: u64, cost: u128 },
    NameRenewed { name: Vec<u8>, expires: u64, cost: u128 },
    PricesSet { base: u128, premium: u128 },
    CommitAgesSet { min: u64, max: u64 },
    GracePeriodSet { grace: u64 },
    NamesReserved { labels: Vec<Vec<u8>> },
    Withdrawn { to: Vec<u8>, amount: u128 },
}

/// Why a registrar operation was rejected; a rejection leaves the state as it
/// was.
#[derive(Debug, Clone, Copy, PartialEq, Eq, Structural)]
pub enum RegistrarError {
    /// The name exceeds the length bound.
    NameTooLong,
    /// The name is on the reserved list.
    NameReserved,
    /// The identical commitment already has a live entry.
    CommitmentExists,
    /// The live-commitment count has reached its cap.
    TooManyCommitments,
    /// No live commitment matches the revealed inputs.
    CommitmentNotFound,
    /// The commitment has not yet reached the minimum age.
    CommitmentTooNew,
    /// The commitment has aged past the reveal window.
    CommitmentExpired,
    /// The name is still registered or within its grace period.
    NameNotAvailable,
    /// The name is already past its grace deadline and must be re-registered.
    NameNotRenewable,
    /// An age or expiry computation overflowed.
    ArithmeticOverflow,
    /// The caller is not the controller.
    NotController,
    /// More labels in one batch than the cap allows.
    TooManyLabels,
    /// A label in the batch exceeds the length bound.
    LabelTooLong,
    /// The requested amount exceeds the recorded balance.
    InsufficientBalance,
}

/// One-time construction parameters.
pub struct InitRegistrar {
    pub registry: Vec<u8>,
    pub tld_node: Vec<u8>,
    pub controller: Vec<u8>,
    pub base_price: u128,
    pub premium_price: u128,
    pub min_commit_age: u64,
    pub max_commit_age: u64,
    pub grace_period: u64,
}

/// The registrar's whole state.
pub struct RegistrarState {
    /// Configured peer address; advisory only, never consulted.
    pub registry: Vec<u8>,
    /// Root node names register under; stored but not cross-checked.
    pub tld_node: Vec<u8>,
    /// Live commitments: blinding hash to submission time.
    pub commits: AssocMap<u64>,
    /// Registered names to their expiry time.
    pub expires: AssocMap<u64>,
    /// Denylist of labels, in insertion order, duplicates allowed.
    pub reserved: Vec<Vec<u8>>,
    pub base_price: u128,
    pub premium_price: u128,
    pub min_commit_age: u64,
    pub max_commit_age: u64,
    pub grace_period: u64,
    /// The sole admin.
    pub controller: Vec<u8>,
    /// Cumulative fee accounting; saturating, no real transfer.
    pub balance: u128,
}

/// `a + b`, saturating at the largest `u64`.
pub open spec fn sat_add_u64(a: u64, b: u64) -> u64 {
    if a + b > u64::MAX {
        u64::MAX
    } else {
        (a + b) as u64
    }
}

/// `a + b`, saturating at the largest `u128`.
pub open spec fn sat_add_u128(a: u128, b: u128) -> u128 {
    if a + b > u128::MAX {
        u128::MAX
    } else {
        (a + b) as u128
    }
}

/// `a * b`, saturating at the largest `u128`.
pub open spec fn sat_mul_u128(a: u128, b: u128) -> u128 {
    if a * b > u128::MAX {
        u128::MAX
    } else {
        (a * b) as u128
    }
}

/// The pricing rule: names shorter than five bytes pay the premium on top of
/// the base price, and the total is linear in the duration; all arithmetic
/// saturates.
pub open spec fn price_of(name_len: nat, duration: u64, base: u128, premium: u128) -> u128 {
    let fee: u128 = if name_len < 5 {
        premium
    } else {
        0
    };
    sat_mul_u128(sat_add_u128(base, fee), duration as u128)
}

impl RegistrarState {
    /// The maps are well formed and the commitment cap holds.
    pub open spec fn wf(self) -> bool {
        &&& self.commits.wf()
        &&& self.expires.wf()
        &&& self.commits.num() <= MAX_COMMITMENTS
    }

    /// The timestamp a commitment was submitted at, or the `0` sentinel for
    /// one that is absent: a commitment recorded at time `0` is
    /// indistinguishable from none.
    pub open spec fn commit_time_of(self, c: Seq<u8>) -> u64 {
        if self.commits@.contains_key(c) {
            self.commits@[c]
        } else {
            0
        }
    }

    /// The expiry recorded for a name, or `0` for one never registered.
    pub open spec fn stored_expiry(self, name: Seq<u8>) -> u64 {
        if self.expires@.contains_key(name) {
            self.expires@[name]
        } else {
            0
        }
    }

    /// Whether the name is on the reserved list.
    pub open spec fn spec_reserved(self, name: Seq<u8>) -> bool {
        self.reserved.deep_view().contains(name)
    }

    /// Whether `actor` is the controller.
    pub open spec fn spec_is_admin(self, actor: Seq<u8>) -> bool {
        self.controller@ == actor
    }

    /// A name is available when it is within the length bound, not reserved,
    /// and `now` is past its expiry plus the grace period; never-registered
    /// names carry expiry `0`.
    pub open spec fn spec_available(self, name: Seq<u8>, now: u64) -> bool {
        &&& name.len() <= MAX_LABEL_LENGTH
        &&& !self.spec_reserved(name)
        &&& now > sat_add_u64(self.stored_expiry(name), self.grace_period)
    }

    /// The expiry query's answer: `None` for over-long or never-registered
    /// names.
    pub open spec fn spec_expiry_of(self, name: Seq<u8>) -> Option<u64> {
        if name.len() > MAX_LABEL_LENGTH {
            None
        } else if self.expires@.contains_key(name) {
            Some(self.expires@[name])
        } else {
            None
        }
    }

    /// The price query's answer: `0` for over-long names.
    pub open spec fn spec_price(self, name: Seq<u8>, duration: u64) -> u128 {
        if name.len() > MAX_LABEL_LENGTH {
            0
        } else {
            price_of(name.len(), duration, self.base_price, self.premium_price)
        }
    }

    /// Every check a reveal must pass, in the order they are made, with the
    /// error each failure raises; `Ok` exactly when the reveal succeeds.
    pub open spec fn register_check(
        self,
        name: Seq<u8>,
        owner: Seq<u8>,
        secret: Seq<u8>,
        salt: Seq<u8>,
        duration: u64,
        now: u64,
    ) -> Result<(), RegistrarError> {
        let ct = self.commit_time_of(commitment_of(name, owner, secret, salt));
        let expiry = self.stored_expiry(name);
        if name.len() > MAX_LABEL_LENGTH {
            Err(RegistrarError::NameTooLong)
        } else if self.spec_reserved(name) {
            Err(RegistrarError::NameReserved)
        } else if ct == 0 {
            Err(RegistrarError::CommitmentNotFound)
        } else if ct + self.min_commit_age > u64::MAX {
            Err(RegistrarError::ArithmeticOverflow)
        } else if now < ct + self.min_commit_age {
            Err(RegistrarError::CommitmentTooNew)
        } else if ct + self.max_commit_age > u64::MAX {
            Err(RegistrarError::ArithmeticOverflow)
        } else if now > ct + self.max_commit_age {
            Err(RegistrarError::CommitmentExpired)
        } else if expiry + self.grace_period > u64::MAX {
            Err(RegistrarError::ArithmeticOverflow)
        } else if now <= expiry + self.grace_period {
            Err(RegistrarError::NameNotAvailable)
        } else if now + duration > u64::MAX {
            Err(RegistrarError::ArithmeticOverflow)
        } else {
            Ok(())
        }
    }

    /// Every check a renewal must pass, in order, with the error each failure
    /// raises; `Ok` exactly when the renewal succeeds.
    pub open spec fn renew_check(self, name: Seq<u8>, duration: u64, now: u64) -> Result<
        (),
        RegistrarError,
    > {
        let expiry = self.stored_expiry(name);
        if name.len() > MAX_LABEL_LENGTH {
            Err(RegistrarError::NameTooLong)
        } else if expiry + self.grace_period > u64::MAX {
            Err(RegistrarError::ArithmeticOverflow)
        } else if now > expiry + self.grace_period {
            Err(RegistrarError::NameNotRenewable)
        } else if expiry + duration > u64::MAX {
            Err(RegistrarError::ArithmeticOverflow)
        } else {
            Ok(())
        }
    }

    /// The configuration fields equal those of `other`.
    pub open spec fn same_config(self, other: Self) -> bool {
        &&& self.registry == other.registry
        &&& self.tld_node == other.tld_node
        &&& self.base_price == other.base_price
        &&& self.premium_price == other.premium_price
        &&& self.min_commit_age == other.min_commit_age
        &&& self.max_commit_age == other.max_commit_age
        &&& self.grace_period == other.grace_period
        &&& self.controller == other.controller
    }

    /// Builds the one-time initial state: configuration as given, no
    /// commitments, no registrations, no reservations, zero balance.
    pub fn seed(init: InitRegistrar) -> (s: Self)
        ensures
            s.wf(),
            s.registry == init.registry,
            s.tld_node == init.tld_node,
            s.commits@ == Map::<Seq<u8>, u64>::empty(),
            s.expires@ == Map::<Seq<u8>, u64>::empty(),
            s.reserved@.len() == 0,
            s.base_price == init.base_price,
            s.premium_price == init.premium_price,
            s.min_commit_age == init.min_commit_age,
            s.max_commit_age == init.max_commit_age,
            s.grace_period == init.grace_period,
            s.controller == init.controller,
            s.balance == 0,
    {
        RegistrarState {
            registry: init.registry,
            tld_node: init.tld_node,
            commits: AssocMap::new(),
            expires: AssocMap::new(),
            reserved: Vec::new(),
            base_price: init.base_price,
            premium_price: init.premium_price,
            min_commit_age: init.min_commit_age,
            max_commit_age: init.max_commit_age,
            grace_period: init.grace_period,
            controller: init.controller,
            balance: 0,
        }
    }

    /// Whether `actor` is the controller.
    pub fn is_controller(&self, actor: &Vec<u8>) -> (r: bool)
        ensures
            r == self.spec_is_admin(actor@),
    {
        bytes_eq(&self.controller, actor)
    }

    /// Whether `actor` is the admin; the controller is the sole admin.
    pub fn is_admin(&self, actor: &Vec<u8>) -> (r: bool)
        ensures
            r == self.spec_is_admin(actor@),
    {
        bytes_eq(&self.controller, actor)
    }

    /// Records a blinding commitment at time `now`. Rejects a hash that
    /// already has a live commitment, and any commitment once the cap is
    /// reached.
    pub fn commit(&mut self, commitment: Vec<u8>, now: u64) -> (r: Result<
        RegistrarEvent,
        RegistrarError,
    >)
        requires
            old(self).wf(),
            is_b32(commitment@),
        ensures
            final(self).wf(),
            match r {
                Ok(ev) => {
                    &&& !old(self).commits@.contains_key(commitment@)
                    &&& old(self).commits.num() < MAX_COMMITMENTS
                    &&& final(self).commits@ == old(self).commits@.insert(commitment@, now)
                    &&& final(self).commits.num() == old(self).commits.num() + 1
                    &&& final(self).expires == old(self).expires
                    &&& final(self).reserved == old(self).reserved
                    &&& final(self).balance == old(self).balance
                    &&& final(self).same_config(*old(self))
                    &&& ev == (RegistrarEvent::CommitSubmitted { commitment, timestamp: now })
                },
                Err(e) => {
                    &&& *final(self) == *old(self)
                    &&& (old(self).commits@.contains_key(commitment@) || old(self).commits.num()
                        >= MAX_COMMITMENTS)
                    &&& e == if old(self).commits@.contains_key(commitment@) {
                        RegistrarError::CommitmentExists
                    } else {
                        RegistrarError::TooManyCommitments
                    }
                },
            },
    {
        if self.commits.contains_key(&commitment) {
            return Err(RegistrarError::CommitmentExists);
        }
        if self.commits.len() >= MAX_COMMITMENTS {
            return Err(RegistrarError::TooManyCommitments);
        }
        self.commits.insert(bytes_clone(&commitment), now);
        Ok(RegistrarEvent::CommitSubmitted { commitment, timestamp: now })
    }

    /// Reveals a committed registration. On success the name's expiry becomes
    /// `now + duration`, the price is added to the balance, and the consumed
    /// commitment is removed. The `resolver` hint is accepted but inert.
    pub fn register(
        &mut self,
        name: Vec<u8>,
        owner: Vec<u8>,
        duration: u64,
        secret: Vec<u8>,
        salt: Vec<u8>,
        resolver: Option<Vec<u8>>,
        now: u64,
    ) -> (r: Result<RegistrarEvent, RegistrarError>)
        requires
            old(self).wf(),
            is_b32(owner@),
            is_b32(secret@),
            is_b32(salt@),
        ensures
            final(self).wf(),
            match r {
                Ok(ev) => {
                    let c = commitment_of(name@, owner@, secret@, salt@);
                    let cost = price_of(
                        name@.len(),
                        duration,
                        old(self).base_price,
                        old(self).premium_price,
                    );
                    let new_expiry = (now + duration) as u64;
                    &&& old(self).register_check(name@, owner@, secret@, salt@, duration, now)
                        is Ok
                    &&& final(self).expires@ == old(self).expires@.insert(name@, new_expiry)
                    &&& final(self).commits@ == old(self).commits@.remove(c)
                    &&& final(self).balance == sat_add_u128(old(self).balance, cost)
                    &&& final(self).reserved == old(self).reserved
                    &&& final(self).same_config(*old(self))
                    &&& ev == (RegistrarEvent::NameRegistered {
                        name,
                        owner,
                        expires: new_expiry,
                        cost,
                    })
                },
                Err(e) => {
                    &&& old(self).register_check(name@, owner@, secret@, salt@, duration, now)
                        == Err::<(), RegistrarError>(e)
                    &&& *final(self) == *old(self)
                },
            },
    {
        if name.len() > MAX_LABEL_LENGTH {
            return Err(RegistrarError::NameTooLong);
        }
        if bytes_list_contains(&self.reserved, &name) {
            return Err(RegistrarError::NameReserved);
        }
        let commitment = make_commitment(&name, &owner, &secret, &salt);
        let commit_time: u64 = match self.commits.get(&commitment) {
            Some(t) => *t,
            None => 0,
        };
        if commit_time == 0 {
            return Err(RegistrarError::CommitmentNotFound);
        }
        let min_deadline: u64 = match commit_time.checked_add(self.min_commit_age) {
            Some(v) => v,
            None => {
                return Err(RegistrarError::ArithmeticOverflow);
            },
        };
        if now < min_deadline {
            return Err(RegistrarError::CommitmentTooNew);
        }
        let max_deadline: u64 = match commit_time.checked_add(self.max_commit_age) {
            Some(v) => v,
            None => {
                return Err(RegistrarError::ArithmeticOverflow);
            },
        };
        if now > max_deadline {
            return Err(RegistrarError::CommitmentExpired);
        }
        let expires_at: u64 = match self.expires.get(&name) {
            Some(t) => *t,
            None => 0,
        };
        let grace_deadline: u64 = match expires_at.checked_add(self.grace_period) {
            Some(v) => v,
            None => {
                return Err(RegistrarError::ArithmeticOverflow);
            },
        };
        if now <= grace_deadline {
            return Err(RegistrarError::NameNotAvailable);
        }
        let new_expiry: u64 = match now.checked_add(duration) {
            Some(v) => v,
            None => {
                return Err(RegistrarError::ArithmeticOverflow);
            },
        };
        let cost = Self::calc_price(&name, duration, self.base_price, self.premium_price);
        self.balance = self.balance.saturating_add(cost);
        self.expires.insert(bytes_clone(&name), new_expiry);
        self.commits.remove(&commitment);
        if let Some(resolver_hint) = resolver {
            let _ = resolver_hint;
        }
        Ok(RegistrarEvent::NameRegistered { name, owner, expires: new_expiry, cost })
    }

    /// Renews a name not yet past its grace deadline, extending the expiry
    /// from the stored expiry, not from `now`, and charging the same price
    /// rule.
    pub fn renew(&mut self, name: Vec<u8>, duration: u64, now: u64) -> (r: Result<
        RegistrarEvent,
        RegistrarError,
    >)
        requires
            old(self).wf(),
        ensures
            final(self).wf(),
            match r {
                Ok(ev) => {
                    let cost = price_of(
                        name@.len(),
                        duration,
                        old(self).base_price,
                        old(self).premium_price,
                    );
                    let new_expiry = (old(self).stored_expiry(name@) + duration) as u64;
                    &&& old(self).renew_check(name@, duration, now) is Ok
                    &&& final(self).expires@ == old(self).expires@.insert(name@, new_expiry)
                    &&& final(self).balance == sat_add_u128(old(self).balance, cost)
                    &&& final(self).commits == old(self).commits
                    &&& final(self).reserved == old(self).reserved
                    &&& final(self).same_config(*old(self))
                    &&& ev == (RegistrarEvent::NameRenewed { name, expires: new_expiry, cost })
                },
                Err(e) => {
                    &&& old(self).renew_check(name@, duration, now) == Err::<(), RegistrarError>(e)
                    &&& *final(self) == *old(self)
                },
            },
    {
        if name.len() > MAX_LABEL_LENGTH {
            return Err(RegistrarError::NameTooLong);
        }
        let expires_at: u64 = match self.expires.get(&name) {
            Some(t) => *t,
            None => 0,
        };
        let grace_deadline: u64 = match expires_at.checked_add(self.grace_period) {
            Some(v) => v,
            None => {
                return Err(RegistrarError::ArithmeticOverflow);
            },
        };
        if now > grace_deadline {
            return Err(RegistrarError::NameNotRenewable);
        }
        let new_expiry: u64 = match expires_at.checked_add(duration) {
            Some(v) => v,
            None => {
                return Err(RegistrarError::ArithmeticOverflow);
            },
        };
        let cost = Self::calc_price(&name, duration, self.base_price, self.premium_price);
        self.balance = self.balance.saturating_add(cost);
        self.expires.insert(bytes_clone(&name), new_expiry);
        Ok(RegistrarEvent::NameRenewed { name, expires: new_expiry, cost })
    }

    /// Whether the name can be registered at time `now`.
    pub fn available(&self, name: &Vec<u8>, now: u64) -> (r: bool)
        requires
            self.wf(),
        ensures
            r == self.spec_available(name@, now),
    {
        if name.len() > MAX_LABEL_LENGTH {
            return false;
        }
        let expires_at: u64 = match self.expires.get(name) {
            Some(t) => *t,
            None => 0,
        };
        !bytes_list_contains(&self.reserved, name) && now > expires_at.saturating_add(
            self.grace_period,
        )
    }

    /// The expiry recorded for the name, if any.
    pub fn expiry_of(&self, name: &Vec<u8>) -> (r: Option<u64>)
        requires
            self.wf(),
        ensures
            r == self.spec_expiry_of(name@),
    {
        if name.len() > MAX_LABEL_LENGTH {
            return None;
        }
        match self.expires.get(name) {
            Some(t) => Some(*t),
            None => None,
        }
    }

    /// The price of registering or renewing the name for `duration`.
    pub fn price(&self, name: &Vec<u8>, duration: u64) -> (p: u128)
        ensures
            p == self.spec_price(name@, duration),
    {
        if name.len() > MAX_LABEL_LENGTH {
            return 0;
        }
        Self::calc_price(name, duration, self.base_price, self.premium_price)
    }

    /// Sets the base and premium prices; controller only.
    pub fn set_prices(&mut self, base: u128, premium: u128, caller: &Vec<u8>) -> (r: Result<
        RegistrarEvent,
        RegistrarError,
    >)
        requires
            old(self).wf(),
        ensures
            final(self).wf(),
            match r {
                Ok(ev) => {
                    &&& old(self).spec_is_admin(caller@)
                    &&& *final(self) == (RegistrarState {
                        base_price: base,
                        premium_price: premium,
                        ..*old(self)
                    })
                    &&& ev == (RegistrarEvent::PricesSet { base, premium })
                },
                Err(e) => {
                    &&& !old(self).spec_is_admin(caller@)
                    &&& e == RegistrarError::NotController
                    &&& *final(self) == *old(self)
                },
            },
    {
        if !self.is_admin(caller) {
            return Err(RegistrarError::NotController);
        }
        self.base_price = base;
        self.premium_price = premium;
        Ok(RegistrarEvent::PricesSet { base, premium })
    }

    /// Sets the minimum and maximum commitment ages; controller only.
    pub fn set_commit_ages(&mut self, min: u64, max: u64, caller: &Vec<u8>) -> (r: Result<
        RegistrarEvent,
        RegistrarError,
    >)
        requires
            old(self).wf(),
        ensures
            final(self).wf(),
            match r {
                Ok(ev) => {
                    &&& old(self).spec_is_admin(caller@)
                    &&& *final(self) == (RegistrarState {
                        min_commit_age: min,
                        max_commit_age: max,
                        ..*old(self)
                    })
                    &&& ev == (RegistrarEvent::CommitAgesSet { min, max })
                },
                Err(e) => {
                    &&& !old(self).spec_is_admin(caller@)
                    &&& e == RegistrarError::NotController
                    &&& *final(self) == *old(self)
                },
            },
    {
        if !self.is_admin(caller) {
            return Err(RegistrarError::NotController);
        }
        self.min_commit_age = min;
        self.max_commit_age = max;
        Ok(RegistrarEvent::CommitAgesSet { min, max })
    }

    /// Sets the grace period; controller only.
    pub fn set_grace_period(&mut self, grace: u64, caller: &Vec<u8>) -> (r: Result<
        RegistrarEvent,
        RegistrarError,
    >)
        requires
            old(self).wf(),
        ensures
            final(self).wf(),
            match r {
                Ok(ev) => {
                    &&& old(self).spec_is_admin(caller@)
                    &&& *final(self) == (RegistrarState { grace_period: grace, ..*old(self) })
                    &&& ev == (RegistrarEvent::GracePeriodSet { grace })
                },
                Err(e) => {
                    &&& !old(self).spec_is_admin(caller@)
                    &&& e == RegistrarError::NotController
                    &&& *final(self) == *old(self)
                },
            },
    {
        if !self.is_admin(caller) {
            return Err(RegistrarError::NotController);
        }
        self.grace_period = grace;
        Ok(RegistrarEvent::GracePeriodSet { grace })
    }

    /// Appends a batch of labels to the reserved list; controller only. A
    /// batch over the cap, or holding an over-long label, is rejected whole:
    /// none of its labels is inserted.
    pub fn reserve_names(&mut self, labels: Vec<Vec<u8>>, caller: &Vec<u8>) -> (r: Result<
        RegistrarEvent,
        RegistrarError,
    >)
        requires
            old(self).wf(),
        ensures
            final(self).wf(),
            match r {
                Ok(ev) => {
                    &&& old(self).spec_is_admin(caller@)
                    &&& labels@.len() <= MAX_LABELS_RESERVED
                    &&& forall|i: int|
                        0 <= i < labels.deep_view().len() ==> (
                        #[trigger] labels.deep_view()[i]).len() <= MAX_LABEL_LENGTH
                    &&& final(self).reserved.deep_view() == old(self).reserved.deep_view()
                        + labels.deep_view()
                    &&& final(self).commits == old(self).commits
                    &&& final(self).expires == old(self).expires
                    &&& final(self).balance == old(self).balance
                    &&& final(self).same_config(*old(self))
                    &&& ev == (RegistrarEvent::NamesReserved { labels })
                },
                Err(e) => {
                    &&& *final(self) == *old(self)
                    &&& (!old(self).spec_is_admin(caller@) || labels@.len() > MAX_LABELS_RESERVED
                        || exists|i: int|
                        0 <= i < labels.deep_view().len() && (
                        #[trigger] labels.deep_view()[i]).len() > MAX_LABEL_LENGTH)
                    &&& e == if !old(self).spec_is_admin(caller@) {
                        RegistrarError::NotController
                    } else if labels@.len() > MAX_LABELS_RESERVED {
                        RegistrarError::TooManyLabels
                    } else {
                        RegistrarError::LabelTooLong
                    }
                },
            },
    {
        if !self.is_admin(caller) {
            return Err(RegistrarError::NotController);
        }
        if labels.len() > MAX_LABELS_RESERVED {
            return Err(RegistrarError::TooManyLabels);
        }
        proof {
            lemma_bytes_deep_view(&labels);
        }
        let mut i: usize = 0;
        while i < labels.len()
            invariant
                *self == *old(self),
                old(self).wf(),
                old(self).spec_is_admin(caller@),
                labels@.len() <= MAX_LABELS_RESERVED,
                i <= labels@.len(),
                labels.deep_view().len() == labels@.len(),
                forall|j: int|
                    0 <= j < labels@.len() ==> #[trigger] labels.deep_view()[j] == labels@[j]@,
                forall|j: int|
                    0 <= j < i ==> (#[trigger] labels.deep_view()[j]).len() <= MAX_LABEL_LENGTH,
            decreases labels@.len() - i,
        {
            if labels[i].len() > MAX_LABEL_LENGTH {
                proof {
                    assert(labels.deep_view()[i as int].len() > MAX_LABEL_LENGTH);
                }
                return Err(RegistrarError::LabelTooLong);
            }
            i = i + 1;
        }
        bytes_list_append(&mut self.reserved, &labels);
        Ok(RegistrarEvent::NamesReserved { labels })
    }

    /// Deducts `amount` from the recorded balance as a transfer intent to
    /// `to`; controller only. Rejects an amount above the balance.
    pub fn withdraw(&mut self, to: Vec<u8>, amount: u128, caller: &Vec<u8>) -> (r: Result<
        RegistrarEvent,
        RegistrarError,
    >)
        requires
            old(self).wf(),
        ensures
            final(self).wf(),
            match r {
                Ok(ev) => {
                    &&& old(self).spec_is_admin(caller@)
                    &&& amount <= old(self).balance
                    &&& *final(self) == (RegistrarState {
                        balance: (old(self).balance - amount) as u128,
                        ..*old(self)
                    })
                    &&& ev == (RegistrarEvent::Withdrawn { to, amount })
                },
                Err(e) => {
                    &&& *final(self) == *old(self)
                    &&& (!old(self).spec_is_admin(caller@) || amount > old(self).balance)
                    &&& e == if !old(self).spec_is_admin(caller@) {
                        RegistrarError::NotController
                    } else {
                        RegistrarError::InsufficientBalance
                    }
                },
            },
    {
        if !self.is_admin(caller) {
            return Err(RegistrarError::NotController);
        }
        if amount > self.balance {
            return Err(RegistrarError::InsufficientBalance);
        }
        self.balance = self.balance.saturating_sub(amount);
        Ok(RegistrarEvent::Withdrawn { to, amount })
    }

    /// A name never registered and not reserved reads as available, and its
    /// expiry as absent, once `now` is past the bare grace period: such a
    /// name carries the default expiry `0`. A reserved name, an over-long
    /// one, or a clock still within the grace period is excluded: the
    /// availability rule itself denies those.
    pub proof fn lemma_never_registered_available(self, name: Seq<u8>, now: u64)
        requires
            self.wf(),
            !self.expires@.contains_key(name),
            !self.spec_reserved(name),
            name.len() <= MAX_LABEL_LENGTH,
            now > self.grace_period,
        ensures
            self.spec_available(name, now),
            self.spec_expiry_of(name) is None,
    {
    }

    /// Commit-then-reveal round trip. `s1` is the state `commit` guarantees
    /// after recording the commitment of these four inputs at time `t`; a
    /// reveal at exactly `t + min_commit_age` passes every check. `s2` is
    /// the state `register` then guarantees: the commitment is consumed, so
    /// revealing the same inputs again fails for want of a commitment,
    /// whenever retried.
    pub proof fn lemma_commit_reveal_roundtrip(
        self,
        s1: Self,
        s2: Self,
        name: Seq<u8>,
        owner: Seq<u8>,
        secret: Seq<u8>,
        salt: Seq<u8>,
        duration: u64,
        t: u64,
        now: u64,
    )
        requires
            s1.commits@ == self.commits@.insert(commitment_of(name, owner, secret, salt), t),
            s1.expires == self.expires,
            s1.reserved == self.reserved,
            s1.same_config(self),
            s2.commits@ == s1.commits@.remove(commitment_of(name, owner, secret, salt)),
            s2.reserved == s1.reserved,
            t >= 1,
            now == t + self.min_commit_age,
            t + self.max_commit_age <= u64::MAX,
            self.min_commit_age <= self.max_commit_age,
            name.len() <= MAX_LABEL_LENGTH,
            !self.spec_reserved(name),
            self.stored_expiry(name) + self.grace_period < now,
            now + duration <= u64::MAX,
        ensures
            s1.commit_time_of(commitment_of(name, owner, secret, salt)) == t,
            s1.register_check(name, owner, secret, salt, duration, now) is Ok,
            forall|later: u64|
                s2.register_check(name, owner, secret, salt, duration, later) == Err::<
                    (),
                    RegistrarError,
                >(RegistrarError::CommitmentNotFound),
    {
    }

    /// The reveal window's boundaries: a reveal before
    /// `commit_time + min_commit_age` is too new, one at either bound
    /// succeeds (the upper bound is inclusive), and one past
    /// `commit_time + max_commit_age` — already by a single unit — is
    /// expired.
    pub proof fn lemma_reveal_window_boundaries(
        self,
        name: Seq<u8>,
        owner: Seq<u8>,
        secret: Seq<u8>,
        salt: Seq<u8>,
        duration: u64,
        ct: u64,
    )
        requires
            self.commit_time_of(commitment_of(name, owner, secret, salt)) == ct,
            ct >= 1,
            self.min_commit_age <= self.max_commit_age,
            ct + self.max_commit_age + 1 <= u64::MAX,
            name.len() <= MAX_LABEL_LENGTH,
            !self.spec_reserved(name),
            self.stored_expiry(name) + self.grace_period < ct + self.min_commit_age,
            ct + self.max_commit_age + duration <= u64::MAX,
        ensures
            forall|now: u64|
                now < ct + self.min_commit_age ==> self.register_check(
                    name,
                    owner,
                    secret,
                    salt,
                    duration,
                    now,
                ) == Err::<(), RegistrarError>(RegistrarError::CommitmentTooNew),
            self.register_check(
                name,
                owner,
                secret,
                salt,
                duration,
                (ct + self.min_commit_age) as u64,
            ) is Ok,
            self.register_check(
                name,
                owner,
                secret,
                salt,
                duration,
                (ct + self.max_commit_age) as u64,
            ) is Ok,
            forall|now: u64|
                now > ct + self.max_commit_age ==> self.register_check(
                    name,
                    owner,
                    secret,
                    salt,
                    duration,
                    now,
                ) == Err::<(), RegistrarError>(RegistrarError::CommitmentExpired),
    {
    }

    /// The pricing rule on a concrete name.
    fn calc_price(name: &Vec<u8>, duration: u64, base: u128, premium: u128) -> (p: u128)
        ensures
            p == price_of(name@.len(), duration, base, premium),
    {
        let premium_fee: u128 = if name.len() < 5 {
            premium
        } else {
            0
        };
        let per_unit = base.saturating_add(premium_fee);
        match per_unit.checked_mul(duration as u128) {
            Some(p) => p,
            None => u128::MAX,
        }
    }
}


} // verus!
