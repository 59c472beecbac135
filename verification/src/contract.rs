use vstd::prelude::*;
use vstd::arithmetic::div_mod::{lemma_div_is_ordered, lemma_div_pos_is_pos};
use vstd::arithmetic::mul::{lemma_mul_inequality, lemma_mul_is_commutative};
use crate::config::Config;
use crate::errors::Error;
use crate::fees::{lemma_split_bp_range, lemma_three_way_split, split, split_bp};
use crate::ledger::Ledger;
use crate::series::{SeriesMetadata, SeriesRegistry};

verus! {

/// The shared mutable state of the issuance ledger: the total supply and
/// the three entity maps. The total supply grows by the full minted amount
/// and shrinks by the net burned amount; between operations it is meant to
/// cover the value held across both balance ledgers.
pub struct TokenState {
    pub total_supply: i128,
    pub balances: Ledger,
    pub series: SeriesRegistry,
    pub locked_tokens: Ledger,
}

/// A caller-supplied distribution of a spot mint: the producer and storage
/// accounts and the three shares, in basis points. The platform share goes
/// to the configured admin account.
#[derive(Clone, Copy)]
pub struct Distribution {
    pub producer_address: u64,
    pub storage_address: u64,
    pub producer_percent: u32,
    pub platform_percent: u32,
    pub storage_percent: u32,
}

/// The key space of the persistent store that an embedding maps the
/// ledger's entities onto.
pub enum DataKey {
    Config,
    State,
    SeriesMetadata(String),
    Balance(u64),
    LockedBalance(u64),
    Allowance(u64, u64),
}

/// A distribution is valid exactly when its three shares sum to 10,000
/// basis points, that is, to one hundred percent.
pub open spec fn distribution_valid(d: Distribution) -> bool {
    d.producer_percent + d.platform_percent + d.storage_percent == 10000
}

/// The available-balance movement of a spot mint, stated account by
/// account so that coinciding recipients are summed correctly: each of the
/// producer, the admin and the storage account gains its basis-point share
/// of the minted amount, each share floored independently.
pub open spec fn mint_spot_delta(d: Distribution, admin: u64, amount: int, a: u64) -> int {
    (if a == d.producer_address {
        split_bp(amount, d.producer_percent as int)
    } else {
        0
    }) + (if a == admin {
        split_bp(amount, d.platform_percent as int)
    } else {
        0
    }) + (if a == d.storage_address {
        split_bp(amount, d.storage_percent as int)
    } else {
        0
    })
}

/// How a successful spot mint changes the state: the three distribution
/// shares are credited as available balance, the series metadata is stored
/// under the given identifier (overwriting any previous metadata there),
/// and the total supply grows by the full minted amount — also by the
/// truncation residue that no share received.
pub open spec fn mint_spot_post(
    pre: ContangoToken,
    post: ContangoToken,
    series_id: String,
    metadata: SeriesMetadata,
    distribution: Distribution,
    amount: int,
) -> bool {
    &&& forall|a: u64|
        post.bal(a) == pre.bal(a) + mint_spot_delta(
            distribution,
            pre.spec_config().admin,
            amount,
            a,
        )
    &&& forall|a: u64| post.locked(a) == pre.locked(a)
    &&& post.supply() == pre.supply() + amount
    &&& post.series_at(series_id@) == Some(metadata)
    &&& forall|o: Seq<char>| o != series_id@ ==> post.series_at(o) == pre.series_at(o)
    &&& post.spec_config() == pre.spec_config()
    &&& post.is_initialized() == pre.is_initialized()
    &&& post.avail_sum() == pre.avail_sum() + split_bp(amount, distribution.producer_percent as int)
        + split_bp(amount, distribution.platform_percent as int) + split_bp(
        amount,
        distribution.storage_percent as int,
    )
    &&& post.locked_sum() == pre.locked_sum()
}

/// The metadata a future mint stores: the caller's metadata with the buyer
/// and the guarantee agent filled in.
pub open spec fn future_metadata_of(
    metadata: SeriesMetadata,
    buyer: u64,
    guarantee_agent: u64,
) -> SeriesMetadata {
    SeriesMetadata {
        buyer: Some(buyer),
        guarantee_agent: Some(guarantee_agent),
        ..metadata
    }
}

/// How a successful future mint changes the state: 99% of the minted
/// amount is locked for the buyer, half a percent each goes to the admin
/// and to the guarantee agent as available balance, the series metadata is
/// stored with buyer and guarantee agent filled in, and the total supply
/// grows by the full minted amount.
pub open spec fn mint_future_post(
    pre: ContangoToken,
    post: ContangoToken,
    series_id: String,
    metadata: SeriesMetadata,
    buyer: u64,
    guarantee_agent: u64,
    amount: int,
) -> bool {
    &&& forall|a: u64|
        post.locked(a) == pre.locked(a) + (if a == buyer {
            split_bp(amount, 9900)
        } else {
            0
        })
    &&& forall|a: u64|
        post.bal(a) == pre.bal(a) + (if a == pre.spec_config().admin {
            split_bp(amount, 50)
        } else {
            0
        }) + (if a == guarantee_agent {
            split_bp(amount, 50)
        } else {
            0
        })
    &&& post.supply() == pre.supply() + amount
    &&& post.series_at(series_id@) == Some(future_metadata_of(metadata, buyer, guarantee_agent))
    &&& forall|o: Seq<char>| o != series_id@ ==> post.series_at(o) == pre.series_at(o)
    &&& post.spec_config() == pre.spec_config()
    &&& post.is_initialized() == pre.is_initialized()
    &&& post.avail_sum() == pre.avail_sum() + split_bp(amount, 50) + split_bp(amount, 50)
    &&& post.locked_sum() == pre.locked_sum() + split_bp(amount, 9900)
}

/// How a successful delivery confirmation changes the state: the buyer's
/// entire locked balance moves to the buyer's available balance, and
/// nothing else changes. The moved value stays within the ledger, so the
/// combined held value and the total supply are both unchanged.
pub open spec fn confirm_post(pre: ContangoToken, post: ContangoToken, buyer: u64) -> bool {
    &&& post.locked(buyer) == 0
    &&& post.bal(buyer) == pre.bal(buyer) + pre.locked(buyer)
    &&& forall|a: u64| a != buyer ==> post.bal(a) == pre.bal(a)
    &&& forall|a: u64| a != buyer ==> post.locked(a) == pre.locked(a)
    &&& post.supply() == pre.supply()
    &&& forall|o: Seq<char>| post.series_at(o) == pre.series_at(o)
    &&& post.spec_config() == pre.spec_config()
    &&& post.is_initialized() == pre.is_initialized()
    &&& post.avail_sum() == pre.avail_sum() + pre.locked(buyer)
    &&& post.locked_sum() == pre.locked_sum() - pre.locked(buyer)
}

/// The available-balance movement of a burn, stated account by account:
/// the burning account loses the gross amount; the burn fee — a
/// basis-point fraction of the gross amount — is split half and half
/// between the admin and the storage account (the storage half taking the
/// odd unit); the net remainder is destroyed.
pub open spec fn burn_delta(cfg: Config, from: u64, amount: int, a: u64) -> int {
    let fee = split_bp(amount, cfg.burn_fee_percent as int);
    let platform_fee = fee / 2;
    let storage_fee = fee - platform_fee;
    (if a == from {
        -amount
    } else {
        0
    }) + (if a == cfg.admin {
        platform_fee
    } else {
        0
    }) + (if a == cfg.storage_address {
        storage_fee
    } else {
        0
    })
}

/// How a successful burn changes the state: balances move by the burn
/// delta, and the total supply shrinks by exactly the net burned amount —
/// the gross amount less the fee that was credited to its recipients — so
/// the difference between supply and held value is unchanged.
pub open spec fn burn_post(pre: ContangoToken, post: ContangoToken, from: u64, amount: int) -> bool {
    &&& forall|a: u64|
        post.bal(a) == pre.bal(a) + burn_delta(pre.spec_config(), from, amount, a)
    &&& forall|a: u64| post.locked(a) == pre.locked(a)
    &&& post.supply() == pre.supply() - (amount - split_bp(
        amount,
        pre.spec_config().burn_fee_percent as int,
    ))
    &&& forall|o: Seq<char>| post.series_at(o) == pre.series_at(o)
    &&& post.spec_config() == pre.spec_config()
    &&& post.is_initialized() == pre.is_initialized()
    &&& post.avail_sum() == pre.avail_sum() - (amount - split_bp(
        amount,
        pre.spec_config().burn_fee_percent as int,
    ))
    &&& post.locked_sum() == pre.locked_sum()
}

/// The fee a transfer charges: the configured basis-point share of the
/// gross amount when the caller asks for a fee and a rate is configured,
/// and nothing otherwise.
pub open spec fn transfer_fee_of(cfg: Config, apply_fee: bool, amount: int) -> int {
    if apply_fee && cfg.transfer_fee_percent > 0 {
        split_bp(amount, cfg.transfer_fee_percent as int)
    } else {
        0
    }
}

/// The available-balance movement of a transfer, stated account by
/// account: the sender loses the gross amount, the recipient gains the
/// gross amount less the fee, and the admin gains the fee.
pub open spec fn transfer_delta(
    cfg: Config,
    apply_fee: bool,
    from: u64,
    to: u64,
    amount: int,
    a: u64,
) -> int {
    let fee = transfer_fee_of(cfg, apply_fee, amount);
    (if a == from {
        -amount
    } else {
        0
    }) + (if a == to {
        amount - fee
    } else {
        0
    }) + (if a == cfg.admin {
        fee
    } else {
        0
    })
}

/// How a successful transfer changes the state: balances move by the
/// transfer delta and nothing else changes — the ledger's held value and
/// the total supply are both conserved exactly.
pub open spec fn transfer_post(
    pre: ContangoToken,
    post: ContangoToken,
    from: u64,
    to: u64,
    amount: int,
    apply_fee: bool,
) -> bool {
    &&& forall|a: u64|
        post.bal(a) == pre.bal(a) + transfer_delta(
            pre.spec_config(),
            apply_fee,
            from,
            to,
            amount,
            a,
        )
    &&& forall|a: u64| post.locked(a) == pre.locked(a)
    &&& post.supply() == pre.supply()
    &&& forall|o: Seq<char>| post.series_at(o) == pre.series_at(o)
    &&& post.spec_config() == pre.spec_config()
    &&& post.is_initialized() == pre.is_initialized()
    &&& post.avail_sum() == pre.avail_sum()
    &&& post.locked_sum() == pre.locked_sum()
}

/// How a successful swap changes the state: the caller's own available
/// balance is revalued — debited the gross amount and credited the amount
/// times the oracle rate in basis points — while the total supply stays
/// untouched. Balances are not partitioned per series, so nothing moves
/// between series-tagged sub-balances.
pub open spec fn swap_post(
    pre: ContangoToken,
    post: ContangoToken,
    from: u64,
    amount: int,
    oracle_price: int,
) -> bool {
    &&& forall|a: u64|
        post.bal(a) == pre.bal(a) + (if a == from {
            split_bp(amount, oracle_price) - amount
        } else {
            0
        })
    &&& forall|a: u64| post.locked(a) == pre.locked(a)
    &&& post.supply() == pre.supply()
    &&& forall|o: Seq<char>| post.series_at(o) == pre.series_at(o)
    &&& post.spec_config() == pre.spec_config()
    &&& post.is_initialized() == pre.is_initialized()
    &&& post.avail_sum() == pre.avail_sum() + split_bp(amount, oracle_price) - amount
    &&& post.locked_sum() == pre.locked_sum()
}

/// The issuance ledger: balances, locked balances, series metadata, total
/// supply and configuration, with every operation validating its inputs
/// before mutating anything and applying its balance movements as one unit.
pub struct ContangoToken {
    initialized: bool,
    config: Config,
    state: TokenState,
}

impl ContangoToken {
    /// Whether `initialize` has run.
    pub closed spec fn is_initialized(self) -> bool {
        self.initialized
    }

    /// The current configuration.
    pub closed spec fn spec_config(self) -> Config {
        self.config
    }

    /// The available balance of an account.
    pub closed spec fn bal(self, a: u64) -> int {
        self.state.balances.spec_get(a)
    }

    /// The locked balance of an account.
    pub closed spec fn locked(self, a: u64) -> int {
        self.state.locked_tokens.spec_get(a)
    }

    /// The recorded total supply.
    pub closed spec fn supply(self) -> int {
        self.state.total_supply as int
    }

    /// The metadata registered under a series identifier.
    pub closed spec fn series_at(self, id: Seq<char>) -> Option<SeriesMetadata> {
        self.state.series.spec_get(id)
    }

    /// The total value held as available balances.
    pub closed spec fn avail_sum(self) -> int {
        self.state.balances.sum()
    }

    /// The total value held as locked balances.
    pub closed spec fn locked_sum(self) -> int {
        self.state.locked_tokens.sum()
    }

    /// Well-formedness: both ledgers hold no negative balance and no
    /// duplicate account entry, the series registry holds no duplicate
    /// identifier, and every configured rate respects its ceiling.
    pub closed spec fn wf(self) -> bool {
        &&& self.state.balances.wf()
        &&& self.state.locked_tokens.wf()
        &&& self.state.series.wf()
        &&& self.config.wf()
    }

    /// Value conservation: the recorded total supply equals the sum of all
    /// available and locked balances.
    pub open spec fn conserved(self) -> bool {
        self.supply() == self.avail_sum() + self.locked_sum()
    }

    /// In a well-formed ledger no account holds a negative available or
    /// locked balance, and no single account holds more than the whole
    /// ledger: balances never go negative, not even transiently between
    /// operations.
    pub proof fn lemma_balances_in_range(self, a: u64)
        requires
            self.wf(),
        ensures
            0 <= self.bal(a) <= self.avail_sum(),
            0 <= self.locked(a) <= self.locked_sum(),
            self.bal(a) <= i128::MAX,
            self.locked(a) <= i128::MAX,
    {
        self.state.balances.lemma_in_range(a);
        self.state.locked_tokens.lemma_in_range(a);
    }

    /// A fresh, not yet initialized token: zero supply, no balances, no
    /// series.
    pub fn new() -> (t: ContangoToken)
        ensures
            t.wf(),
            !t.is_initialized(),
            t.supply() == 0,
            forall|a: u64| t.bal(a) == 0 && t.locked(a) == 0,
            forall|id: Seq<char>| t.series_at(id) is None,
            t.avail_sum() == 0,
            t.locked_sum() == 0,
    {
        ContangoToken {
            initialized: false,
            config: Config {
                name: String::new(),
                symbol: String::new(),
                admin: 0,
                storage_address: 0,
                transfer_fee_percent: 0,
                burn_fee_percent: 0,
                platform_fee_percent: 0,
                storage_fee_percent: 0,
            },
            state: TokenState {
                total_supply: 0,
                balances: Ledger::new(),
                series: SeriesRegistry::new(),
                locked_tokens: Ledger::new(),
            },
        }
    }

    /// Initialize the token with its configuration: no transfer fee by
    /// default, and a 0.5% burn, platform and storage fee each. Fails, and
    /// changes nothing, when the token was already initialized.
    pub fn initialize(
        &mut self,
        name: String,
        symbol: String,
        admin: u64,
        storage_address: u64,
    ) -> (r: Result<(), Error>)
        requires
            old(self).wf(),
        ensures
            final(self).wf(),
            r == Result::<(), Error>::Err(Error::AlreadyInitialized) <==> old(
                self,
            ).is_initialized(),
            r is Ok <==> !old(self).is_initialized(),
            r is Err ==> *final(self) == *old(self),
            r is Ok ==> {
                &&& final(self).is_initialized()
                &&& final(self).spec_config() == (Config {
                    name,
                    symbol,
                    admin,
                    storage_address,
                    transfer_fee_percent: 0u32,
                    burn_fee_percent: 50u32,
                    platform_fee_percent: 50u32,
                    storage_fee_percent: 50u32,
                })
                &&& final(self).supply() == 0
                &&& forall|a: u64| final(self).bal(a) == 0 && final(self).locked(a) == 0
                &&& forall|id: Seq<char>| final(self).series_at(id) is None
                &&& final(self).avail_sum() == 0
                &&& final(self).locked_sum() == 0
                &&& final(self).conserved()
            },
    {
        if self.initialized {
            return Err(Error::AlreadyInitialized);
        }
        self.config = Config {
            name,
            symbol,
            admin,
            storage_address,
            transfer_fee_percent: 0,
            burn_fee_percent: 50,
            platform_fee_percent: 50,
            storage_fee_percent: 50,
        };
        self.state = TokenState {
            total_supply: 0,
            balances: Ledger::new(),
            series: SeriesRegistry::new(),
            locked_tokens: Ledger::new(),
        };
        self.initialized = true;
        Ok(())
    }

    /// Mint tokens for a spot series: value already in storage. The caller
    /// supplies the distribution; its three shares must sum to exactly one
    /// hundred percent, else the mint is rejected whole. Each share is an
    /// independently floored basis-point fraction of the minted amount; the
    /// total supply grows by the full amount, so a truncation residue of at
    /// most two units is absorbed by the supply rather than any account.
    /// The admin's authorization is the embedding's duty.
    pub fn mint_spot(
        &mut self,
        series_id: String,
        metadata: SeriesMetadata,
        distribution: Distribution,
        amount: i128,
    ) -> (r: Result<(), Error>)
        requires
            old(self).wf(),
            old(self).is_initialized(),
            distribution_valid(distribution) && 0 <= amount ==> {
                &&& amount * 10000 <= i128::MAX
                &&& old(self).supply() + amount <= i128::MAX
                &&& old(self).avail_sum() + amount <= i128::MAX
            },
        ensures
            final(self).wf(),
            r == Result::<(), Error>::Err(Error::InvalidDistribution) <==> !distribution_valid(
                distribution,
            ),
            r == Result::<(), Error>::Err(Error::NegativeAmount) <==> distribution_valid(
                distribution,
            ) && amount < 0,
            r is Ok <==> distribution_valid(distribution) && 0 <= amount,
            r is Err ==> *final(self) == *old(self),
            r is Ok ==> mint_spot_post(
                *old(self),
                *final(self),
                series_id,
                metadata,
                distribution,
                amount as int,
            ),
    {
        let total_percent: u64 = distribution.producer_percent as u64
            + distribution.platform_percent as u64 + distribution.storage_percent as u64;
        if total_percent != 10000 {
            return Err(Error::InvalidDistribution);
        }
        if amount < 0 {
            return Err(Error::NegativeAmount);
        }
        proof {
            lemma_mul_is_commutative(amount as int, 10000);
            lemma_mul_inequality(distribution.producer_percent as int, 10000, amount as int);
            lemma_mul_is_commutative(amount as int, distribution.producer_percent as int);
            lemma_mul_inequality(distribution.platform_percent as int, 10000, amount as int);
            lemma_mul_is_commutative(amount as int, distribution.platform_percent as int);
            lemma_mul_inequality(distribution.storage_percent as int, 10000, amount as int);
            lemma_mul_is_commutative(amount as int, distribution.storage_percent as int);
            lemma_three_way_split(
                amount as int,
                distribution.producer_percent as int,
                distribution.platform_percent as int,
                distribution.storage_percent as int,
            );
            lemma_split_bp_range(amount as int, distribution.producer_percent as int);
            lemma_split_bp_range(amount as int, distribution.platform_percent as int);
            lemma_split_bp_range(amount as int, distribution.storage_percent as int);
        }
        self.state.series.set(series_id, metadata);
        let producer_amount = split(amount, distribution.producer_percent);
        let platform_amount = split(amount, distribution.platform_percent);
        let storage_amount = split(amount, distribution.storage_percent);
        proof {
            self.state.balances.lemma_in_range(distribution.producer_address);
        }
        self.state.balances.credit(distribution.producer_address, producer_amount);
        proof {
            self.state.balances.lemma_in_range(self.config.admin);
        }
        self.state.balances.credit(self.config.admin, platform_amount);
        proof {
            self.state.balances.lemma_in_range(distribution.storage_address);
        }
        self.state.balances.credit(distribution.storage_address, storage_amount);
        self.state.total_supply = self.state.total_supply + amount;
        Ok(())
    }

    /// Mint tokens for a future series: payment received, delivery
    /// pending. The buyer's 99% share is locked until delivery is
    /// confirmed; the admin and the guarantee agent each receive half a
    /// percent as available balance at once. The metadata must be flagged
    /// as a future contract, else the mint is rejected whole. The admin's
    /// authorization is the embedding's duty.
    pub fn mint_future(
        &mut self,
        series_id: String,
        metadata: SeriesMetadata,
        buyer: u64,
        guarantee_agent: u64,
        amount: i128,
    ) -> (r: Result<(), Error>)
        requires
            old(self).wf(),
            old(self).is_initialized(),
            metadata.is_future && 0 <= amount ==> {
                &&& amount * 10000 <= i128::MAX
                &&& old(self).supply() + amount <= i128::MAX
                &&& old(self).avail_sum() + amount <= i128::MAX
                &&& old(self).locked_sum() + amount <= i128::MAX
            },
        ensures
            final(self).wf(),
            r == Result::<(), Error>::Err(Error::NotAFutureContract) <==> !metadata.is_future,
            r == Result::<(), Error>::Err(Error::NegativeAmount) <==> metadata.is_future && amount
                < 0,
            r is Ok <==> metadata.is_future && 0 <= amount,
            r is Err ==> *final(self) == *old(self),
            r is Ok ==> mint_future_post(
                *old(self),
                *final(self),
                series_id,
                metadata,
                buyer,
                guarantee_agent,
                amount as int,
            ),
    {
        if !metadata.is_future {
            return Err(Error::NotAFutureContract);
        }
        if amount < 0 {
            return Err(Error::NegativeAmount);
        }
        proof {
            lemma_mul_is_commutative(amount as int, 10000);
            lemma_mul_inequality(9900, 10000, amount as int);
            lemma_mul_is_commutative(amount as int, 9900);
            lemma_mul_inequality(50, 10000, amount as int);
            lemma_mul_is_commutative(amount as int, 50);
            lemma_three_way_split(amount as int, 9900, 50, 50);
            lemma_split_bp_range(amount as int, 9900);
            lemma_split_bp_range(amount as int, 50);
        }
        let future_metadata = SeriesMetadata {
            buyer: Some(buyer),
            guarantee_agent: Some(guarantee_agent),
            ..metadata
        };
        self.state.series.set(series_id, future_metadata);
        let buyer_amount = split(amount, 9900);
        let platform_amount = split(amount, 50);
        let guarantee_amount = split(amount, 50);
        proof {
            self.state.locked_tokens.lemma_in_range(buyer);
        }
        self.state.locked_tokens.credit(buyer, buyer_amount);
        proof {
            self.state.balances.lemma_in_range(self.config.admin);
        }
        self.state.balances.credit(self.config.admin, platform_amount);
        proof {
            self.state.balances.lemma_in_range(guarantee_agent);
        }
        self.state.balances.credit(guarantee_agent, guarantee_amount);
        self.state.total_supply = self.state.total_supply + amount;
        Ok(())
    }

    /// Whether a delivery confirmation would succeed: the series exists,
    /// is flagged as a future contract, records a buyer, and that buyer
    /// still holds a locked balance.
    pub open spec fn confirmable(self, id: Seq<char>) -> bool {
        match self.series_at(id) {
            Some(m) => m.is_future && (match m.buyer {
                Some(b) => self.locked(b) > 0,
                None => false,
            }),
            None => false,
        }
    }

    /// Confirm delivery of a future series: the recorded buyer's entire
    /// locked balance becomes available. Once that balance is zero,
    /// further confirmations for the same buyer fail, which makes the
    /// transition one-shot. The validator's authorization is the
    /// embedding's duty.
    #[allow(unused_variables)]
    pub fn confirm_delivery(&mut self, series_id: String, storage_validator: u64) -> (r: Result<
        (),
        Error,
    >)
        requires
            old(self).wf(),
            old(self).is_initialized(),
            match old(self).series_at(series_id@) {
                Some(m) => match m.buyer {
                    Some(b) => m.is_future ==> old(self).bal(b) + old(self).locked(b)
                        <= i128::MAX,
                    None => true,
                },
                None => true,
            },
        ensures
            final(self).wf(),
            r == Result::<(), Error>::Err(Error::SeriesNotFound) <==> old(self).series_at(
                series_id@,
            ) is None,
            r == Result::<(), Error>::Err(Error::NotAFutureContract) <==> (old(self).series_at(
                series_id@,
            ) matches Some(m) && !m.is_future),
            r == Result::<(), Error>::Err(Error::NoLockedTokens) <==> (old(self).series_at(
                series_id@,
            ) matches Some(m) && m.is_future && !old(self).confirmable(series_id@)),
            r is Ok <==> old(self).confirmable(series_id@),
            r is Err ==> *final(self) == *old(self),
            r is Ok ==> (old(self).series_at(series_id@) matches Some(m) && m.buyer matches Some(b)
                && confirm_post(*old(self), *final(self), b)),
    {
        let (is_future, buyer_opt): (bool, Option<u64>) = match self.state.series.get(&series_id) {
            None => {
                return Err(Error::SeriesNotFound);
            },
            Some(m) => (m.is_future, m.buyer),
        };
        if !is_future {
            return Err(Error::NotAFutureContract);
        }
        let buyer: u64 = match buyer_opt {
            None => {
                return Err(Error::NoLockedTokens);
            },
            Some(b) => b,
        };
        let locked_amount = self.state.locked_tokens.get(buyer);
        if locked_amount == 0 {
            return Err(Error::NoLockedTokens);
        }
        proof {
            self.state.locked_tokens.lemma_in_range(buyer);
        }
        let debit_result = self.state.locked_tokens.debit(buyer, locked_amount);
        proof {
            assert(debit_result is Ok);
        }
        self.state.balances.credit(buyer, locked_amount);
        Ok(())
    }

    /// Burn tokens: the gross amount leaves the burning account, the burn
    /// fee is split half and half between the admin and the storage
    /// account, and the net remainder is destroyed, shrinking the total
    /// supply by exactly the net amount. The burner's authorization is the
    /// embedding's duty; the series identifier only tags the event the
    /// embedding emits.
    #[allow(unused_variables)]
    pub fn burn(&mut self, from: u64, series_id: String, amount: i128) -> (r: Result<(), Error>)
        requires
            old(self).wf(),
            old(self).is_initialized(),
            0 <= amount && old(self).bal(from) >= amount ==> {
                &&& amount * 10000 <= i128::MAX
                &&& (old(self).spec_config().admin != from ==> old(self).bal(
                    old(self).spec_config().admin,
                ) + amount <= i128::MAX)
                &&& (old(self).spec_config().storage_address != from ==> old(self).bal(
                    old(self).spec_config().storage_address,
                ) + amount <= i128::MAX)
                &&& old(self).supply() - amount >= i128::MIN
            },
        ensures
            final(self).wf(),
            r == Result::<(), Error>::Err(Error::NegativeAmount) <==> amount < 0,
            r == Result::<(), Error>::Err(Error::InsufficientBalance) <==> 0 <= amount && old(
                self,
            ).bal(from) < amount,
            r is Ok <==> 0 <= amount && old(self).bal(from) >= amount,
            r is Err ==> *final(self) == *old(self),
            r is Ok ==> burn_post(*old(self), *final(self), from, amount as int),
    {
        if amount < 0 {
            return Err(Error::NegativeAmount);
        }
        let balance = self.state.balances.get(from);
        if balance < amount {
            return Err(Error::InsufficientBalance);
        }
        proof {
            lemma_mul_is_commutative(amount as int, 10000);
            lemma_mul_inequality(self.config.burn_fee_percent as int, 10000, amount as int);
            lemma_mul_is_commutative(amount as int, self.config.burn_fee_percent as int);
            lemma_split_bp_range(amount as int, self.config.burn_fee_percent as int);
            self.state.balances.lemma_in_range(from);
            self.state.balances.lemma_in_range(self.config.admin);
            self.state.balances.lemma_in_range(self.config.storage_address);
        }
        let fee_amount = split(amount, self.config.burn_fee_percent);
        let burn_amount: i128 = amount - fee_amount;
        let platform_fee: i128 = fee_amount / 2;
        let storage_fee: i128 = fee_amount - platform_fee;
        proof {
            lemma_div_pos_is_pos(fee_amount as int, 2);
            lemma_div_is_ordered(fee_amount as int, fee_amount as int * 2, 2);
            vstd::arithmetic::div_mod::lemma_div_by_multiple(fee_amount as int, 2);
            lemma_mul_is_commutative(fee_amount as int, 2);
        }
        let debit_result = self.state.balances.debit(from, amount);
        proof {
            assert(debit_result is Ok);
        }
        self.state.balances.credit(self.config.admin, platform_fee);
        self.state.balances.credit(self.config.storage_address, storage_fee);
        self.state.total_supply = self.state.total_supply - burn_amount;
        Ok(())
    }

    /// Transfer tokens between accounts, optionally charging the
    /// configured transfer fee to the admin's benefit: the sender is
    /// debited the gross amount; the recipient receives the gross amount
    /// less the fee. The sender's authorization is the embedding's duty.
    pub fn transfer(&mut self, from: u64, to: u64, amount: i128, apply_fee: bool) -> (r: Result<
        (),
        Error,
    >)
        requires
            old(self).wf(),
            old(self).is_initialized(),
            0 <= amount && old(self).bal(from) >= amount ==> {
                &&& (apply_fee && old(self).spec_config().transfer_fee_percent > 0 ==> amount
                    * 10000 <= i128::MAX)
                &&& (to != from ==> old(self).bal(to) + amount <= i128::MAX)
                &&& (apply_fee && old(self).spec_config().transfer_fee_percent > 0 && old(
                    self,
                ).spec_config().admin != from ==> old(self).bal(old(self).spec_config().admin)
                    + amount <= i128::MAX)
            },
        ensures
            final(self).wf(),
            r == Result::<(), Error>::Err(Error::NegativeAmount) <==> amount < 0,
            r == Result::<(), Error>::Err(Error::InsufficientBalance) <==> 0 <= amount && old(
                self,
            ).bal(from) < amount,
            r is Ok <==> 0 <= amount && old(self).bal(from) >= amount,
            r is Err ==> *final(self) == *old(self),
            r is Ok ==> transfer_post(*old(self), *final(self), from, to, amount as int, apply_fee),
    {
        if amount < 0 {
            return Err(Error::NegativeAmount);
        }
        let from_balance = self.state.balances.get(from);
        if from_balance < amount {
            return Err(Error::InsufficientBalance);
        }
        proof {
            self.state.balances.lemma_in_range(from);
            self.state.balances.lemma_in_range(to);
            self.state.balances.lemma_in_range(self.config.admin);
        }
        if apply_fee && self.config.transfer_fee_percent > 0 {
            proof {
                lemma_mul_is_commutative(amount as int, 10000);
                lemma_mul_inequality(
                    self.config.transfer_fee_percent as int,
                    10000,
                    amount as int,
                );
                lemma_mul_is_commutative(amount as int, self.config.transfer_fee_percent as int);
                lemma_split_bp_range(amount as int, self.config.transfer_fee_percent as int);
            }
            let fee = split(amount, self.config.transfer_fee_percent);
            let transfer_amount: i128 = amount - fee;
            let debit_result = self.state.balances.debit(from, amount);
            proof {
                assert(debit_result is Ok);
            }
            self.state.balances.credit(to, transfer_amount);
            self.state.balances.credit(self.config.admin, fee);
        } else {
            let debit_result = self.state.balances.debit(from, amount);
            proof {
                assert(debit_result is Ok);
            }
            self.state.balances.credit(to, amount);
        }
        Ok(())
    }

    /// Whether a swap would succeed: non-negative amount and rate, a
    /// sufficient available balance, both series registered, and both of
    /// the same asset type.
    pub open spec fn swap_allowed(
        self,
        from: u64,
        from_series: Seq<char>,
        to_series: Seq<char>,
        amount: int,
        oracle_price: int,
    ) -> bool {
        &&& 0 <= amount
        &&& 0 <= oracle_price
        &&& self.bal(from) >= amount
        &&& (self.series_at(from_series) matches Some(fm) && self.series_at(to_series)
            matches Some(tm) && fm.asset_type@ == tm.asset_type@)
    }

    /// Swap value between two registered series of the same asset type at
    /// an externally supplied oracle rate in basis points: the caller's
    /// balance is debited the gross amount and credited the revalued
    /// amount. The caller's authorization is the embedding's duty.
    pub fn swap(
        &mut self,
        from: u64,
        from_series: String,
        to_series: String,
        amount: i128,
        oracle_price: i128,
    ) -> (r: Result<(), Error>)
        requires
            old(self).wf(),
            old(self).is_initialized(),
            old(self).swap_allowed(from, from_series@, to_series@, amount as int, oracle_price as int)
                ==> {
                &&& amount * oracle_price <= i128::MAX
                &&& old(self).bal(from) - amount + split_bp(amount as int, oracle_price as int)
                    <= i128::MAX
            },
        ensures
            final(self).wf(),
            r == Result::<(), Error>::Err(Error::NegativeAmount) <==> amount < 0 || oracle_price
                < 0,
            r == Result::<(), Error>::Err(Error::InsufficientBalance) <==> 0 <= amount && 0
                <= oracle_price && old(self).bal(from) < amount,
            r == Result::<(), Error>::Err(Error::SeriesNotFound) <==> 0 <= amount && 0
                <= oracle_price && old(self).bal(from) >= amount && (old(self).series_at(
                from_series@,
            ) is None || old(self).series_at(to_series@) is None),
            r == Result::<(), Error>::Err(Error::IncompatibleAssetTypes) <==> 0 <= amount && 0
                <= oracle_price && old(self).bal(from) >= amount && (old(self).series_at(
                from_series@,
            ) matches Some(fm) && old(self).series_at(to_series@) matches Some(tm)
                && fm.asset_type@ != tm.asset_type@),
            r is Ok <==> old(self).swap_allowed(
                from,
                from_series@,
                to_series@,
                amount as int,
                oracle_price as int,
            ),
            r is Err ==> *final(self) == *old(self),
            r is Ok ==> swap_post(*old(self), *final(self), from, amount as int, oracle_price as int),
    {
        if amount < 0 || oracle_price < 0 {
            return Err(Error::NegativeAmount);
        }
        let from_balance = self.state.balances.get(from);
        if from_balance < amount {
            return Err(Error::InsufficientBalance);
        }
        let assets_match: bool = {
            let from_metadata = match self.state.series.get(&from_series) {
                None => {
                    return Err(Error::SeriesNotFound);
                },
                Some(m) => m,
            };
            let to_metadata = match self.state.series.get(&to_series) {
                None => {
                    return Err(Error::SeriesNotFound);
                },
                Some(m) => m,
            };
            from_metadata.asset_type == to_metadata.asset_type
        };
        if !assets_match {
            return Err(Error::IncompatibleAssetTypes);
        }
        proof {
            vstd::arithmetic::mul::lemma_mul_nonnegative(amount as int, oracle_price as int);
            lemma_div_pos_is_pos(amount as int * oracle_price as int, 10000);
            self.state.balances.lemma_in_range(from);
        }
        let swap_amount: i128 = (amount * oracle_price) / 10000;
        let debit_result = self.state.balances.debit(from, amount);
        proof {
            assert(debit_result is Ok);
        }
        self.state.balances.credit(from, swap_amount);
        Ok(())
    }

    /// Set the transfer fee rate. Rates above 500 basis points (five
    /// percent) are rejected; nothing but the configured rate changes.
    pub fn set_transfer_fee(&mut self, fee_percent: u32) -> (r: Result<(), Error>)
        requires
            old(self).wf(),
            old(self).is_initialized(),
        ensures
            final(self).wf(),
            r == Result::<(), Error>::Err(Error::FeeTooHigh) <==> fee_percent > 500,
            r is Ok <==> fee_percent <= 500,
            r is Err ==> *final(self) == *old(self),
            r is Ok ==> final(self).spec_config() == (Config {
                transfer_fee_percent: fee_percent,
                ..old(self).spec_config()
            }),
            final(self).is_initialized(),
            forall|a: u64|
                final(self).bal(a) == old(self).bal(a) && final(self).locked(a) == old(self).locked(
                    a,
                ),
            forall|id: Seq<char>| final(self).series_at(id) == old(self).series_at(id),
            final(self).supply() == old(self).supply(),
            final(self).avail_sum() == old(self).avail_sum(),
            final(self).locked_sum() == old(self).locked_sum(),
    {
        if fee_percent > 500 {
            return Err(Error::FeeTooHigh);
        }
        self.config.transfer_fee_percent = fee_percent;
        Ok(())
    }

    /// The available balance of an account; an account never credited
    /// reads as zero.
    pub fn balance_of(&self, owner: u64) -> (r: i128)
        ensures
            r == self.bal(owner),
    {
        self.state.balances.get(owner)
    }

    /// The locked balance of an account, withheld pending delivery
    /// confirmation of a future contract.
    pub fn locked_balance_of(&self, owner: u64) -> (r: i128)
        ensures
            r == self.locked(owner),
    {
        self.state.locked_tokens.get(owner)
    }

    /// The recorded total supply.
    pub fn total_supply(&self) -> (r: i128)
        requires
            self.is_initialized(),
        ensures
            r == self.supply(),
    {
        self.state.total_supply
    }

    /// Look series metadata up by identifier.
    pub fn get_series(&self, series_id: &String) -> (r: Option<&SeriesMetadata>)
        ensures
            match r {
                Some(m) => self.series_at(series_id@) == Some(*m),
                None => self.series_at(series_id@) is None,
            },
    {
        self.state.series.get(series_id)
    }

    /// Reconstitute an initialized token from its parts, for an embedding
    /// that restores configuration and state from a persistent store. The
    /// parts must be well-formed: the embedding is expected to rebuild the
    /// ledgers through their own operations, which keep them so.
    pub fn from_parts(config: Config, state: TokenState) -> (t: ContangoToken)
        requires
            config.wf(),
            state.balances.wf(),
            state.locked_tokens.wf(),
            state.series.wf(),
        ensures
            t.wf(),
            t.is_initialized(),
            t.spec_config() == config,
            t.supply() == state.total_supply as int,
            forall|a: u64| t.bal(a) == state.balances.spec_get(a),
            forall|a: u64| t.locked(a) == state.locked_tokens.spec_get(a),
            forall|id: Seq<char>| t.series_at(id) == state.series.spec_get(id),
            t.avail_sum() == state.balances.sum(),
            t.locked_sum() == state.locked_tokens.sum(),
    {
        ContangoToken { initialized: true, config, state }
    }

    /// The current state, for an embedding that persists it.
    pub fn get_state(&self) -> (r: &TokenState)
        ensures
            r.total_supply as int == self.supply(),
            forall|a: u64| r.balances.spec_get(a) == self.bal(a),
            forall|a: u64| r.locked_tokens.spec_get(a) == self.locked(a),
            forall|id: Seq<char>| r.series.spec_get(id) == self.series_at(id),
            self.wf() ==> r.balances.wf() && r.locked_tokens.wf() && r.series.wf(),
    {
        &self.state
    }

    /// The current configuration.
    pub fn get_config(&self) -> (r: &Config)
        requires
            self.is_initialized(),
        ensures
            *r == self.spec_config(),
    {
        &self.config
    }
}

} // verus!
