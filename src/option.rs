use vstd::prelude::*;

use crate::address::Address;
use crate::oracle::{latest, Oracle, DEFAULT_SOURCE};
use crate::price_store::{history, Asset, PriceData};

verus! {

/// The terms of one option, fixed at initialisation.
#[derive(Clone, Copy, Debug, PartialEq, Eq, Structural)]
pub struct OptionInfo {
    /// Writer of the option, who posts the collateral.
    pub seller: Address,
    /// Token posted as collateral and quoted by the oracle.
    pub escrow_token: Address,
    /// Token in which the buyer posts the strike deposit.
    pub underlying_token: Address,
    /// Collateral posted by the seller.
    pub escrow_amount: u32,
    pub strike_price: u32,
    /// Time from initialisation until the option can be exercised.
    pub expiration_date: u64,
    /// Fee paid by the buyer to the seller.
    pub premium: u32,
    /// The oracle consulted at exercise.
    pub oracle_contract_id: Address,
}

/// The records an option instance keeps.
#[derive(Clone, Copy, Debug, PartialEq, Eq, Structural)]
pub enum DataKey {
    OptionInfo,
    Buyer,
    InitTime,
}

/// A movement of `amount` units of `token` from `from` to `to`.
#[derive(Clone, Copy, Debug, PartialEq, Eq, Structural)]
pub struct Transfer {
    pub token: Address,
    pub from: Address,
    pub to: Address,
    pub amount: i128,
}

/// What the host must carry out for an operation to take effect, all or
/// nothing: check that `signer` authorised the call, then make `transfers`
/// in order.
#[derive(Clone, Debug)]
pub struct Effects {
    pub signer: Address,
    pub transfers: Vec<Transfer>,
}

impl View for Effects {
    type V = (Address, Seq<Transfer>);

    open spec fn view(&self) -> (Address, Seq<Transfer>) {
        (self.signer, self.transfers@)
    }
}

#[derive(Clone, Copy, Debug, PartialEq, Eq, Structural)]
pub enum OptionError {
    AlreadyInitialized,
    NotInitialized,
    InvalidArgument,
    ArithmeticOverflow,
    DeadlineNotReached,
    NotReady,
    BuyerAlreadyEntered,
    OracleUnavailable,
}

/// The outcome of an operation as the contracts state it.
pub type Outcome = Result<(Address, Seq<Transfer>), OptionError>;

/// The outcome of an operation's result.
pub open spec fn outcome(r: Result<Effects, OptionError>) -> Outcome {
    match r {
        Ok(e) => Ok(e@),
        Err(x) => Err(x),
    }
}

/// A transfer of `amount`, which the contracts only use where it fits `i128`.
pub open spec fn transfer(token: Address, from: Address, to: Address, amount: int) -> Transfer {
    Transfer { token, from, to, amount: amount as i128 }
}

/// The underlying deposit the buyer posts: collateral times strike.
pub open spec fn deposit(info: OptionInfo) -> int {
    info.escrow_amount as int * info.strike_price as int
}

/// The state of one option instance.
#[derive(Clone, Copy, Debug)]
pub struct EuropeanCallOption {
    /// The instance's own address, which holds the escrow.
    pub contract: Address,
    pub option: Option<OptionInfo>,
    pub buyer: Option<Address>,
    pub init_time: Option<u64>,
}

impl EuropeanCallOption {
    /// Terms hold non-zero strike and collateral and come with their start
    /// time; a buyer exists only for terms whose deposit fits in `u32`.
    pub open spec fn wf(&self) -> bool {
        &&& (self.option is Some <==> self.init_time is Some)
        &&& (self.option matches Some(info) ==> info.strike_price > 0 && info.escrow_amount > 0)
        &&& (self.buyer is Some ==> (self.option matches Some(info) && deposit(info) <= u32::MAX))
    }

    /// The state with every record deleted.
    pub open spec fn cleared(self) -> Self {
        EuropeanCallOption { contract: self.contract, option: None, buyer: None, init_time: None }
    }

    /// Initialisation at `now` with terms `info`: refused where an option
    /// exists or strike or collateral is zero; otherwise the terms and start
    /// time are recorded and the seller posts the collateral.
    pub open spec fn init_step(self, now: u64, info: OptionInfo) -> (Self, Outcome) {
        if self.option is Some {
            (self, Err(OptionError::AlreadyInitialized))
        } else if info.strike_price == 0 || info.escrow_amount == 0 {
            (self, Err(OptionError::InvalidArgument))
        } else {
            (
                EuropeanCallOption {
                    contract: self.contract,
                    option: Some(info),
                    buyer: None,
                    init_time: Some(now),
                },
                Ok(
                    (
                        info.seller,
                        seq![transfer(info.escrow_token, info.seller, self.contract, info.escrow_amount as int)],
                    ),
                ),
            )
        }
    }

    /// Purchase by `buyer`: refused without an option, once bought, or where
    /// the deposit overflows `u32`; otherwise the buyer is recorded, pays the
    /// premium to the seller and posts the deposit with the contract.
    pub open spec fn buy_step(self, buyer: Address) -> (Self, Outcome) {
        match self.option {
            None => (self, Err(OptionError::NotInitialized)),
            Some(info) => {
                if self.buyer is Some {
                    (self, Err(OptionError::BuyerAlreadyEntered))
                } else if deposit(info) > u32::MAX {
                    (self, Err(OptionError::ArithmeticOverflow))
                } else {
                    (
                        EuropeanCallOption { buyer: Some(buyer), ..self },
                        Ok(
                            (
                                buyer,
                                seq![
                                    transfer(info.escrow_token, buyer, info.seller, info.premium as int),
                                    transfer(info.underlying_token, buyer, self.contract, deposit(info)),
                                ],
                            ),
                        ),
                    )
                }
            },
        }
    }

    /// Whether exercise is allowed at `now`: maturity is inclusive.
    pub open spec fn matured(self, now: u64) -> bool {
        match (self.option, self.init_time) {
            (Some(info), Some(t)) => now as int >= t as int + info.expiration_date as int,
            _ => false,
        }
    }

    /// Exercise at `now` against the oracle's latest `price`: refused before
    /// maturity, without a buyer, or without a price; otherwise the escrow is
    /// paid out by the strict comparison of price and strike, and every
    /// record is deleted.
    pub open spec fn exercise_step(self, now: u64, price: Option<PriceData>) -> (Self, Outcome) {
        match self.option {
            None => (self, Err(OptionError::NotReady)),
            Some(info) => {
                if !self.matured(now) {
                    (self, Err(OptionError::DeadlineNotReached))
                } else {
                    match self.buyer {
                        None => (self, Err(OptionError::NotReady)),
                        Some(buyer) => match price {
                            None => (self, Err(OptionError::OracleUnavailable)),
                            Some(p) => if p.price < info.strike_price {
                                (
                                    self.cleared(),
                                    Ok(
                                        (
                                            buyer,
                                            seq![
                                                transfer(info.underlying_token, self.contract, buyer, deposit(info)),
                                                transfer(info.escrow_token, self.contract, info.seller, info.escrow_amount as int),
                                            ],
                                        ),
                                    ),
                                )
                            } else {
                                (
                                    self.cleared(),
                                    Ok(
                                        (
                                            info.seller,
                                            seq![
                                                transfer(info.underlying_token, self.contract, info.seller, deposit(info)),
                                                transfer(info.escrow_token, self.contract, buyer, info.escrow_amount as int),
                                            ],
                                        ),
                                    ),
                                )
                            },
                        },
                    }
                }
            },
        }
    }

    /// Withdrawal: refused once bought or without an option; otherwise the
    /// collateral goes back to the seller and every record is deleted.
    pub open spec fn withdraw_step(self) -> (Self, Outcome) {
        if self.buyer is Some {
            (self, Err(OptionError::BuyerAlreadyEntered))
        } else {
            match self.option {
                None => (self, Err(OptionError::NotInitialized)),
                Some(info) => (
                    self.cleared(),
                    Ok(
                        (
                            info.seller,
                            seq![transfer(info.escrow_token, self.contract, info.seller, info.escrow_amount as int)],
                        ),
                    ),
                ),
            }
        }
    }

    /// An instance at `contract` with no option yet.
    pub fn new(contract: Address) -> (r: EuropeanCallOption)
        ensures
            r.wf(),
            r == (EuropeanCallOption { contract, option: None, buyer: None, init_time: None }),
    {
        EuropeanCallOption { contract, option: None, buyer: None, init_time: None }
    }

    /// Whether the record under `key` exists.
    pub fn has(&self, key: DataKey) -> (r: bool)
        ensures
            r == match key {
                DataKey::OptionInfo => self.option is Some,
                DataKey::Buyer => self.buyer is Some,
                DataKey::InitTime => self.init_time is Some,
            },
    {
        match key {
            DataKey::OptionInfo => self.option.is_some(),
            DataKey::Buyer => self.buyer.is_some(),
            DataKey::InitTime => self.init_time.is_some(),
        }
    }

    fn remove(&mut self, key: DataKey)
        ensures
            final(self).contract == old(self).contract,
            final(self).option == if key == DataKey::OptionInfo {
                None
            } else {
                old(self).option
            },
            final(self).buyer == if key == DataKey::Buyer {
                None
            } else {
                old(self).buyer
            },
            final(self).init_time == if key == DataKey::InitTime {
                None
            } else {
                old(self).init_time
            },
    {
        match key {
            DataKey::OptionInfo => self.option = None,
            DataKey::Buyer => self.buyer = None,
            DataKey::InitTime => self.init_time = None,
        }
    }

    /// Whether `now` has reached the option's maturity, its start time plus
    /// its expiration; false where there is no option.
    pub fn check_time_bound(&self, now: u64) -> (r: bool)
        ensures
            r == self.matured(now),
    {
        match (self.option, self.init_time) {
            (Some(info), Some(start)) => now >= start && now - start >= info.expiration_date,
            _ => false,
        }
    }

    /// Whether the records are consistent with each other (see `wf`), as
    /// they are wherever they were only changed through these operations.
    pub fn is_consistent(&self) -> (r: bool)
        ensures
            r == self.wf(),
    {
        let terms_ok = match self.option {
            Some(info) => self.init_time.is_some() && info.strike_price > 0 && info.escrow_amount > 0,
            None => self.init_time.is_none(),
        };
        let buyer_ok = match (self.buyer, self.option) {
            (None, _) => true,
            (Some(_), None) => false,
            (Some(_), Some(info)) => info.escrow_amount.checked_mul(info.strike_price).is_some(),
        };
        terms_ok && buyer_ok
    }

    pub fn is_initialized(&self) -> (r: bool)
        ensures
            r == self.option is Some,
    {
        self.has(DataKey::OptionInfo)
    }

    pub fn is_buyer_entered(&self) -> (r: bool)
        ensures
            r == self.buyer is Some,
    {
        self.has(DataKey::Buyer)
    }

    /// Writes the option: records the terms and the start time `now`, and has
    /// the seller post `escrow_amount` of `escrow_token` with the contract.
    pub fn init_option(
        &mut self,
        now: u64,
        seller: Address,
        strike_price: u32,
        expiration_date: u64,
        premium: u32,
        escrow_token: Address,
        escrow_amount: u32,
        underlying_token: Address,
        oracle_contract_id: Address,
    ) -> (r: Result<Effects, OptionError>)
        requires
            old(self).wf(),
        ensures
            final(self).wf(),
            (*final(self), outcome(r)) == old(self).init_step(
                now,
                (OptionInfo {
                    seller,
                    escrow_token,
                    underlying_token,
                    escrow_amount,
                    strike_price,
                    expiration_date,
                    premium,
                    oracle_contract_id,
                }),
            ),
    {
        if self.is_initialized() {
            return Err(OptionError::AlreadyInitialized);
        }
        if strike_price == 0 || escrow_amount == 0 {
            return Err(OptionError::InvalidArgument);
        }
        self.option = Some(
            OptionInfo {
                seller,
                escrow_token,
                underlying_token,
                escrow_amount,
                strike_price,
                expiration_date,
                premium,
                oracle_contract_id,
            },
        );
        self.buyer = None;
        self.init_time = Some(now);
        let mut transfers: Vec<Transfer> = Vec::new();
        transfers.push(
            Transfer { token: escrow_token, from: seller, to: self.contract, amount: escrow_amount as i128 },
        );
        Ok(Effects { signer: seller, transfers })
    }

    /// Sells the option to `buyer`, who pays the premium to the seller and
    /// posts collateral times strike of the underlying token with the contract.
    pub fn buy_option(&mut self, buyer: Address) -> (r: Result<Effects, OptionError>)
        requires
            old(self).wf(),
        ensures
            final(self).wf(),
            (*final(self), outcome(r)) == old(self).buy_step(buyer),
    {
        let info = match self.option {
            None => return Err(OptionError::NotInitialized),
            Some(info) => info,
        };
        if self.is_buyer_entered() {
            return Err(OptionError::BuyerAlreadyEntered);
        }
        let deposit_amount = match info.escrow_amount.checked_mul(info.strike_price) {
            None => return Err(OptionError::ArithmeticOverflow),
            Some(d) => d,
        };
        self.buyer = Some(buyer);
        let mut transfers: Vec<Transfer> = Vec::new();
        transfers.push(
            Transfer { token: info.escrow_token, from: buyer, to: info.seller, amount: info.premium as i128 },
        );
        transfers.push(
            Transfer {
                token: info.underlying_token,
                from: buyer,
                to: self.contract,
                amount: deposit_amount as i128,
            },
        );
        assert(transfers@ =~= seq![
            transfer(info.escrow_token, buyer, info.seller, info.premium as int),
            transfer(info.underlying_token, buyer, self.contract, deposit(info)),
        ]);
        Ok(Effects { signer: buyer, transfers })
    }

    /// The asset whose price settles the option: its escrow token.
    pub fn settlement_asset(&self) -> (r: Option<Asset>)
        ensures
            r == match self.option {
                Some(info) => Some(Asset::Stellar(info.escrow_token)),
                None => None::<Asset>,
            },
    {
        match self.option {
            Some(info) => Some(Asset::Stellar(info.escrow_token)),
            None => None,
        }
    }

    /// Settles the option at `now` against `price`, the oracle's latest price
    /// of the escrow token: below the strike the buyer receives the deposit
    /// and the seller the collateral, otherwise the other way round.
    pub fn exercise_at_price(&mut self, now: u64, price: Option<PriceData>) -> (r: Result<
        Effects,
        OptionError,
    >)
        requires
            old(self).wf(),
        ensures
            final(self).wf(),
            (*final(self), outcome(r)) == old(self).exercise_step(now, price),
    {
        let info = match self.option {
            None => return Err(OptionError::NotReady),
            Some(info) => info,
        };
        if !self.check_time_bound(now) {
            return Err(OptionError::DeadlineNotReached);
        }
        let buyer = match self.buyer {
            None => return Err(OptionError::NotReady),
            Some(b) => b,
        };
        let current = match price {
            None => return Err(OptionError::OracleUnavailable),
            Some(p) => p,
        };
        let deposited = info.escrow_amount * info.strike_price;
        let mut transfers: Vec<Transfer> = Vec::new();
        let signer = if current.price < info.strike_price as i128 {
            transfers.push(
                Transfer {
                    token: info.underlying_token,
                    from: self.contract,
                    to: buyer,
                    amount: deposited as i128,
                },
            );
            transfers.push(
                Transfer {
                    token: info.escrow_token,
                    from: self.contract,
                    to: info.seller,
                    amount: info.escrow_amount as i128,
                },
            );
            assert(transfers@ =~= seq![
                transfer(info.underlying_token, self.contract, buyer, deposit(info)),
                transfer(info.escrow_token, self.contract, info.seller, info.escrow_amount as int),
            ]);
            buyer
        } else {
            transfers.push(
                Transfer {
                    token: info.underlying_token,
                    from: self.contract,
                    to: info.seller,
                    amount: deposited as i128,
                },
            );
            transfers.push(
                Transfer {
                    token: info.escrow_token,
                    from: self.contract,
                    to: buyer,
                    amount: info.escrow_amount as i128,
                },
            );
            assert(transfers@ =~= seq![
                transfer(info.underlying_token, self.contract, info.seller, deposit(info)),
                transfer(info.escrow_token, self.contract, buyer, info.escrow_amount as int),
            ]);
            info.seller
        };
        self.clear();
        Ok(Effects { signer, transfers })
    }

    /// Settles the option at `now` against `oracle`'s latest price of the
    /// escrow token from the default source.
    pub fn exercise_option(&mut self, now: u64, oracle: &Oracle) -> (r: Result<Effects, OptionError>)
        requires
            old(self).wf(),
            oracle.wf(),
        ensures
            final(self).wf(),
            (*final(self), outcome(r)) == old(self).exercise_step(
                now,
                match old(self).option {
                    Some(info) => latest(
                        history(oracle.prices@, (DEFAULT_SOURCE, Asset::Stellar(info.escrow_token))),
                    ),
                    None => None::<PriceData>,
                },
            ),
    {
        let price = match self.settlement_asset() {
            Some(asset) => oracle.lastprice(asset),
            None => None,
        };
        self.exercise_at_price(now, price)
    }

    /// Returns the collateral to the seller and deletes the option; only
    /// before it has been bought.
    pub fn withdraw(&mut self) -> (r: Result<Effects, OptionError>)
        requires
            old(self).wf(),
        ensures
            final(self).wf(),
            (*final(self), outcome(r)) == old(self).withdraw_step(),
    {
        if self.is_buyer_entered() {
            return Err(OptionError::BuyerAlreadyEntered);
        }
        let info = match self.option {
            None => return Err(OptionError::NotInitialized),
            Some(info) => info,
        };
        let mut transfers: Vec<Transfer> = Vec::new();
        transfers.push(
            Transfer {
                token: info.escrow_token,
                from: self.contract,
                to: info.seller,
                amount: info.escrow_amount as i128,
            },
        );
        self.clear();
        Ok(Effects { signer: info.seller, transfers })
    }

    /// Deletes every record, once the escrow has been paid out.
    fn clear(&mut self)
        ensures
            *final(self) == old(self).cleared(),
    {
        self.remove(DataKey::OptionInfo);
        self.remove(DataKey::Buyer);
        self.remove(DataKey::InitTime);
    }
}

/// On an instance with no option, initialisation with non-zero strike and
/// collateral succeeds; on the state it leaves, every further initialisation
/// is refused with `AlreadyInitialized` and changes nothing.
pub proof fn lemma_init_exactly_once(
    s: EuropeanCallOption,
    now: u64,
    info: OptionInfo,
    later_now: u64,
    later: OptionInfo,
)
    requires
        s.wf(),
        s.option is None,
        info.strike_price > 0,
        info.escrow_amount > 0,
    ensures
        s.init_step(now, info).1 is Ok,
        s.init_step(now, info).0.wf(),
        s.init_step(now, info).0.init_step(later_now, later) == (
            s.init_step(now, info).0,
            Err::<(Address, Seq<Transfer>), OptionError>(OptionError::AlreadyInitialized),
        ),
{
}

/// Buying an option that was never initialised fails with `NotInitialized`
/// and changes nothing.
pub proof fn lemma_buy_before_init(s: EuropeanCallOption, buyer: Address)
    requires
        s.option is None,
    ensures
        s.buy_step(buyer) == (s, Err::<(Address, Seq<Transfer>), OptionError>(OptionError::NotInitialized)),
{
}

/// The deposit a buyer posts is exactly collateral times strike; where that
/// product does not fit in `u32` the purchase fails with `ArithmeticOverflow`
/// instead of wrapping.
pub proof fn lemma_deposit_exact(s: EuropeanCallOption, buyer: Address)
    requires
        s.wf(),
        s.option is Some,
        s.buyer is None,
    ensures
        ({
            let info = s.option->Some_0;
            let (after, out) = s.buy_step(buyer);
            &&& info.escrow_amount as int * info.strike_price as int <= u32::MAX ==> (out matches Ok(
                (signer, ts),
            ) && ts.len() == 2 && ts[1].token == info.underlying_token && ts[1].from == buyer
                && ts[1].to == s.contract && ts[1].amount == info.escrow_amount as int
                * info.strike_price as int)
            &&& info.escrow_amount as int * info.strike_price as int > u32::MAX ==> (after == s
                && out == Err::<(Address, Seq<Transfer>), OptionError>(
                OptionError::ArithmeticOverflow,
            ))
        }),
{
}

/// At exercise, a price strictly below the strike pays the deposit to the
/// buyer and the collateral back to the seller, on the buyer's authority; a
/// price at or above the strike pays the deposit to the seller and the
/// collateral to the buyer, on the seller's authority.
pub proof fn lemma_settlement_branch(s: EuropeanCallOption, now: u64, p: PriceData)
    requires
        s.wf(),
        s.buyer is Some,
        s.matured(now),
    ensures
        ({
            let info = s.option->Some_0;
            let buyer = s.buyer->Some_0;
            let (after, out) = s.exercise_step(now, Some(p));
            &&& after == s.cleared()
            &&& out is Ok
            &&& p.price < info.strike_price ==> out->Ok_0 == (
                buyer,
                seq![
                    transfer(info.underlying_token, s.contract, buyer, deposit(info)),
                    transfer(info.escrow_token, s.contract, info.seller, info.escrow_amount as int),
                ],
            )
            &&& p.price >= info.strike_price ==> out->Ok_0 == (
                info.seller,
                seq![
                    transfer(info.underlying_token, s.contract, info.seller, deposit(info)),
                    transfer(info.escrow_token, s.contract, buyer, info.escrow_amount as int),
                ],
            )
        }),
{
}

/// Once a buyer has entered, withdrawal fails with `BuyerAlreadyEntered` and
/// changes nothing.
pub proof fn lemma_withdraw_after_buy(s: EuropeanCallOption, buyer: Address)
    requires
        s.wf(),
        s.buy_step(buyer).1 is Ok,
    ensures
        s.buy_step(buyer).0.withdraw_step() == (
            s.buy_step(buyer).0,
            Err::<(Address, Seq<Transfer>), OptionError>(OptionError::BuyerAlreadyEntered),
        ),
{
}

/// Before any buyer, withdrawal returns exactly the collateral to the seller,
/// on the seller's authority, and deletes the option.
pub proof fn lemma_withdraw_before_buy(s: EuropeanCallOption)
    requires
        s.wf(),
        s.option is Some,
        s.buyer is None,
    ensures
        ({
            let info = s.option->Some_0;
            s.withdraw_step() == (
                s.cleared(),
                Ok::<(Address, Seq<Transfer>), OptionError>(
                    (
                        info.seller,
                        seq![transfer(info.escrow_token, s.contract, info.seller, info.escrow_amount as int)],
                    ),
                ),
            )
        }),
        s.withdraw_step().0.option is None,
{
}

/// What `holder` gains in `token` from `ts`: amounts received minus amounts sent.
pub open spec fn net_flow(ts: Seq<Transfer>, token: Address, holder: Address) -> int
    decreases ts.len(),
{
    if ts.len() == 0 {
        0
    } else {
        let t = ts.last();
        net_flow(ts.drop_last(), token, holder) + (if t.token == token && t.to == holder {
            t.amount as int
        } else {
            0
        }) - (if t.token == token && t.from == holder {
            t.amount as int
        } else {
            0
        })
    }
}

/// Over a whole lifecycle (initialise, buy, exercise) the contract ends up
/// holding nothing it did not hold before, in every token, whichever way the
/// option settles, provided neither party is the contract itself.
pub proof fn lemma_exercise_leaves_contract_empty(
    s: EuropeanCallOption,
    t0: u64,
    info: OptionInfo,
    buyer: Address,
    now: u64,
    p: PriceData,
    token: Address,
)
    requires
        s.wf(),
        s.init_step(t0, info).1 is Ok,
        s.init_step(t0, info).0.buy_step(buyer).1 is Ok,
        s.init_step(t0, info).0.buy_step(buyer).0.exercise_step(now, Some(p)).1 is Ok,
        info.seller != s.contract,
        buyer != s.contract,
    ensures
        ({
            let s1 = s.init_step(t0, info);
            let s2 = s1.0.buy_step(buyer);
            let s3 = s2.0.exercise_step(now, Some(p));
            net_flow(s1.1->Ok_0.1, token, s.contract) + net_flow(s2.1->Ok_0.1, token, s.contract)
                + net_flow(s3.1->Ok_0.1, token, s.contract) == 0
        }),
{
    reveal_with_fuel(net_flow, 3);
    let s1 = s.init_step(t0, info);
    let s2 = s1.0.buy_step(buyer);
    let s3 = s2.0.exercise_step(now, Some(p));
    let ts1 = s1.1->Ok_0.1;
    let ts2 = s2.1->Ok_0.1;
    let ts3 = s3.1->Ok_0.1;
    assert(ts1.drop_last() =~= Seq::<Transfer>::empty());
    assert(ts2.drop_last().drop_last() =~= Seq::<Transfer>::empty());
    assert(ts3.drop_last().drop_last() =~= Seq::<Transfer>::empty());
}

/// Initialising and then withdrawing leaves the contract holding nothing it
/// did not hold before, in every token, provided the seller is not the
/// contract itself.
pub proof fn lemma_withdraw_leaves_contract_empty(
    s: EuropeanCallOption,
    t0: u64,
    info: OptionInfo,
    token: Address,
)
    requires
        s.wf(),
        s.init_step(t0, info).1 is Ok,
        info.seller != s.contract,
    ensures
        ({
            let s1 = s.init_step(t0, info);
            let s2 = s1.0.withdraw_step();
            &&& s2.1 is Ok
            &&& net_flow(s1.1->Ok_0.1, token, s.contract) + net_flow(s2.1->Ok_0.1, token, s.contract) == 0
        }),
{
    reveal_with_fuel(net_flow, 2);
    let s1 = s.init_step(t0, info);
    let s2 = s1.0.withdraw_step();
    assert(s1.1->Ok_0.1.drop_last() =~= Seq::<Transfer>::empty());
    assert(s2.1->Ok_0.1.drop_last() =~= Seq::<Transfer>::empty());
}

} // verus!
