//! Admin-set US dollar prices per asset, with a limit on their age.

use crate::error::Error;
use crate::fixed_point::{checked_mul_div, mul_div, mul_div_fits, PRICE_SCALE};
use std::collections::HashMap;
use vstd::arithmetic::div_mod::{
    lemma_div_is_ordered, lemma_div_multiples_vanish, lemma_fundamental_div_mod,
    lemma_mod_bound,
};
use vstd::prelude::*;

verus! {

/// The collateral asset: the ticker `XLM` as ASCII bytes.
pub const XLM: u64 = 0x58_4C_4D;

/// The lendable asset: the ticker `USDC` as ASCII bytes.
pub const USDC: u64 = 0x55_53_44_43;

/// The staleness threshold of an oracle that was given none: one hour.
pub const DEFAULT_STALENESS_THRESHOLD: u64 = 3600;

/// The US dollar value of `amount` units at `price`.
pub open spec fn usd_value(amount: int, price: int) -> int {
    mul_div(amount, price, PRICE_SCALE as int)
}

/// The number of units that `usd` buys at `price`.
pub open spec fn asset_amount(usd: int, price: int) -> int
    recommends
        price != 0,
{
    mul_div(usd, PRICE_SCALE as int, price)
}

/// The US dollar value of `amount` units of an asset at `price`:
/// `amount * price / PRICE_SCALE`.
///
/// Refused with `Overflow` exactly where the product does not fit in 128 bits.
pub fn asset_to_usd(amount: i128, price: i128) -> (r: Result<i128, Error>)
    ensures
        match r {
            Ok(usd) => {
                &&& mul_div_fits(amount as int, price as int, PRICE_SCALE as int)
                &&& usd == usd_value(amount as int, price as int)
            },
            Err(e) => {
                &&& e == Error::Overflow
                &&& !mul_div_fits(amount as int, price as int, PRICE_SCALE as int)
            },
        },
{
    match checked_mul_div(amount, price, PRICE_SCALE) {
        Some(usd) => Ok(usd),
        None => Err(Error::Overflow),
    }
}

/// The number of units of an asset that `usd` is worth at `price`:
/// `usd * PRICE_SCALE / price`.
///
/// Refused with `PriceNotSet` exactly where `price` is zero, and otherwise
/// with `Overflow` exactly where a step does not fit in 128 bits.
pub fn usd_to_asset(usd: i128, price: i128) -> (r: Result<i128, Error>)
    ensures
        match r {
            Ok(amount) => {
                &&& price != 0
                &&& mul_div_fits(usd as int, PRICE_SCALE as int, price as int)
                &&& amount == asset_amount(usd as int, price as int)
            },
            Err(e) => {
                &&& e == Error::PriceNotSet || e == Error::Overflow
                &&& e == Error::PriceNotSet <==> price == 0
                &&& e == Error::Overflow ==> !mul_div_fits(
                    usd as int,
                    PRICE_SCALE as int,
                    price as int,
                )
            },
        },
{
    if price == 0 {
        return Err(Error::PriceNotSet);
    }
    match checked_mul_div(usd, PRICE_SCALE, price) {
        Some(amount) => Ok(amount),
        None => Err(Error::Overflow),
    }
}

/// Converting an amount to US dollars and back loses at most one unit,
/// provided that what the first division drops is no more than the price.
///
/// The proviso always holds for a price of at least one dollar. Below that
/// the loss can be larger: at a price of 1, five units are worth zero
/// dollars, which buy zero units back.
pub proof fn lemma_usd_round_trip(amount: int, price: int)
    requires
        amount > 0,
        price > 0,
        (amount * price) % (PRICE_SCALE as int) <= price,
    ensures
        amount - 1 <= asset_amount(usd_value(amount, price), price) <= amount,
{
    let s = PRICE_SCALE as int;
    let product = amount * price;
    assert(product >= 0) by (nonlinear_arith)
        requires
            product == amount * price,
            amount > 0,
            price > 0,
    ;
    let usd = product / s;
    let dropped = product % s;
    lemma_fundamental_div_mod(product, s);
    lemma_mod_bound(product, s);
    assert(usd == usd_value(amount, price));
    assert(s * usd == usd * s) by (nonlinear_arith);
    let back = usd * s;
    assert(back == product - dropped);
    assert(back >= 0);
    assert((amount - 1) * price == product - price) by (nonlinear_arith)
        requires
            product == amount * price,
    ;
    lemma_div_is_ordered((amount - 1) * price, back, price);
    lemma_div_is_ordered(back, product, price);
    lemma_div_multiples_vanish(amount - 1, price);
    lemma_div_multiples_vanish(amount, price);
    assert((amount - 1) * price == price * (amount - 1)) by (nonlinear_arith);
    assert(amount * price == price * amount) by (nonlinear_arith);
    assert(asset_amount(usd, price) == back / price);
}

/// A price together with the time at which it was set.
#[derive(Clone, Copy, Debug, PartialEq, Eq, Structural)]
pub struct PriceEntry {
    /// US dollars per unit of the asset, at scale `PRICE_SCALE`. Zero stands
    /// for "no price".
    pub price: i128,
    /// The clock reading when the price was set, in seconds.
    pub last_update_time: u64,
}

impl PriceEntry {
    /// What stands for an asset that was never priced.
    pub open spec fn unset() -> PriceEntry {
        PriceEntry { price: 0, last_update_time: 0 }
    }

    /// Older than `threshold` seconds at the time `now`. An entry that is
    /// exactly `threshold` seconds old is still fresh.
    pub open spec fn stale(self, threshold: u64, now: u64) -> bool {
        now - self.last_update_time > threshold
    }

    /// The price as a solvency decision may use it.
    pub open spec fn safe_price(self, threshold: u64, now: u64) -> Result<i128, Error> {
        if self.price == 0 {
            Err(Error::PriceNotSet)
        } else if self.stale(threshold, now) {
            Err(Error::StalePrice)
        } else {
            Ok(self.price)
        }
    }

    /// The entry that records `price` at the time `now`.
    ///
    /// Refused with `InvalidInput` exactly where `price` is not positive.
    pub fn new(price: i128, now: u64) -> (r: Result<PriceEntry, Error>)
        ensures
            match r {
                Ok(entry) => price > 0 && entry == (PriceEntry { price, last_update_time: now }),
                Err(e) => e == Error::InvalidInput && price <= 0,
            },
    {
        if price <= 0 {
            Err(Error::InvalidInput)
        } else {
            Ok(PriceEntry { price, last_update_time: now })
        }
    }

    /// The entry that records half of `price`, rounded down, at the time
    /// `now`: a price shock for stress tests.
    ///
    /// Refused with `InvalidInput` exactly where `price` is not positive.
    pub fn halved(price: i128, now: u64) -> (r: Result<PriceEntry, Error>)
        ensures
            match r {
                Ok(entry) => {
                    &&& price > 0
                    &&& entry == (PriceEntry { price: (price / 2) as i128, last_update_time: now })
                },
                Err(e) => e == Error::InvalidInput && price <= 0,
            },
    {
        if price <= 0 {
            Err(Error::InvalidInput)
        } else {
            Ok(PriceEntry { price: price / 2, last_update_time: now })
        }
    }

    /// Whether the entry is older than `threshold` seconds at the time `now`.
    pub fn is_stale(&self, threshold: u64, now: u64) -> (stale: bool)
        ensures
            stale == self.stale(threshold, now),
    {
        now > self.last_update_time && now - self.last_update_time > threshold
    }

    /// The price, provided that one is set and that it is fresh.
    ///
    /// Refused with `PriceNotSet` where the price is zero, and otherwise
    /// with `StalePrice` where the entry is older than `threshold` seconds.
    pub fn get_price_safe(&self, threshold: u64, now: u64) -> (r: Result<i128, Error>)
        ensures
            r == self.safe_price(threshold, now),
    {
        if self.price == 0 {
            Err(Error::PriceNotSet)
        } else if self.is_stale(threshold, now) {
            Err(Error::StalePrice)
        } else {
            Ok(self.price)
        }
    }
}

/// What a price oracle holds.
pub struct PriceOracleView {
    /// Who may set prices; `None` before initialization.
    pub admin: Option<u64>,
    /// The age in seconds beyond which a price is stale.
    pub staleness_threshold: u64,
    /// The priced assets.
    pub entries: Map<u64, PriceEntry>,
}

impl PriceOracleView {
    /// No stored price is negative.
    pub open spec fn wf(self) -> bool {
        forall|asset: u64| #[trigger]
            self.entries.contains_key(asset) ==> self.entries[asset].price >= 0
    }

    /// The entry of `asset`, or `PriceEntry::unset()` where it has none.
    pub open spec fn entry(self, asset: u64) -> PriceEntry {
        if self.entries.contains_key(asset) {
            self.entries[asset]
        } else {
            PriceEntry::unset()
        }
    }

    /// Why `caller` may not act as admin, if so.
    pub open spec fn refusal(self, caller: u64) -> Option<Error> {
        match self.admin {
            None => Some(Error::NotInitialized),
            Some(admin) => if admin == caller {
                None
            } else {
                Some(Error::Unauthorized)
            },
        }
    }

    /// Why `caller` may not set `price`, if so.
    pub open spec fn price_refusal(self, caller: u64, price: i128) -> Option<Error> {
        match self.refusal(caller) {
            Some(e) => Some(e),
            None => if price <= 0 {
                Some(Error::InvalidInput)
            } else {
                None
            },
        }
    }

    /// The oracle after `asset` was given `entry`.
    pub open spec fn with_entry(self, asset: u64, entry: PriceEntry) -> PriceOracleView {
        PriceOracleView { entries: self.entries.insert(asset, entry), ..self }
    }
}

/// The prices of the protocol's assets, set by one admin.
pub struct PriceOracle {
    admin: Option<u64>,
    staleness_threshold: u64,
    entries: HashMap<u64, PriceEntry>,
}

impl View for PriceOracle {
    type V = PriceOracleView;

    closed spec fn view(&self) -> PriceOracleView {
        PriceOracleView {
            admin: self.admin,
            staleness_threshold: self.staleness_threshold,
            entries: self.entries@,
        }
    }
}

impl PriceOracle {
    /// No stored price is negative. A new oracle is well formed, and every
    /// operation keeps it so.
    pub open spec fn wf(&self) -> bool {
        self@.wf()
    }

    /// An oracle without admin and without prices.
    pub fn new() -> (oracle: Self)
        ensures
            oracle.wf(),
            oracle@.admin is None,
            oracle@.staleness_threshold == DEFAULT_STALENESS_THRESHOLD,
            oracle@.entries == Map::<u64, PriceEntry>::empty(),
    {
        PriceOracle {
            admin: None,
            staleness_threshold: DEFAULT_STALENESS_THRESHOLD,
            entries: HashMap::new(),
        }
    }

    /// Names the admin, resets the staleness threshold to one hour and
    /// prices `USDC` at one dollar as of `now`.
    ///
    /// Refused with `AlreadyInitialized` exactly where an admin is set.
    pub fn initialize(&mut self, admin: u64, now: u64) -> (r: Result<(), Error>)
        ensures
            old(self).wf() ==> final(self).wf(),
            match r {
                Ok(()) => {
                    &&& old(self)@.admin is None
                    &&& final(self)@ == (PriceOracleView {
                        admin: Some(admin),
                        staleness_threshold: DEFAULT_STALENESS_THRESHOLD,
                        entries: old(self)@.entries.insert(
                            USDC,
                            PriceEntry { price: PRICE_SCALE, last_update_time: now },
                        ),
                    })
                },
                Err(e) => {
                    &&& e == Error::AlreadyInitialized
                    &&& old(self)@.admin is Some
                    &&& final(self)@ == old(self)@
                },
            },
    {
        if self.admin.is_some() {
            return Err(Error::AlreadyInitialized);
        }
        self.admin = Some(admin);
        self.staleness_threshold = DEFAULT_STALENESS_THRESHOLD;
        self.entries.insert(USDC, PriceEntry { price: PRICE_SCALE, last_update_time: now });
        Ok(())
    }

    fn authorize(&self, caller: u64) -> (r: Result<(), Error>)
        ensures
            match r {
                Ok(()) => self@.refusal(caller) is None,
                Err(e) => self@.refusal(caller) == Some(e),
            },
    {
        match self.admin {
            None => Err(Error::NotInitialized),
            Some(admin) => if admin == caller {
                Ok(())
            } else {
                Err(Error::Unauthorized)
            },
        }
    }

    /// Sets the price of `asset` to `price` as of `now`.
    ///
    /// Refused with `NotInitialized` where no admin is set, else with
    /// `Unauthorized` where `caller` is not the admin, else with
    /// `InvalidInput` where `price` is not positive.
    pub fn set_price(&mut self, caller: u64, asset: u64, price: i128, now: u64) -> (r: Result<
        (),
        Error,
    >)
        ensures
            old(self).wf() ==> final(self).wf(),
            match old(self)@.price_refusal(caller, price) {
                Some(e) => r == Err::<(), Error>(e) && final(self)@ == old(self)@,
                None => {
                    &&& r is Ok
                    &&& final(self)@ == old(self)@.with_entry(
                        asset,
                        PriceEntry { price, last_update_time: now },
                    )
                },
            },
    {
        self.authorize(caller)?;
        let entry: PriceEntry = PriceEntry::new(price, now)?;
        self.entries.insert(asset, entry);
        Ok(())
    }

    /// Sets the price of `asset` to half of `price`, rounded down, as of
    /// `now`. The same callers and prices are refused as by `set_price`.
    pub fn set_price_chaos(&mut self, caller: u64, asset: u64, price: i128, now: u64) -> (r:
        Result<(), Error>)
        ensures
            old(self).wf() ==> final(self).wf(),
            match old(self)@.price_refusal(caller, price) {
                Some(e) => r == Err::<(), Error>(e) && final(self)@ == old(self)@,
                None => {
                    &&& r is Ok
                    &&& final(self)@ == old(self)@.with_entry(
                        asset,
                        PriceEntry { price: (price / 2) as i128, last_update_time: now },
                    )
                },
            },
    {
        self.authorize(caller)?;
        let entry: PriceEntry = PriceEntry::halved(price, now)?;
        self.entries.insert(asset, entry);
        Ok(())
    }

    /// The entry of `asset`, or the unset entry where it has none.
    pub fn get_entry(&self, asset: u64) -> (entry: PriceEntry)
        ensures
            entry == self@.entry(asset),
    {
        match self.entries.get(&asset) {
            Some(entry) => *entry,
            None => PriceEntry { price: 0, last_update_time: 0 },
        }
    }

    /// The stored price of `asset`, or zero where it has none. Zero means
    /// "unpriced"; the age of the price is not looked at.
    pub fn get_price(&self, asset: u64) -> (price: i128)
        ensures
            price == self@.entry(asset).price,
    {
        self.get_entry(asset).price
    }

    /// The price of `asset` as a solvency decision may use it.
    ///
    /// Refused with `PriceNotSet` where the stored price is zero or absent,
    /// and otherwise with `StalePrice` where `now` is more than the
    /// staleness threshold after the last update.
    pub fn get_price_safe(&self, asset: u64, now: u64) -> (r: Result<i128, Error>)
        ensures
            r == self@.entry(asset).safe_price(self@.staleness_threshold, now),
            self.wf() ==> (r matches Ok(price) ==> price > 0),
    {
        self.get_entry(asset).get_price_safe(self.staleness_threshold, now)
    }

    /// When the price of `asset` was last set, or zero where it never was.
    pub fn get_last_update(&self, asset: u64) -> (time: u64)
        ensures
            time == self@.entry(asset).last_update_time,
    {
        self.get_entry(asset).last_update_time
    }

    /// Whether the price of `asset` is older than the staleness threshold
    /// at the time `now`.
    pub fn is_stale(&self, asset: u64, now: u64) -> (stale: bool)
        ensures
            stale == (now - self@.entry(asset).last_update_time > self@.staleness_threshold),
    {
        self.get_entry(asset).is_stale(self.staleness_threshold, now)
    }

    /// The age in seconds beyond which a price is stale.
    pub fn get_staleness_threshold(&self) -> (threshold: u64)
        ensures
            threshold == self@.staleness_threshold,
    {
        self.staleness_threshold
    }

    /// Sets the staleness threshold.
    ///
    /// Refused with `NotInitialized` where no admin is set, else with
    /// `Unauthorized` where `caller` is not the admin.
    pub fn set_staleness_threshold(&mut self, caller: u64, threshold: u64) -> (r: Result<
        (),
        Error,
    >)
        ensures
            old(self).wf() ==> final(self).wf(),
            match old(self)@.refusal(caller) {
                Some(e) => r == Err::<(), Error>(e) && final(self)@ == old(self)@,
                None => {
                    &&& r is Ok
                    &&& final(self)@ == (PriceOracleView {
                        staleness_threshold: threshold,
                        ..old(self)@
                    })
                },
            },
    {
        self.authorize(caller)?;
        self.staleness_threshold = threshold;
        Ok(())
    }

    /// The admin.
    ///
    /// Refused with `NotInitialized` exactly where none is set.
    pub fn get_admin(&self) -> (r: Result<u64, Error>)
        ensures
            match r {
                Ok(admin) => self@.admin == Some(admin),
                Err(e) => e == Error::NotInitialized && self@.admin is None,
            },
    {
        match self.admin {
            Some(admin) => Ok(admin),
            None => Err(Error::NotInitialized),
        }
    }

    /// Hands the admin role to `new_admin`, at once.
    ///
    /// Refused with `NotInitialized` where no admin is set, else with
    /// `Unauthorized` where `caller` is not the admin.
    pub fn set_admin(&mut self, caller: u64, new_admin: u64) -> (r: Result<(), Error>)
        ensures
            old(self).wf() ==> final(self).wf(),
            match old(self)@.refusal(caller) {
                Some(e) => r == Err::<(), Error>(e) && final(self)@ == old(self)@,
                None => {
                    &&& r is Ok
                    &&& final(self)@ == (PriceOracleView { admin: Some(new_admin), ..old(self)@ })
                },
            },
    {
        self.authorize(caller)?;
        self.admin = Some(new_admin);
        Ok(())
    }

    /// The stored price of `XLM`, or zero.
    pub fn get_xlm_price(&self) -> (price: i128)
        ensures
            price == self@.entry(XLM).price,
    {
        self.get_price(XLM)
    }

    /// The stored price of `USDC`, or zero.
    pub fn get_usdc_price(&self) -> (price: i128)
        ensures
            price == self@.entry(USDC).price,
    {
        self.get_price(USDC)
    }

    /// The US dollar value of `xlm_amount` at the stored price of `XLM`.
    /// An unpriced `XLM` is worth nothing.
    ///
    /// Refused with `Overflow` exactly where the product does not fit in
    /// 128 bits.
    pub fn xlm_to_usd(&self, xlm_amount: i128) -> (r: Result<i128, Error>)
        ensures
            match r {
                Ok(usd) => {
                    &&& mul_div_fits(
                        xlm_amount as int,
                        self@.entry(XLM).price as int,
                        PRICE_SCALE as int,
                    )
                    &&& usd == usd_value(xlm_amount as int, self@.entry(XLM).price as int)
                },
                Err(e) => {
                    &&& e == Error::Overflow
                    &&& !mul_div_fits(
                        xlm_amount as int,
                        self@.entry(XLM).price as int,
                        PRICE_SCALE as int,
                    )
                },
            },
    {
        asset_to_usd(xlm_amount, self.get_price(XLM))
    }

    /// The amount of `XLM` that `usd_amount` buys at its stored price.
    ///
    /// Refused with `PriceNotSet` exactly where `XLM` is unpriced, and
    /// otherwise with `Overflow` exactly where a step does not fit in 128
    /// bits.
    pub fn usd_to_xlm(&self, usd_amount: i128) -> (r: Result<i128, Error>)
        ensures
            match r {
                Ok(amount) => {
                    &&& self@.entry(XLM).price != 0
                    &&& mul_div_fits(
                        usd_amount as int,
                        PRICE_SCALE as int,
                        self@.entry(XLM).price as int,
                    )
                    &&& amount == asset_amount(usd_amount as int, self@.entry(XLM).price as int)
                },
                Err(e) => {
                    &&& e == Error::PriceNotSet || e == Error::Overflow
                    &&& e == Error::PriceNotSet <==> self@.entry(XLM).price == 0
                    &&& e == Error::Overflow ==> !mul_div_fits(
                        usd_amount as int,
                        PRICE_SCALE as int,
                        self@.entry(XLM).price as int,
                    )
                },
            },
    {
        usd_to_asset(usd_amount, self.get_price(XLM))
    }
}

} // verus!
