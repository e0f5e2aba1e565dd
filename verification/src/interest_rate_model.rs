//! The kinked interest-rate curve: the borrow rate rises slowly with
//! utilization up to the optimal point, and steeply beyond it.

use crate::error::Error;
use crate::fixed_point::{
    checked_mul_div, fits, lemma_mul_div_nonnegative, mul_div, mul_div_fits, SCALE,
};
use vstd::prelude::*;

verus! {

/// The optimal utilization of a model that was never initialized: 80%.
pub const DEFAULT_OPTIMAL_UTILIZATION: i128 = 8_000_000;

/// The four numbers of a rate curve, each at scale `SCALE`.
#[derive(Clone, Copy, Debug, PartialEq, Eq, Structural)]
pub struct RateCurveParameters {
    /// The borrow rate at zero utilization.
    pub base_rate: i128,
    /// What the rate gains between zero and the optimal utilization.
    pub slope1: i128,
    /// What the rate gains between the optimal utilization and 100%.
    pub slope2: i128,
    /// The utilization at which the curve bends.
    pub optimal_utilization: i128,
}

impl RateCurveParameters {
    /// The kink lies strictly between 0% and 100%.
    pub open spec fn valid(self) -> bool {
        0 < self.optimal_utilization < SCALE
    }

    /// No part of the curve charges a negative rate.
    pub open spec fn non_negative(self) -> bool {
        self.base_rate >= 0 && self.slope1 >= 0 && self.slope2 >= 0
    }

    /// How far `utilization` lies beyond the kink, as a fraction of the
    /// distance from the kink to 100%, at scale `SCALE`.
    pub open spec fn excess_utilization(self, utilization: int) -> int {
        mul_div(utilization - self.optimal_utilization, SCALE as int, SCALE - self.optimal_utilization)
    }

    /// The annual borrow rate at `utilization`.
    pub open spec fn borrow_rate(self, utilization: int) -> int {
        if utilization <= self.optimal_utilization {
            self.base_rate + mul_div(utilization, self.slope1 as int, self.optimal_utilization as int)
        } else {
            self.base_rate + self.slope1 + mul_div(
                self.excess_utilization(utilization),
                self.slope2 as int,
                SCALE as int,
            )
        }
    }

    /// Whether every step of `borrow_rate` fits in 128 bits.
    pub open spec fn borrow_rate_fits(self, utilization: int) -> bool {
        if utilization <= self.optimal_utilization {
            &&& mul_div_fits(utilization, self.slope1 as int, self.optimal_utilization as int)
            &&& fits(self.borrow_rate(utilization))
        } else {
            &&& mul_div_fits(
                utilization - self.optimal_utilization,
                SCALE as int,
                SCALE - self.optimal_utilization,
            )
            &&& fits(self.base_rate + self.slope1)
            &&& mul_div_fits(self.excess_utilization(utilization), self.slope2 as int, SCALE as int)
            &&& fits(self.borrow_rate(utilization))
        }
    }

    /// The annual supply rate at `utilization`: the borrow rate scaled by the
    /// share of deposits that is lent out. No reserve is withheld.
    pub open spec fn supply_rate(self, utilization: int) -> int {
        mul_div(self.borrow_rate(utilization), utilization, SCALE as int)
    }

    /// Whether every step of `supply_rate` fits in 128 bits.
    pub open spec fn supply_rate_fits(self, utilization: int) -> bool {
        &&& self.borrow_rate_fits(utilization)
        &&& mul_div_fits(self.borrow_rate(utilization), utilization, SCALE as int)
    }

    /// A curve without negative parameters charges no negative rate on a
    /// utilization that is not negative.
    pub proof fn lemma_borrow_rate_non_negative(self, utilization: int)
        requires
            self.valid(),
            self.non_negative(),
            utilization >= 0,
        ensures
            self.borrow_rate(utilization) >= 0,
    {
        if utilization <= self.optimal_utilization {
            lemma_mul_div_nonnegative(
                utilization,
                self.slope1 as int,
                self.optimal_utilization as int,
            );
        } else {
            lemma_mul_div_nonnegative(
                utilization - self.optimal_utilization,
                SCALE as int,
                SCALE - self.optimal_utilization,
            );
            lemma_mul_div_nonnegative(
                self.excess_utilization(utilization),
                self.slope2 as int,
                SCALE as int,
            );
        }
    }
}

/// The curve of a model that was never initialized: a rate of zero
/// everywhere, with the kink at 80%.
pub open spec fn default_curve() -> RateCurveParameters {
    RateCurveParameters {
        base_rate: 0,
        slope1: 0,
        slope2: 0,
        optimal_utilization: DEFAULT_OPTIMAL_UTILIZATION,
    }
}

/// A rate curve that is set once and then read.
pub struct InterestRateModel {
    params: Option<RateCurveParameters>,
}

impl View for InterestRateModel {
    type V = Option<RateCurveParameters>;

    /// The parameters it was initialized with, if it was.
    closed spec fn view(&self) -> Option<RateCurveParameters> {
        self.params
    }
}

impl InterestRateModel {
    /// Stored parameters are valid. This holds of every model.
    #[verifier::type_invariant]
    pub open spec fn wf(&self) -> bool {
        self@ matches Some(p) ==> p.valid()
    }

    /// The curve that rates are read from.
    pub open spec fn curve(&self) -> RateCurveParameters {
        match self@ {
            Some(p) => p,
            None => default_curve(),
        }
    }

    /// A model without parameters.
    pub fn new() -> (model: Self)
        ensures
            model@ is None,
            model.wf(),
    {
        InterestRateModel { params: None }
    }

    fn current(&self) -> (p: RateCurveParameters)
        ensures
            p == self.curve(),
            p.valid(),
            self.wf(),
    {
        proof {
            use_type_invariant(self);
        }
        match self.params {
            Some(p) => p,
            None => RateCurveParameters {
                base_rate: 0,
                slope1: 0,
                slope2: 0,
                optimal_utilization: DEFAULT_OPTIMAL_UTILIZATION,
            },
        }
    }

    /// Stores the parameters of the curve, once.
    ///
    /// Refused with `AlreadyInitialized` where parameters are already stored;
    /// otherwise with `InvalidInput` where `optimal_utilization` is not
    /// strictly between zero and `SCALE`.
    pub fn initialize(
        &mut self,
        base_rate: i128,
        slope1: i128,
        slope2: i128,
        optimal_utilization: i128,
    ) -> (r: Result<(), Error>)
        ensures
            final(self).wf(),
            match r {
                Ok(()) => {
                    &&& old(self)@ is None
                    &&& 0 < optimal_utilization < SCALE
                    &&& final(self)@ == Some(
                        RateCurveParameters { base_rate, slope1, slope2, optimal_utilization },
                    )
                },
                Err(e) => {
                    &&& final(self)@ == old(self)@
                    &&& e == Error::AlreadyInitialized || e == Error::InvalidInput
                    &&& e == Error::AlreadyInitialized <==> old(self)@ is Some
                    &&& e == Error::InvalidInput ==> !(0 < optimal_utilization < SCALE)
                },
            },
            r is Ok <==> old(self)@ is None && 0 < optimal_utilization < SCALE,
    {
        proof {
            use_type_invariant(&*self);
        }
        if self.params.is_some() {
            return Err(Error::AlreadyInitialized);
        }
        if optimal_utilization <= 0 || optimal_utilization >= SCALE {
            return Err(Error::InvalidInput);
        }
        self.params = Some(RateCurveParameters { base_rate, slope1, slope2, optimal_utilization });
        Ok(())
    }

    /// The annual borrow rate at `utilization`, both at scale `SCALE`.
    ///
    /// Refused with `Overflow` exactly where a step of the formula does not
    /// fit in 128 bits.
    pub fn get_borrow_rate(&self, utilization: i128) -> (r: Result<i128, Error>)
        ensures
            self.wf(),
            match r {
                Ok(rate) => {
                    &&& self.curve().borrow_rate_fits(utilization as int)
                    &&& rate == self.curve().borrow_rate(utilization as int)
                },
                Err(e) => e == Error::Overflow && !self.curve().borrow_rate_fits(utilization as int),
            },
    {
        let p: RateCurveParameters = self.current();
        if utilization <= p.optimal_utilization {
            let Some(q) = checked_mul_div(utilization, p.slope1, p.optimal_utilization) else {
                return Err(Error::Overflow);
            };
            match p.base_rate.checked_add(q) {
                Some(rate) => Ok(rate),
                None => Err(Error::Overflow),
            }
        } else {
            let Some(excess) = checked_mul_div(
                utilization - p.optimal_utilization,
                SCALE,
                SCALE - p.optimal_utilization,
            ) else {
                return Err(Error::Overflow);
            };
            let Some(floor) = p.base_rate.checked_add(p.slope1) else {
                return Err(Error::Overflow);
            };
            let Some(q) = checked_mul_div(excess, p.slope2, SCALE) else {
                return Err(Error::Overflow);
            };
            match floor.checked_add(q) {
                Some(rate) => Ok(rate),
                None => Err(Error::Overflow),
            }
        }
    }

    /// The annual supply rate at `utilization`: the borrow rate times the
    /// utilization, divided by `SCALE`.
    ///
    /// Refused with `Overflow` exactly where a step of the formula does not
    /// fit in 128 bits.
    pub fn get_supply_rate(&self, utilization: i128) -> (r: Result<i128, Error>)
        ensures
            self.wf(),
            match r {
                Ok(rate) => {
                    &&& self.curve().supply_rate_fits(utilization as int)
                    &&& rate == self.curve().supply_rate(utilization as int)
                },
                Err(e) => e == Error::Overflow && !self.curve().supply_rate_fits(utilization as int),
            },
    {
        let borrow_rate: i128 = self.get_borrow_rate(utilization)?;
        match checked_mul_div(borrow_rate, utilization, SCALE) {
            Some(rate) => Ok(rate),
            None => Err(Error::Overflow),
        }
    }

    /// The borrow rate at zero utilization; zero before initialization.
    pub fn get_base_rate(&self) -> (v: i128)
        ensures
            v == self.curve().base_rate,
    {
        self.current().base_rate
    }

    /// The slope below the kink; zero before initialization.
    pub fn get_slope1(&self) -> (v: i128)
        ensures
            v == self.curve().slope1,
    {
        self.current().slope1
    }

    /// The slope above the kink; zero before initialization.
    pub fn get_slope2(&self) -> (v: i128)
        ensures
            v == self.curve().slope2,
    {
        self.current().slope2
    }

    /// The utilization at the kink; 80% before initialization.
    pub fn get_optimal_utilization(&self) -> (v: i128)
        ensures
            v == self.curve().optimal_utilization,
    {
        self.current().optimal_utilization
    }
}

} // verus!
