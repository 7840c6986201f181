use vstd::prelude::*;

verus! {

/// Identifies a client. The order serves only to present accounts deterministically.
#[derive(Debug, Clone, Copy, PartialEq, Eq, Structural, Hash, PartialOrd, Ord)]
pub struct ClientId(pub u16);

/// Identifies a transaction, uniquely across the whole ledger.
#[derive(Debug, Clone, Copy, PartialEq, Eq, Structural, Hash)]
pub struct TransactionId(pub u32);

/// The largest magnitude of a monetary value, in ten-thousandths: a 96-bit mantissa.
pub const MAX_UNITS: i128 = 79228162514264337593543950335;

/// A fixed-point decimal with exactly four fractional digits, held as a
/// count of ten-thousandths (`12345` is `1.2345`).
#[derive(Debug, Clone, Copy, PartialEq, Eq, Structural)]
pub struct MonetaryAmount(pub i128);

/// Whether a count of ten-thousandths can be represented.
pub open spec fn representable(v: int) -> bool {
    -MAX_UNITS <= v <= MAX_UNITS
}

impl MonetaryAmount {
    pub open spec fn units(self) -> int {
        self.0 as int
    }

    /// A valid amount of a deposit or a withdrawal: representable and not negative.
    pub open spec fn is_valid_amount(self) -> bool {
        0 <= self.units() <= MAX_UNITS
    }

    pub fn zero() -> (r: MonetaryAmount)
        ensures
            r.units() == 0,
    {
        MonetaryAmount(0)
    }

    /// The sum, if it is representable.
    pub fn checked_add(self, other: MonetaryAmount) -> (r: Option<MonetaryAmount>)
        ensures
            r == (if representable(self.units() + other.units()) {
                Some(MonetaryAmount((self.units() + other.units()) as i128))
            } else {
                None
            }),
    {
        match self.0.checked_add(other.0) {
            Some(s) => {
                if -MAX_UNITS <= s && s <= MAX_UNITS {
                    Some(MonetaryAmount(s))
                } else {
                    None
                }
            },
            None => None,
        }
    }

    /// The difference, if it is representable.
    pub fn checked_sub(self, other: MonetaryAmount) -> (r: Option<MonetaryAmount>)
        ensures
            r == (if representable(self.units() - other.units()) {
                Some(MonetaryAmount((self.units() - other.units()) as i128))
            } else {
                None
            }),
    {
        match self.0.checked_sub(other.0) {
            Some(s) => {
                if -MAX_UNITS <= s && s <= MAX_UNITS {
                    Some(MonetaryAmount(s))
                } else {
                    None
                }
            },
            None => None,
        }
    }
}

/// A transaction that moves money in or out of an account.
#[derive(Debug, Clone, Copy, PartialEq, Eq, Structural)]
pub enum MonetaryTransaction {
    Deposit(MonetaryAmount),
    Withdrawal(MonetaryAmount),
}

impl MonetaryTransaction {
    pub open spec fn amount(self) -> MonetaryAmount {
        match self {
            MonetaryTransaction::Deposit(a) => a,
            MonetaryTransaction::Withdrawal(a) => a,
        }
    }
}

/// A claim on an earlier monetary transaction.
#[derive(Debug, Clone, Copy, PartialEq, Eq, Structural)]
pub enum ClaimType {
    Dispute,
    Resolve,
    Chargeback,
}

#[derive(Debug, Clone, Copy, PartialEq, Eq, Structural)]
pub enum RequestType {
    Monetary(MonetaryTransaction),
    Claim(ClaimType),
}

/// One request addressed to the ledger.
#[derive(Debug, Clone, Copy, PartialEq, Eq, Structural)]
pub struct TransactionRequest {
    pub client: ClientId,
    pub transaction: TransactionId,
    pub request_type: RequestType,
}

impl TransactionRequest {
    /// A monetary request carries a valid amount; a claim carries none.
    pub open spec fn wf(self) -> bool {
        match self.request_type {
            RequestType::Monetary(tx) => tx.amount().is_valid_amount(),
            RequestType::Claim(_) => true,
        }
    }

    pub fn is_valid(&self) -> (r: bool)
        ensures
            r == self.wf(),
    {
        match self.request_type {
            RequestType::Monetary(MonetaryTransaction::Deposit(a)) => 0 <= a.0 && a.0 <= MAX_UNITS,
            RequestType::Monetary(MonetaryTransaction::Withdrawal(a)) => 0 <= a.0 && a.0 <= MAX_UNITS,
            RequestType::Claim(_) => true,
        }
    }
}

} // verus!
