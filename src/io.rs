use vstd::prelude::*;

use crate::account::{held_representable, Client};
use crate::error::ProcessTransactionError;
use crate::types::{
    representable, ClaimType, ClientId, MonetaryAmount, MonetaryTransaction, RequestType,
    TransactionId, TransactionRequest, MAX_UNITS,
};

verus! {

/// The kind of a row of the input.
#[derive(Debug, Clone, Copy, PartialEq, Eq, Structural)]
pub enum CsvTransactionType {
    Deposit,
    Withdrawal,
    Dispute,
    Resolve,
    Chargeback,
}

/// A decimal number as it was read: `mantissa` × 10^-`scale`.
#[derive(Debug, Clone, Copy, PartialEq, Eq, Structural)]
pub struct DecimalParts {
    pub mantissa: i128,
    pub scale: u32,
}

/// The largest scale of a decimal number.
pub const MAX_SCALE: u32 = 28;

impl DecimalParts {
    /// A decimal number has a 96-bit mantissa and at most 28 fractional digits.
    pub open spec fn wf(self) -> bool {
        &&& self.scale <= MAX_SCALE
        &&& -MAX_UNITS <= self.mantissa <= MAX_UNITS
    }
}

/// One row of the input: a request whose amount is not yet checked.
#[derive(Debug, Clone, Copy, PartialEq, Eq, Structural)]
pub struct CsvRecord {
    pub transaction_type: CsvTransactionType,
    pub client: ClientId,
    pub transaction: TransactionId,
    pub amount: Option<DecimalParts>,
}

impl CsvRecord {
    /// The amount, if there is one, is a decimal number.
    pub open spec fn wf(self) -> bool {
        self.amount matches Some(p) ==> p.wf()
    }

    pub fn is_valid(&self) -> (r: bool)
        ensures
            r == self.wf(),
    {
        match self.amount {
            Some(p) => p.scale <= MAX_SCALE && -MAX_UNITS <= p.mantissa && p.mantissa <= MAX_UNITS,
            None => true,
        }
    }
}

/// One row of the output: the balances of a client.
#[derive(Debug, Clone, Copy, PartialEq, Eq, Structural)]
pub struct OutputCsvRecord {
    pub client_id: ClientId,
    pub available: MonetaryAmount,
    pub held: MonetaryAmount,
    pub total: MonetaryAmount,
    pub locked: bool,
}

/// A decimal number rounded to four fractional digits, midpoint to even, as
/// (mantissa, scale).
pub uninterp spec fn rounded_four_places(mantissa: int, scale: int) -> (int, int);

/// Relies on `rust_decimal::Decimal::round_dp(4)` (midpoint to even): a number
/// with at most four fractional digits comes back as it is; one with more comes
/// back with exactly four; the sign stays; the mantissa stays within 96 bits.
#[verifier::external_body]
fn round_four_places(mantissa: i128, scale: u32) -> (r: (i128, u32))
    requires
        scale <= MAX_SCALE,
        -MAX_UNITS <= mantissa <= MAX_UNITS,
    ensures
        (r.0 as int, r.1 as int) == rounded_four_places(mantissa as int, scale as int),
        scale <= 4 ==> r == (mantissa, scale),
        scale > 4 ==> r.1 == 4,
        mantissa >= 0 ==> r.0 >= 0,
        -MAX_UNITS <= r.0 <= MAX_UNITS,
{
    let d = rust_decimal::Decimal::from_i128_with_scale(mantissa, scale).round_dp(4);
    (d.mantissa(), d.scale())
}

/// The factor that turns a mantissa of the given scale (at most four) into ten-thousandths.
pub open spec fn units_factor(scale: int) -> int {
    if scale == 0 {
        10000
    } else if scale == 1 {
        1000
    } else if scale == 2 {
        100
    } else if scale == 3 {
        10
    } else {
        1
    }
}

/// The amount of a number with at most four fractional digits.
pub open spec fn amount_from_rounded_spec(mantissa: int, scale: int) -> Result<
    MonetaryAmount,
    ProcessTransactionError,
> {
    if mantissa < 0 {
        Err(ProcessTransactionError::InvalidData("Amount must be positive"))
    } else if mantissa * units_factor(scale) > MAX_UNITS {
        Err(ProcessTransactionError::InvalidData("Amount is out of range"))
    } else {
        Ok(MonetaryAmount((mantissa * units_factor(scale)) as i128))
    }
}

/// The amount checked and rounded from the decimal number of a row.
pub open spec fn amount_spec(amount: Option<DecimalParts>) -> Result<
    MonetaryAmount,
    ProcessTransactionError,
> {
    match amount {
        None => Err(ProcessTransactionError::InvalidData("Amount is required for this transaction")),
        Some(p) => {
            if p.mantissa < 0 {
                Err(ProcessTransactionError::InvalidData("Amount must be positive"))
            } else {
                let q = rounded_four_places(p.mantissa as int, p.scale as int);
                amount_from_rounded_spec(q.0, q.1)
            }
        },
    }
}

/// Turns a number with at most four fractional digits into an amount.
pub fn amount_from_rounded(mantissa: i128, scale: u32) -> (r: Result<
    MonetaryAmount,
    ProcessTransactionError,
>)
    requires
        scale <= 4,
        -MAX_UNITS <= mantissa <= MAX_UNITS,
    ensures
        r == amount_from_rounded_spec(mantissa as int, scale as int),
        r is Ok ==> r->Ok_0.is_valid_amount(),
{
    if mantissa < 0 {
        return Err(ProcessTransactionError::InvalidData("Amount must be positive"));
    }
    let factor: i128 = if scale == 0 {
        10000
    } else if scale == 1 {
        1000
    } else if scale == 2 {
        100
    } else if scale == 3 {
        10
    } else {
        1
    };
    assert(0 <= mantissa * factor <= MAX_UNITS * 10000) by (nonlinear_arith)
        requires
            0 <= mantissa <= MAX_UNITS,
            1 <= factor <= 10000,
    ;
    let units = mantissa * factor;
    if units > MAX_UNITS {
        return Err(ProcessTransactionError::InvalidData("Amount is out of range"));
    }
    Ok(MonetaryAmount(units))
}

/// Checks the amount of a deposit or a withdrawal and rounds it to four
/// fractional digits: it must be there and must not be negative.
pub fn validate_amount(amount: Option<DecimalParts>) -> (r: Result<
    MonetaryAmount,
    ProcessTransactionError,
>)
    requires
        amount matches Some(p) ==> p.wf(),
    ensures
        r == amount_spec(amount),
        match amount {
            Some(p) => p.scale <= 4 ==> r == amount_from_rounded_spec(
                p.mantissa as int,
                p.scale as int,
            ),
            None => true,
        },
        r is Ok ==> r->Ok_0.is_valid_amount(),
{
    match amount {
        None => Err(ProcessTransactionError::InvalidData("Amount is required for this transaction")),
        Some(p) => {
            if p.mantissa < 0 {
                return Err(ProcessTransactionError::InvalidData("Amount must be positive"));
            }
            let (m, s) = round_four_places(p.mantissa, p.scale);
            amount_from_rounded(m, s)
        },
    }
}

/// The request that a row stands for.
pub open spec fn request_spec(record: CsvRecord) -> Result<TransactionRequest, ProcessTransactionError> {
    let make = |rt: RequestType|
        TransactionRequest {
            client: record.client,
            transaction: record.transaction,
            request_type: rt,
        };
    match record.transaction_type {
        CsvTransactionType::Deposit => match amount_spec(record.amount) {
            Ok(a) => Ok(make(RequestType::Monetary(MonetaryTransaction::Deposit(a)))),
            Err(e) => Err(e),
        },
        CsvTransactionType::Withdrawal => match amount_spec(record.amount) {
            Ok(a) => Ok(make(RequestType::Monetary(MonetaryTransaction::Withdrawal(a)))),
            Err(e) => Err(e),
        },
        CsvTransactionType::Dispute => Ok(make(RequestType::Claim(ClaimType::Dispute))),
        CsvTransactionType::Resolve => Ok(make(RequestType::Claim(ClaimType::Resolve))),
        CsvTransactionType::Chargeback => Ok(make(RequestType::Claim(ClaimType::Chargeback))),
    }
}

impl TransactionRequest {
    /// The request that a row stands for; a claim ignores the amount.
    pub fn try_from(record: CsvRecord) -> (r: Result<TransactionRequest, ProcessTransactionError>)
        requires
            record.wf(),
        ensures
            r == request_spec(record),
            r is Ok ==> r->Ok_0.wf(),
    {
        let request_type = match record.transaction_type {
            CsvTransactionType::Deposit => {
                match validate_amount(record.amount) {
                    Ok(a) => RequestType::Monetary(MonetaryTransaction::Deposit(a)),
                    Err(e) => {
                        return Err(e);
                    },
                }
            },
            CsvTransactionType::Withdrawal => {
                match validate_amount(record.amount) {
                    Ok(a) => RequestType::Monetary(MonetaryTransaction::Withdrawal(a)),
                    Err(e) => {
                        return Err(e);
                    },
                }
            },
            CsvTransactionType::Dispute => RequestType::Claim(ClaimType::Dispute),
            CsvTransactionType::Resolve => RequestType::Claim(ClaimType::Resolve),
            CsvTransactionType::Chargeback => RequestType::Claim(ClaimType::Chargeback),
        };
        Ok(
            TransactionRequest {
                client: record.client,
                transaction: record.transaction,
                request_type,
            },
        )
    }
}

impl OutputCsvRecord {
    /// The row of a client: its balances, their total, and its lock.
    pub fn from_client(client_id: ClientId, client: &Client) -> (r: OutputCsvRecord)
        requires
            representable(client@.available),
            held_representable(client@.held),
        ensures
            r.client_id == client_id,
            r.available == client.available,
            r.held == client.held,
            r.total.units() == client@.available + client@.held,
            r.locked == client.locked,
    {
        OutputCsvRecord {
            client_id,
            available: client.available,
            held: client.held,
            total: MonetaryAmount(client.available.0 + client.held.0),
            locked: client.locked,
        }
    }
}

} // verus!
