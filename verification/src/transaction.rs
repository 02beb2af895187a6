//! Transaction records: the immutable events fed to the ledger, and the raw
//! input rows they are built from.
//!
//! Amounts are fixed-point integers: a caller picks the scale (for instance
//! ten-thousandths of a currency unit) and converts at the boundary.

use vstd::prelude::*;

verus! {

pub type ClientId = u16;

pub type TxId = u32;

pub type Amount = i64;

/// The five kinds of input event.
#[derive(Debug, Clone, Copy, PartialEq, Eq, Structural)]
pub enum TxType {
    Deposit,
    Withdrawal,
    Dispute,
    Resolve,
    Chargeback,
}

/// Dispute lifecycle of a stored deposit or withdrawal record:
/// `Active` until a dispute arrives, `InDispute` while one is open,
/// `Disputed` once resolved or charged back (terminal).
#[derive(Debug, Clone, Copy, PartialEq, Eq, Structural)]
pub enum TxState {
    Active,
    InDispute,
    Disputed,
}

impl Default for TxState {
    fn default() -> (r: Self)
        ensures
            r == TxState::Active,
    {
        TxState::Active
    }
}

/// One transaction, as the ledger stores and processes it.
#[derive(Debug, Clone, Copy, PartialEq, Eq, Structural)]
pub struct Tx {
    pub ty: TxType,
    pub client_id: ClientId,
    pub tx_id: TxId,
    pub amount: Amount,
    pub state: TxState,
}

impl Tx {
    /// The signed amount a dispute of this record moves from `available` to
    /// `held`: `+amount` for a deposit, `-amount` for a withdrawal, since
    /// reversing an outgoing payment restores funds rather than freezing them.
    pub open spec fn dispute_adjustment(self) -> int {
        if self.ty == TxType::Withdrawal {
            -(self.amount as int)
        } else {
            self.amount as int
        }
    }
}

/// A raw input row, before validation: disputes, resolves and chargebacks
/// carry no amount of their own.
#[derive(Debug, Clone, Copy)]
pub struct InputTx {
    pub ty: TxType,
    pub client: ClientId,
    pub tx: TxId,
    pub amount: Option<Amount>,
}

/// Why an input row is rejected before it reaches the ledger.
#[derive(Debug, Clone, Copy, PartialEq, Eq, Structural)]
pub enum InputError {
    /// A deposit or withdrawal row with no amount.
    MissingAmount(ClientId, TxId, TxType),
    /// A deposit or withdrawal row whose amount is zero or negative.
    NonPositiveAmount(ClientId, TxId, TxType),
}

impl InputTx {
    /// Which error, if any, `validate` reports for this row.
    pub open spec fn spec_validate(self) -> Result<(), InputError> {
        if self.ty == TxType::Deposit || self.ty == TxType::Withdrawal {
            match self.amount {
                Option::None => Result::Err(InputError::MissingAmount(self.client, self.tx, self.ty)),
                Option::Some(a) => if a <= 0 {
                    Result::Err(InputError::NonPositiveAmount(self.client, self.tx, self.ty))
                } else {
                    Result::Ok(())
                },
            }
        } else {
            Result::Ok(())
        }
    }

    /// A deposit or withdrawal must carry a positive amount; any other row is
    /// accepted as it stands.
    pub fn validate(&self) -> (r: Result<(), InputError>)
        ensures
            r == self.spec_validate(),
    {
        match self.ty {
            TxType::Deposit | TxType::Withdrawal => match self.amount {
                Option::None => Result::Err(InputError::MissingAmount(self.client, self.tx, self.ty)),
                Option::Some(a) => {
                    if a <= 0 {
                        Result::Err(InputError::NonPositiveAmount(self.client, self.tx, self.ty))
                    } else {
                        Result::Ok(())
                    }
                },
            },
            _ => Result::Ok(()),
        }
    }

    /// True of a dispute, resolve or chargeback row that carries an amount:
    /// such a row is still processed, but a caller may warn about it.
    pub open spec fn spec_spurious_amount(self) -> bool {
        self.ty != TxType::Deposit && self.ty != TxType::Withdrawal && self.amount is Some
    }

    /// Whether this row carries an amount that its kind never uses.
    pub fn has_spurious_amount(&self) -> (r: bool)
        ensures
            r == self.spec_spurious_amount(),
    {
        match self.ty {
            TxType::Deposit | TxType::Withdrawal => false,
            _ => self.amount.is_some(),
        }
    }
}

impl From<InputTx> for Tx {
    /// A validated row becomes a ledger transaction; a missing amount (legal
    /// only for the kinds that never use one) is stored as zero.
    fn from(t: InputTx) -> (r: Tx) {
        Tx {
            ty: t.ty,
            client_id: t.client,
            tx_id: t.tx,
            amount: match t.amount {
                Option::Some(a) => a,
                Option::None => 0,
            },
            state: TxState::Active,
        }
    }
}

impl vstd::std_specs::convert::FromSpecImpl<InputTx> for Tx {
    open spec fn obeys_from_spec() -> bool {
        true
    }

    open spec fn from_spec(t: InputTx) -> Tx {
        Tx {
            ty: t.ty,
            client_id: t.client,
            tx_id: t.tx,
            amount: match t.amount {
                Option::Some(a) => a,
                Option::None => 0,
            },
            state: TxState::Active,
        }
    }
}

} // verus!
