//! Diagnostic messages: one per rejected transaction, never fatal. Each
//! message renders to one error line, and the rendering is itself verified,
//! down to the decimal digits.

use vstd::prelude::*;

use crate::transaction::{ClientId, TxId, TxType};

verus! {

/// Why a transaction was rejected, tagged with the client and transaction it
/// belongs to. Emitting a message never mutates an account.
#[derive(Debug, Clone, Copy, PartialEq, Eq, Structural)]
pub enum Message {
    /// A withdrawal larger than the available balance.
    NotEnoughFunds(ClientId, TxId, TxType),
    /// A dispute of a record that is already in dispute.
    AlreadyInDispute(ClientId, TxId, TxType),
    /// A dispute, resolve or chargeback of a record whose lifecycle ended.
    AlreadyDisputed(ClientId, TxId, TxType),
    /// A resolve or chargeback of a record that is not in dispute.
    NotInDispute(ClientId, TxId, TxType),
    /// Any transaction against an account a chargeback has locked.
    AccountIsLocked(ClientId, TxId, TxType),
    /// A deposit or withdrawal reusing an id already in the history.
    TransactionExist(ClientId, TxId, TxType),
    /// A dispute, resolve or chargeback of an id with no stored record.
    UnknownTransaction(ClientId, TxId),
}

impl TxType {
    /// The kind's name, as diagnostics print it.
    pub open spec fn spec_name(self) -> Seq<char> {
        match self {
            TxType::Deposit => "Deposit"@,
            TxType::Withdrawal => "Withdrawal"@,
            TxType::Dispute => "Dispute"@,
            TxType::Resolve => "Resolve"@,
            TxType::Chargeback => "Chargeback"@,
        }
    }

    /// The kind's name, for building diagnostic lines.
    pub fn name(&self) -> (r: &'static str)
        ensures
            r@ == self.spec_name(),
    {
        match *self {
            TxType::Deposit => "Deposit",
            TxType::Withdrawal => "Withdrawal",
            TxType::Dispute => "Dispute",
            TxType::Resolve => "Resolve",
            TxType::Chargeback => "Chargeback",
        }
    }
}

/// The single decimal digit `d` as text; meaningful for `0 <= d < 10`.
pub open spec fn digit_seq(d: int) -> Seq<char> {
    if d == 0 {
        "0"@
    } else if d == 1 {
        "1"@
    } else if d == 2 {
        "2"@
    } else if d == 3 {
        "3"@
    } else if d == 4 {
        "4"@
    } else if d == 5 {
        "5"@
    } else if d == 6 {
        "6"@
    } else if d == 7 {
        "7"@
    } else if d == 8 {
        "8"@
    } else {
        "9"@
    }
}

/// The decimal digits of `n`, most significant first; meaningful for
/// `n >= 0`.
pub open spec fn dec_digits(n: int) -> Seq<char>
    decreases n,
{
    if n < 10 {
        digit_seq(n)
    } else {
        dec_digits(n / 10) + digit_seq(n % 10)
    }
}

/// The single decimal digit `d` as text.
fn digit_str(d: u32) -> (r: &'static str)
    requires
        d < 10,
    ensures
        r@ == digit_seq(d as int),
{
    match d {
        0 => "0",
        1 => "1",
        2 => "2",
        3 => "3",
        4 => "4",
        5 => "5",
        6 => "6",
        7 => "7",
        8 => "8",
        _ => "9",
    }
}

/// Append the decimal digits of `n` to `out`.
fn push_digits(n: u32, out: &mut String)
    ensures
        final(out)@ == old(out)@ + dec_digits(n as int),
    decreases n,
{
    if n >= 10 {
        push_digits(n / 10, out);
        out.append(digit_str(n % 10));
        proof {
            assert(out@ =~= old(out)@ + dec_digits(n as int));
        }
    } else {
        out.append(digit_str(n));
    }
}

/// The error line for a rejection that names its transaction kind.
pub open spec fn line_text(ty: TxType, tx: TxId, client: ClientId, reason: Seq<char>) -> Seq<
    char,
> {
    "ERROR: Cannot process "@ + ty.spec_name() + " transaction "@ + dec_digits(tx as int)
        + " for client "@ + dec_digits(client as int) + ". "@ + reason + "."@
}

/// The rendered diagnostic line for a message, character for character.
pub open spec fn message_text(m: Message) -> Seq<char> {
    match m {
        Message::NotEnoughFunds(c, t, ty) => line_text(ty, t, c, "Not enough funds"@),
        Message::AlreadyInDispute(c, t, ty) => line_text(
            ty,
            t,
            c,
            "Transaction already in dispute"@,
        ),
        Message::AlreadyDisputed(c, t, ty) => line_text(
            ty,
            t,
            c,
            "Transaction was already disputed"@,
        ),
        Message::NotInDispute(c, t, ty) => line_text(ty, t, c, "Transaction is not in dispute"@),
        Message::AccountIsLocked(c, t, ty) => line_text(ty, t, c, "Account is locked"@),
        Message::TransactionExist(c, t, ty) => line_text(
            ty,
            t,
            c,
            "Transaction with the same id was already processed"@,
        ),
        Message::UnknownTransaction(c, t) => "ERROR: Cannot process transaction "@ + dec_digits(
            t as int,
        ) + " for client "@ + dec_digits(c as int) + ". Transaction is unknown."@,
    }
}

/// Build the error line for a rejection that names its transaction kind.
fn render_line(ty: TxType, tx: TxId, client: ClientId, reason: &str) -> (r: String)
    ensures
        r@ == line_text(ty, tx, client, reason@),
{
    let mut out = String::new();
    out.append("ERROR: Cannot process ");
    out.append(ty.name());
    out.append(" transaction ");
    push_digits(tx, &mut out);
    out.append(" for client ");
    push_digits(client as u32, &mut out);
    out.append(". ");
    out.append(reason);
    out.append(".");
    proof {
        assert(out@ =~= line_text(ty, tx, client, reason@));
    }
    out
}

impl Message {
    /// The diagnostic line for this message, as a collaborator prints it.
    pub fn render(&self) -> (r: String)
        ensures
            r@ == message_text(*self),
    {
        match *self {
            Message::NotEnoughFunds(c, t, ty) => render_line(ty, t, c, "Not enough funds"),
            Message::AlreadyInDispute(c, t, ty) => render_line(
                ty,
                t,
                c,
                "Transaction already in dispute",
            ),
            Message::AlreadyDisputed(c, t, ty) => render_line(
                ty,
                t,
                c,
                "Transaction was already disputed",
            ),
            Message::NotInDispute(c, t, ty) => render_line(
                ty,
                t,
                c,
                "Transaction is not in dispute",
            ),
            Message::AccountIsLocked(c, t, ty) => render_line(ty, t, c, "Account is locked"),
            Message::TransactionExist(c, t, ty) => render_line(
                ty,
                t,
                c,
                "Transaction with the same id was already processed",
            ),
            Message::UnknownTransaction(c, t) => {
                let mut out = String::new();
                out.append("ERROR: Cannot process transaction ");
                push_digits(t, &mut out);
                out.append(" for client ");
                push_digits(c as u32, &mut out);
                out.append(". Transaction is unknown.");
                proof {
                    assert(out@ =~= message_text(*self));
                }
                out
            },
        }
    }
}

} // verus!
