//! Reading BOLT11 invoices.
//!
//! The invoice is parsed by the `lightning_invoice` crate. What its parser
//! gives for a text is named here, and only the two facts that payment
//! verification reads are taken from it: the payment hash and the amount.
//! Before the parser is called, the amount in the human-readable part is
//! bounded: an amount in whole bitcoin (one without a multiplier letter)
//! above `MAX_WHOLE_BITCOIN` is more than a u64 holds in the parser's unit,
//! and such a text is no invoice.

use std::str::FromStr;
use vstd::prelude::*;
use vstd::string::StringSliceAdditionalSpecFns;

verus! {

/// The largest amount in whole bitcoin that an invoice can state.
pub const MAX_WHOLE_BITCOIN: u64 = 18_446_744;

/// The facts of an invoice that payment verification reads.
#[derive(Debug, Clone, Copy)]
pub struct InvoiceFacts {
    /// The payment hash.
    pub payment_hash: [u8; 32],
    /// The amount in millisatoshis, where the invoice states one.
    pub amount_msats: Option<u64>,
}

/// What the parser of `lightning_invoice` gives for a text: for a valid
/// signed invoice its payment hash and, where it states one, its amount in
/// millisatoshis; for any other text the parser's words on why it is none.
pub uninterp spec fn invoice_facts(invoice: Seq<char>) -> Result<
    ([u8; 32], Option<u64>),
    Seq<char>,
>;

/// What the parser gave, with the words of an error as a text.
pub open spec fn parsed_view(r: Result<([u8; 32], Option<u64>), String>) -> Result<
    ([u8; 32], Option<u64>),
    Seq<char>,
> {
    match r {
        Ok(f) => Ok(f),
        Err(why) => Err(why@),
    }
}

/// `lightning_invoice::Invoice::from_str`, then `payment_hash` and
/// `amount_milli_satoshis` of the invoice, or the error as it prints itself:
/// the facts of the invoice that the text holds, or why it holds none. The
/// parser multiplies an amount in whole bitcoin by ten to the twelfth, so
/// the text's amount must be bounded.
#[verifier::external_body]
pub(crate) fn parse_invoice(invoice: &str) -> (r: Result<([u8; 32], Option<u64>), String>)
    requires
        amount_fits(invoice.spec_bytes()),
    ensures
        parsed_view(r) == invoice_facts(invoice@),
{
    match lightning_invoice::Invoice::from_str(invoice) {
        Ok(parsed) => {
            let mut payment_hash = [0u8; 32];
            payment_hash.copy_from_slice(parsed.payment_hash().as_ref());
            Ok((payment_hash, parsed.amount_milli_satoshis()))
        },
        Err(e) => Err(e.to_string()),
    }
}

/// An ASCII decimal digit.
pub open spec fn is_digit(b: u8) -> bool {
    0x30 <= b <= 0x39
}

/// Place of the last `1` before `end`, or -1: in a bech32 text the last `1`
/// parts the human-readable part from the data.
pub open spec fn last_separator(s: Seq<u8>, end: int) -> int
    decreases end,
{
    if end <= 0 {
        -1
    } else if s[end - 1] == 0x31u8 {
        end - 1
    } else {
        last_separator(s, end - 1)
    }
}

/// Place at which the digits that end just before `end` begin.
pub open spec fn digits_start(s: Seq<u8>, end: int) -> int
    decreases end,
{
    if end <= 0 || !is_digit(s[end - 1]) {
        end
    } else {
        digits_start(s, end - 1)
    }
}

/// The number that the digits from `from` up to `to` spell.
pub open spec fn digits_value(s: Seq<u8>, from: int, to: int) -> nat
    decreases to - from,
{
    if to <= from {
        0
    } else {
        digits_value(s, from, to - 1) * 10 + (s[to - 1] - 0x30) as nat
    }
}

/// The amount of an invoice text is within bounds: the human-readable part
/// does not end in digits that spell more than `MAX_WHOLE_BITCOIN`. (Digits
/// followed by a multiplier letter are bounded by the parser itself.)
pub open spec fn amount_fits(s: Seq<u8>) -> bool {
    let sep = last_separator(s, s.len() as int);
    sep < 0 || digits_value(s, digits_start(s, sep), sep) <= MAX_WHOLE_BITCOIN
}

proof fn lemma_digits_value_grows(s: Seq<u8>, from: int, mid: int, to: int)
    requires
        from <= mid <= to <= s.len(),
        0 <= from,
        forall|i: int| from <= i < to ==> is_digit(s[i]),
    ensures
        digits_value(s, from, mid) <= digits_value(s, from, to),
    decreases to - mid,
{
    if mid < to {
        lemma_digits_value_grows(s, from, mid, to - 1);
    }
}

proof fn lemma_digits_start(s: Seq<u8>, end: int)
    requires
        0 <= end <= s.len(),
    ensures
        0 <= digits_start(s, end) <= end,
        forall|i: int| digits_start(s, end) <= i < end ==> is_digit(s[i]),
    decreases end,
{
    if end > 0 && is_digit(s[end - 1]) {
        lemma_digits_start(s, end - 1);
    }
}

/// Whether the amount of an invoice text is within bounds.
pub fn amount_is_bounded(invoice: &str) -> (r: bool)
    ensures
        r == amount_fits(invoice.spec_bytes()),
{
    let s = invoice.as_bytes();
    let mut sep: usize = s.len();
    while sep > 0 && s[sep - 1] != 0x31
        invariant
            sep <= s@.len(),
            last_separator(s@, s@.len() as int) == last_separator(s@, sep as int),
        decreases sep,
    {
        sep -= 1;
    }
    if sep == 0 {
        return true;
    }
    let end: usize = sep - 1;
    let mut start: usize = end;
    while start > 0 && 0x30 <= s[start - 1] && s[start - 1] <= 0x39
        invariant
            start <= end < s@.len(),
            digits_start(s@, end as int) == digits_start(s@, start as int),
        decreases start,
    {
        start -= 1;
    }
    proof {
        lemma_digits_start(s@, end as int);
    }
    let mut value: u64 = 0;
    let mut k: usize = start;
    while k < end
        invariant
            start <= k <= end < s@.len(),
            s@ == invoice.spec_bytes(),
            last_separator(s@, s@.len() as int) == end,
            start == digits_start(s@, end as int),
            forall|i: int| start <= i < end ==> is_digit(s@[i]),
            value == digits_value(s@, start as int, k as int),
            value <= MAX_WHOLE_BITCOIN,
        decreases end - k,
    {
        value = value * 10 + (s[k] - 0x30) as u64;
        k += 1;
        if value > MAX_WHOLE_BITCOIN {
            proof {
                lemma_digits_value_grows(s@, start as int, k as int, end as int);
            }
            return false;
        }
    }
    true
}

/// The facts of an invoice or the reason why there are none, with the
/// reason as a text.
pub open spec fn facts_view(r: Result<InvoiceFacts, String>) -> Result<InvoiceFacts, Seq<char>> {
    match r {
        Ok(f) => Ok(f),
        Err(why) => Err(why@),
    }
}

/// The facts of the invoice that a text holds, or why it holds none.
pub fn read_invoice(invoice: &str) -> (r: Result<InvoiceFacts, String>)
    ensures
        facts_view(r) == readable_invoice(invoice@),
{
    if !amount_is_bounded(invoice) {
        return Err("amount out of range".to_owned());
    }
    match parse_invoice(invoice) {
        Ok((payment_hash, amount_msats)) => Ok(InvoiceFacts { payment_hash, amount_msats }),
        Err(why) => Err(why),
    }
}

/// The facts of the invoice that a text holds: those that the parser
/// gives, for a text whose amount is within bounds; else the reason why it
/// holds none.
pub open spec fn readable_invoice(invoice: Seq<char>) -> Result<InvoiceFacts, Seq<char>> {
    if amount_fits(vstd::utf8::encode_utf8(invoice)) {
        match invoice_facts(invoice) {
            Ok((payment_hash, amount_msats)) => Ok(InvoiceFacts { payment_hash, amount_msats }),
            Err(why) => Err(why),
        }
    } else {
        Err("amount out of range"@)
    }
}

} // verus!
