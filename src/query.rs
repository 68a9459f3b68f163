//! Query parameters of the builder and data endpoints. Values arrive as text
//! and are held as the handlers receive them; hashes and keys stay in their
//! hex form.

use vstd::prelude::*;
use crate::json_shape::same_text;

verus! {

#[derive(Debug, Clone, PartialEq, Eq, Structural)]
pub struct SubmitBlockQueryParams {
    pub cancellations: Option<bool>,
}

/// The order of a listing by bid value.
#[derive(Debug, Clone, Copy, PartialEq, Eq, Structural)]
pub enum OrderBy {
    /// Ascending, written `value`.
    Value,
    /// Descending, written `-value`.
    NegativeValue,
}

#[derive(Debug, Clone, PartialEq)]
pub struct GetDeliveredPayloadsQueryParams {
    pub slot: Option<u64>,
    pub cursor: Option<u64>,
    pub limit: Option<u64>,
    pub block_hash: Option<String>,
    pub block_number: Option<u64>,
    pub proposer_pubkey: Option<String>,
    pub builder_pubkey: Option<String>,
    pub order_by: Option<OrderBy>,
}

#[derive(Debug, Clone, PartialEq)]
pub struct GetReceivedBidsQueryParams {
    pub slot: Option<u64>,
    pub block_hash: Option<String>,
    pub block_number: Option<u64>,
    pub builder_pubkey: Option<String>,
    pub limit: Option<u64>,
}

#[derive(Debug, Clone, PartialEq)]
pub struct GetValidatorRegistrationQueryParams {
    pub pubkey: String,
}

impl OrderBy {
    pub open spec fn spec_text(self) -> Seq<char> {
        match self {
            OrderBy::Value => "value"@,
            OrderBy::NegativeValue => "-value"@,
        }
    }

    /// How the order is written in a query.
    pub fn as_text(&self) -> (r: &'static str)
        ensures
            r@ == self.spec_text(),
    {
        match self {
            OrderBy::Value => "value",
            OrderBy::NegativeValue => "-value",
        }
    }

    /// Reads an order as written in a query.
    pub fn from_text(s: &str) -> (r: Option<OrderBy>)
        ensures
            r == (if s@ == "value"@ {
                Some(OrderBy::Value)
            } else if s@ == "-value"@ {
                Some(OrderBy::NegativeValue)
            } else {
                None::<OrderBy>
            }),
    {
        if same_text(s, "value") {
            Some(OrderBy::Value)
        } else if same_text(s, "-value") {
            Some(OrderBy::NegativeValue)
        } else {
            None
        }
    }
}

} // verus!
