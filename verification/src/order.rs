//! Checking an order request before it is sent to the broker.
use vstd::prelude::*;
use crate::text::{ascii_lower_of, is_ascii_text, str_equal, string_of};

verus! {

/// An order request. The quantity and the limit price enter the check only
/// by their sign, so they are held here as such: `qty_positive` says whether
/// the quantity is above zero, and `limit_price`, when a limit price is
/// given, whether it is above zero.
pub struct OrderRequest {
    pub symbol: String,
    pub qty_positive: bool,
    pub side: String,
    pub order_type: String,
    pub time_in_force: String,
    pub limit_price: Option<bool>,
    pub asset_class: Option<String>,
}

/// What `str::to_lowercase` returns for a text that is not all ASCII: its
/// Unicode lower-case mapping.
pub uninterp spec fn unicode_lowercased(s: Seq<char>) -> Seq<char>;

/// What `str::to_lowercase` returns: on ASCII text the Unicode mapping turns
/// `A` to `Z` into `a` to `z` and keeps every other character; on other text
/// it is the Unicode lower-case mapping.
pub open spec fn lowercased(s: Seq<char>) -> Seq<char> {
    if is_ascii_text(s) {
        s.map_values(|c: char| ascii_lower_of(c))
    } else {
        unicode_lowercased(s)
    }
}

/// `str::to_lowercase`.
#[verifier::external_body]
pub(crate) fn lowercase_text(s: &str) -> (r: String)
    ensures
        r@ == lowercased(s@),
        !is_ascii_text(s@) ==> r@ == unicode_lowercased(s@),
{
    s.to_lowercase()
}

pub open spec fn is_option_side(s: Seq<char>) -> bool {
    s == "buy_to_open"@ || s == "sell_to_open"@ || s == "buy_to_close"@ || s == "sell_to_close"@
}

pub open spec fn is_equity_side(s: Seq<char>) -> bool {
    s == "buy"@ || s == "sell"@
}

pub open spec fn is_order_type(s: Seq<char>) -> bool {
    s == "market"@ || s == "limit"@ || s == "stop"@ || s == "stop_limit"@ || s == "trailing_stop"@
}

pub open spec fn is_time_in_force(s: Seq<char>) -> bool {
    s == "day"@ || s == "gtc"@ || s == "opg"@ || s == "cls"@ || s == "ioc"@ || s == "fok"@
}

pub open spec fn is_option_order(asset_class: Option<String>) -> bool {
    asset_class matches Some(a) && a@ == "us_option"@
}

/// The first rule an order breaks, as the message that reports it; none when
/// the order may be sent. The side, type and time in force are compared in
/// lower case.
pub open spec fn order_error(o: OrderRequest) -> Option<Seq<char>> {
    if o.symbol@.len() == 0 {
        Some("Symbol is required"@)
    } else if !o.qty_positive {
        Some("Quantity must be greater than zero"@)
    } else if is_option_order(o.asset_class) && !is_option_side(lowercased(o.side@)) {
        Some("Option side must be one of: buy_to_open, sell_to_open, buy_to_close, sell_to_close"@)
    } else if !is_option_order(o.asset_class) && !is_equity_side(lowercased(o.side@)) {
        Some("Side must be 'buy' or 'sell'"@)
    } else if !is_order_type(lowercased(o.order_type@)) {
        Some("Invalid order type. Must be one of: [\"market\", \"limit\", \"stop\", \"stop_limit\", \"trailing_stop\"]"@)
    } else if !is_time_in_force(lowercased(o.time_in_force@)) {
        Some("Invalid time in force. Must be one of: [\"day\", \"gtc\", \"opg\", \"cls\", \"ioc\", \"fok\"]"@)
    } else if lowercased(o.order_type@) == "limit"@ && o.limit_price is None {
        Some("Limit price is required for limit orders"@)
    } else if o.limit_price == Some(false) {
        Some("Limit price must be greater than zero"@)
    } else {
        None
    }
}

fn is_one_of(s: &str, options: &[&str]) -> (r: bool)
    ensures
        r == exists|i: int| 0 <= i < options@.len() && options@[i]@ == s@,
{
    let mut i: usize = 0;
    while i < options.len()
        invariant
            i <= options.len(),
            forall|k: int| 0 <= k < i ==> options@[k]@ != s@,
        decreases options.len() - i,
    {
        if str_equal(options[i], s) {
            return true;
        }
        i = i + 1;
    }
    false
}

impl OrderRequest {
    pub fn validate(&self) -> (r: Result<(), String>)
        ensures
            r is Ok <==> order_error(*self) is None,
            r matches Err(e) ==> order_error(*self) == Some(e@),
    {
        if self.symbol.as_str().is_empty() {
            return Err(string_of("Symbol is required"));
        }
        if !self.qty_positive {
            return Err(string_of("Quantity must be greater than zero"));
        }
        let side = lowercase_text(self.side.as_str());
        let is_option_order = match &self.asset_class {
            Some(a) => str_equal(a.as_str(), "us_option"),
            None => false,
        };
        let option_sides: [&str; 4] = ["buy_to_open", "sell_to_open", "buy_to_close", "sell_to_close"];
        let equity_sides: [&str; 2] = ["buy", "sell"];
        let side_ok = if is_option_order {
            is_one_of(side.as_str(), &option_sides)
        } else {
            is_one_of(side.as_str(), &equity_sides)
        };
        proof {
            if is_option_order {
                assert(side_ok == is_option_side(side@)) by {
                    if is_option_side(side@) {
                        if side@ == "buy_to_open"@ { assert(option_sides@[0]@ == side@); }
                        if side@ == "sell_to_open"@ { assert(option_sides@[1]@ == side@); }
                        if side@ == "buy_to_close"@ { assert(option_sides@[2]@ == side@); }
                        if side@ == "sell_to_close"@ { assert(option_sides@[3]@ == side@); }
                    }
                }
            } else {
                assert(side_ok == is_equity_side(side@)) by {
                    if is_equity_side(side@) {
                        if side@ == "buy"@ { assert(equity_sides@[0]@ == side@); }
                        if side@ == "sell"@ { assert(equity_sides@[1]@ == side@); }
                    }
                }
            }
        }
        if !side_ok {
            if is_option_order {
                return Err(string_of("Option side must be one of: buy_to_open, sell_to_open, buy_to_close, sell_to_close"));
            }
            return Err(string_of("Side must be 'buy' or 'sell'"));
        }
        let order_type = lowercase_text(self.order_type.as_str());
        let types: [&str; 5] = ["market", "limit", "stop", "stop_limit", "trailing_stop"];
        let type_ok = is_one_of(order_type.as_str(), &types);
        proof {
            assert(type_ok == is_order_type(order_type@)) by {
                if is_order_type(order_type@) {
                    if order_type@ == "market"@ { assert(types@[0]@ == order_type@); }
                    if order_type@ == "limit"@ { assert(types@[1]@ == order_type@); }
                    if order_type@ == "stop"@ { assert(types@[2]@ == order_type@); }
                    if order_type@ == "stop_limit"@ { assert(types@[3]@ == order_type@); }
                    if order_type@ == "trailing_stop"@ { assert(types@[4]@ == order_type@); }
                }
            }
        }
        if !type_ok {
            return Err(string_of("Invalid order type. Must be one of: [\"market\", \"limit\", \"stop\", \"stop_limit\", \"trailing_stop\"]"));
        }
        let tif = lowercase_text(self.time_in_force.as_str());
        let tifs: [&str; 6] = ["day", "gtc", "opg", "cls", "ioc", "fok"];
        let tif_ok = is_one_of(tif.as_str(), &tifs);
        proof {
            assert(tif_ok == is_time_in_force(tif@)) by {
                if is_time_in_force(tif@) {
                    if tif@ == "day"@ { assert(tifs@[0]@ == tif@); }
                    if tif@ == "gtc"@ { assert(tifs@[1]@ == tif@); }
                    if tif@ == "opg"@ { assert(tifs@[2]@ == tif@); }
                    if tif@ == "cls"@ { assert(tifs@[3]@ == tif@); }
                    if tif@ == "ioc"@ { assert(tifs@[4]@ == tif@); }
                    if tif@ == "fok"@ { assert(tifs@[5]@ == tif@); }
                }
            }
        }
        if !tif_ok {
            return Err(string_of("Invalid time in force. Must be one of: [\"day\", \"gtc\", \"opg\", \"cls\", \"ioc\", \"fok\"]"));
        }
        if str_equal(order_type.as_str(), "limit") && self.limit_price.is_none() {
            return Err(string_of("Limit price is required for limit orders"));
        }
        if let Some(positive) = self.limit_price {
            if !positive {
                return Err(string_of("Limit price must be greater than zero"));
            }
        }
        Ok(())
    }
}

/// An order may go to the broker exactly when it has a symbol and a positive
/// quantity; its side, compared in lower case, is buy_to_open, sell_to_open,
/// buy_to_close or sell_to_close for an option order (asset class
/// "us_option") and buy or sell for any other; its type is market, limit,
/// stop, stop_limit or trailing_stop; its time in force is day, gtc, opg,
/// cls, ioc or fok; a limit order has a limit price; and a limit price, when
/// given, is above zero.
pub proof fn law_order_acceptance(o: OrderRequest)
    ensures
        order_error(o) is None <==> {
            let side = lowercased(o.side@);
            let kind = lowercased(o.order_type@);
            let tif = lowercased(o.time_in_force@);
            let option = o.asset_class matches Some(a) && a@ == "us_option"@;
            &&& o.symbol@.len() > 0
            &&& o.qty_positive
            &&& option ==> (side == "buy_to_open"@ || side == "sell_to_open"@ || side == "buy_to_close"@
                || side == "sell_to_close"@)
            &&& !option ==> (side == "buy"@ || side == "sell"@)
            &&& (kind == "market"@ || kind == "limit"@ || kind == "stop"@ || kind == "stop_limit"@
                || kind == "trailing_stop"@)
            &&& (tif == "day"@ || tif == "gtc"@ || tif == "opg"@ || tif == "cls"@ || tif == "ioc"@ || tif == "fok"@)
            &&& kind == "limit"@ ==> o.limit_price is Some
            &&& o.limit_price != Some(false)
        },
{
}

/// An option order with a symbol and a positive quantity whose side is none
/// of the four option sides is refused for its side.
pub proof fn law_option_side_refused(o: OrderRequest)
    requires
        o.symbol@.len() > 0,
        o.qty_positive,
        o.asset_class matches Some(a) && a@ == "us_option"@,
        !({
            let side = lowercased(o.side@);
            side == "buy_to_open"@ || side == "sell_to_open"@ || side == "buy_to_close"@ || side == "sell_to_close"@
        }),
    ensures
        order_error(o) == Some("Option side must be one of: buy_to_open, sell_to_open, buy_to_close, sell_to_close"@),
{
}

} // verus!
