//! The exchange's REST market listing and the markets it describes.
use vstd::prelude::*;

use crate::market::{Market, MarketType as DomainMarketType, SpotMarket};

verus! {

/// The body of the market listing response.
#[derive(Clone, Debug)]
pub struct ResponseRoot {
    pub success: bool,
    pub result: ResponseResult,
}

/// The payload of a REST response.
#[derive(Clone, Debug)]
pub enum ResponseResult {
    Markets(Vec<MarketInfo>),
}

/// One market record of the listing; increments are fixed-point integers.
#[derive(Clone, Debug)]
pub struct MarketInfo {
    pub name: String,
    pub base_currency: Option<String>,
    pub quote_currency: Option<String>,
    pub min_provide_size: u64,
    pub market_type: String,
    pub underlying: Option<String>,
    pub enabled: bool,
    pub post_only: Option<bool>,
    pub price_increment: u64,
    pub size_increment: u64,
    pub restricted: Option<bool>,
}

/// The market kinds that the listing names.
#[derive(Clone, Copy, Debug, PartialEq, Eq, Structural)]
pub enum MarketType {
    Spot,
    Future,
}

/// The record describes a market that is supported: a spot market
/// with both currencies, or a future.
pub open spec fn is_supported(info: MarketInfo) -> bool {
    ||| info.market_type@ == "spot"@ && info.base_currency.is_some() && info.quote_currency.is_some()
    ||| info.market_type@ == "future"@
}

/// `m` is the market that `info` describes.
pub open spec fn market_from(m: Market, info: MarketInfo) -> bool {
    &&& m.name@ == info.name@
    &&& m.native_symbol@ == info.name@
    &&& m.size_increment == info.size_increment
    &&& m.price_increment == info.price_increment
    &&& match m.market_type {
        DomainMarketType::Spot(s) => {
            &&& info.market_type@ == "spot"@
            &&& s.base@ == info.base_currency->0@
            &&& s.quote@ == info.quote_currency->0@
        },
        DomainMarketType::Futures => info.market_type@ == "future"@,
    }
}

/// The message with which `info` is refused.
pub open spec fn rejection_message(info: MarketInfo) -> Seq<char> {
    if info.market_type@ == "spot"@ {
        if info.base_currency.is_none() {
            "Missing base currency"@
        } else {
            "Missing quote currency"@
        }
    } else {
        "Invalid market type: "@ + info.market_type@
    }
}

/// The records of `s` that are supported, in order.
pub open spec fn supported_infos(s: Seq<MarketInfo>) -> Seq<MarketInfo>
    decreases s.len(),
{
    if s.len() == 0 {
        Seq::empty()
    } else if is_supported(s.last()) {
        supported_infos(s.drop_last()).push(s.last())
    } else {
        supported_infos(s.drop_last())
    }
}

impl Market {
    /// Builds the market that one record of the listing describes.
    pub fn try_from(market: &MarketInfo) -> (r: Result<Market, String>)
        ensures
            r.is_ok() == is_supported(*market),
            match r {
                Ok(m) => market_from(m, *market),
                Err(e) => e@ == rejection_message(*market),
            },
    {
        assert("spot"@ != "future"@) by {
            reveal_strlit("spot");
            reveal_strlit("future");
            assert("spot"@.len() != "future"@.len());
        }
        let market_type = if market.market_type == String::from_str("spot") {
            let base = match &market.base_currency {
                Some(b) => b.clone(),
                None => {
                    return Err(String::from_str("Missing base currency"));
                },
            };
            let quote = match &market.quote_currency {
                Some(q) => q.clone(),
                None => {
                    return Err(String::from_str("Missing quote currency"));
                },
            };
            DomainMarketType::Spot(SpotMarket { base, quote })
        } else if market.market_type == String::from_str("future") {
            DomainMarketType::Futures
        } else {
            let mut e = String::from_str("Invalid market type: ");
            e.append(market.market_type.as_str());
            return Err(e);
        };
        Ok(Market {
            name: market.name.clone(),
            native_symbol: market.name.clone(),
            size_increment: market.size_increment,
            price_increment: market.price_increment,
            market_type,
        })
    }
}

/// The markets of a listing: each supported record, in order; the
/// others are left out.
pub fn markets_from_response(root: &ResponseRoot) -> (r: Vec<Market>)
    ensures
        match root.result {
            ResponseResult::Markets(infos) => {
                &&& r@.len() == supported_infos(infos@).len()
                &&& forall|j: int| 0 <= j < r@.len() ==> market_from(#[trigger] r@[j], supported_infos(infos@)[j])
            },
        },
{
    let ResponseResult::Markets(infos) = &root.result;
    let mut out: Vec<Market> = Vec::new();
    let mut k: usize = 0;
    while k < infos.len()
        invariant
            k <= infos@.len(),
            out@.len() == supported_infos(infos@.take(k as int)).len(),
            forall|j: int| 0 <= j < out@.len() ==> market_from(#[trigger] out@[j], supported_infos(infos@.take(k as int))[j]),
        decreases infos@.len() - k,
    {
        assert(infos@.take(k as int + 1).drop_last() =~= infos@.take(k as int));
        assert(infos@.take(k as int + 1).last() == infos@[k as int]);
        match Market::try_from(&infos[k]) {
            Ok(m) => {
                out.push(m);
            },
            Err(_) => {},
        }
        k = k + 1;
    }
    assert(infos@.take(k as int) =~= infos@);
    out
}

} // verus!
