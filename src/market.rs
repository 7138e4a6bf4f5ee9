use vstd::prelude::*;

use crate::models::MarketPrice;

verus! {

/// Region id under which global average prices are stored.
pub const GLOBAL_REGION_ID: i32 = 10000002;

/// A request to refresh cached prices; an empty list asks for every type
/// that the price source knows.
#[derive(Debug, Clone)]
pub struct UpdateMarketPricesRequest {
    pub type_ids: Vec<i32>,
}

/// A price fetched from the price source, in hundredths of ISK.
#[derive(Debug, Clone, Copy, PartialEq, Eq)]
pub struct PriceQuote {
    pub type_id: i32,
    pub sell: i64,
    pub buy: i64,
    pub volume: i32,
}

/// `i` is the first position in `quotes` whose type id is `id`.
pub open spec fn is_first_quote(quotes: Seq<PriceQuote>, id: i32, i: int) -> bool {
    &&& 0 <= i < quotes.len()
    &&& quotes[i].type_id == id
    &&& forall|j: int| 0 <= j < i ==> quotes[j].type_id != id
}

/// The first quote for `id`, if any.
pub open spec fn quote_for(quotes: Seq<PriceQuote>, id: i32) -> Option<PriceQuote> {
    if exists|i: int| is_first_quote(quotes, id, i) {
        Some(quotes[choose|i: int| is_first_quote(quotes, id, i)])
    } else {
        None
    }
}

/// The quotes for the requested ids that the source has, in request order.
pub open spec fn requested_quotes(requested: Seq<i32>, quotes: Seq<PriceQuote>) -> Seq<PriceQuote>
    decreases requested.len(),
{
    if requested.len() == 0 {
        Seq::empty()
    } else {
        let rest = requested_quotes(requested.drop_last(), quotes);
        match quote_for(quotes, requested.last()) {
            Some(q) => rest.push(q),
            None => rest,
        }
    }
}

/// The quotes to store: all of them where no id is requested.
pub open spec fn selected_quotes(requested: Seq<i32>, quotes: Seq<PriceQuote>) -> Seq<PriceQuote> {
    if requested.len() == 0 {
        quotes
    } else {
        requested_quotes(requested, quotes)
    }
}

/// `row` stores quote `q`, stamped `updated_at`.
pub open spec fn row_spec(row: MarketPrice, q: PriceQuote, updated_at: Seq<char>) -> bool {
    &&& row.type_id == q.type_id
    &&& row.region_id == GLOBAL_REGION_ID
    &&& row.sell_price == Some(q.sell)
    &&& row.buy_price == Some(q.buy)
    &&& row.daily_volume == Some(q.volume)
    &&& row.updated_at@ == updated_at
}

fn find_quote(quotes: &Vec<PriceQuote>, id: i32) -> (r: Option<PriceQuote>)
    ensures
        r == quote_for(quotes@, id),
{
    let mut i: usize = 0;
    while i < quotes.len()
        invariant
            i <= quotes@.len(),
            forall|j: int| 0 <= j < i ==> quotes@[j].type_id != id,
        decreases quotes@.len() - i,
    {
        if quotes[i].type_id == id {
            assert(is_first_quote(quotes@, id, i as int));
            let ghost c = choose|k: int| is_first_quote(quotes@, id, k);
            assert(c == i);
            return Some(quotes[i]);
        }
        i = i + 1;
    }
    None
}

fn price_row(q: PriceQuote, updated_at: &String) -> (r: MarketPrice)
    ensures
        row_spec(r, q, updated_at@),
{
    MarketPrice {
        type_id: q.type_id,
        region_id: GLOBAL_REGION_ID,
        sell_price: Some(q.sell),
        buy_price: Some(q.buy),
        daily_volume: Some(q.volume),
        updated_at: updated_at.clone(),
    }
}

/// The price rows to store for `request`, given what the source returned:
/// one per requested id that the source has, in request order, or one per
/// quote where the request names no id.
pub fn plan_price_updates(
    request: &UpdateMarketPricesRequest,
    quotes: &Vec<PriceQuote>,
    updated_at: &String,
) -> (r: Vec<MarketPrice>)
    ensures
        r@.len() == selected_quotes(request.type_ids@, quotes@).len(),
        forall|k: int|
            0 <= k < r@.len() ==> row_spec(
                #[trigger] r@[k],
                selected_quotes(request.type_ids@, quotes@)[k],
                updated_at@,
            ),
{
    let mut out: Vec<MarketPrice> = Vec::new();
    if request.type_ids.len() == 0 {
        let mut i: usize = 0;
        while i < quotes.len()
            invariant
                i <= quotes@.len(),
                request.type_ids@.len() == 0,
                out@.len() == i,
                forall|k: int| 0 <= k < i ==> row_spec(#[trigger] out@[k], quotes@[k], updated_at@),
            decreases quotes@.len() - i,
        {
            out.push(price_row(quotes[i], updated_at));
            i = i + 1;
        }
    } else {
        let ghost ids = request.type_ids@;
        let mut i: usize = 0;
        while i < request.type_ids.len()
            invariant
                i <= ids.len(),
                ids == request.type_ids@,
                out@.len() == requested_quotes(ids.subrange(0, i as int), quotes@).len(),
                forall|k: int|
                    0 <= k < out@.len() ==> row_spec(
                        #[trigger] out@[k],
                        requested_quotes(ids.subrange(0, i as int), quotes@)[k],
                        updated_at@,
                    ),
            decreases ids.len() - i,
        {
            proof {
                assert(ids.subrange(0, i as int + 1).drop_last() =~= ids.subrange(0, i as int));
            }
            match find_quote(quotes, request.type_ids[i]) {
                Some(q) => {
                    out.push(price_row(q, updated_at));
                },
                None => {},
            }
            i = i + 1;
        }
        assert(ids.subrange(0, ids.len() as int) =~= ids);
    }
    out
}

} // verus!
