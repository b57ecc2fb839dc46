//! The gateway client, without the transport: which requests go to the
//! gateway and what its replies mean. The program sends each request and
//! hands back what came, as plain values.

use crate::api::json::Json;
use crate::models::decimal::Decimal;
use crate::models::option_chain::{OptionChain, OptionType};
use crate::models::timestamp::Timestamp;
use crate::utils::sequences::{lemma_filter_empty, lemma_filter_step};
use crate::utils::text::{decimal_text, push_decimal, push_text};
use vstd::prelude::*;

verus! {

/// Why a request to the gateway gave no data.
#[derive(Clone, Debug, PartialEq, Eq)]
pub enum IbkrError {
    /// The request could not be sent or its reply could not be read.
    RequestError(String),
    /// The gateway answered with a status that is no success.
    ApiError(String),
    /// The reply was no JSON.
    JsonError(String),
    /// The reply was well formed and lacks what was asked for.
    DataError(String),
}

impl IbkrError {
    /// The message of the error.
    pub open spec fn message(self) -> Seq<char> {
        match self {
            IbkrError::RequestError(cause) => "HTTP request failed: "@ + cause@,
            IbkrError::ApiError(cause) => "API error: "@ + cause@,
            IbkrError::JsonError(cause) => "JSON parsing error: "@ + cause@,
            IbkrError::DataError(cause) => "Invalid data format: "@ + cause@,
        }
    }

    /// The message of the error.
    pub fn to_string(&self) -> (s: String)
        ensures
            s@ == self.message(),
    {
        match self {
            IbkrError::RequestError(cause) => {
                let mut s = "HTTP request failed: ".to_string();
                push_text(&mut s, cause.as_str());
                s
            },
            IbkrError::ApiError(cause) => {
                let mut s = "API error: ".to_string();
                push_text(&mut s, cause.as_str());
                s
            },
            IbkrError::JsonError(cause) => {
                let mut s = "JSON parsing error: ".to_string();
                push_text(&mut s, cause.as_str());
                s
            },
            IbkrError::DataError(cause) => {
                let mut s = "Invalid data format: ".to_string();
                push_text(&mut s, cause.as_str());
                s
            },
        }
    }
}

/// A GET request: the address and the query parameters, in order.
#[derive(Clone, Debug)]
pub struct HttpRequest {
    pub url: String,
    pub query: Vec<(String, String)>,
}

/// The views of a list of query parameters.
pub open spec fn pairs(query: Seq<(String, String)>) -> Seq<(Seq<char>, Seq<char>)> {
    query.map_values(|p: (String, String)| (p.0@, p.1@))
}

/// What came back for a chain request that was sent: the status, the status
/// as the transport writes it, and the body, or why it could not be read.
#[derive(Debug)]
pub struct ChainReply {
    pub status: u16,
    pub status_text: String,
    pub body: Result<Json, String>,
}

/// Whether an HTTP status is a success: the range from 200 up to 299.
pub open spec fn is_success(status: u16) -> bool {
    200 <= status < 300
}

/// The last price in the body of a price reply: the member `31` of the
/// first element, where the body has one that is a number.
pub open spec fn last_price(body: Json) -> Option<Decimal> {
    match body.element(0) {
        Some(first) => match first.member("31"@) {
            Some(price) => price.decimal(),
            None => None,
        },
        None => None,
    }
}

/// The member `name` of an entry, where it is a string.
pub open spec fn entry_text(data: Json, name: Seq<char>) -> Option<Seq<char>> {
    match data.member(name) {
        Some(value) => value.text(),
        None => None,
    }
}

/// The member `name` of an entry, where it is a number that fits a `Decimal`.
pub open spec fn entry_decimal(data: Json, name: Seq<char>) -> Option<Decimal> {
    match data.member(name) {
        Some(value) => value.decimal(),
        None => None,
    }
}

/// The member `name` of an entry, where it is an integer.
pub open spec fn entry_integer(data: Json, name: Seq<char>) -> Option<i64> {
    match data.member(name) {
        Some(value) => value.integer(),
        None => None,
    }
}

/// Whether an entry holds every field of a quote, each of its type: symbol,
/// strike, bid, volume, implied volatility and contract number.
pub open spec fn is_complete(data: Json) -> bool {
    &&& entry_text(data, "symbol"@) is Some
    &&& entry_decimal(data, "strike"@) is Some
    &&& entry_decimal(data, "bid"@) is Some
    &&& entry_integer(data, "volume"@) is Some
    &&& entry_decimal(data, "iv"@) is Some
    &&& entry_text(data, "conid"@) is Some
}

impl OptionChain {
    /// Whether `self` is the quote that `data` describes, of the given kind:
    /// the bid is the price of the option, the volume is cut to 32 bits, and
    /// stock price and profit are still zero. The two instants are not
    /// spoken of.
    pub open spec fn quotes(self, data: Json, option_type: OptionType) -> bool {
        &&& is_complete(data)
        &&& self.symbol@ == entry_text(data, "symbol"@)->Some_0
        &&& self.option_type == option_type
        &&& self.strike == entry_decimal(data, "strike"@)->Some_0
        &&& self.option_price == entry_decimal(data, "bid"@)->Some_0
        &&& self.stock_price@ == 0
        &&& self.profit_percent@ == 0
        &&& self.volume == entry_integer(data, "volume"@)->Some_0 as i32
        &&& self.implied_volatility == entry_decimal(data, "iv"@)->Some_0
        &&& self.contract_id@ == entry_text(data, "conid"@)->Some_0
    }
}

/// The test for [`is_complete`].
pub open spec fn complete() -> spec_fn(Json) -> bool {
    |data: Json| is_complete(data)
}

/// The elements of the member `name` of a chain body; none where the body
/// has no such member or the member is no array.
pub open spec fn listed(body: Json, name: Seq<char>) -> Seq<Json> {
    match body.member(name) {
        Some(list) => match list.elements() {
            Some(items) => items,
            None => Seq::empty(),
        },
        None => Seq::empty(),
    }
}

/// Whether `chain` holds one quote for each complete entry of `body`: those
/// listed under `calls` in their order, then those listed under `puts` in
/// theirs.
pub open spec fn chain_of(chain: Seq<OptionChain>, body: Json) -> bool {
    let calls = listed(body, "calls"@).filter(complete());
    let puts = listed(body, "puts"@).filter(complete());
    &&& chain.len() == calls.len() + puts.len()
    &&& forall|i: int|
        0 <= i < calls.len() ==> (#[trigger] chain[i]).quotes(calls[i], OptionType::Call)
    &&& forall|i: int|
        0 <= i < puts.len() ==> (#[trigger] chain[calls.len() + i]).quotes(
            puts[i],
            OptionType::Put,
        )
}

fn text_field(data: &Json, name: &str) -> (r: Option<String>)
    ensures
        match r {
            Some(text) => entry_text(*data, name@) == Some(text@),
            None => entry_text(*data, name@) is None,
        },
{
    match data.get(name) {
        Some(value) => match value.as_str() {
            Some(text) => Some(text.to_string()),
            None => None,
        },
        None => None,
    }
}

fn decimal_field(data: &Json, name: &str) -> (r: Option<Decimal>)
    ensures
        r == entry_decimal(*data, name@),
{
    match data.get(name) {
        Some(value) => value.as_decimal(),
        None => None,
    }
}

fn integer_field(data: &Json, name: &str) -> (r: Option<i64>)
    ensures
        r == entry_integer(*data, name@),
{
    match data.get(name) {
        Some(value) => value.as_i64(),
        None => None,
    }
}

/// The quote that a complete entry describes, with the two instants given.
pub fn option_from(
    data: &Json,
    option_type: OptionType,
    expiration: Timestamp,
    timestamp: Timestamp,
) -> (r: Option<OptionChain>)
    ensures
        r is Some <==> is_complete(*data),
        r matches Some(quote) ==> quote.quotes(*data, option_type) && quote.expiration == expiration
            && quote.timestamp == timestamp,
{
    let symbol = text_field(data, "symbol")?;
    let strike = decimal_field(data, "strike")?;
    let option_price = decimal_field(data, "bid")?;
    let volume = integer_field(data, "volume")?;
    let implied_volatility = decimal_field(data, "iv")?;
    let contract_id = text_field(data, "conid")?;
    Some(
        OptionChain {
            symbol,
            option_type,
            expiration,
            strike,
            option_price,
            stock_price: Decimal::zero(),
            profit_percent: Decimal::zero(),
            volume: #[verifier::truncate]
            (volume as i32),
            implied_volatility,
            timestamp,
            contract_id,
        },
    )
}

/// The gateway client: where the gateway is and on whose behalf it is asked.
#[derive(Clone, Debug)]
pub struct IbkrClient {
    base_url: String,
    account_id: String,
    timeout_seconds: u64,
}

impl IbkrClient {
    /// The address of the gateway.
    pub closed spec fn address(self) -> Seq<char> {
        self.base_url@
    }

    /// The account on whose behalf the gateway is asked.
    pub closed spec fn account(self) -> Seq<char> {
        self.account_id@
    }

    /// The seconds that a request may take.
    pub closed spec fn timeout(self) -> u64 {
        self.timeout_seconds
    }

    /// The query of a chain request that asks for `strike_count` strikes.
    pub open spec fn chain_query(strike_count: nat) -> Seq<(Seq<char>, Seq<char>)> {
        seq![
            ("conid"@, "265598"@),
            ("sectype"@, "OPT"@),
            ("month"@, "ALL"@),
            ("exchange"@, "SMART"@),
            ("strikeCount"@, decimal_text(strike_count)),
        ]
    }

    /// The query of a price request: the last price of the contract.
    pub open spec fn price_query() -> Seq<(Seq<char>, Seq<char>)> {
        seq![("conids"@, "265598"@), ("fields"@, "31"@)]
    }

    /// A client for the gateway at `base_url`, for the given account, whose
    /// requests are to wait no longer than `timeout_seconds`.
    pub fn new(base_url: String, account_id: String, timeout_seconds: u64) -> (client: IbkrClient)
        ensures
            client.address() == base_url@,
            client.account() == account_id@,
            client.timeout() == timeout_seconds,
    {
        IbkrClient { base_url, account_id, timeout_seconds }
    }

    /// The address of the gateway.
    pub fn base_url(&self) -> (url: &str)
        ensures
            url@ == self.address(),
    {
        self.base_url.as_str()
    }

    /// The account on whose behalf the gateway is asked.
    pub fn account_id(&self) -> (id: &str)
        ensures
            id@ == self.account(),
    {
        self.account_id.as_str()
    }

    /// The seconds that a request may take.
    pub fn timeout_seconds(&self) -> (seconds: u64)
        ensures
            seconds == self.timeout(),
    {
        self.timeout_seconds
    }

    fn endpoint(&self, path: &str) -> (url: String)
        ensures
            url@ == self.address() + path@,
    {
        let mut url = self.base_url.clone();
        push_text(&mut url, path);
        url
    }

    /// The request for the option chain of `symbol` with `strike_count`
    /// strikes. The gateway is asked by contract number, and the number is
    /// fixed, so the request is the same for every symbol.
    #[allow(unused_variables)]
    pub fn option_chain_request(&self, symbol: &str, strike_count: usize) -> (request: HttpRequest)
        ensures
            request.url@ == self.address() + "/v1/api/iserver/secdef/info"@,
            pairs(request.query@) == Self::chain_query(strike_count as nat),
    {
        let mut count = String::new();
        push_decimal(&mut count, strike_count as u128);
        let mut query: Vec<(String, String)> = Vec::new();
        query.push(("conid".to_string(), "265598".to_string()));
        query.push(("sectype".to_string(), "OPT".to_string()));
        query.push(("month".to_string(), "ALL".to_string()));
        query.push(("exchange".to_string(), "SMART".to_string()));
        query.push(("strikeCount".to_string(), count));
        assert(pairs(query@) =~= Self::chain_query(strike_count as nat));
        HttpRequest { url: self.endpoint("/v1/api/iserver/secdef/info"), query }
    }

    /// The request for the last price of `symbol`; as for the chain, the
    /// contract number is fixed.
    #[allow(unused_variables)]
    pub fn stock_price_request(&self, symbol: &str) -> (request: HttpRequest)
        ensures
            request.url@ == self.address() + "/v1/api/iserver/marketdata/snapshot"@,
            pairs(request.query@) == Self::price_query(),
    {
        let mut query: Vec<(String, String)> = Vec::new();
        query.push(("conids".to_string(), "265598".to_string()));
        query.push(("fields".to_string(), "31".to_string()));
        assert(pairs(query@) =~= Self::price_query());
        HttpRequest { url: self.endpoint("/v1/api/iserver/marketdata/snapshot"), query }
    }

    /// The request that tests whether the gateway is there.
    pub fn connection_request(&self) -> (request: HttpRequest)
        ensures
            request.url@ == self.address() + "/v1/api/tickle"@,
            request.query@.len() == 0,
    {
        HttpRequest { url: self.endpoint("/v1/api/tickle"), query: Vec::new() }
    }

    /// What the reply to a connection request means: the gateway is there
    /// when it answered with a success, it is not when it answered
    /// otherwise, and a request that got no answer is an error.
    pub fn test_connection(&self, reply: Result<u16, String>) -> (r: Result<bool, IbkrError>)
        ensures
            match reply {
                Ok(status) => r == Ok::<bool, IbkrError>(is_success(status)),
                Err(cause) => r == Err::<bool, IbkrError>(IbkrError::RequestError(cause)),
            },
    {
        match reply {
            Ok(status) => Ok(200 <= status && status < 300),
            Err(cause) => Err(IbkrError::RequestError(cause)),
        }
    }

    /// What the reply to a price request means. `reply` is the cause where
    /// the request failed or its reply could not be read, and else the body
    /// of the reply, in which the last price is looked for.
    pub fn get_stock_price(&self, reply: Result<Json, String>) -> (r: Result<Decimal, IbkrError>)
        ensures
            match reply {
                Ok(body) => match last_price(body) {
                    Some(price) => r == Ok::<Decimal, IbkrError>(price),
                    None => r matches Err(IbkrError::DataError(cause)) && cause@
                        == "Price not found in response"@,
                },
                Err(cause) => r == Err::<Decimal, IbkrError>(IbkrError::RequestError(cause)),
            },
    {
        let body = match reply {
            Ok(body) => body,
            Err(cause) => {
                return Err(IbkrError::RequestError(cause));
            },
        };
        let price = match body.at(0) {
            Some(first) => decimal_field(first, "31"),
            None => None,
        };
        match price {
            Some(price) => Ok(price),
            None => Err(IbkrError::DataError("Price not found in response".to_string())),
        }
    }

    /// What the reply to a chain request means. `reply` is the cause where
    /// the request could not be sent; a reply that came is read by
    /// [`IbkrClient::handle_response`].
    pub fn get_option_chain(&self, reply: Result<ChainReply, String>) -> (r: Result<
        Vec<OptionChain>,
        IbkrError,
    >)
        ensures
            match reply {
                Ok(response) => chain_result(r, response),
                Err(cause) => r matches Err(IbkrError::RequestError(c)) && c == cause,
            },
    {
        match reply {
            Ok(response) => self.handle_response(response),
            Err(cause) => Err(IbkrError::RequestError(cause)),
        }
    }

    /// Reads a chain reply: a status that is no success is an error of the
    /// gateway, a body that could not be read is an error of the request,
    /// and else the body is parsed.
    pub fn handle_response(&self, response: ChainReply) -> (r: Result<Vec<OptionChain>, IbkrError>)
        ensures
            chain_result(r, response),
    {
        if !(200 <= response.status && response.status < 300) {
            let mut cause = "API request failed with status: ".to_string();
            push_text(&mut cause, response.status_text.as_str());
            return Err(IbkrError::ApiError(cause));
        }
        match response.body {
            Ok(json) => self.parse_option_chain_response(json),
            Err(cause) => Err(IbkrError::RequestError(cause)),
        }
    }

    /// The quotes of a chain body: one for each complete entry, the calls
    /// first, each stamped with the time at which it was read. An entry that
    /// lacks a field is passed over. Never fails.
    pub fn parse_option_chain_response(&self, json: Json) -> (r: Result<
        Vec<OptionChain>,
        IbkrError,
    >)
        ensures
            r matches Ok(chain) && chain_of(chain@, json),
    {
        let mut chains: Vec<OptionChain> = Vec::new();
        proof {
            lemma_filter_empty(Seq::<Json>::empty(), complete());
        }
        if let Some(calls) = json.get("calls") {
            if let Some(call_array) = calls.as_array() {
                self.parse_entries(call_array, OptionType::Call, &mut chains);
            }
        }
        let ghost calls_read = chains@;
        if let Some(puts) = json.get("puts") {
            if let Some(put_array) = puts.as_array() {
                self.parse_entries(put_array, OptionType::Put, &mut chains);
            }
        }
        proof {
            let calls = listed(json, "calls"@).filter(complete());
            assert forall|i: int| 0 <= i < calls.len() implies (#[trigger] chains@[i]).quotes(
                calls[i],
                OptionType::Call,
            ) by {
                assert(chains@[i] == calls_read[0 + i]);
            }
        }
        Ok(chains)
    }

    /// Appends to `chains` the quote of each complete entry, in order.
    fn parse_entries(
        &self,
        entries: &Vec<Json>,
        option_type: OptionType,
        chains: &mut Vec<OptionChain>,
    )
        ensures
            final(chains)@.len() == old(chains)@.len() + entries@.filter(complete()).len(),
            forall|k: int| 0 <= k < old(chains)@.len() ==> final(chains)@[k] == old(chains)@[k],
            forall|k: int|
                0 <= k < entries@.filter(complete()).len() ==> (#[trigger] final(chains)@[old(
                    chains,
                )@.len() + k]).quotes(entries@.filter(complete())[k], option_type),
    {
        let ghost before = chains@;
        let mut i: usize = 0;
        proof {
            lemma_filter_empty(entries@.take(0), complete());
        }
        while i < entries.len()
            invariant
                i <= entries.len(),
                before == old(chains)@,
                chains@.len() == before.len() + entries@.take(i as int).filter(complete()).len(),
                forall|k: int| 0 <= k < before.len() ==> chains@[k] == before[k],
                forall|k: int|
                    0 <= k < entries@.take(i as int).filter(complete()).len() ==> (
                    #[trigger] chains@[before.len() + k]).quotes(
                        entries@.take(i as int).filter(complete())[k],
                        option_type,
                    ),
            decreases entries.len() - i,
        {
            let ghost seen = entries@.take(i as int).filter(complete());
            let ghost held = chains@;
            proof {
                lemma_filter_step(entries@, complete(), i as int);
            }
            if let Some(chain) = self.parse_option_data(&entries[i], option_type) {
                chains.push(chain);
            }
            i += 1;
            proof {
                let grown = entries@.take(i as int).filter(complete());
                assert forall|k: int| 0 <= k < grown.len() implies (#[trigger] chains@[before.len()
                    + k]).quotes(grown[k], option_type) by {
                    if k < seen.len() {
                        assert(chains@[before.len() + k] == held[before.len() + k]);
                        assert(grown[k] == seen[k]);
                    }
                }
            }
        }
        assert(entries@.take(entries.len() as int) =~= entries@);
    }

    /// The quote that `data` describes, stamped with the current time, or
    /// nothing where `data` lacks a field.
    pub fn parse_option_data(&self, data: &Json, option_type: OptionType) -> (r: Option<
        OptionChain,
    >)
        ensures
            r is Some <==> is_complete(*data),
            r matches Some(quote) ==> quote.quotes(*data, option_type),
    {
        let expiration = Timestamp::now();
        let timestamp = Timestamp::now();
        option_from(data, option_type, expiration, timestamp)
    }
}

/// What reading a chain reply gives; see [`IbkrClient::handle_response`].
pub open spec fn chain_result(
    r: Result<Vec<OptionChain>, IbkrError>,
    response: ChainReply,
) -> bool {
    if !is_success(response.status) {
        r matches Err(IbkrError::ApiError(cause)) && cause@ == "API request failed with status: "@
            + response.status_text@
    } else {
        match response.body {
            Ok(json) => r matches Ok(chain) && chain_of(chain@, json),
            Err(cause) => r matches Err(IbkrError::RequestError(c)) && c == cause,
        }
    }
}

} // verus!
