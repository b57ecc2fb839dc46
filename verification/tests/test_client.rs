use ibkr_nasdaq_scanner::api::ibkr_client::option_from;
use ibkr_nasdaq_scanner::api::{ChainReply, IbkrClient, IbkrError, Json, Number};
use ibkr_nasdaq_scanner::models::{Decimal, OptionType, Timestamp};

fn dec(value: f64) -> Decimal {
    Decimal::parse(&format!("{}", value)).expect("a decimal numeral")
}

fn client() -> IbkrClient {
    IbkrClient::new("http://localhost:5000".to_string(), "U1".to_string(), 30)
}

fn text(s: &str) -> Json {
    Json::Text(s.to_string())
}

fn float(value: f64) -> Json {
    Json::Number(Number { integer: None, decimal: Some(dec(value)) })
}

fn whole(value: i64) -> Json {
    Json::Number(Number { integer: Some(value), decimal: Some(Decimal::from_units(value * 10_000)) })
}

fn object(members: Vec<(&str, Json)>) -> Json {
    Json::Object(members.into_iter().map(|(name, value)| (name.to_string(), value)).collect())
}

fn entry(symbol: &str, strike: f64) -> Json {
    object(vec![
        ("symbol", text(symbol)),
        ("strike", float(strike)),
        ("bid", float(2.5)),
        ("volume", whole(1000)),
        ("iv", float(0.25)),
        ("conid", text("123456")),
    ])
}

fn without(entry: Json, name: &str) -> Json {
    match entry {
        Json::Object(members) => {
            Json::Object(members.into_iter().filter(|(n, _)| n != name).collect())
        }
        other => other,
    }
}

fn with(entry: Json, name: &str, value: Json) -> Json {
    match without(entry, name) {
        Json::Object(mut members) => {
            members.push((name.to_string(), value));
            Json::Object(members)
        }
        other => other,
    }
}

fn body(calls: Vec<Json>, puts: Vec<Json>) -> Json {
    object(vec![("calls", Json::Array(calls)), ("puts", Json::Array(puts))])
}

fn pairs(query: &[(String, String)]) -> Vec<(&str, &str)> {
    query.iter().map(|(k, v)| (k.as_str(), v.as_str())).collect()
}

#[test]
fn client_keeps_what_it_was_given() {
    let client = client();
    assert_eq!(client.base_url(), "http://localhost:5000");
    assert_eq!(client.account_id(), "U1");
    assert_eq!(client.timeout_seconds(), 30);
}

#[test]
fn requests_name_the_endpoints_of_the_gateway() {
    let client = client();
    let request = client.connection_request();
    assert_eq!(request.url, "http://localhost:5000/v1/api/tickle");
    assert!(request.query.is_empty());

    let request = client.stock_price_request("AAPL");
    assert_eq!(request.url, "http://localhost:5000/v1/api/iserver/marketdata/snapshot");
    assert_eq!(pairs(&request.query), vec![("conids", "265598"), ("fields", "31")]);

    let request = client.option_chain_request("AAPL", 20);
    assert_eq!(request.url, "http://localhost:5000/v1/api/iserver/secdef/info");
    assert_eq!(
        pairs(&request.query),
        vec![
            ("conid", "265598"),
            ("sectype", "OPT"),
            ("month", "ALL"),
            ("exchange", "SMART"),
            ("strikeCount", "20"),
        ]
    );
    let request = client.option_chain_request("MSFT", 0);
    assert_eq!(request.query[4].1, "0");
}

#[test]
fn the_gateway_is_there_when_it_answers_with_a_success() {
    let client = client();
    assert_eq!(client.test_connection(Ok(200)), Ok(true));
    assert_eq!(client.test_connection(Ok(204)), Ok(true));
    assert_eq!(client.test_connection(Ok(299)), Ok(true));
    assert_eq!(client.test_connection(Ok(199)), Ok(false));
    assert_eq!(client.test_connection(Ok(300)), Ok(false));
    assert_eq!(client.test_connection(Ok(401)), Ok(false));
    assert_eq!(client.test_connection(Ok(500)), Ok(false));
    assert_eq!(
        client.test_connection(Err("connection refused".to_string())),
        Err(IbkrError::RequestError("connection refused".to_string()))
    );
}

#[test]
fn a_price_is_had_where_the_reply_holds_one() {
    let client = client();
    let snapshot = Json::Array(vec![object(vec![("conid", whole(265598)), ("31", float(185.5))])]);
    assert_eq!(client.get_stock_price(Ok(snapshot)), Ok(dec(185.5)));
    let whole = Json::Array(vec![object(vec![("31", whole(185))]), object(vec![("31", whole(1))])]);
    assert_eq!(client.get_stock_price(Ok(whole)), Ok(dec(185.0)));
    assert_eq!(
        client.get_stock_price(Err("timed out".to_string())),
        Err(IbkrError::RequestError("timed out".to_string()))
    );
}

#[test]
fn a_reply_without_a_price_is_an_error_of_the_data() {
    let client = client();
    let missing = Err(IbkrError::DataError("Price not found in response".to_string()));
    let bodies = vec![
        Json::Null,
        Json::Array(vec![]),
        Json::Array(vec![Json::Null]),
        Json::Array(vec![object(vec![])]),
        Json::Array(vec![object(vec![("32", float(1.0))])]),
        Json::Array(vec![object(vec![("31", text("185.5"))])]),
        Json::Array(vec![object(vec![("31", Json::Null)])]),
        Json::Array(vec![object(vec![("31", Json::Bool(true))])]),
        Json::Array(vec![
            object(vec![("31", Json::Number(Number { integer: None, decimal: None }))]),
        ]),
        Json::Array(vec![Json::Array(vec![float(1.0)])]),
        Json::Array(vec![Json::Null, object(vec![("31", float(1.0))])]),
        object(vec![("31", float(185.5))]),
        object(vec![("0", object(vec![("31", float(185.5))]))]),
        float(185.5),
        text("185.5"),
    ];
    for body in bodies {
        assert_eq!(client.get_stock_price(Ok(body)), missing);
    }
}

#[test]
fn a_chain_reply_is_read_by_status_then_body() {
    let client = client();
    let r = client.get_option_chain(Ok(ChainReply {
        status: 200,
        status_text: "200 OK".to_string(),
        body: Ok(body(vec![entry("AAPL", 180.0)], vec![])),
    }));
    assert_eq!(r.expect("a chain").len(), 1);

    let r = client.get_option_chain(Ok(ChainReply {
        status: 404,
        status_text: "404 Not Found".to_string(),
        body: Ok(body(vec![entry("AAPL", 180.0)], vec![])),
    }));
    assert_eq!(
        r.err(),
        Some(IbkrError::ApiError("API request failed with status: 404 Not Found".to_string()))
    );

    let r = client.handle_response(ChainReply {
        status: 200,
        status_text: "200 OK".to_string(),
        body: Err("expected value at line 1".to_string()),
    });
    assert_eq!(r.err(), Some(IbkrError::RequestError("expected value at line 1".to_string())));

    let r = client.handle_response(ChainReply {
        status: 503,
        status_text: "503 Service Unavailable".to_string(),
        body: Err("unread".to_string()),
    });
    assert_eq!(
        r.err(),
        Some(IbkrError::ApiError(
            "API request failed with status: 503 Service Unavailable".to_string()
        ))
    );

    let r = client.get_option_chain(Err("dns".to_string()));
    assert_eq!(r.err(), Some(IbkrError::RequestError("dns".to_string())));
}

#[test]
fn a_chain_holds_the_calls_then_the_puts() {
    let client = client();
    // the order of the two lists in the body does not matter
    let raw = object(vec![
        ("puts", Json::Array(vec![entry("AAPL", 175.0)])),
        ("calls", Json::Array(vec![entry("AAPL", 180.0), entry("AAPL", 185.0)])),
    ]);
    let chain = client.parse_option_chain_response(raw).expect("a chain");
    assert_eq!(chain.len(), 3);
    assert_eq!(chain[0].option_type, OptionType::Call);
    assert_eq!(chain[0].strike, dec(180.0));
    assert_eq!(chain[1].option_type, OptionType::Call);
    assert_eq!(chain[1].strike, dec(185.0));
    assert_eq!(chain[2].option_type, OptionType::Put);
    assert_eq!(chain[2].strike, dec(175.0));
    for option in &chain {
        assert_eq!(option.symbol, "AAPL");
        assert_eq!(option.option_price, dec(2.5));
        assert_eq!(option.stock_price, Decimal::zero());
        assert_eq!(option.profit_percent, Decimal::zero());
        assert_eq!(option.volume, 1000);
        assert_eq!(option.implied_volatility, dec(0.25));
        assert_eq!(option.contract_id, "123456");
    }
}

#[test]
fn an_entry_that_lacks_a_field_is_passed_over() {
    let client = client();
    for name in ["symbol", "strike", "bid", "volume", "iv", "conid"] {
        let broken = without(entry("AAPL", 1.0), name);
        assert!(client.parse_option_data(&broken, OptionType::Call).is_none());
        let null = with(entry("AAPL", 1.0), name, Json::Null);
        assert!(client.parse_option_data(&null, OptionType::Call).is_none());
    }
    // a field of the wrong type counts as lacking
    let wrong = vec![
        with(entry("AAPL", 1.0), "symbol", whole(7)),
        with(entry("AAPL", 1.0), "strike", text("180")),
        with(entry("AAPL", 1.0), "bid", Json::Bool(true)),
        with(entry("AAPL", 1.0), "volume", float(10.5)),
        with(entry("AAPL", 1.0), "volume", text("1000")),
        with(entry("AAPL", 1.0), "iv", Json::Array(vec![])),
        with(entry("AAPL", 1.0), "conid", whole(123456)),
    ];
    for broken in &wrong {
        assert!(client.parse_option_data(broken, OptionType::Put).is_none());
    }
    assert!(client.parse_option_data(&Json::Null, OptionType::Put).is_none());
    assert!(client.parse_option_data(&Json::Array(vec![]), OptionType::Put).is_none());

    let raw = body(
        vec![
            without(entry("AAPL", 1.0), "symbol"),
            entry("AAPL", 10.0),
            without(entry("AAPL", 2.0), "strike"),
            Json::Null,
        ],
        vec![
            without(entry("AAPL", 4.0), "volume"),
            text("put"),
            entry("AAPL", 20.0),
            without(entry("AAPL", 6.0), "conid"),
            entry("AAPL", 30.0),
        ],
    );
    let chain = client.parse_option_chain_response(raw).expect("a chain");
    let strikes: Vec<Decimal> = chain.iter().map(|o| o.strike).collect();
    assert_eq!(strikes, vec![dec(10.0), dec(20.0), dec(30.0)]);
    assert_eq!(chain[0].option_type, OptionType::Call);
    assert_eq!(chain[1].option_type, OptionType::Put);
    assert_eq!(chain[2].option_type, OptionType::Put);
}

#[test]
fn a_body_without_lists_is_an_empty_chain() {
    let client = client();
    let bodies = vec![
        Json::Null,
        object(vec![]),
        body(vec![], vec![]),
        object(vec![("calls", Json::Null), ("puts", text("none"))]),
        object(vec![("calls", entry("AAPL", 1.0))]),
        Json::Array(vec![entry("AAPL", 1.0)]),
        object(vec![("Calls", Json::Array(vec![entry("AAPL", 1.0)]))]),
    ];
    for body in bodies {
        assert!(client.parse_option_chain_response(body).expect("a chain").is_empty());
    }
}

#[test]
fn an_integer_is_a_number_too() {
    let client = client();
    let data = with(with(entry("AAPL", 1.0), "strike", whole(180)), "bid", whole(2));
    let quote = client.parse_option_data(&data, OptionType::Call).expect("a quote");
    assert_eq!(quote.strike, dec(180.0));
    assert_eq!(quote.option_price, dec(2.0));
}

#[test]
fn a_volume_is_cut_to_32_bits() {
    let client = client();
    let volume = |v: i64| Json::Number(Number { integer: Some(v), decimal: None });
    let data = with(entry("AAPL", 1.0), "volume", volume(4_294_967_296 + 5));
    assert_eq!(client.parse_option_data(&data, OptionType::Put).expect("a quote").volume, 5);
    let data = with(entry("AAPL", 1.0), "volume", volume(2_147_483_648));
    assert_eq!(
        client.parse_option_data(&data, OptionType::Put).expect("a quote").volume,
        i32::MIN
    );
    let data = with(entry("AAPL", 1.0), "volume", volume(-1));
    assert_eq!(client.parse_option_data(&data, OptionType::Put).expect("a quote").volume, -1);
}

#[test]
fn a_quote_carries_the_instants_given() {
    let expiration = Timestamp::from_unix(1_734_652_800, 0).expect("an instant");
    let timestamp = Timestamp::from_unix(1_700_000_000, 5).expect("an instant");
    let quote = option_from(&entry("MSFT", 400.0), OptionType::Put, expiration, timestamp)
        .expect("a quote");
    assert_eq!(quote.expiration, expiration);
    assert_eq!(quote.timestamp, timestamp);
    assert_eq!(quote.symbol, "MSFT");
    assert_eq!(quote.option_type, OptionType::Put);
}

#[test]
fn json_values_are_read_one_level_at_a_time() {
    let value = object(vec![
        ("a", whole(1)),
        ("b", Json::Array(vec![text("x"), Json::Null])),
        ("a", whole(2)),
    ]);
    assert_eq!(value.get("a"), Some(&whole(1)));
    assert_eq!(value.get("c"), None);
    assert_eq!(value.get("A"), None);
    assert_eq!(value.at(0), None);
    assert_eq!(value.as_array(), None);
    let list = value.get("b").expect("a member");
    assert_eq!(list.at(0), Some(&text("x")));
    assert_eq!(list.at(1), Some(&Json::Null));
    assert_eq!(list.at(2), None);
    assert_eq!(list.get("0"), None);
    assert_eq!(list.as_array().map(|items| items.len()), Some(2));
    assert_eq!(text("x").as_str(), Some("x"));
    assert_eq!(whole(1).as_str(), None);
    assert_eq!(whole(7).as_i64(), Some(7));
    assert_eq!(float(7.5).as_i64(), None);
    assert_eq!(text("7").as_i64(), None);
    assert_eq!(float(7.5).as_decimal(), Some(dec(7.5)));
    assert_eq!(whole(7).as_decimal(), Some(dec(7.0)));
    assert_eq!(Json::Bool(true).as_decimal(), None);
    assert_eq!(Json::Null.as_decimal(), None);
}

#[test]
fn gateway_errors_have_messages() {
    assert_eq!(
        IbkrError::RequestError("timed out".to_string()).to_string(),
        "HTTP request failed: timed out"
    );
    assert_eq!(IbkrError::ApiError("500".to_string()).to_string(), "API error: 500");
    assert_eq!(IbkrError::JsonError("eof".to_string()).to_string(), "JSON parsing error: eof");
    assert_eq!(
        IbkrError::DataError("Price not found in response".to_string()).to_string(),
        "Invalid data format: Price not found in response"
    );
}
