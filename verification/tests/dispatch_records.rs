use ledger_gateway::chain::{ChainState, LookupError, RecordInfo};
use ledger_gateway::records::{
    collect_records, find_field, record_query_keys, records_response, KeyError, RecordFilter,
    RecordMap,
};
use ledger_gateway::routes::{
    dispatch, parse_u32, DispatchError, HttpMethod, Route, BROADCAST_BODY_LIMIT,
    RECORDS_ALL_BODY_LIMIT, RECORDS_UNSPENT_BODY_LIMIT, STATE_PATH_BODY_LIMIT,
};
use ledger_gateway::server::Server;
use ledger_gateway::startup::ReadinessSignal;

fn segs(parts: &[&str]) -> Vec<String> {
    parts.iter().map(|s| s.to_string()).collect()
}

#[test]
fn read_routes_resolve() {
    assert_eq!(
        dispatch(HttpMethod::Get, &segs(&["testnet3", "latest", "height"]), 0),
        Ok(Route::LatestHeight)
    );
    assert_eq!(
        dispatch(HttpMethod::Get, &segs(&["testnet3", "latest", "hash"]), 0),
        Ok(Route::LatestHash)
    );
    assert_eq!(
        dispatch(HttpMethod::Get, &segs(&["testnet3", "latest", "block"]), 0),
        Ok(Route::LatestBlock)
    );
    assert_eq!(
        dispatch(HttpMethod::Get, &segs(&["testnet3", "block", "17"]), 0),
        Ok(Route::BlockByHeight { height: 17 })
    );
    assert_eq!(
        dispatch(HttpMethod::Get, &segs(&["testnet3", "statePath"]), 100),
        Ok(Route::StatePath)
    );
    assert_eq!(
        dispatch(HttpMethod::Get, &segs(&["testnet3", "records", "all"]), 200),
        Ok(Route::RecordsAll)
    );
    assert_eq!(
        dispatch(HttpMethod::Get, &segs(&["testnet3", "records", "spent"]), 200),
        Ok(Route::RecordsSpent)
    );
    assert_eq!(
        dispatch(HttpMethod::Get, &segs(&["testnet3", "records", "unspent"]), 100),
        Ok(Route::RecordsUnspent)
    );
    assert_eq!(
        dispatch(HttpMethod::Post, &segs(&["testnet3", "transaction", "broadcast"]), 1024),
        Ok(Route::TransactionBroadcast)
    );
}

#[test]
fn unknown_paths_and_methods_are_not_found() {
    assert_eq!(
        dispatch(HttpMethod::Get, &segs(&["testnet3", "latest"]), 0),
        Err(DispatchError::NotFound)
    );
    assert_eq!(
        dispatch(HttpMethod::Get, &segs(&["mainnet", "latest", "height"]), 0),
        Err(DispatchError::NotFound)
    );
    assert_eq!(
        dispatch(HttpMethod::Post, &segs(&["testnet3", "latest", "height"]), 0),
        Err(DispatchError::NotFound)
    );
    assert_eq!(
        dispatch(HttpMethod::Get, &segs(&["testnet3", "transaction", "broadcast"]), 10),
        Err(DispatchError::NotFound)
    );
    assert_eq!(dispatch(HttpMethod::Get, &segs(&[]), 0), Err(DispatchError::NotFound));
    assert_eq!(
        dispatch(HttpMethod::Get, &segs(&["testnet3", "records", "everything"]), 10),
        Err(DispatchError::NotFound)
    );
}

#[test]
fn height_segment_must_parse_as_u32() {
    assert_eq!(
        dispatch(HttpMethod::Get, &segs(&["testnet3", "block", "0"]), 0),
        Ok(Route::BlockByHeight { height: 0 })
    );
    assert_eq!(
        dispatch(HttpMethod::Get, &segs(&["testnet3", "block", "4294967295"]), 0),
        Ok(Route::BlockByHeight { height: u32::MAX })
    );
    assert_eq!(
        dispatch(HttpMethod::Get, &segs(&["testnet3", "block", "4294967296"]), 0),
        Err(DispatchError::NotFound)
    );
    assert_eq!(
        dispatch(HttpMethod::Get, &segs(&["testnet3", "block", "tip"]), 0),
        Err(DispatchError::NotFound)
    );
    assert_eq!(
        dispatch(HttpMethod::Get, &segs(&["testnet3", "block", ""]), 0),
        Err(DispatchError::NotFound)
    );
}

#[test]
fn parse_u32_exactly() {
    assert_eq!(parse_u32(&"0".to_string()), Some(0));
    assert_eq!(parse_u32(&"007".to_string()), Some(7));
    assert_eq!(parse_u32(&"123456".to_string()), Some(123456));
    assert_eq!(parse_u32(&"4294967295".to_string()), Some(u32::MAX));
    assert_eq!(parse_u32(&"4294967296".to_string()), None);
    assert_eq!(parse_u32(&"99999999999999999999".to_string()), None);
    assert_eq!(parse_u32(&"".to_string()), None);
    assert_eq!(parse_u32(&"-1".to_string()), None);
    assert_eq!(parse_u32(&"1 2".to_string()), None);
    assert_eq!(parse_u32(&"+12".to_string()), None);
}

#[test]
fn oversized_bodies_are_rejected_before_parsing() {
    // One byte over the limit: refused on the length alone.
    assert_eq!(
        dispatch(
            HttpMethod::Get,
            &segs(&["testnet3", "records", "all"]),
            RECORDS_ALL_BODY_LIMIT + 1,
        ),
        Err(DispatchError::PayloadTooLarge)
    );
    assert_eq!(
        dispatch(HttpMethod::Get, &segs(&["testnet3", "records", "all"]), RECORDS_ALL_BODY_LIMIT),
        Ok(Route::RecordsAll)
    );
    assert_eq!(
        dispatch(HttpMethod::Get, &segs(&["testnet3", "statePath"]), STATE_PATH_BODY_LIMIT + 1),
        Err(DispatchError::PayloadTooLarge)
    );
    assert_eq!(
        dispatch(
            HttpMethod::Get,
            &segs(&["testnet3", "records", "unspent"]),
            RECORDS_UNSPENT_BODY_LIMIT + 1,
        ),
        Err(DispatchError::PayloadTooLarge)
    );
    assert_eq!(
        dispatch(
            HttpMethod::Post,
            &segs(&["testnet3", "transaction", "broadcast"]),
            BROADCAST_BODY_LIMIT + 1,
        ),
        Err(DispatchError::PayloadTooLarge)
    );
    assert_eq!(
        dispatch(
            HttpMethod::Post,
            &segs(&["testnet3", "transaction", "broadcast"]),
            BROADCAST_BODY_LIMIT,
        ),
        Ok(Route::TransactionBroadcast)
    );
}

#[test]
fn lookup_beyond_tip_fails_without_crashing() {
    let mut chain = ChainState::genesis(0);
    for h in 1..=10u64 {
        chain.append_block(h * 100);
    }
    let signals = vec![ReadinessSignal::ConsumerReady, ReadinessSignal::ListenerReady];
    let server = Server::start(chain, &signals).unwrap();
    assert_eq!(server.latest_height(), 10);
    assert_eq!(server.get_block(999999), Err(LookupError::BlockNotFound));
    // The listener stays fit to serve.
    assert_eq!(server.get_block(5).unwrap().hash, 500);
    assert_eq!(server.latest_block().height, 10);
}

fn entries(m: &RecordMap) -> Vec<(u64, u64)> {
    let mut out = Vec::new();
    let mut i = 0;
    while let Some(pair) = m.get_index(i) {
        out.push(pair);
        i += 1;
    }
    out
}

#[test]
fn record_queries_keep_stable_scan_order() {
    let mut chain = ChainState::genesis(1);
    chain.add_record(RecordInfo { commitment: 30, record: 300, spent: true });
    chain.add_record(RecordInfo { commitment: 10, record: 100, spent: false });
    chain.add_record(RecordInfo { commitment: 20, record: 200, spent: true });

    let all = records_response(&chain, RecordFilter::All);
    assert_eq!(entries(&all), vec![(30, 300), (10, 100), (20, 200)]);

    let spent = records_response(&chain, RecordFilter::Spent);
    assert_eq!(entries(&spent), vec![(30, 300), (20, 200)]);

    let unspent = records_response(&chain, RecordFilter::Unspent);
    assert_eq!(entries(&unspent), vec![(10, 100)]);

    // The same query against the unchanged ledger: the same mapping in
    // the same order.
    let again = records_response(&chain, RecordFilter::All);
    assert_eq!(entries(&again), entries(&all));
}

#[test]
fn collect_records_preserves_scan_order() {
    let scan = vec![(5u64, 50u64), (1, 10), (9, 90)];
    let m = collect_records(&scan);
    assert_eq!(m.len(), 3);
    assert_eq!(entries(&m), scan);
    assert_eq!(m.get_index(3), None);
}

#[test]
fn record_map_push_and_lookup() {
    let mut m = RecordMap::new();
    assert_eq!(m.len(), 0);
    m.push_record(8, 80);
    m.push_record(3, 30);
    assert_eq!(m.len(), 2);
    assert_eq!(m.get_index(0), Some((8, 80)));
    assert_eq!(m.get_index(1), Some((3, 30)));
    assert_eq!(m.get_index(2), None);
}

fn body(pairs: &[(&str, &str)]) -> Vec<(String, String)> {
    pairs.iter().map(|(k, v)| (k.to_string(), v.to_string())).collect()
}

#[test]
fn key_material_is_required_by_name() {
    let both = body(&[("view_key", "AViewKey1abc"), ("graph_key", "AGraphKey1xyz")]);
    let keys = record_query_keys(&both).unwrap();
    assert_eq!(keys.0, "AViewKey1abc");
    assert_eq!(keys.1, "AGraphKey1xyz");

    let no_view = body(&[("graph_key", "AGraphKey1xyz")]);
    assert_eq!(record_query_keys(&no_view), Err(KeyError::MissingViewKey));

    let no_graph = body(&[("view_key", "AViewKey1abc")]);
    assert_eq!(record_query_keys(&no_graph), Err(KeyError::MissingGraphKey));

    let empty = body(&[]);
    assert_eq!(record_query_keys(&empty), Err(KeyError::MissingViewKey));
}

#[test]
fn find_field_takes_the_first_match() {
    let pairs = body(&[("k", "first"), ("k", "second"), ("other", "x")]);
    assert_eq!(find_field(&pairs, "k"), Some("first".to_string()));
    assert_eq!(find_field(&pairs, "other"), Some("x".to_string()));
    assert_eq!(find_field(&pairs, "missing"), None);
}

#[test]
fn server_record_handlers_check_keys_then_scan() {
    let mut chain = ChainState::genesis(1);
    chain.add_record(RecordInfo { commitment: 1, record: 11, spent: true });
    chain.add_record(RecordInfo { commitment: 2, record: 22, spent: false });
    let signals = vec![ReadinessSignal::ConsumerReady, ReadinessSignal::ListenerReady];
    let server = Server::start(chain, &signals).unwrap();

    let all = server.records_all();
    assert_eq!(entries(&all), vec![(1, 11), (2, 22)]);

    let good = body(&[("view_key", "vk"), ("graph_key", "gk")]);
    let spent = server.records_spent(&good).unwrap();
    assert_eq!(entries(&spent), vec![(1, 11)]);
    let unspent = server.records_unspent(&good).unwrap();
    assert_eq!(entries(&unspent), vec![(2, 22)]);

    let bad = body(&[("view_key", "vk")]);
    match server.records_spent(&bad) {
        Err(e) => assert_eq!(e, KeyError::MissingGraphKey),
        Ok(_) => panic!("a body without a graph key must be refused"),
    }
    match server.records_unspent(&bad) {
        Err(e) => assert_eq!(e, KeyError::MissingGraphKey),
        Ok(_) => panic!("a body without a graph key must be refused"),
    }
}
