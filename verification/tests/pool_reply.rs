use ibc_gamm::balancer::{merge_coin, merge_pool_asset, merge_timestamp};
use ibc_gamm::pool_manager::{pool_query, query_pool, PoolReplyError};
use ibc_gamm::proto::{
    Any, Coin, Pool, PoolAsset, PoolParams, ProtoError, QueryPoolResponse, Timestamp, WireMessage,
};

fn field(tag: u8, body: &[u8]) -> Vec<u8> {
    let mut v = vec![(tag << 3) | 2, body.len() as u8];
    v.extend_from_slice(body);
    v
}

fn pool_bytes() -> Vec<u8> {
    let mut b = field(1, b"addr");
    b.extend_from_slice(&[0x10, 0x05]);
    b.extend(field(3, &field(1, b"0.01")));
    b.extend(field(5, &[field(1, b"gamm/pool/5"), field(2, b"100")].concat()));
    b.extend(field(6, &[field(1, &field(1, b"uatom")), field(2, b"50")].concat()));
    b.extend(field(6, &[field(1, &field(1, b"uosmo")), field(2, b"50")].concat()));
    b.extend_from_slice(&[0x48, 0x07]);
    b.extend(field(7, b"100"));
    b
}

fn expected_pool() -> Pool {
    Pool {
        address: "addr".to_string(),
        id: 5,
        pool_params: Some(PoolParams {
            swap_fee: "0.01".to_string(),
            exit_fee: String::new(),
            smooth_weight_change_params: None,
        }),
        future_pool_governor: String::new(),
        total_shares: Some(Coin { denom: "gamm/pool/5".to_string(), amount: "100".to_string() }),
        pool_assets: vec![
            PoolAsset {
                token: Some(Coin { denom: "uatom".to_string(), amount: String::new() }),
                weight: "50".to_string(),
            },
            PoolAsset {
                token: Some(Coin { denom: "uosmo".to_string(), amount: String::new() }),
                weight: "50".to_string(),
            },
        ],
        total_weight: "100".to_string(),
    }
}

#[test]
fn pool_decodes_field_by_field() {
    assert_eq!(Pool::decode(&pool_bytes()), Ok(expected_pool()));
    assert_eq!(Pool::decode(&[]), Ok(Pool::default()));
    assert_eq!(Pool::decode(&[0x0a, 0x05, b'a']), Err(ProtoError::Decode));
}

#[test]
fn pool_query_reply_gives_the_pool() {
    let any = field(2, &pool_bytes());
    let reply = field(1, &any);
    assert_eq!(query_pool(&reply), Ok(expected_pool()));
    let named = field(1, &[field(1, b"/osmosis.gamm.v1beta1.Pool"), field(2, &pool_bytes())].concat());
    assert_eq!(query_pool(&named), Err(PoolReplyError::TypeUrlMismatch));
    assert_eq!(query_pool(&[]), Err(PoolReplyError::MissingPool));
    assert_eq!(query_pool(&[0xff]), Err(PoolReplyError::Undecodable));
    let broken = field(1, &field(2, &[0x10]));
    assert_eq!(query_pool(&broken), Err(PoolReplyError::UndecodablePool));
    assert_eq!(pool_query(5).data, vec![0x08, 0x05]);
}

#[test]
fn pool_response_and_any_decode() {
    let reply = field(1, &[field(1, b"t"), field(2, &[1, 2, 3])].concat());
    let r = QueryPoolResponse::decode(&reply).unwrap();
    assert_eq!(r.pool, Some(Any { type_url: "t".to_string(), value: vec![1, 2, 3] }));
    assert_eq!(QueryPoolResponse::decode(&[]).unwrap().pool, None);
}

#[test]
fn pool_from_any_needs_the_empty_type_url() {
    let any = Any { type_url: String::new(), value: pool_bytes() };
    assert_eq!(Pool::from_any(&any), Ok(expected_pool()));
    let other = Any { type_url: "/x".to_string(), value: pool_bytes() };
    assert_eq!(Pool::from_any(&other), Err(ProtoError::TypeUrlMismatch));
}

#[test]
fn merges_keep_the_last_value_and_merge_embedded_messages() {
    let twice = [field(1, b"a"), field(1, b"b"), field(2, b"3")].concat();
    let c = merge_coin(&twice, Coin::default()).unwrap();
    assert_eq!(c, Coin { denom: "b".to_string(), amount: "3".to_string() });
    let split = [field(1, &field(1, b"x")), field(1, &field(2, b"7"))].concat();
    let a = merge_pool_asset(&split, PoolAsset::default()).unwrap();
    assert_eq!(a.token, Some(Coin { denom: "x".to_string(), amount: "7".to_string() }));
}

#[test]
fn pool_asset_reads_back_its_own_bytes() {
    let a = PoolAsset {
        token: Some(Coin { denom: "uion".to_string(), amount: "12".to_string() }),
        weight: "3".to_string(),
    };
    assert_eq!(merge_pool_asset(&a.encode_to_vec(), PoolAsset::default()), Ok(a));
}

#[test]
fn timestamps_take_signed_varints() {
    let mut b = vec![0x08];
    b.extend_from_slice(&[0xff, 0xff, 0xff, 0xff, 0xff, 0xff, 0xff, 0xff, 0xff, 0x01]);
    b.extend_from_slice(&[0x10, 0x05]);
    assert_eq!(
        merge_timestamp(&b, Timestamp::default()),
        Ok(Timestamp { seconds: -1, nanos: 5 })
    );
}
