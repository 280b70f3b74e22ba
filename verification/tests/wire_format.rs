use ibc_gamm::proto::{
    Any, Coin, LockedDenomResponse, MsgJoinPool, MsgJoinSwapExternAmountIn, MsgProto, MsgSwapExactAmountIn, ProtoError,
    QueryCurrentEpochRequest, QueryCurrentEpochResponse, QueryPoolRequest, QueryPoolResponse, QuerySpotPriceRequest,
    QuerySpotPriceResponse, QuerySwapExactAmountInRequest, QuerySwapExactAmountInResponse,
    SwapAmountInRoute, WireMessage,
};

#[test]
fn spot_price_response_bytes() {
    let m = QuerySpotPriceResponse { spot_price: "1.5".to_string() };
    assert_eq!(m.encode_to_vec(), vec![0x0a, 0x03, b'1', b'.', b'5']);
}

#[test]
fn empty_string_field_is_left_out() {
    let m = QuerySpotPriceResponse { spot_price: String::new() };
    assert_eq!(m.encode_to_vec(), Vec::<u8>::new());
    let d = QuerySpotPriceResponse::decode(&[]).unwrap();
    assert_eq!(d.spot_price, "");
}

#[test]
fn spot_price_response_roundtrip() {
    let m = QuerySpotPriceResponse { spot_price: "0.0123456789é".to_string() };
    let bytes = m.encode_to_vec();
    assert_eq!(QuerySpotPriceResponse::decode(&bytes).unwrap(), m);
}

#[test]
fn swap_estimate_response_roundtrip() {
    let m = QuerySwapExactAmountInResponse { token_out_amount: "98765".to_string() };
    let bytes = m.encode_to_vec();
    assert_eq!(QuerySwapExactAmountInResponse::decode(&bytes).unwrap(), m);
}

#[test]
fn locked_denom_response_roundtrip() {
    let m = LockedDenomResponse { amount: "42".to_string() };
    let bytes = m.encode_to_vec();
    assert_eq!(bytes, vec![0x0a, 0x02, b'4', b'2']);
    assert_eq!(LockedDenomResponse::decode(&bytes).unwrap(), m);
}

#[test]
fn current_epoch_response_bytes_and_roundtrip() {
    let m = QueryCurrentEpochResponse { current_epoch: 150 };
    let bytes = m.encode_to_vec();
    assert_eq!(bytes, vec![0x08, 0x96, 0x01]);
    assert_eq!(QueryCurrentEpochResponse::decode(&bytes).unwrap(), m);
    let big = QueryCurrentEpochResponse { current_epoch: u64::MAX };
    let bytes = big.encode_to_vec();
    assert_eq!(bytes.len(), 11);
    assert_eq!(QueryCurrentEpochResponse::decode(&bytes).unwrap(), big);
}

#[test]
fn decode_skips_unknown_fields_and_keeps_last_value() {
    // field 2 (varint 7), field 1 "a", field 3 (length-delimited "xy"), field 1 "bc"
    let bytes = vec![
        0x10, 0x07, 0x0a, 0x01, b'a', 0x1a, 0x02, b'x', b'y', 0x0a, 0x02, b'b', b'c',
    ];
    let d = QuerySpotPriceResponse::decode(&bytes).unwrap();
    assert_eq!(d.spot_price, "bc");
}

#[test]
fn decode_refuses_malformed_bytes() {
    // length runs past the end
    assert_eq!(QuerySpotPriceResponse::decode(&[0x0a, 0x05, b'a']), Err(ProtoError::Decode));
    // wrong wire type for field 1
    assert_eq!(QuerySpotPriceResponse::decode(&[0x08, 0x01]), Err(ProtoError::Decode));
    // invalid UTF-8
    assert_eq!(QuerySpotPriceResponse::decode(&[0x0a, 0x01, 0xff]), Err(ProtoError::Decode));
    // tag 0
    assert_eq!(QueryCurrentEpochResponse::decode(&[0x00, 0x01]), Err(ProtoError::Decode));
    // truncated varint
    assert_eq!(QueryCurrentEpochResponse::decode(&[0x08, 0x80]), Err(ProtoError::Decode));
    // eleven-byte varint
    let mut too_long = vec![0x08];
    too_long.extend_from_slice(&[0xff; 10]);
    too_long.push(0x01);
    assert_eq!(QueryCurrentEpochResponse::decode(&too_long), Err(ProtoError::Decode));
}

#[test]
fn pool_request_varint() {
    let m = QueryPoolRequest { pool_id: 300 };
    assert_eq!(m.encode_to_vec(), vec![0x08, 0xac, 0x02]);
    let any = m.to_any();
    assert_eq!(any.type_url, "/osmosis.gamm.v1beta1.Query/Pool");
}

#[test]
fn current_epoch_request_bytes() {
    let m = QueryCurrentEpochRequest { identifier: "day".to_string() };
    assert_eq!(m.encode_to_vec(), vec![0x0a, 0x03, b'd', b'a', b'y']);
}

#[test]
fn spot_price_request_bytes() {
    let m = QuerySpotPriceRequest {
        pool_id: 1,
        token_in_denom: "a".to_string(),
        token_out_denom: "b".to_string(),
        with_swap_fee: true,
    };
    assert_eq!(
        m.encode_to_vec(),
        vec![0x08, 0x01, 0x12, 0x01, b'a', 0x1a, 0x01, b'b', 0x20, 0x01]
    );
    let no_fee = QuerySpotPriceRequest { with_swap_fee: false, ..m };
    assert_eq!(no_fee.encode_to_vec(), vec![0x08, 0x01, 0x12, 0x01, b'a', 0x1a, 0x01, b'b']);
}

#[test]
fn swap_message_bytes() {
    let m = MsgSwapExactAmountIn {
        sender: "s".to_string(),
        routes: vec![SwapAmountInRoute { pool_id: 2, token_out_denom: "o".to_string() }],
        token_in: Some(Coin { denom: "d".to_string(), amount: "9".to_string() }),
        token_out_min_amount: "1".to_string(),
    };
    assert_eq!(
        m.encode_to_vec(),
        vec![
            0x0a, 0x01, b's', // sender
            0x12, 0x05, 0x08, 0x02, 0x12, 0x01, b'o', // route
            0x1a, 0x06, 0x0a, 0x01, b'd', 0x12, 0x01, b'9', // token in
            0x22, 0x01, b'1', // min out
        ]
    );
    assert_eq!(m.to_any().type_url, "/osmosis.gamm.v1beta1.MsgSwapExactAmountIn");
}

#[test]
fn empty_embedded_message_is_kept() {
    let m = MsgSwapExactAmountIn {
        sender: String::new(),
        routes: vec![SwapAmountInRoute::default()],
        token_in: Some(Coin::default()),
        token_out_min_amount: String::new(),
    };
    assert_eq!(m.encode_to_vec(), vec![0x12, 0x00, 0x1a, 0x00]);
}

#[test]
fn join_pool_bytes() {
    let m = MsgJoinPool {
        sender: "s".to_string(),
        pool_id: 3,
        share_out_amount: "7".to_string(),
        token_in_maxs: vec![
            Coin { denom: "a".to_string(), amount: "1".to_string() },
            Coin { denom: "b".to_string(), amount: "2".to_string() },
        ],
    };
    assert_eq!(
        m.encode_to_vec(),
        vec![
            0x0a, 0x01, b's', 0x10, 0x03, 0x1a, 0x01, b'7', 0x22, 0x06, 0x0a, 0x01, b'a', 0x12,
            0x01, b'1', 0x22, 0x06, 0x0a, 0x01, b'b', 0x12, 0x01, b'2',
        ]
    );
}

#[test]
fn swap_estimate_request_bytes() {
    let m = QuerySwapExactAmountInRequest {
        sender: "c".to_string(),
        pool_id: 1,
        token_in: "10test".to_string(),
        routes: vec![SwapAmountInRoute { pool_id: 1, token_out_denom: "x".to_string() }],
    };
    let mut expected = vec![0x0a, 0x01, b'c', 0x10, 0x01, 0x1a, 0x06];
    expected.extend_from_slice(b"10test");
    expected.extend_from_slice(&[0x22, 0x05, 0x08, 0x01, 0x12, 0x01, b'x']);
    assert_eq!(m.encode_to_vec(), expected);
    assert_eq!(m.to_any().type_url, "/osmosis.gamm.v1beta1.Query/EstimateSwapExactAmountIn");
}

#[test]
fn spot_price_response_from_any() {
    let m = QuerySpotPriceResponse { spot_price: "2".to_string() };
    let any = m.to_any();
    assert_eq!(any.type_url, "/osmosis.gamm.v1beta1.QuerySpotPriceReponse");
    assert_eq!(QuerySpotPriceResponse::from_any(&any).unwrap(), m);
    let other = Any { type_url: "/other".to_string(), value: vec![] };
    assert_eq!(QuerySpotPriceResponse::from_any(&other), Err(ProtoError::TypeUrlMismatch));
    let est = QuerySwapExactAmountInResponse { token_out_amount: "3".to_string() };
    assert_eq!(QuerySwapExactAmountInResponse::from_any(&est.to_any()).unwrap(), est);
}

fn back<P: MsgProto + WireMessage + PartialEq + std::fmt::Debug>(m: P) {
    let any = m.to_any();
    assert_eq!(P::from_any(&any), Ok(m));
}

#[test]
fn every_message_reads_back_out_of_its_any() {
    let coin = Coin { denom: "uosmo".to_string(), amount: "5".to_string() };
    let route = SwapAmountInRoute { pool_id: 3, token_out_denom: "uatom".to_string() };
    back(MsgSwapExactAmountIn {
        sender: "s".to_string(),
        routes: vec![route.clone(), route.clone()],
        token_in: Some(coin.clone()),
        token_out_min_amount: "1".to_string(),
    });
    back(MsgJoinPool {
        sender: "s".to_string(),
        pool_id: 7,
        share_out_amount: "100".to_string(),
        token_in_maxs: vec![coin.clone(), coin.clone()],
    });
    back(MsgJoinSwapExternAmountIn {
        sender: "s".to_string(),
        pool_id: 2,
        token_in: Some(coin.clone()),
        share_out_min_amount: "9".to_string(),
    });
    back(QuerySpotPriceRequest {
        pool_id: 1,
        token_in_denom: "a".to_string(),
        token_out_denom: "b".to_string(),
        with_swap_fee: true,
    });
    back(QuerySpotPriceResponse { spot_price: "0.5".to_string() });
    back(QuerySwapExactAmountInRequest {
        sender: "s".to_string(),
        pool_id: 4,
        token_in: "10uosmo".to_string(),
        routes: vec![route],
    });
    back(QuerySwapExactAmountInResponse { token_out_amount: "12".to_string() });
    back(QueryPoolRequest { pool_id: 300 });
    back(QueryCurrentEpochRequest { identifier: "day".to_string() });
    back(QueryPoolResponse {
        pool: Some(Any { type_url: "/p".to_string(), value: vec![0x08, 0x01] }),
    });
    back(QueryPoolResponse { pool: None });
}

#[test]
fn any_bytes_and_skipped_fixed_fields() {
    let any = Any { type_url: "t".to_string(), value: vec![7, 8] };
    assert_eq!(any.encode_to_vec(), vec![0x0a, 0x01, b't', 0x12, 0x02, 7, 8]);
    assert_eq!(Any { type_url: String::new(), value: vec![] }.encode_to_vec(), Vec::<u8>::new());
    let with_fixed = vec![0x4d, 1, 2, 3, 4, 0x51, 1, 2, 3, 4, 5, 6, 7, 8, 0x58, 0x2a, 0x08, 0x06];
    assert_eq!(QuerySpotPriceRequest::decode_bytes(&with_fixed).unwrap().pool_id, 6);
    assert_eq!(QueryPoolRequest::decode_bytes(&[0x4d, 1, 2, 3]), Err(ProtoError::Decode));
    assert_eq!(QueryPoolRequest::decode_bytes(&[0x0d, 1, 2, 3, 4]), Err(ProtoError::Decode));
}

#[test]
fn from_any_refuses_other_type_urls_and_bad_bytes() {
    let any = Any { type_url: "/x".to_string(), value: vec![] };
    assert_eq!(QueryPoolRequest::from_any(&any), Err(ProtoError::TypeUrlMismatch));
    assert_eq!(QuerySpotPriceRequest::decode_bytes(&[0x20, 0x80]), Err(ProtoError::Decode));
    let req = QuerySpotPriceRequest::decode_bytes(&[0x20, 0x02, 0x20, 0x00]).unwrap();
    assert!(!req.with_swap_fee);
}
