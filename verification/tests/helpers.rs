use ibc_gamm::pool_api::{
    check_epoch_update, find_balance, get_marker_earned_last_epoch, get_pool_at_epoch_key,
    lock_duration_seconds, marker_denom, cal_total_reward_this_epoch, execute_update_epoch, EpochWork, Pool, RewardShare,
};
use ibc_gamm::pool_manager::{current_epoch_query, pool_query, query_current_epoch_id};
use ibc_gamm::proto::{self, QueryCurrentEpochResponse, WireMessage};
use ibc_gamm::response::BankCoin;
use ibc_gamm::text::same_text;
use ibc_gamm::types::gamm::{
    MsgSwapExactAmountIn, QuerySpotPriceRequest, QuerySpotPriceResponse, SwapAmountInRoute,
};
use ibc_gamm::types::incentives;
use ibc_gamm::types::lockup::LockedDenomResponse;
use ibc_gamm::types::epochs::QueryCurrentEpochRequest;
use ibc_gamm::types::gamm::QuerySwapExactAmountInResponse;
use ibc_gamm::types::{Coin, Msg};

#[test]
fn coin_display_is_amount_then_denom() {
    let c = Coin { denom: "uosmo".to_string(), amount: "10".to_string() };
    assert_eq!(c.to_display_string(), "10uosmo");
    let p = c.into_proto();
    assert_eq!(p, proto::Coin { denom: "uosmo".to_string(), amount: "10".to_string() });
    assert_eq!(Coin::from_proto(&p), c);
}

#[test]
fn spot_price_response_new_and_bytes() {
    let r = QuerySpotPriceResponse::new("1.5");
    assert_eq!(r.spot_price, "1.5");
    assert_eq!(r.clone().into_proto().spot_price, "1.5");
    assert_eq!(r.into_bytes().unwrap(), vec![0x0a, 0x03, b'1', b'.', b'5']);
    let i = incentives::QuerySpotPriceResponse::new("2");
    assert_eq!(i.clone().into_proto().spot_price, "2");
    assert_eq!(i.into_bytes().unwrap(), vec![0x0a, 0x01, b'2']);
}

#[test]
fn locked_denom_response_into_proto() {
    let r = LockedDenomResponse { amount: "77".to_string() };
    assert_eq!(r.clone().into_proto().amount, "77");
    let bytes = r.clone().into_bytes().unwrap();
    assert_eq!(LockedDenomResponse::decode(&bytes).unwrap(), r);
}

#[test]
fn swap_msg_any_matches_proto() {
    let m = MsgSwapExactAmountIn {
        sender: "s".to_string(),
        routes: vec![SwapAmountInRoute { pool_id: 2, token_out_denom: "o".to_string() }],
        token_in: Coin { denom: "d".to_string(), amount: "9".to_string() },
        token_out_min_amount: "1".to_string(),
    };
    let any = m.to_any();
    assert_eq!(any.value, m.into_proto().encode_to_vec());
}

#[test]
fn spot_price_request_conversion() {
    let r = QuerySpotPriceRequest {
        pool_id: 4,
        token_in_denom: "a".to_string(),
        token_out_denom: "b".to_string(),
        with_swap_fee: true,
    };
    assert_eq!(QuerySpotPriceRequest::from_proto(&r.into_proto()), r);
    assert_eq!(r.to_any().type_url, "/osmosis.gamm.v1beta1.Query/SpotPrice");
}

#[test]
fn same_text_compares_views() {
    assert!(same_text("a", "a"));
    assert!(!same_text("a", "b"));
}

#[test]
fn pool_key_and_epochs() {
    assert_eq!(get_pool_at_epoch_key(3, 8), (3, 8));
    assert_eq!(check_epoch_update(5, 4), Ok(5));
    assert_eq!(check_epoch_update(5, 5), Err("already updated".to_string()));
}

#[test]
fn markers_and_durations() {
    let markers = ("m1".to_string(), "m7".to_string(), "m14".to_string());
    assert_eq!(marker_denom(&markers, 1), "m1");
    assert_eq!(marker_denom(&markers, 7), "m7");
    assert_eq!(marker_denom(&markers, 14), "m14");
    assert_eq!(lock_duration_seconds(1), 86400);
    assert_eq!(lock_duration_seconds(7), 604800);
    assert_eq!(lock_duration_seconds(14), 1209600);
}

#[test]
fn marker_earnings_use_the_duration_marker() {
    let pool = Pool {
        gamm_denom: "gamm/pool/1".to_string(),
        unique_token_makers: ("m1".to_string(), "m7".to_string(), "m14".to_string()),
    };
    let balances = vec![
        BankCoin { denom: "m1".to_string(), amount: 50 },
        BankCoin { denom: "m7".to_string(), amount: 70 },
        BankCoin { denom: "m14".to_string(), amount: 140 },
    ];
    assert_eq!(get_marker_earned_last_epoch(&pool, 1, &balances, 20), 30);
    assert_eq!(get_marker_earned_last_epoch(&pool, 7, &balances, 20), 50);
    assert_eq!(get_marker_earned_last_epoch(&pool, 14, &balances, 40), 100);
    assert_eq!(get_marker_earned_last_epoch(&pool, 1, &balances, 50), 0);
}

#[test]
fn find_balance_takes_the_last_entry() {
    let balances = vec![
        BankCoin { denom: "a".to_string(), amount: 1 },
        BankCoin { denom: "b".to_string(), amount: 2 },
        BankCoin { denom: "a".to_string(), amount: 3 },
    ];
    assert_eq!(find_balance(&balances, "a"), Some(3));
    assert_eq!(find_balance(&balances, "b"), Some(2));
    assert_eq!(find_balance(&balances, "c"), None);
    assert_eq!(find_balance(&vec![], "a"), None);
}

#[test]
fn total_reward_keeps_matching_coins() {
    let rewards = vec![
        BankCoin { denom: "x".to_string(), amount: 3 },
        BankCoin { denom: "y".to_string(), amount: 4 },
        BankCoin { denom: "x".to_string(), amount: 5 },
    ];
    let same = ("x".to_string(), "x".to_string());
    assert_eq!(
        cal_total_reward_this_epoch(&rewards, &same),
        vec![
            RewardShare { denom: "x".to_string(), total_reward: 3 },
            RewardShare { denom: "x".to_string(), total_reward: 5 },
        ]
    );
    let pair = ("x".to_string(), "y".to_string());
    assert_eq!(cal_total_reward_this_epoch(&rewards, &pair), vec![]);
    let big = vec![
        BankCoin { denom: "x".to_string(), amount: u128::from(u64::MAX) },
        BankCoin { denom: "z".to_string(), amount: u128::MAX },
    ];
    assert_eq!(
        cal_total_reward_this_epoch(&big, &same),
        vec![RewardShare { denom: "x".to_string(), total_reward: u64::MAX }]
    );
}

#[test]
fn epoch_queries() {
    let q = current_epoch_query();
    assert_eq!(q.path, "/osmosis.epochs.v1beta1.Query/CurrentEpoch");
    assert_eq!(q.data, vec![0x0a, 0x03, b'd', b'a', b'y']);
    let reply = QueryCurrentEpochResponse { current_epoch: 12 }.encode_to_vec();
    assert_eq!(query_current_epoch_id(&reply), Ok(12));
    let p = pool_query(1);
    assert_eq!(p.data, vec![0x08, 0x01]);
}

#[test]
fn msg_trait_wraps_wire_forms() {
    let r = QueryCurrentEpochRequest { identifier: "day".to_string() };
    let any = r.to_any();
    assert_eq!(any.type_url, "/osmosis.epochs.v1beta1.Query/CurrentEpoch");
    assert_eq!(any.value, vec![0x0a, 0x03, b'd', b'a', b'y']);
    assert_eq!(r.clone().into_any(), any);
    let p = QuerySpotPriceResponse::new("7").to_any();
    assert_eq!(p.type_url, "/osmosis.gamm.v1beta1.QuerySpotPriceReponse");
    assert_eq!(p.value, vec![0x0a, 0x01, b'7']);
    let e = QuerySwapExactAmountInResponse { token_out_amount: "12".to_string() };
    assert_eq!(e.to_proto().token_out_amount, "12");
    assert_eq!(QuerySwapExactAmountInResponse::from_any(&e.clone().into_any()).unwrap(), e);
    let i = incentives::QuerySpotPriceResponse::new("3").into_any();
    assert_eq!(i.value, vec![0x0a, 0x01, b'3']);
}

#[test]
fn epoch_update_plans_durations_then_pools() {
    let pools = vec![4u64, 9u64];
    let (epoch, plan) = execute_update_epoch(6, 5, &pools).unwrap();
    assert_eq!(epoch, 6);
    let expected: Vec<EpochWork> = vec![
        EpochWork { duration: 1, pool_id: 4 },
        EpochWork { duration: 1, pool_id: 9 },
        EpochWork { duration: 7, pool_id: 4 },
        EpochWork { duration: 7, pool_id: 9 },
        EpochWork { duration: 14, pool_id: 4 },
        EpochWork { duration: 14, pool_id: 9 },
    ];
    assert_eq!(plan, expected);
    assert_eq!(execute_update_epoch(6, 6, &pools), Err("already updated".to_string()));
    assert_eq!(execute_update_epoch(1, 0, &vec![]), Ok((1, vec![])));
}
