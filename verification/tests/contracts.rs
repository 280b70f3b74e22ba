use ibc_gamm::juno;
use ibc_gamm::pool_manager;
use ibc_gamm::osmosis::{
    execute_fund, finish_spot_price, finish_swap, get_contract_key, ibc_channel_close,
    ibc_channel_connect, ibc_channel_open, instantiate, invalid_packet, packet_permission_denom,
    receive_packet, ChannelOrder, IbcAddLiquidPacket, IbcSwapPacket, InstantiateMsg, PacketMsg, ReceiveStep,
    SpotPriceQueryPacket, SwapFailure,
};
use ibc_gamm::proto::{
    QuerySpotPriceResponse, QuerySwapExactAmountInResponse, WireMessage,
};
use ibc_gamm::response::{
    Acknowledgement, Attribute, AttributeValue, BankCoin, OutgoingMsg, OutgoingPacket,
};

fn text(a: &Attribute) -> (String, String) {
    match &a.value {
        AttributeValue::Text(t) => (a.key.clone(), t.clone()),
        AttributeValue::EncodedPacket => (a.key.clone(), "<packet>".to_string()),
    }
}

fn swap_packet() -> IbcSwapPacket {
    IbcSwapPacket {
        pool_id: 1,
        in_amount: "10".to_owned(),
        in_denom: "test".to_owned(),
        min_out_amount: "1".to_owned(),
        out_denom: "test".to_owned(),
        to_address: "addr".to_owned(),
    }
}

#[test]
fn contract_key_joins_with_slash() {
    let key = get_contract_key("connection-2".to_string(), "their-port".to_string());
    assert_eq!(key, "connection-2/their-port");
}

#[test]
fn channel_version_checks() {
    let ordered = ChannelOrder::Ordered;
    assert_eq!(ibc_channel_open(ordered, "ibc-gamm-1", None), Ok(()));
    assert_eq!(ibc_channel_open(ordered, "ibc-gamm-1", Some("ibc-gamm-1")), Ok(()));
    assert_eq!(
        ibc_channel_open(ordered, "ics20-1", None),
        Err("Must set version to `ibc-gamm-1`".to_string())
    );
    assert_eq!(
        ibc_channel_open(ordered, "ibc-gamm-1", Some("ics20-1")),
        Err("Counterparty version must be `ibc-gamm-1`".to_string())
    );
    assert_eq!(
        ibc_channel_open(ChannelOrder::Unordered, "ibc-gamm-1", Some("ibc-gamm-1")),
        Err("Only supports ordered channels".to_string())
    );
}

#[test]
fn channel_connect_records_connection() {
    let ((chan, conn), resp) = ibc_channel_connect("channel-123", "connection-2");
    assert_eq!(chan, "channel-123");
    assert_eq!(conn, "connection-2");
    let attrs: Vec<_> = resp.attributes.iter().map(text).collect();
    assert_eq!(
        attrs,
        vec![
            ("action".to_string(), "ibc_connect".to_string()),
            ("channel_id".to_string(), "channel-123".to_string())
        ]
    );
    assert_eq!(resp.events.len(), 1);
    assert_eq!(resp.events[0].ty, "ibc");
    let (closed, close) = ibc_channel_close("channel-123");
    assert_eq!(closed, "channel-123");
    assert_eq!(text(&close.attributes[0]), ("action".to_string(), "ibc_close".to_string()));
    assert_eq!(text(&close.attributes[1]), ("channel_id".to_string(), "channel-123".to_string()));
}

#[test]
fn instantiate_has_no_messages() {
    let res = instantiate(&InstantiateMsg {});
    assert_eq!(0, res.messages.len());
    assert_eq!(text(&res.attributes[0]), ("action".to_string(), "instantiate".to_string()));
}

#[test]
fn swap_from_unregistered_port_is_denied() {
    let packet = PacketMsg::IbcSwap { ibc_swap_packet: swap_packet() };
    let step = receive_packet(
        "contract",
        "other-port",
        Some("connection-2".to_string()),
        Some(("their-port".to_string(), "connection-2".to_string())),
        50,
        packet,
    );
    match step {
        ReceiveStep::Respond(r) => {
            assert!(r.messages.is_empty());
            assert_eq!(
                r.ack,
                Some(Acknowledgement::Error(
                    "contract don't have permission to move fund".to_string()
                ))
            );
        }
        _ => panic!("expected a denial"),
    }
}

#[test]
fn swap_over_other_connection_is_denied() {
    let packet = PacketMsg::IbcSwap { ibc_swap_packet: swap_packet() };
    let step = receive_packet(
        "contract",
        "their-port",
        Some("connection-9".to_string()),
        Some(("their-port".to_string(), "connection-2".to_string())),
        50,
        packet,
    );
    assert!(matches!(step, ReceiveStep::Respond(_)));
}

fn estimate_reply(amount: &str) -> Vec<u8> {
    QuerySwapExactAmountInResponse { token_out_amount: amount.to_string() }.encode_to_vec()
}

#[test]
fn contract_handle_dispatch_packet() {
    let ((_, conn), _) = ibc_channel_connect("channel-123", "connection-2");
    let packet = PacketMsg::IbcSwap { ibc_swap_packet: swap_packet() };
    assert_eq!(packet_permission_denom(&packet), Some("test".to_string()));
    let step = receive_packet(
        "addr",
        "their-port",
        Some(conn),
        Some(("their-port".to_owned(), "connection-2".to_owned())),
        50,
        packet,
    );
    let (query, pending) = match step {
        ReceiveStep::EstimateSwap { query, pending } => (query, pending),
        _ => panic!("expected an estimate"),
    };
    assert_eq!(query.path, "/osmosis.gamm.v1beta1.Query/EstimateSwapExactAmountIn");
    let (res, left) = finish_swap(pending, &estimate_reply("5")).unwrap();
    assert_eq!(left, Some(40));
    assert_eq!(res.ack, Some(Acknowledgement::Success));
    assert_eq!(res.messages.len(), 2);
    match &res.messages[0] {
        OutgoingMsg::Stargate { type_url, .. } => {
            assert_eq!(type_url, "/osmosis.gamm.v1beta1.MsgSwapExactAmountIn")
        }
        _ => panic!("expected the swap"),
    }
    assert_eq!(
        res.messages[1],
        OutgoingMsg::BankSend {
            to_address: "addr".to_string(),
            amount: vec![BankCoin { denom: "test".to_string(), amount: 5 }],
        }
    );
}

#[test]
fn swap_below_minimum_is_refused() {
    let mut p = swap_packet();
    p.min_out_amount = "100".to_string();
    let step = receive_packet(
        "contract",
        "their-port",
        Some("connection-2".to_string()),
        Some(("their-port".to_string(), "connection-2".to_string())),
        50,
        PacketMsg::IbcSwap { ibc_swap_packet: p },
    );
    let pending = match step {
        ReceiveStep::EstimateSwap { pending, .. } => pending,
        _ => panic!("expected an estimate"),
    };
    let (res, left) = finish_swap(pending.clone(), &estimate_reply("99")).unwrap();
    assert_eq!(left, None);
    assert!(res.messages.is_empty());
    assert_eq!(
        res.ack,
        Some(Acknowledgement::Error("out amount greater than min out amount".to_string()))
    );
    let (ok, _) = finish_swap(pending.clone(), &estimate_reply("100")).unwrap();
    assert_eq!(ok.messages.len(), 2);
    assert_eq!(finish_swap(pending.clone(), &[0x0a, 0x09]), Err(SwapFailure::UndecodableEstimate));
    assert_eq!(finish_swap(pending.clone(), &estimate_reply("1.5")), Err(SwapFailure::BadEstimate));
    let mut bad = pending;
    bad.min_out_amount = "lots".to_string();
    assert_eq!(finish_swap(bad, &estimate_reply("7")), Err(SwapFailure::BadMinOutAmount));
}

#[test]
fn spot_price_query_round() {
    let packet = PacketMsg::SpotPriceQuery {
        spot_price_query_packet: SpotPriceQueryPacket {
            pool_id: 1,
            in_denom: "a".to_string(),
            out_denom: "b".to_string(),
            with_swap_fee: false,
        },
    };
    assert_eq!(packet_permission_denom(&packet), None);
    let step = receive_packet("contract", "any-port", None, None, 0, packet);
    match step {
        ReceiveStep::QuerySpotPrice { query } => {
            assert_eq!(query.path, "/osmosis.gamm.v1beta1.Query/SpotPrice");
            assert_eq!(query.data, vec![0x08, 0x01, 0x12, 0x01, b'a', 0x1a, 0x01, b'b']);
        }
        _ => panic!("expected a query"),
    }
    let reply = QuerySpotPriceResponse { spot_price: "1.022258688245249243".to_string() }
        .encode_to_vec();
    let res = finish_spot_price(&reply).unwrap();
    match res.ack {
        Some(Acknowledgement::SpotPrice(sp)) => assert_eq!(sp.spot_price, "1.022258688245249243"),
        _ => panic!("expected a price"),
    }
    assert!(finish_spot_price(&[0xff]).is_err());
}

#[test]
fn add_liquidity_joins_pool() {
    let packet = PacketMsg::IbcAddLiquidity {
        ibc_add_liquidity: IbcAddLiquidPacket {
            pool_id: 3,
            token1_denom: "a".to_string(),
            token1_amount: "1".to_string(),
            token2_denom: "b".to_string(),
            token2_amount: "2".to_string(),
            share_out_amount: "7".to_string(),
        },
    };
    assert_eq!(packet_permission_denom(&packet), Some("a".to_string()));
    let step = receive_packet(
        "s",
        "p",
        Some("c".to_string()),
        Some(("p".to_string(), "c".to_string())),
        0,
        packet,
    );
    match step {
        ReceiveStep::Respond(r) => {
            assert_eq!(r.ack, Some(Acknowledgement::Success));
            match &r.messages[0] {
                OutgoingMsg::Stargate { type_url, value } => {
                    assert_eq!(type_url, "/osmosis.gamm.v1beta1.MsgJoinPool");
                    assert_eq!(
                        value,
                        &vec![
                            0x0a, 0x01, b's', 0x10, 0x03, 0x1a, 0x01, b'7', 0x22, 0x06, 0x0a,
                            0x01, b'a', 0x12, 0x01, b'1', 0x22, 0x06, 0x0a, 0x01, b'b', 0x12,
                            0x01, b'2',
                        ]
                    );
                }
                _ => panic!("expected a join"),
            }
        }
        _ => panic!("expected a response"),
    }
}

#[test]
fn invalid_packet_ack() {
    let r = invalid_packet("alloc::string::String not found");
    assert_eq!(
        r.ack,
        Some(Acknowledgement::Error("invalid packet: alloc::string::String not found".to_string()))
    );
    assert_eq!(r.events[0].ty, "ibc");
}

#[test]
fn fund_records_one_write_per_coin() {
    let funds = vec![
        BankCoin { denom: "a".to_string(), amount: 5 },
        BankCoin { denom: "b".to_string(), amount: 7 },
    ];
    let (records, resp) = execute_fund("conn".to_string(), "port".to_string(), &vec![], &funds).unwrap();
    assert_eq!(records.len(), 2);
    assert_eq!(records[0].contract_key, "conn/port");
    assert_eq!(records[1].denom, "b");
    assert_eq!(records[1].amount, 7);
    assert_eq!(text(&resp.attributes[0]), ("action".to_string(), "execute_fund_msg".to_string()));
}

#[test]
fn funding_adds_to_what_was_recorded() {
    let stored = vec![BankCoin { denom: "a".to_string(), amount: 10 }];
    let funds = vec![
        BankCoin { denom: "a".to_string(), amount: 5 },
        BankCoin { denom: "b".to_string(), amount: 7 },
        BankCoin { denom: "a".to_string(), amount: 1 },
    ];
    let (records, _) = execute_fund("c".to_string(), "p".to_string(), &stored, &funds).unwrap();
    let amounts: Vec<u128> = records.iter().map(|r| r.amount).collect();
    assert_eq!(amounts, vec![15, 7, 16]);
    let full = vec![BankCoin { denom: "a".to_string(), amount: u128::MAX }];
    assert_eq!(
        execute_fund("c".to_string(), "p".to_string(), &full, &funds),
        Err("fund total overflows".to_string())
    );
    let (at_max, _) = execute_fund("c".to_string(), "p".to_string(), &full, &vec![
        BankCoin { denom: "b".to_string(), amount: 1 },
    ]).unwrap();
    assert_eq!(at_max[0].amount, 1);
}

#[test]
fn juno_instantiate_and_set_denom() {
    let (cfg, _) = juno::instantiate("creator", &juno::InstantiateMsg {});
    assert_eq!(cfg.admin, "creator");
    assert_eq!(cfg.denom, "nil");
    let refused = juno::handle_set_denom(&cfg, "someone", "uosmo".to_string());
    assert_eq!(
        refused,
        Err(juno::ContractError::Generic("Only admin may set new denom".to_string()))
    );
    let (new_cfg, resp) = juno::handle_set_denom(&cfg, "creator", "uosmo".to_string()).unwrap();
    assert_eq!(new_cfg.denom, "uosmo");
    assert_eq!(new_cfg.admin, "creator");
    assert_eq!(text(&resp.attributes[1]), ("new_admin".to_string(), "uosmo".to_string()));
}

fn coin(d: &str, a: u128) -> juno::SentCoin {
    juno::SentCoin { denom: d.to_string(), amount: a }
}

#[test]
fn juno_send_funds_needs_exactly_one_coin() {
    let msg = juno::IbcFundGammContractMsg {
        channel_id: "channel-0".to_string(),
        remote_gamm_contract_address: "osmo1gamm".to_string(),
    };
    assert!(juno::handle_send_funds(u64::MAX, "user", &vec![], msg.clone()).is_err());
    assert_eq!(
        juno::handle_send_funds(10, "user", &vec![], msg.clone()),
        Err(juno::ContractError::Generic(
            "you must send the coins you wish to ibc transfer".to_string()
        ))
    );
    assert_eq!(
        juno::handle_send_funds(10, "user", &vec![coin("a", 1), coin("b", 2)], msg.clone()),
        Err(juno::ContractError::Generic("you can only ibc transfer one coin".to_string()))
    );
    let r = juno::handle_send_funds(10, "user", &vec![coin("a", 1)], msg).unwrap();
    assert_eq!(
        r.messages[0],
        OutgoingMsg::SendPacket {
            channel_id: "channel-0".to_string(),
            data: OutgoingPacket::Ics20(juno::Ics20Packet {
                amount: 10000000,
                denom: "test".to_string(),
                receiver: "osmo1gamm".to_string(),
                sender: "user".to_string(),
            }),
            timeout_nanos: 10 + 3600 * 1_000_000_000,
        }
    );
}

#[test]
fn juno_ibc_swap_sends_packet() {
    let cfg = juno::Config { admin: "creator".to_string(), denom: "nil".to_string() };
    let msg = juno::IbcSwapMsg {
        channel_id: "channel-1".to_string(),
        pool_id: 9,
        in_denom: "ujuno".to_string(),
        in_amount: "10".to_string(),
        out_denom: "uosmo".to_string(),
        min_out_amount: "1".to_string(),
        to_address: "osmo1to".to_string(),
    };
    let r = juno::handle_ibc_swap(&cfg, 1_000, &vec![coin("ujuno", 10)], msg.clone()).unwrap();
    match &r.messages[0] {
        OutgoingMsg::SendPacket { channel_id, data, timeout_nanos } => {
            assert_eq!(channel_id, "channel-1");
            assert_eq!(*timeout_nanos, 1_000 + 3_600_000_000_000);
            assert_eq!(
                data,
                &OutgoingPacket::Packet(juno::PacketMsg::IbcSwap {
                    ibc_swap_packet: juno::IbcSwapPacket {
                        pool_id: 9,
                        in_amount: "10".to_string(),
                        in_denom: "ujuno".to_string(),
                        min_out_amount: "1".to_string(),
                        out_denom: "uosmo".to_string(),
                        to_address: "osmo1to".to_string(),
                    }
                })
            );
        }
        _ => panic!("expected a packet"),
    }
    let attrs: Vec<_> = r.attributes.iter().map(text).collect();
    assert_eq!(attrs[0], ("action".to_string(), "swap_amount".to_string()));
    assert_eq!(attrs[1], ("packet".to_string(), "<packet>".to_string()));
    assert_eq!(attrs[2], ("in_denom".to_string(), "ujuno".to_string()));
    assert!(juno::handle_ibc_swap(&cfg, 1_000, &vec![], msg.clone()).is_err());
    assert!(juno::handle_ibc_swap(&cfg, u64::MAX, &vec![], msg).is_err());
}

#[test]
fn juno_execute_dispatches() {
    let cfg = juno::Config { admin: "creator".to_string(), denom: "nil".to_string() };
    let msg = juno::ExecuteMsg::SpotPriceQuery(juno::SpotPriceQueryMsg {
        channel_id: "channel-1".to_string(),
        pool_id: 1,
        in_denom: "a".to_string(),
        out_denom: "b".to_string(),
        with_swap_fee: true,
    });
    let (new_cfg, r) = juno::execute(Some(&cfg), 0, "anyone", &vec![], msg).unwrap();
    assert!(new_cfg.is_none());
    assert_eq!(r.messages.len(), 1);
    let set = juno::ExecuteMsg::SetDenom(juno::SetIbcDenomMsg { ibc_denom: "x".to_string() });
    let (new_cfg, _) = juno::execute(Some(&cfg), 0, "creator", &vec![], set).unwrap();
    assert_eq!(new_cfg.unwrap().denom, "x");
}

#[test]
fn juno_packet_receive_answers_empty_object() {
    let r = juno::ibc_packet_receive();
    assert_eq!(r.ack, Some(Acknowledgement::Raw(b"{}".to_vec())));
}

#[test]
fn pool_manager_fund_and_epoch_update_record_funds() {
    let funds = vec![BankCoin { denom: "uosmo".to_string(), amount: 3 }];
    let msg = pool_manager::FundMsg {
        contract_port_id: "wasm.x".to_string(),
        contract_connection_id: "connection-0".to_string(),
    };
    let (records, resp) = pool_manager::execute_fund(&funds, msg.clone());
    assert_eq!(records.len(), 1);
    assert_eq!(records[0].contract_key, "connection-0/wasm.x");
    assert_eq!(records[0].denom, "uosmo");
    assert_eq!(records[0].amount, 3);
    assert_eq!(text(&resp.attributes[0]), ("action".to_string(), "execute_fund_msg".to_string()));
    let (again, resp2) = pool_manager::execute_update_epoch(&funds, msg);
    assert_eq!(again, records);
    assert_eq!(resp2.attributes.len(), 1);
}

#[test]
fn juno_swap_acknowledgement_is_recorded() {
    let r = juno::acknowledge_ibc_swap();
    assert!(r.messages.is_empty());
    assert_eq!(text(&r.attributes[0]), ("action".to_string(), "acknowledge_dispatch".to_string()));
    assert_eq!(r.ack, None);
}

#[test]
fn swap_amounts_read_as_decimal_text() {
    let step = receive_packet(
        "contract",
        "their-port",
        Some("connection-2".to_string()),
        Some(("their-port".to_string(), "connection-2".to_string())),
        50,
        PacketMsg::IbcSwap { ibc_swap_packet: swap_packet() },
    );
    let mut pending = match step {
        ReceiveStep::EstimateSwap { pending, .. } => pending,
        _ => panic!("expected an estimate"),
    };
    pending.min_out_amount = "+10".to_string();
    let (max, _) = finish_swap(pending.clone(), &estimate_reply("340282366920938463463374607431768211455"))
        .unwrap();
    assert_eq!(
        max.messages[1],
        OutgoingMsg::BankSend {
            to_address: "addr".to_string(),
            amount: vec![BankCoin { denom: "test".to_string(), amount: u128::MAX }],
        }
    );
    let (low, _) = finish_swap(pending.clone(), &estimate_reply("9")).unwrap();
    assert!(low.messages.is_empty());
    for bad in ["340282366920938463463374607431768211456", "", "+", "-1", " 1", "1.5"] {
        assert_eq!(finish_swap(pending.clone(), &estimate_reply(bad)), Err(SwapFailure::BadEstimate));
    }
}

#[test]
fn juno_accepts_any_channel() {
    assert_eq!(juno::ibc_channel_open(), Ok(()));
}

#[test]
fn swap_is_held_to_the_funds_sent() {
    let swap = |funded: u128, amount: &str| {
        let mut p = swap_packet();
        p.in_amount = amount.to_string();
        receive_packet(
            "contract",
            "their-port",
            Some("connection-2".to_string()),
            Some(("their-port".to_string(), "connection-2".to_string())),
            funded,
            PacketMsg::IbcSwap { ibc_swap_packet: p },
        )
    };
    match swap(50, "50") {
        ReceiveStep::EstimateSwap { pending, .. } => assert_eq!(pending.fund_left, 0),
        _ => panic!("expected an estimate"),
    }
    for (funded, amount) in [(50, "51"), (0, "1"), (50, "ten")] {
        match swap(funded, amount) {
            ReceiveStep::Respond(r) => {
                assert!(r.messages.is_empty());
                assert_eq!(
                    r.ack,
                    Some(Acknowledgement::Error(
                        "contract don't have permission to move fund".to_string()
                    ))
                );
            }
            _ => panic!("expected a denial"),
        }
    }
}
