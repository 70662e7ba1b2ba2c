use andromeda::common::{ContractError, CosmosMsg, ExecAction};
use andromeda::ics721::{
    enforce_order_and_version, execute_transfer, ibc_channel_connect, instantiate, migrate, on_packet_failure,
    query_channel, query_list, ChannelInfo, Config, IbcChannel, IbcEndpoint, IbcOrder, Ics721Packet, InitMsg,
    MigrateMsg, TransferMsg,
};

fn endpoint(port: &str, channel: &str) -> IbcEndpoint {
    IbcEndpoint { port_id: port.to_string(), channel_id: channel.to_string() }
}

fn channel(version: &str, order: IbcOrder) -> IbcChannel {
    IbcChannel {
        endpoint: endpoint("wasm.contract", "channel-1"),
        counterparty_endpoint: endpoint("transfer", "channel-7"),
        order,
        version: version.to_string(),
        connection_id: "connection-2".to_string(),
    }
}

fn stored_channel(id: &str) -> ChannelInfo {
    ChannelInfo { id: id.to_string(), counterparty_endpoint: endpoint("transfer", "channel-7"), connection_id: "connection-2".to_string() }
}

#[test]
fn instantiate_keeps_default_timeout() {
    let config = instantiate(&InitMsg { default_timeout: 300 });
    assert_eq!(config, Config { default_timeout: 300 });
}

#[test]
fn handshake_accepts_unordered_ics721_channel() {
    let version = "ics721-1".to_string();
    assert_eq!(enforce_order_and_version(&channel("ics721-1", IbcOrder::Unordered), Some(&version)), Ok(()));
    assert_eq!(enforce_order_and_version(&channel("ics721-1", IbcOrder::Unordered), None), Ok(()));
}

#[test]
fn handshake_refuses_wrong_versions_and_ordered_channels() {
    assert_eq!(
        enforce_order_and_version(&channel("ics20-1", IbcOrder::Unordered), None),
        Err(ContractError::InvalidIbcVersion { version: "ics20-1".to_string() })
    );
    let other = "ics20-1".to_string();
    assert_eq!(
        enforce_order_and_version(&channel("ics721-1", IbcOrder::Unordered), Some(&other)),
        Err(ContractError::InvalidIbcVersion { version: "ics20-1".to_string() })
    );
    assert_eq!(
        enforce_order_and_version(&channel("ics721-1", IbcOrder::Ordered), None),
        Err(ContractError::OnlyOrderedChannel)
    );
}

#[test]
fn connect_records_channel() {
    let info = ibc_channel_connect(&channel("ics721-1", IbcOrder::Unordered), None).unwrap();
    assert_eq!(info, stored_channel("channel-1"));
}

#[test]
fn transfer_builds_packet_with_timeout() {
    let channels = vec![stored_channel("channel-1")];
    let msg = TransferMsg { channel: "channel-1".to_string(), remote_address: "remote".to_string(), timeout: None };
    let sent = execute_transfer(
        &channels,
        &Config { default_timeout: 100 },
        5_000_000_000,
        msg,
        "token".to_string(),
        "nft_contract".to_string(),
        vec![1, 2, 3],
        "sender".to_string(),
    )
    .unwrap();
    assert_eq!(sent.channel_id, "channel-1");
    assert_eq!(sent.timeout_nanos, 105_000_000_000);
    assert_eq!(sent.packet.receiver, "remote");
    assert_eq!(sent.packet.sender, "sender");
    assert_eq!(sent.packet.token_info, vec![1, 2, 3]);
}

#[test]
fn transfer_over_unknown_channel_fails() {
    let msg = TransferMsg { channel: "channel-9".to_string(), remote_address: "remote".to_string(), timeout: Some(5) };
    let res = execute_transfer(
        &vec![stored_channel("channel-1")],
        &Config { default_timeout: 100 },
        0,
        msg,
        "token".to_string(),
        "nft".to_string(),
        vec![],
        "sender".to_string(),
    );
    assert_eq!(res.unwrap_err(), ContractError::NoSuchChannel { id: "channel-9".to_string() });
}

#[test]
fn failed_packet_returns_token_to_sender() {
    let packet = Ics721Packet {
        token_id: "t1".to_string(),
        token_addr: "nft".to_string(),
        token_info: vec![],
        receiver: "remote".to_string(),
        sender: "local".to_string(),
    };
    let msg = on_packet_failure(packet);
    assert_eq!(
        msg,
        CosmosMsg::Execute {
            contract: "nft".to_string(),
            action: ExecAction::TransferNft { recipient: "local".to_string(), token_id: "t1".to_string() },
            funds: vec![],
        }
    );
}

#[test]
fn queries_list_and_find_channels() {
    let channels = vec![stored_channel("a"), stored_channel("b")];
    assert_eq!(query_list(&channels).channels, channels);
    assert_eq!(query_channel(&channels, &"b".to_string()).unwrap().info, stored_channel("b"));
    assert_eq!(query_channel(&channels, &"c".to_string()).unwrap_err(), ContractError::NotFound);
}

#[test]
fn migrate_only_same_contract() {
    assert!(migrate(&"crates.io:cw721-ics721".to_string(), &MigrateMsg {}).is_ok());
    assert_eq!(
        migrate(&"crates.io:other".to_string(), &MigrateMsg {}),
        Err(ContractError::CannotMigrate { previous_contract: "crates.io:other".to_string() })
    );
}
