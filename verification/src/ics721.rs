//! NFT transfers over IBC: the channel handshake checks, the packet sent for a
//! transfer and the token movements on receipt and on failure.
use vstd::prelude::*;
use crate::common::{ContractError, CosmosMsg, ExecAction, is_nft_transfer};

verus! {

/// Instantiation: the timeout of packets whose transfer names none, in seconds.
#[derive(Clone, Debug)]
pub struct InitMsg {
    pub default_timeout: u64,
}

/// Migration takes no parameters.
#[derive(Clone, Debug)]
pub struct MigrateMsg {}

/// What a cw721 `Receive` asks for: the local channel, the remote recipient and
/// an optional timeout in seconds.
#[derive(Clone, Debug, PartialEq, Eq)]
pub struct TransferMsg {
    pub channel: String,
    pub remote_address: String,
    pub timeout: Option<u64>,
}

/// The queries of the contract.
#[derive(Clone, Debug, PartialEq, Eq)]
pub enum QueryMsg {
    Port {},
    ListChannels {},
    Channel { id: String },
}

/// One end of a channel.
#[derive(Clone, Debug, PartialEq, Eq)]
pub struct IbcEndpoint {
    pub port_id: String,
    pub channel_id: String,
}

impl IbcEndpoint {
    pub fn copy(&self) -> (r: IbcEndpoint)
        ensures
            r == *self,
    {
        IbcEndpoint { port_id: self.port_id.clone(), channel_id: self.channel_id.clone() }
    }
}

/// A connected channel as the contract records it.
#[derive(Clone, Debug, PartialEq, Eq)]
pub struct ChannelInfo {
    pub id: String,
    pub counterparty_endpoint: IbcEndpoint,
    pub connection_id: String,
}

impl ChannelInfo {
    pub fn copy(&self) -> (r: ChannelInfo)
        ensures
            r == *self,
    {
        ChannelInfo {
            id: self.id.clone(),
            counterparty_endpoint: self.counterparty_endpoint.copy(),
            connection_id: self.connection_id.clone(),
        }
    }
}

#[derive(Clone, Debug, PartialEq, Eq)]
pub struct ListChannelsResponse {
    pub channels: Vec<ChannelInfo>,
}

#[derive(Clone, Debug, PartialEq, Eq)]
pub struct ChannelResponse {
    pub info: ChannelInfo,
}

#[derive(Clone, Debug, PartialEq, Eq)]
pub struct PortResponse {
    pub port_id: String,
}

/// The stored configuration.
#[derive(Clone, Copy, Debug, PartialEq, Eq)]
pub struct Config {
    pub default_timeout: u64,
}

/// Channel ordering.
#[derive(Clone, Copy, Debug, PartialEq, Eq, Structural)]
pub enum IbcOrder {
    Unordered,
    Ordered,
}

/// A channel as the handshake presents it.
#[derive(Clone, Debug)]
pub struct IbcChannel {
    pub endpoint: IbcEndpoint,
    pub counterparty_endpoint: IbcEndpoint,
    pub order: IbcOrder,
    pub version: String,
    pub connection_id: String,
}

/// The packet of one NFT transfer; `token_info` is the token's serialized
/// `NftInfo` as the token contract answered it.
#[derive(Clone, Debug, PartialEq, Eq)]
pub struct Ics721Packet {
    pub token_id: String,
    pub token_addr: String,
    pub token_info: Vec<u8>,
    pub receiver: String,
    pub sender: String,
}

/// The IBC packet a transfer sends: channel, packet and absolute timeout in nanoseconds.
#[derive(Clone, Debug)]
pub struct SendPacket {
    pub channel_id: String,
    pub packet: Ics721Packet,
    pub timeout_nanos: u64,
}

/// The channel version this contract speaks.
pub open spec fn ics721_version() -> Seq<char> {
    "ics721-1"@
}

/// The contract's name, kept with its version for migrations.
pub open spec fn contract_name() -> Seq<char> {
    "crates.io:cw721-ics721"@
}

/// `instantiate`: the stored configuration.
pub fn instantiate(msg: &InitMsg) -> (r: Config)
    ensures
        r.default_timeout == msg.default_timeout,
{
    Config { default_timeout: msg.default_timeout }
}

/// `enforce_order_and_version`: the channel, and the counterparty if it names a
/// version, must speak this contract's version, and the channel must be unordered.
pub fn enforce_order_and_version(channel: &IbcChannel, counterparty_version: Option<&String>) -> (r: Result<(), ContractError>)
    ensures
        r is Ok <==> ({
            &&& channel.version@ == ics721_version()
            &&& (counterparty_version matches Some(v) ==> v@ == ics721_version())
            &&& channel.order == IbcOrder::Unordered
        }),
        channel.version@ != ics721_version() ==> r == Err::<(), ContractError>(ContractError::InvalidIbcVersion { version: channel.version }),
        match counterparty_version {
            Some(v) => channel.version@ == ics721_version() && v@ != ics721_version() ==> (r matches Err(
                ContractError::InvalidIbcVersion { version },
            ) && version@ == v@),
            None => true,
        },
        channel.version@ == ics721_version() && (counterparty_version matches Some(v) ==> v@ == ics721_version())
            && channel.order != IbcOrder::Unordered ==> r == Err::<(), ContractError>(ContractError::OnlyOrderedChannel),
{
    let expected = "ics721-1".to_owned();
    if channel.version != expected {
        return Err(ContractError::InvalidIbcVersion { version: channel.version.clone() });
    }
    if let Some(version) = counterparty_version {
        if *version != expected {
            return Err(ContractError::InvalidIbcVersion { version: version.clone() });
        }
    }
    match channel.order {
        IbcOrder::Unordered => Ok(()),
        IbcOrder::Ordered => Err(ContractError::OnlyOrderedChannel),
    }
}

/// The channel position of `id` among the recorded channels.
pub open spec fn channel_index(channels: Seq<ChannelInfo>, id: Seq<char>) -> Option<int>
    decreases channels.len(),
{
    if channels.len() == 0 {
        None
    } else if channels.last().id@ == id {
        Some(channels.len() - 1)
    } else {
        channel_index(channels.drop_last(), id)
    }
}

proof fn lemma_channel_index(channels: Seq<ChannelInfo>, id: Seq<char>)
    ensures
        channel_index(channels, id) matches Some(i) ==> 0 <= i < channels.len() && channels[i].id@ == id,
        channel_index(channels, id) is None <==> forall|j: int| 0 <= j < channels.len() ==> (#[trigger] channels[j]).id@ != id,
    decreases channels.len(),
{
    if channels.len() > 0 {
        lemma_channel_index(channels.drop_last(), id);
        assert forall|j: int| 0 <= j < channels.len() - 1 implies channels.drop_last()[j] == #[trigger] channels[j] by {}
    }
}

proof fn lemma_channel_index_at(channels: Seq<ChannelInfo>, id: Seq<char>, i: int)
    requires
        0 <= i < channels.len(),
        channels[i].id@ == id,
        forall|j: int| i < j < channels.len() ==> (#[trigger] channels[j]).id@ != id,
    ensures
        channel_index(channels, id) == Some(i),
    decreases channels.len(),
{
    if i < channels.len() - 1 {
        assert(channels.last().id@ != id);
        assert forall|j: int| i < j < channels.len() - 1 implies (#[trigger] channels.drop_last()[j]).id@ != id by {
            assert(channels.drop_last()[j] == channels[j]);
        }
        lemma_channel_index_at(channels.drop_last(), id, i);
    }
}

fn find_channel(channels: &Vec<ChannelInfo>, id: &String) -> (r: Option<usize>)
    ensures
        r matches Some(i) ==> channel_index(channels@, id@) == Some(i as int),
        r is None ==> channel_index(channels@, id@) is None,
{
    proof { lemma_channel_index(channels@, id@); }
    let mut i: usize = channels.len();
    while i > 0
        invariant
            i <= channels@.len(),
            forall|j: int| i <= j < channels@.len() ==> (#[trigger] channels@[j]).id@ != id@,
        decreases i,
    {
        if channels[i - 1].id == *id {
            proof { lemma_channel_index_at(channels@, id@, i - 1); }
            return Some(i - 1);
        }
        i = i - 1;
    }
    None
}

/// `Timestamp::plus_seconds` on a time in nanoseconds, `None` where it overflows.
pub open spec fn spec_plus_seconds(time_nanos: u64, seconds: u64) -> Option<u64> {
    if seconds * 1_000_000_000 > u64::MAX || time_nanos + seconds * 1_000_000_000 > u64::MAX {
        None
    } else {
        Some((time_nanos + seconds * 1_000_000_000) as u64)
    }
}

/// A time in nanoseconds moved `seconds` later; `None` where that leaves `u64`.
pub fn plus_seconds(time_nanos: u64, seconds: u64) -> (r: Option<u64>)
    ensures
        r == spec_plus_seconds(time_nanos, seconds),
{
    match seconds.checked_mul(1_000_000_000) {
        None => None,
        Some(d) => time_nanos.checked_add(d),
    }
}

/// `execute_transfer`: the packet that carries `token_id` of `token_addr` over
/// `msg.channel` to `msg.remote_address`, timing out `msg.timeout` seconds (or
/// the configured default) after `time_nanos`.
pub fn execute_transfer(
    channels: &Vec<ChannelInfo>,
    config: &Config,
    time_nanos: u64,
    msg: TransferMsg,
    token_id: String,
    token_addr: String,
    token_info: Vec<u8>,
    sender: String,
) -> (r: Result<SendPacket, ContractError>)
    ensures
        channel_index(channels@, msg.channel@) is None ==> r == Err::<SendPacket, ContractError>(
            ContractError::NoSuchChannel { id: msg.channel },
        ),
        channel_index(channels@, msg.channel@) is Some ==> {
            let delta = match msg.timeout { Some(t) => t, None => config.default_timeout };
            match spec_plus_seconds(time_nanos, delta) {
                None => r == Err::<SendPacket, ContractError>(ContractError::Overflow),
                Some(t) => r matches Ok(p) && {
                    &&& p.channel_id@ == msg.channel@
                    &&& p.timeout_nanos == t
                    &&& p.packet.token_id@ == token_id@
                    &&& p.packet.token_addr@ == token_addr@
                    &&& p.packet.token_info@ == token_info@
                    &&& p.packet.sender@ == sender@
                    &&& p.packet.receiver@ == msg.remote_address@
                },
            }
        },
{
    if find_channel(channels, &msg.channel).is_none() {
        return Err(ContractError::NoSuchChannel { id: msg.channel });
    }
    let delta = match msg.timeout {
        Some(t) => t,
        None => config.default_timeout,
    };
    let timeout = match plus_seconds(time_nanos, delta) {
        Some(t) => t,
        None => return Err(ContractError::Overflow),
    };
    let packet = Ics721Packet {
        token_id,
        token_addr,
        token_info,
        receiver: msg.remote_address,
        sender,
    };
    Ok(SendPacket { channel_id: msg.channel, packet, timeout_nanos: timeout })
}

/// `ibc_channel_connect`: after the handshake checks, the channel to record.
pub fn ibc_channel_connect(channel: &IbcChannel, counterparty_version: Option<&String>) -> (r: Result<ChannelInfo, ContractError>)
    ensures
        r is Ok <==> ({
            &&& channel.version@ == ics721_version()
            &&& (counterparty_version matches Some(v) ==> v@ == ics721_version())
            &&& channel.order == IbcOrder::Unordered
        }),
        r matches Ok(info) ==> info.id@ == channel.endpoint.channel_id@
            && info.counterparty_endpoint.port_id@ == channel.counterparty_endpoint.port_id@
            && info.counterparty_endpoint.channel_id@ == channel.counterparty_endpoint.channel_id@
            && info.connection_id@ == channel.connection_id@,
{
    match enforce_order_and_version(channel, counterparty_version) {
        Err(e) => Err(e),
        Ok(()) => Ok(ChannelInfo {
            id: channel.endpoint.channel_id.clone(),
            counterparty_endpoint: IbcEndpoint {
                port_id: channel.counterparty_endpoint.port_id.clone(),
                channel_id: channel.counterparty_endpoint.channel_id.clone(),
            },
            connection_id: channel.connection_id.clone(),
        }),
    }
}

fn send_token(token_id: String, token_addr: String, recipient: String) -> (r: CosmosMsg)
    ensures
        is_nft_transfer(r, token_addr@, token_id@, recipient@),
{
    CosmosMsg::Execute {
        contract: token_addr,
        action: ExecAction::TransferNft { recipient, token_id },
        funds: Vec::new(),
    }
}

/// `ibc_packet_receive`: a received packet moves its token to its receiver.
pub fn ibc_packet_receive(packet: Ics721Packet) -> (r: CosmosMsg)
    ensures
        is_nft_transfer(r, packet.token_addr@, packet.token_id@, packet.receiver@),
{
    send_token(packet.token_id, packet.token_addr, packet.receiver)
}

/// `on_packet_failure`: a failed or timed out packet gives its token back to its sender.
pub fn on_packet_failure(packet: Ics721Packet) -> (r: CosmosMsg)
    ensures
        is_nft_transfer(r, packet.token_addr@, packet.token_id@, packet.sender@),
{
    send_token(packet.token_id, packet.token_addr, packet.sender)
}

/// `query_channel`: the recorded channel `id`.
pub fn query_channel(channels: &Vec<ChannelInfo>, id: &String) -> (r: Result<ChannelResponse, ContractError>)
    ensures
        match channel_index(channels@, id@) {
            None => r == Err::<ChannelResponse, ContractError>(ContractError::NotFound),
            Some(i) => r matches Ok(c) && c.info == channels@[i],
        },
{
    proof { lemma_channel_index(channels@, id@); }
    match find_channel(channels, id) {
        None => Err(ContractError::NotFound),
        Some(i) => Ok(ChannelResponse { info: channels[i].copy() }),
    }
}

/// `query_list`: all recorded channels, in order.
pub fn query_list(channels: &Vec<ChannelInfo>) -> (r: ListChannelsResponse)
    ensures
        r.channels@ == channels@,
{
    let mut out: Vec<ChannelInfo> = Vec::new();
    let mut i: usize = 0;
    while i < channels.len()
        invariant
            i <= channels@.len(),
            out@ == channels@.subrange(0, i as int),
        decreases channels.len() - i,
    {
        out.push(channels[i].copy());
        i = i + 1;
    }
    ListChannelsResponse { channels: out }
}

/// `migrate`: only a contract stored under this contract's name migrates.
pub fn migrate(stored_contract: &String, _msg: &MigrateMsg) -> (r: Result<(), ContractError>)
    ensures
        r is Ok <==> stored_contract@ == contract_name(),
        r matches Err(e) ==> e matches ContractError::CannotMigrate { previous_contract } && previous_contract@ == stored_contract@,
{
    let name = "crates.io:cw721-ics721".to_owned();
    if *stored_contract != name {
        return Err(ContractError::CannotMigrate { previous_contract: stored_contract.clone() });
    }
    Ok(())
}

} // verus!
