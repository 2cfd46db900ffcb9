use electrumx::client::{ElectrumX, ElectrumXBuilder, Network};
use electrumx::error::RpcError;

#[test]
fn default_builder_is_mainnet_with_public_endpoint() {
    let b = ElectrumXBuilder::default();
    assert_eq!(b.network, Network::Bitcoin);
    assert_eq!(b.base_uris, vec!["https://ep.atomicals.xyz/proxy".to_string()]);
}

#[test]
fn base_uris_splits_on_commas_in_order() {
    let b = ElectrumXBuilder::default().base_uris("http://a,http://b,http://c");
    assert_eq!(
        b.base_uris,
        vec!["http://a".to_string(), "http://b".to_string(), "http://c".to_string()]
    );
}

#[test]
fn base_uris_without_comma_is_one_entry() {
    let b = ElectrumXBuilder::default().base_uris("http://only");
    assert_eq!(b.base_uris, vec!["http://only".to_string()]);
}

#[test]
fn network_setter_replaces_the_tag() {
    let b = ElectrumXBuilder::default().network(Network::Testnet);
    assert_eq!(b.network, Network::Testnet);
}

#[test]
fn build_carries_fields_and_defaults() {
    let c = ElectrumXBuilder::default()
        .network(Network::Signet)
        .base_uris("http://a,http://b")
        .build()
        .expect("non-empty base URIs build");
    assert_eq!(c.network, Network::Signet);
    assert_eq!(c.base_uris, vec!["http://a".to_string(), "http://b".to_string()]);
    assert_eq!(c.max_retries, 3);
    assert_eq!(c.request_timeout_secs, 30);
    assert_eq!(c.retry_delay_secs, 2);
}

#[test]
fn build_rejects_empty_base_uris() {
    let b = ElectrumXBuilder { network: Network::Bitcoin, base_uris: Vec::new() };
    assert_eq!(b.build(), Err(RpcError::Config));
}

#[test]
fn endpoint_url_joins_base_and_path() {
    let c = ElectrumXBuilder::default().base_uris("http://a,http://b").build().unwrap();
    assert_eq!(c.endpoint_url(1, "blockchain.transaction.broadcast"), "http://b/blockchain.transaction.broadcast");
}

#[test]
fn accessors_mirror_the_fields() {
    let c = ElectrumXBuilder::default().network(Network::Regtest).build().unwrap();
    assert_eq!(c.network(), Network::Regtest);
    assert_eq!(c.base_uris(), &vec!["https://ep.atomicals.xyz/proxy".to_string()]);
}

#[test]
fn exhausted_message_names_the_last_uri() {
    let e = RpcError::ExhaustedAllEndpoints { last_uri: "http://b".to_string() };
    assert_eq!(e.message(), "all URIs exhausted, still failed; last URI: http://b");
}

#[test]
fn error_messages_describe_each_variant() {
    assert_eq!(RpcError::Config.message(), "invalid client configuration");
    assert_eq!(RpcError::AddressMismatch.message(), "address does not match the configured network");
    assert_eq!(RpcError::NetworkFailure.message(), "network failure");
    assert_eq!(RpcError::DecodeFailure.message(), "response body did not decode");
    assert_eq!(RpcError::UnrecoverableTransport.message(), "unrecoverable transport failure");
}

#[test]
fn built_client_clones_and_compares() {
    let c: ElectrumX = ElectrumXBuilder::default().build().unwrap();
    let d = c.clone();
    assert_eq!(c, d);
}
