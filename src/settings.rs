use vstd::prelude::*;
use rdkafka::ClientConfig;
use crate::client::{comma_joined, BoudinClient};

verus! {

#[verifier::external_type_specification]
#[verifier::external_body]
pub struct ExClientConfig(ClientConfig);

/// The key/value settings that a broker-client configuration holds.
pub uninterp spec fn config_entries(c: ClientConfig) -> Map<Seq<char>, Seq<char>>;

/// Relies on rdkafka's `ClientConfig::new`: a configuration with no settings.
#[verifier::external_body]
fn empty_config() -> (r: ClientConfig)
    ensures
        config_entries(r).dom() == Set::<Seq<char>>::empty(),
{
    ClientConfig::new()
}

/// Relies on rdkafka's `ClientConfig::set`: it inserts `value` under `key`
/// into its map of settings, replacing an earlier value of that key.
#[verifier::external_body]
fn config_set(c: &mut ClientConfig, key: &str, value: &str)
    ensures
        config_entries(*final(c)) == config_entries(*old(c)).insert(key@, value@),
{
    c.set(key, value);
}

pub open spec fn key_servers() -> Seq<char> { "bootstrap.servers"@ }
pub open spec fn key_auto_commit() -> Seq<char> { "enable.auto.commit"@ }
pub open spec fn key_group() -> Seq<char> { "group.id"@ }
pub open spec fn key_session_timeout() -> Seq<char> { "session.timeout.ms"@ }
pub open spec fn key_version_fallback() -> Seq<char> { "broker.version.fallback"@ }

/// Every session joins the fixed group "toto"; offsets are never committed,
/// so the group carries no state between sessions.
/// The settings of a long-lived topic consumer for brokers `servers`.
pub open spec fn consumer_entries(servers: Seq<char>) -> Map<Seq<char>, Seq<char>> {
    Map::empty()
        .insert(key_servers(), servers)
        .insert(key_auto_commit(), "false"@)
        .insert(key_group(), "toto"@)
}

/// The settings of a short-lived metadata session for brokers `servers`.
pub open spec fn metadata_entries(servers: Seq<char>) -> Map<Seq<char>, Seq<char>> {
    Map::empty()
        .insert(key_servers(), servers)
        .insert(key_session_timeout(), "6000"@)
        .insert(key_auto_commit(), "false"@)
        .insert(key_group(), "toto"@)
        .insert(key_version_fallback(), "0.10.2.1"@)
}

impl BoudinClient {
    /// Configuration for a topic consumer: the brokers, no auto-commit, the
    /// fixed group.
    pub fn consumer_config(&self) -> (r: ClientConfig)
        ensures
            config_entries(r) == consumer_entries(comma_joined(self.hosts_view())),
    {
        let servers = self.bootstrap_servers();
        let mut c = empty_config();
        config_set(&mut c, "bootstrap.servers", servers.as_str());
        config_set(&mut c, "enable.auto.commit", "false");
        config_set(&mut c, "group.id", "toto");
        c
    }

    /// Configuration for a metadata session: the consumer's settings plus a
    /// session timeout and a broker-version fallback.
    pub fn metadata_config(&self) -> (r: ClientConfig)
        ensures
            config_entries(r) == metadata_entries(comma_joined(self.hosts_view())),
    {
        let servers = self.bootstrap_servers();
        let mut c = empty_config();
        config_set(&mut c, "bootstrap.servers", servers.as_str());
        config_set(&mut c, "session.timeout.ms", "6000");
        config_set(&mut c, "enable.auto.commit", "false");
        config_set(&mut c, "group.id", "toto");
        config_set(&mut c, "broker.version.fallback", "0.10.2.1");
        c
    }
}

} // verus!
