//! Deployment configuration and the endpoint URLs derived from it.
//!
//! Reading the environment is the caller's business; this module takes
//! the values that were found, fills in the documented defaults, and
//! builds every URL the gateway, backup client and reconstructor speak
//! to, as plain byte strings.

use vstd::prelude::*;

use crate::codec::push_lit;
use crate::player::clone_bytes;
use crate::str_bytes;
use crate::txt;

verus! {

/// Connection settings for the broker and the backup store.
pub struct OracleConfig {
    pub kafka_url: Vec<u8>,
    pub ords_url: Vec<u8>,
    pub username: Vec<u8>,
    pub password: Vec<u8>,
    pub topic: Vec<u8>,
    pub host: Vec<u8>,
    pub db_name: Vec<u8>,
}

/// Mathematical image of a configuration.
pub struct ConfigModel {
    pub kafka_url: Seq<u8>,
    pub ords_url: Seq<u8>,
    pub username: Seq<u8>,
    pub password: Seq<u8>,
    pub topic: Seq<u8>,
    pub host: Seq<u8>,
    pub db_name: Seq<u8>,
}

impl View for OracleConfig {
    type V = ConfigModel;

    open spec fn view(&self) -> ConfigModel {
        ConfigModel {
            kafka_url: self.kafka_url@,
            ords_url: self.ords_url@,
            username: self.username@,
            password: self.password@,
            topic: self.topic@,
            host: self.host@,
            db_name: self.db_name@,
        }
    }
}

pub open spec fn default_host_text() -> Seq<u8> {
    txt("myhost.adb.region.oraclecloudapps.com"@)
}

pub open spec fn default_db_text() -> Seq<u8> {
    txt("MYDATABASE"@)
}

pub open spec fn default_user_text() -> Seq<u8> {
    txt("ADMIN"@)
}

pub open spec fn default_password_text() -> Seq<u8> {
    txt("mypassword"@)
}

pub open spec fn default_topic_text() -> Seq<u8> {
    txt("TEST_KAFKA_TOPIC_NEW"@)
}

pub open spec fn oracle_base_url_spec(host: Seq<u8>) -> Seq<u8> {
    txt("https://"@) + host + txt("/ords/admin"@)
}

pub open spec fn ords_url_spec(host: Seq<u8>) -> Seq<u8> {
    txt("https://"@) + host + txt("/ords/admin/_sdw"@)
}

pub open spec fn txeventq_base_url_spec(host: Seq<u8>) -> Seq<u8> {
    oracle_base_url_spec(host) + txt("/_/db-api/stable/database/txeventq"@)
}

pub open spec fn default_kafka_url_spec(host: Seq<u8>, db: Seq<u8>) -> Seq<u8> {
    txeventq_base_url_spec(host) + txt("/clusters/"@) + db
}

/// `https://{host}/ords/admin`
pub fn get_oracle_base_url(host: &Vec<u8>) -> (r: Vec<u8>)
    ensures
        r@ == oracle_base_url_spec(host@),
{
    let mut out = str_bytes("https://");
    let mut h = clone_bytes(host);
    out.append(&mut h);
    push_lit(&mut out, "/ords/admin");
    proof {
        assert(out@ =~= oracle_base_url_spec(host@));
    }
    out
}

/// `https://{host}/ords/admin/_sdw`
pub fn get_ords_url(host: &Vec<u8>) -> (r: Vec<u8>)
    ensures
        r@ == ords_url_spec(host@),
{
    let mut out = str_bytes("https://");
    let mut h = clone_bytes(host);
    out.append(&mut h);
    push_lit(&mut out, "/ords/admin/_sdw");
    proof {
        assert(out@ =~= ords_url_spec(host@));
    }
    out
}

/// `https://{host}/ords/admin/_/db-api/stable/database/txeventq`
pub fn get_txeventq_base_url(host: &Vec<u8>) -> (r: Vec<u8>)
    ensures
        r@ == txeventq_base_url_spec(host@),
{
    let mut out = get_oracle_base_url(host);
    push_lit(&mut out, "/_/db-api/stable/database/txeventq");
    out
}

/// Fills in defaults for every setting the environment did not supply,
/// mirroring the documented deployment defaults.
pub fn get_oracle_config(
    host: Option<Vec<u8>>,
    db_name: Option<Vec<u8>>,
    username: Option<Vec<u8>>,
    password: Option<Vec<u8>>,
    topic: Option<Vec<u8>>,
    kafka_url: Option<Vec<u8>>,
    ords_url: Option<Vec<u8>>,
) -> (c: OracleConfig)
    ensures
        c@.host == match host {
            Some(h) => h@,
            None => default_host_text(),
        },
        c@.db_name == match db_name {
            Some(d) => d@,
            None => default_db_text(),
        },
        c@.username == match username {
            Some(u) => u@,
            None => default_user_text(),
        },
        c@.password == match password {
            Some(p) => p@,
            None => default_password_text(),
        },
        c@.topic == match topic {
            Some(t) => t@,
            None => default_topic_text(),
        },
        c@.kafka_url == match kafka_url {
            Some(u) => u@,
            None => default_kafka_url_spec(c@.host, c@.db_name),
        },
        c@.ords_url == match ords_url {
            Some(u) => u@,
            None => ords_url_spec(c@.host),
        },
{
    let host = match host {
        Some(h) => h,
        None => str_bytes("myhost.adb.region.oraclecloudapps.com"),
    };
    let db_name = match db_name {
        Some(d) => d,
        None => str_bytes("MYDATABASE"),
    };
    let kafka_url = match kafka_url {
        Some(u) => u,
        None => {
            let mut u = get_txeventq_base_url(&host);
            push_lit(&mut u, "/clusters/");
            let mut d = clone_bytes(&db_name);
            u.append(&mut d);
            proof {
                assert(u@ =~= default_kafka_url_spec(host@, db_name@));
            }
            u
        },
    };
    let ords_url = match ords_url {
        Some(u) => u,
        None => get_ords_url(&host),
    };
    OracleConfig {
        kafka_url,
        ords_url,
        username: match username {
            Some(u) => u,
            None => str_bytes("ADMIN"),
        },
        password: match password {
            Some(p) => p,
            None => str_bytes("mypassword"),
        },
        topic: match topic {
            Some(t) => t,
            None => str_bytes("TEST_KAFKA_TOPIC_NEW"),
        },
        host,
        db_name,
    }
}

pub open spec fn topic_create_url_spec(host: Seq<u8>, db: Seq<u8>) -> Seq<u8> {
    txeventq_base_url_spec(host) + txt("/clusters/"@) + db + txt("/topics"@)
}

/// Where topics are created.
pub fn topic_create_url(host: &Vec<u8>, db: &Vec<u8>) -> (r: Vec<u8>)
    ensures
        r@ == topic_create_url_spec(host@, db@),
{
    let mut out = get_txeventq_base_url(host);
    push_lit(&mut out, "/clusters/");
    let mut d = clone_bytes(db);
    out.append(&mut d);
    push_lit(&mut out, "/topics");
    proof {
        assert(out@ =~= topic_create_url_spec(host@, db@));
    }
    out
}

pub open spec fn publish_url_spec(host: Seq<u8>, topic: Seq<u8>) -> Seq<u8> {
    txeventq_base_url_spec(host) + txt("/topics/"@) + topic
}

/// Where records are published.
pub fn publish_url(host: &Vec<u8>, topic: &Vec<u8>) -> (r: Vec<u8>)
    ensures
        r@ == publish_url_spec(host@, topic@),
{
    let mut out = get_txeventq_base_url(host);
    push_lit(&mut out, "/topics/");
    let mut t = clone_bytes(topic);
    out.append(&mut t);
    proof {
        assert(out@ =~= publish_url_spec(host@, topic@));
    }
    out
}

pub open spec fn consumer_group_url_spec(host: Seq<u8>, db: Seq<u8>, group: Seq<u8>) -> Seq<u8> {
    txeventq_base_url_spec(host) + txt("/clusters/"@) + db + txt("/consumer-groups/"@) + group
}

/// Where a consumer group is created.
pub fn consumer_group_url(host: &Vec<u8>, db: &Vec<u8>, group: &Vec<u8>) -> (r: Vec<u8>)
    ensures
        r@ == consumer_group_url_spec(host@, db@, group@),
{
    let mut out = get_txeventq_base_url(host);
    push_lit(&mut out, "/clusters/");
    let mut d = clone_bytes(db);
    out.append(&mut d);
    push_lit(&mut out, "/consumer-groups/");
    let mut g = clone_bytes(group);
    out.append(&mut g);
    proof {
        assert(out@ =~= consumer_group_url_spec(host@, db@, group@));
    }
    out
}

pub open spec fn consumer_instance_url_spec(host: Seq<u8>, group: Seq<u8>) -> Seq<u8> {
    txeventq_base_url_spec(host) + txt("/consumers/"@) + group
}

/// Where a consumer instance is created.
pub fn consumer_instance_url(host: &Vec<u8>, group: &Vec<u8>) -> (r: Vec<u8>)
    ensures
        r@ == consumer_instance_url_spec(host@, group@),
{
    let mut out = get_txeventq_base_url(host);
    push_lit(&mut out, "/consumers/");
    let mut g = clone_bytes(group);
    out.append(&mut g);
    proof {
        assert(out@ =~= consumer_instance_url_spec(host@, group@));
    }
    out
}

pub open spec fn consume_records_url_spec(host: Seq<u8>, group: Seq<u8>, instance: Seq<u8>) -> Seq<
    u8,
> {
    txeventq_base_url_spec(host) + txt("/consumers/"@) + group + txt("/instances/"@) + instance
        + txt("/records"@)
}

/// Where one batch of records is fetched.
pub fn consume_records_url(host: &Vec<u8>, group: &Vec<u8>, instance: &Vec<u8>) -> (r: Vec<u8>)
    ensures
        r@ == consume_records_url_spec(host@, group@, instance@),
{
    let mut out = get_txeventq_base_url(host);
    push_lit(&mut out, "/consumers/");
    let mut g = clone_bytes(group);
    out.append(&mut g);
    push_lit(&mut out, "/instances/");
    let mut inst = clone_bytes(instance);
    out.append(&mut inst);
    push_lit(&mut out, "/records");
    proof {
        assert(out@ =~= consume_records_url_spec(host@, group@, instance@));
    }
    out
}

pub open spec fn recon_consumer_url_spec(
    host: Seq<u8>,
    db: Seq<u8>,
    group: Seq<u8>,
    consumer: Seq<u8>,
) -> Seq<u8> {
    consumer_group_url_spec(host, db, group) + txt("/consumers/"@) + consumer
}

/// Where the reconstruction consumer is created.
pub fn recon_consumer_url(host: &Vec<u8>, db: &Vec<u8>, group: &Vec<u8>, consumer: &Vec<u8>) -> (
    r: Vec<u8>)
    ensures
        r@ == recon_consumer_url_spec(host@, db@, group@, consumer@),
{
    let mut out = consumer_group_url(host, db, group);
    push_lit(&mut out, "/consumers/");
    let mut c = clone_bytes(consumer);
    out.append(&mut c);
    proof {
        assert(out@ =~= recon_consumer_url_spec(host@, db@, group@, consumer@));
    }
    out
}

pub open spec fn recon_subscription_url_spec(
    host: Seq<u8>,
    db: Seq<u8>,
    group: Seq<u8>,
    consumer: Seq<u8>,
) -> Seq<u8> {
    recon_consumer_url_spec(host, db, group, consumer) + txt("/subscription"@)
}

/// Where the reconstruction consumer subscribes to a topic.
pub fn recon_subscription_url(host: &Vec<u8>, db: &Vec<u8>, group: &Vec<u8>, consumer: &Vec<u8>)
    -> (r: Vec<u8>)
    ensures
        r@ == recon_subscription_url_spec(host@, db@, group@, consumer@),
{
    let mut out = recon_consumer_url(host, db, group, consumer);
    push_lit(&mut out, "/subscription");
    out
}

pub open spec fn recon_records_url_spec(
    host: Seq<u8>,
    db: Seq<u8>,
    group: Seq<u8>,
    consumer: Seq<u8>,
) -> Seq<u8> {
    recon_consumer_url_spec(host, db, group, consumer) + txt("/records?limit=100"@)
}

/// Where the bounded window of recent records is fetched: the fixed
/// reconstruction window is one hundred records.
pub fn recon_records_url(host: &Vec<u8>, db: &Vec<u8>, group: &Vec<u8>, consumer: &Vec<u8>) -> (
    r: Vec<u8>)
    ensures
        r@ == recon_records_url_spec(host@, db@, group@, consumer@),
{
    let mut out = recon_consumer_url(host, db, group, consumer);
    push_lit(&mut out, "/records?limit=100");
    out
}

pub open spec fn backup_save_url_spec(ords_url: Seq<u8>) -> Seq<u8> {
    ords_url + txt("/game_state/"@)
}

/// Where the state blob is saved.
pub fn backup_save_url(ords_url: &Vec<u8>) -> (r: Vec<u8>)
    ensures
        r@ == backup_save_url_spec(ords_url@),
{
    let mut out = clone_bytes(ords_url);
    push_lit(&mut out, "/game_state/");
    out
}

pub open spec fn backup_load_url_spec(ords_url: Seq<u8>, key: Seq<u8>) -> Seq<u8> {
    ords_url + txt("/game_state/"@) + key
}

/// Where the state blob is loaded from.
pub fn backup_load_url(ords_url: &Vec<u8>, key: &Vec<u8>) -> (r: Vec<u8>)
    ensures
        r@ == backup_load_url_spec(ords_url@, key@),
{
    let mut out = clone_bytes(ords_url);
    push_lit(&mut out, "/game_state/");
    let mut k = clone_bytes(key);
    out.append(&mut k);
    proof {
        assert(out@ =~= backup_load_url_spec(ords_url@, key@));
    }
    out
}

pub open spec fn scores_url_spec(ords_url: Seq<u8>) -> Seq<u8> {
    ords_url + txt("/scores/"@)
}

/// Where score rows are posted.
pub fn scores_url(ords_url: &Vec<u8>) -> (r: Vec<u8>)
    ensures
        r@ == scores_url_spec(ords_url@),
{
    let mut out = clone_bytes(ords_url);
    push_lit(&mut out, "/scores/");
    out
}

pub open spec fn leaderboard_url_spec(ords_url: Seq<u8>) -> Seq<u8> {
    ords_url + txt("/leaderboard/"@)
}

/// Where the leaderboard is fetched.
pub fn leaderboard_url(ords_url: &Vec<u8>) -> (r: Vec<u8>)
    ensures
        r@ == leaderboard_url_spec(ords_url@),
{
    let mut out = clone_bytes(ords_url);
    push_lit(&mut out, "/leaderboard/");
    out
}

/// Milliseconds since the Unix epoch, zero if the clock is unusable.
///
/// Relies on std's `SystemTime::now` and `duration_since`; nothing can
/// be promised of a clock reading, so nothing is.
#[verifier::external_body]
pub fn get_timestamp() -> u64 {
    match std::time::SystemTime::now().duration_since(std::time::UNIX_EPOCH) {
        Ok(d) => d.as_millis() as u64,
        Err(_) => 0,
    }
}

} // verus!
