//! The controller's settings, read from the environment with defaults.

use vstd::prelude::*;
use vstd::string::*;
use crate::text::{parse_decimal, parse_unsigned};

verus! {

/// Where the controller finds the SiteWhere gateway, the MQTT broker and
/// the object store, and under which name it files its results.
pub struct Settings {
    pub api_gateway_url: String,
    pub broker_address: String,
    pub broker_port: u16,
    pub minio_address: String,
    pub minio_access_key: String,
    pub minio_secret_key: String,
    pub minio_bucket_name: String,
    pub xp_name: String,
    pub topic: String,
}

/// A set value, or the default.
pub open spec fn or_default(v: Option<String>, default: Seq<char>) -> Seq<char> {
    match v {
        Some(s) => s@,
        None => default,
    }
}

/// The broker port that a setting names: the setting (or `1883` when
/// unset) parsed as a port number, or `1883` when it does not parse.
pub open spec fn port_setting(v: Option<String>) -> nat {
    match parse_unsigned(or_default(v, "1883"@), u16::MAX as nat) {
        Some(p) => p,
        None => 1883,
    }
}

/// The value of a setting, or `default` when it is unset.
fn setting(v: Option<String>, default: &str) -> (r: String)
    ensures
        r@ == or_default(v, default@),
{
    match v {
        Some(s) => s,
        None => String::from_str(default),
    }
}

/// The broker port is the port that the setting names whenever the setting
/// is a port number (an optional `+` and digits up to 65535), and 1883
/// otherwise; an unset port is 1883.
pub proof fn law_port_setting(v: Option<String>)
    ensures
        parse_unsigned(or_default(v, "1883"@), 65535) matches Some(p) ==> port_setting(v) == p,
        parse_unsigned(or_default(v, "1883"@), 65535) is None ==> port_setting(v) == 1883,
        v is None ==> port_setting(v) == 1883,
{
    reveal_strlit("1883");
    if v is None {
        reveal_with_fuel(crate::text::digits_value, 5);
        let t = "1883"@;
        assert(t =~= seq!['1', '8', '8', '3']);
        assert(crate::text::unsigned_digits(t) =~= t);
        assert(t.drop_last() =~= seq!['1', '8', '8']);
        assert(t.drop_last().drop_last() =~= seq!['1', '8']);
        assert(t.drop_last().drop_last().drop_last() =~= seq!['1']);
        assert(seq!['1'].drop_last() =~= Seq::<char>::empty());
        assert(crate::text::digits_value(t) == 1883);
    }
}

impl Settings {
    /// The settings from the values of the environment variables
    /// `API_GATEWAY_ADDRESS`, `BROKER_ADDRESS`, `BROKER_PORT`,
    /// `MINIO_ADDRESS`, `MINIO_ACCESS_KEY`, `MINIO_SECRET_KEY`,
    /// `MINIO_BUCKET`, `XP_NAME` and `TOPIC` (`None` when unset), each with
    /// its default; the gateway's URL is `http://<address>/sitewhere/`.
    pub fn from_env(
        api_gateway_address: Option<String>,
        broker_address: Option<String>,
        broker_port: Option<String>,
        minio_address: Option<String>,
        minio_access_key: Option<String>,
        minio_secret_key: Option<String>,
        minio_bucket: Option<String>,
        xp_name: Option<String>,
        topic: Option<String>,
    ) -> (s: Settings)
        ensures
            s.api_gateway_url@ == "http://"@ + or_default(api_gateway_address, "20.74.29.222"@)
                + "/sitewhere/"@,
            s.broker_address@ == or_default(broker_address, "20.74.25.142"@),
            s.broker_port == port_setting(broker_port),
            parse_unsigned(or_default(broker_port, "1883"@), 65535) matches Some(p) ==> s.broker_port
                == p,
            parse_unsigned(or_default(broker_port, "1883"@), 65535) is None ==> s.broker_port == 1883,
            s.minio_address@ == or_default(minio_address, "http://20.19.22.71:9000"@),
            s.minio_access_key@ == or_default(minio_access_key, "admin"@),
            s.minio_secret_key@ == or_default(minio_secret_key, "6L320jOQwm"@),
            s.minio_bucket_name@ == or_default(minio_bucket, "results"@),
            s.xp_name@ == or_default(xp_name, "test"@),
            s.topic@ == or_default(topic, "SiteWhere/default/output/mqtt1"@),
    {
        proof {
            law_port_setting(broker_port);
        }
        let gateway = setting(api_gateway_address, "20.74.29.222");
        let api_gateway_url = String::from_str("http://").concat(gateway.as_str()).concat(
            "/sitewhere/",
        );
        let port_text = setting(broker_port, "1883");
        let broker_port: u16 = match parse_decimal(port_text.as_str(), 65535) {
            Some(p) => p as u16,
            None => 1883,
        };
        Settings {
            api_gateway_url,
            broker_address: setting(broker_address, "20.74.25.142"),
            broker_port,
            minio_address: setting(minio_address, "http://20.19.22.71:9000"),
            minio_access_key: setting(minio_access_key, "admin"),
            minio_secret_key: setting(minio_secret_key, "6L320jOQwm"),
            minio_bucket_name: setting(minio_bucket, "results"),
            xp_name: setting(xp_name, "test"),
            topic: setting(topic, "SiteWhere/default/output/mqtt1"),
        }
    }

    /// The object key under which the results are stored:
    /// `<experiment name>/controller.csv`.
    pub fn results_key(&self) -> (key: String)
        ensures
            key@ == self.xp_name@ + "/"@ + "controller.csv"@,
    {
        self.xp_name.clone().concat("/").concat("controller.csv")
    }
}

} // verus!
