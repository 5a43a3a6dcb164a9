use sitewhere_controller::clock::get_now_us;
use sitewhere_controller::pipeline::{
    classify_delivery, mqtt_step, Delivery, MqttAction, MqttEvent, ResultLog,
};
use sitewhere_controller::settings::Settings;

#[test]
fn publications_are_forwarded_unchanged() {
    match mqtt_step(MqttEvent::Publish(b"{\"a\":1}".to_vec())) {
        MqttAction::Forward(p) => assert_eq!(p, b"{\"a\":1}".to_vec()),
        _ => panic!("a publication is forwarded"),
    }
}

#[test]
fn a_connection_error_stops_the_mqtt_worker() {
    assert!(matches!(mqtt_step(MqttEvent::ConnectionError), MqttAction::Stop));
    assert!(matches!(mqtt_step(MqttEvent::Other), MqttAction::Ignore));
}

#[test]
fn deliveries_are_classified() {
    assert!(matches!(classify_delivery(None), Delivery::Skip));
    assert!(matches!(classify_delivery(Some((7, b"STOP".to_vec()))), Delivery::Stop));
    match classify_delivery(Some((7, b"STOPS".to_vec()))) {
        Delivery::Message(now, p) => {
            assert_eq!(now, 7);
            assert_eq!(p, b"STOPS".to_vec());
        }
        _ => panic!("an event"),
    }
    assert!(matches!(classify_delivery(Some((1, b"stop".to_vec()))), Delivery::Message(1, _)));
    assert!(matches!(classify_delivery(Some((1, vec![]))), Delivery::Message(1, _)));
}

#[test]
fn result_log_keeps_lines_until_the_end_marker() {
    let mut log = ResultLog::new();
    assert!(log.accept("a,1".to_string()));
    assert!(log.accept("b,2".to_string()));
    assert!(!log.accept(String::new()));
    assert_eq!(log.len(), 2);
    assert_eq!(log.lines, vec!["a,1".to_string(), "b,2".to_string()]);
    assert_eq!(log.contents(), "a,1\nb,2");
}

#[test]
fn empty_result_log_is_an_empty_report() {
    let log = ResultLog::new();
    assert_eq!(log.contents(), "");
}

#[test]
fn settings_defaults() {
    let s = Settings::from_env(None, None, None, None, None, None, None, None, None);
    assert_eq!(s.api_gateway_url, "http://20.74.29.222/sitewhere/");
    assert_eq!(s.broker_address, "20.74.25.142");
    assert_eq!(s.broker_port, 1883);
    assert_eq!(s.minio_address, "http://20.19.22.71:9000");
    assert_eq!(s.minio_access_key, "admin");
    assert_eq!(s.minio_bucket_name, "results");
    assert_eq!(s.xp_name, "test");
    assert_eq!(s.topic, "SiteWhere/default/output/mqtt1");
    assert_eq!(s.results_key(), "test/controller.csv");
}

#[test]
fn settings_from_the_environment() {
    let s = Settings::from_env(
        Some("10.0.0.1".to_string()),
        Some("broker".to_string()),
        Some("8883".to_string()),
        Some("http://minio:9000".to_string()),
        Some("key".to_string()),
        Some("secret".to_string()),
        Some("bucket".to_string()),
        Some("xp1".to_string()),
        Some("t/1".to_string()),
    );
    assert_eq!(s.api_gateway_url, "http://10.0.0.1/sitewhere/");
    assert_eq!(s.broker_port, 8883);
    assert_eq!(s.minio_secret_key, "secret");
    assert_eq!(s.results_key(), "xp1/controller.csv");
}

#[test]
fn an_unparsable_port_falls_back() {
    for text in ["70000", "port", "", "-1"] {
        let s = Settings::from_env(None, None, Some(text.to_string()), None, None, None, None, None, None);
        assert_eq!(s.broker_port, 1883);
    }
    let s = Settings::from_env(None, None, Some("+1884".to_string()), None, None, None, None, None, None);
    assert_eq!(s.broker_port, 1884);
}

#[test]
fn the_clock_reads_after_2020() {
    let now = get_now_us().unwrap();
    assert!(now > 1_577_836_800_000_000);
}

use sitewhere_controller::clock::{micros, micros_since_epoch};

#[test]
fn micros_counts_like_duration_as_micros() {
    for (secs, nanos) in [(0u64, 0u32), (1, 999_999_999), (1_700_000_000, 123_456_789), (u64::MAX, 999_999_999)] {
        let d = std::time::Duration::new(secs, nanos);
        assert_eq!(micros(secs, nanos), d.as_micros());
    }
    assert_eq!(micros(2, 1_999), 2_000_001);
}

#[test]
fn micros_since_epoch_of_a_reading() {
    assert_eq!(micros_since_epoch(None), None);
    assert_eq!(micros_since_epoch(Some((3, 4_000))), Some(3_000_004));
}
