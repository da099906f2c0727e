use chrono::Utc;
use proxy_stats::config::Config;
use proxy_stats::log::Log;

#[test]
fn test_config() {
    let config = Config {
        proxy: 8001,
        interval: 30,
        host: "example.com".to_string(),
        port: 3001,
        blacklist: vec![],
        monitoring: false,
        server: "https://monitoring.narrow.so".to_string(),
        key: "".to_string(),
    };

    assert_eq!(config.proxy, 8001);
    assert_eq!(config.interval, 30);
    assert_eq!(config.host, "example.com");
    assert_eq!(config.port, 3001);
    assert_eq!(config.blacklist, vec![] as Vec<String>);
    assert_eq!(config.monitoring, false);
    assert_eq!(config.server, "https://monitoring.narrow.so");
    assert_eq!(config.key, "");
}

#[test]
fn test_log() {
    let log = Log {
        timestamp: Utc::now().timestamp_micros(),
        req_method: "GET".to_string(),
        req_uri: "/".to_string(),
        requester_ip: "1.1.1.1".to_owned(),
        micros: 100,
    };

    assert_eq!(log.req_method, "GET");
    assert_eq!(log.req_uri, "/");
    assert_eq!(log.requester_ip, "1.1.1.1");
    assert_eq!(log.micros, 100);
}
