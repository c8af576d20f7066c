use cloudflare_dns_updater::api::DNSRecordResult;
use cloudflare_dns_updater::engine::Action;
use cloudflare_dns_updater::engine::Config;
use cloudflare_dns_updater::engine::Event;
use cloudflare_dns_updater::engine::KeyConfig;
use cloudflare_dns_updater::engine::ZoneConfig;
use cloudflare_dns_updater::engine::pass_init;
use cloudflare_dns_updater::engine::pass_step;

fn record(id: &str, zone_id: &str, name: &str, content: &str, locked: bool) -> DNSRecordResult {
    DNSRecordResult {
        id: id.to_string(),
        name: name.to_string(),
        content: content.to_string(),
        locked,
        proxied: false,
        ttl: 120,
        zone_id: zone_id.to_string(),
        modified_on: "2022-01-01T00:00:00Z".to_string(),
    }
}

fn zone(zone_id: &str, names: &[&str]) -> ZoneConfig {
    ZoneConfig {
        zone_id: zone_id.to_string(),
        records: names.iter().map(|n| n.to_string()).collect(),
    }
}

fn one_zone_config(names: &[&str]) -> Config {
    Config {
        keys: vec![KeyConfig { auth_key: "token-alpha".to_string(), zones: vec![zone("z1", names)] }],
        update_threshold: 60,
    }
}

#[test]
fn drifted_record_gets_exactly_one_update() {
    let config = one_zone_config(&["a.example.com", "b.example.com"]);
    let (s, a) = pass_init();
    assert!(matches!(a, Action::ResolveIp));
    let (s, a) = pass_step(&config, s, Event::IpOk("203.0.113.5".to_string()));
    match &a {
        Action::FetchZone { key, zone } => {
            assert_eq!(*key, 0);
            assert_eq!(*zone, 0);
        }
        _ => panic!("expected a zone fetch"),
    }
    let fetched = vec![
        record("r1", "z1", "a.example.com", "203.0.113.1", false),
        record("r2", "z1", "b.example.com", "203.0.113.5", false),
    ];
    let (s, a) = pass_step(&config, s, Event::FetchOk(fetched));
    match &a {
        Action::PutRecord { index, zone_id, record_id, payload, .. } => {
            assert_eq!(*index, 0);
            assert_eq!(zone_id, "z1");
            assert_eq!(record_id, "r1");
            assert_eq!(payload.name, "a.example.com");
            assert_eq!(payload.content, "203.0.113.5");
            assert_eq!(payload.record_type, "A");
            assert_eq!(payload.ttl, 120);
            assert!(!payload.proxied);
        }
        _ => panic!("expected one update"),
    }
    let (_s, a) = pass_step(&config, s, Event::PutDone(true));
    assert!(matches!(a, Action::Finished));
}

#[test]
fn locked_record_gets_no_update() {
    let config = one_zone_config(&["a.example.com", "b.example.com"]);
    let (s, _a) = pass_init();
    let (s, _a) = pass_step(&config, s, Event::IpOk("203.0.113.5".to_string()));
    let fetched = vec![
        record("r1", "z1", "a.example.com", "203.0.113.1", true),
        record("r2", "z1", "b.example.com", "203.0.113.5", false),
    ];
    let (_s, a) = pass_step(&config, s, Event::FetchOk(fetched));
    assert!(matches!(a, Action::Finished));
}

#[test]
fn zone_fetch_failure_leaves_sibling_zone_updated() {
    let config = Config {
        keys: vec![
            KeyConfig {
                auth_key: "token-alpha".to_string(),
                zones: vec![zone("z1", &["a.example.com"])],
            },
            KeyConfig {
                auth_key: "token-alpha".to_string(),
                zones: vec![zone("z2", &["b.example.com"])],
            },
        ],
        update_threshold: 60,
    };
    let (s, _a) = pass_init();
    let (s, a) = pass_step(&config, s, Event::IpOk("203.0.113.5".to_string()));
    assert!(matches!(a, Action::FetchZone { key: 0, zone: 0 }));
    let (s, a) = pass_step(&config, s, Event::FetchErr);
    assert!(matches!(a, Action::FetchZone { key: 1, zone: 0 }));
    let fetched = vec![record("r7", "z2", "b.example.com", "198.51.100.9", false)];
    let (s, a) = pass_step(&config, s, Event::FetchOk(fetched));
    match &a {
        Action::PutRecord { key, record_id, payload, .. } => {
            assert_eq!(*key, 1);
            assert_eq!(record_id, "r7");
            assert_eq!(payload.content, "203.0.113.5");
        }
        _ => panic!("expected the sibling zone's update"),
    }
    let (_s, a) = pass_step(&config, s, Event::PutDone(true));
    assert!(matches!(a, Action::Finished));
}

#[test]
fn update_failure_leaves_next_record_attempted() {
    let config = one_zone_config(&["a.example.com", "b.example.com"]);
    let (s, _a) = pass_init();
    let (s, _a) = pass_step(&config, s, Event::IpOk("203.0.113.5".to_string()));
    let fetched = vec![
        record("r1", "z1", "a.example.com", "203.0.113.1", false),
        record("r2", "z1", "b.example.com", "203.0.113.2", false),
    ];
    let (s, a) = pass_step(&config, s, Event::FetchOk(fetched));
    assert!(matches!(a, Action::PutRecord { index: 0, .. }));
    let (s, a) = pass_step(&config, s, Event::PutDone(false));
    match &a {
        Action::PutRecord { index, record_id, .. } => {
            assert_eq!(*index, 1);
            assert_eq!(record_id, "r2");
        }
        _ => panic!("the second record must still be attempted"),
    }
    let (_s, a) = pass_step(&config, s, Event::PutDone(true));
    assert!(matches!(a, Action::Finished));
}

#[test]
fn converged_zone_gets_no_update() {
    let config = one_zone_config(&["a.example.com", "b.example.com"]);
    let (s, _a) = pass_init();
    let (s, _a) = pass_step(&config, s, Event::IpOk("203.0.113.5".to_string()));
    let fetched = vec![
        record("r1", "z1", "a.example.com", "203.0.113.5", false),
        record("r2", "z1", "b.example.com", "203.0.113.5", false),
    ];
    let (_s, a) = pass_step(&config, s, Event::FetchOk(fetched));
    assert!(matches!(a, Action::Finished));
}

#[test]
fn ip_failure_ends_pass_without_updates() {
    let config = one_zone_config(&["a.example.com"]);
    let (s, _a) = pass_init();
    let (_s, a) = pass_step(&config, s, Event::IpErr);
    assert!(matches!(a, Action::Finished));
}

#[test]
fn empty_configuration_finishes_at_once() {
    let config = Config { keys: Vec::new(), update_threshold: 60 };
    let (s, _a) = pass_init();
    let (_s, a) = pass_step(&config, s, Event::IpOk("203.0.113.5".to_string()));
    assert!(matches!(a, Action::Finished));
}

#[test]
fn credential_without_zones_is_skipped() {
    let config = Config {
        keys: vec![
            KeyConfig { auth_key: "token-alpha".to_string(), zones: Vec::new() },
            KeyConfig {
                auth_key: "token-alpha".to_string(),
                zones: vec![zone("z9", &["a.example.com"])],
            },
        ],
        update_threshold: 60,
    };
    let (s, _a) = pass_init();
    let (_s, a) = pass_step(&config, s, Event::IpOk("203.0.113.5".to_string()));
    assert!(matches!(a, Action::FetchZone { key: 1, zone: 0 }));
}

#[test]
fn second_zone_of_same_credential_is_reached() {
    let config = Config {
        keys: vec![KeyConfig {
            auth_key: "token-alpha".to_string(),
            zones: vec![zone("z1", &["a.example.com"]), zone("z2", &["b.example.com"])],
        }],
        update_threshold: 60,
    };
    let (s, _a) = pass_init();
    let (s, a) = pass_step(&config, s, Event::IpOk("203.0.113.5".to_string()));
    assert!(matches!(a, Action::FetchZone { key: 0, zone: 0 }));
    let fetched = vec![record("r1", "z1", "a.example.com", "203.0.113.5", false)];
    let (s, a) = pass_step(&config, s, Event::FetchOk(fetched));
    assert!(matches!(a, Action::FetchZone { key: 0, zone: 1 }));
    let (_s, a) = pass_step(&config, s, Event::FetchErr);
    assert!(matches!(a, Action::Finished));
}

#[test]
fn records_beyond_wanted_list_are_not_processed() {
    let config = one_zone_config(&["a.example.com"]);
    let (s, _a) = pass_init();
    let (s, _a) = pass_step(&config, s, Event::IpOk("203.0.113.5".to_string()));
    let fetched = vec![
        record("r1", "z1", "a.example.com", "203.0.113.5", false),
        record("r2", "z1", "a.example.com", "203.0.113.1", false),
    ];
    let (_s, a) = pass_step(&config, s, Event::FetchOk(fetched));
    assert!(matches!(a, Action::Finished));
}

#[test]
fn unwanted_provider_records_are_never_touched() {
    let config = one_zone_config(&["a.example.com"]);
    let (s, _a) = pass_init();
    let (s, _a) = pass_step(&config, s, Event::IpOk("203.0.113.5".to_string()));
    let fetched = vec![
        record("r8", "z1", "other.example.com", "198.51.100.1", false),
        record("r1", "z1", "a.example.com", "203.0.113.1", false),
    ];
    let (s, a) = pass_step(&config, s, Event::FetchOk(fetched));
    match &a {
        Action::PutRecord { record_id, .. } => assert_eq!(record_id, "r1"),
        _ => panic!("the wanted record must be updated"),
    }
    let (_s, a) = pass_step(&config, s, Event::PutDone(true));
    assert!(matches!(a, Action::Finished));
}
