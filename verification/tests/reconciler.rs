use dns_update::config::{parse_u32, Config};
use dns_update::dns_client::{
    build_rdata, check_update_response, DnsFetchTrait, DnsZone, MockDnsClient, Rdata, RecordType,
};
use dns_update::dns_monitor::{converge_host, DnsMonitor, DnsWrite, HostObservation};
use dns_update::docker_monitor::{extract_hostname, handle_container_event, ContainerEvent};
use dns_update::error::DnsError;
use dns_update::registry::Registry;
use dns_update::system_monitor::SystemMonitor;
use dns_update::DnsUpdate;

fn zone() -> DnsZone {
    DnsZone::new("example.com", 300).unwrap()
}

#[test]
fn test_normalize_hostname() {
    let client = zone();
    let hostname = "i-am-a-test";

    let normalized = client.normalize_hostname(hostname).unwrap();
    assert_eq!(normalized, "i-am-a-test.example.com.".to_string());
}

#[test]
fn test_normalize_hostname_with_domain() {
    let client = zone();
    let hostname = "i-am-a-test.example.com";

    let normalized = client.normalize_hostname(hostname).unwrap();
    assert_eq!(normalized, "i-am-a-test.example.com.".to_string());
}

#[test]
fn test_normalize_hostname_with_domain_fqdn_fail() {
    let client = zone();
    let hostname = "i-am-a-test.example.net.";

    let result = client.normalize_hostname(hostname);
    assert!(result.is_err());
    assert!(matches!(result, Err(DnsError::ZoneMismatch)));
}

#[test]
fn test_normalize_hostname_invalid_hostname() {
    let client = zone();
    let hostname = "invalid_hostname!";

    let result = client.normalize_hostname(hostname);
    assert!(result.is_err());
    assert!(matches!(result, Err(DnsError::InvalidHostname)));
}

#[test]
fn test_normalize_hostname_empty_hostname() {
    let client = zone();
    let hostname = "";

    let result = client.normalize_hostname(hostname);
    assert!(result.is_err());
    assert!(matches!(result, Err(DnsError::InvalidHostname)));
}

#[test]
fn test_normalize_lowercases_mixed_case() {
    let client = zone();
    let normalized = client.normalize_hostname("WEB.Example.COM").unwrap();
    assert_eq!(normalized, "web.example.com.".to_string());
}

#[test]
fn test_normalize_idempotent_on_samples() {
    let client = zone();
    for raw in ["web", "Web.example.com", "a-b_c.example.com."] {
        let once = client.normalize_hostname(raw).unwrap();
        let twice = client.normalize_hostname(&once).unwrap();
        assert_eq!(once, twice);
    }
}

#[test]
fn test_zone_new_rejects_bad_zone() {
    assert!(matches!(
        DnsZone::new("exa mple.com", 300),
        Err(DnsError::InvalidZone)
    ));
    assert!(matches!(DnsZone::new("", 300), Err(DnsError::InvalidZone)));
}

#[test]
fn test_get_registry_name() {
    let registry_name = Registry::get_registry_name("test.example.com.");
    assert_eq!(registry_name, "test_registry.example.com.".to_string());
}

#[test]
fn test_registry_naming_single_label() {
    assert_eq!(
        Registry::get_registry_name("web.example.com."),
        "web_registry.example.com.".to_string()
    );
    assert_eq!(Registry::get_registry_name("web"), "web_registry".to_string());
}

#[test]
fn test_host_in_registry_decision() {
    let registry = Registry::new("web.example.com.");
    assert!(registry.host_in_registry(&Some("REGISTRY".to_string())));
    assert!(!registry.host_in_registry(&Some("registry".to_string())));
    assert!(!registry.host_in_registry(&Some("something".to_string())));
    assert!(!registry.host_in_registry(&None));
}

#[test]
fn test_scenario_fresh_host_claim_then_create() {
    let config = Config::default();
    let mut monitor = DnsMonitor::new(&config).unwrap();

    let fanout = monitor
        .handle_event(&DnsUpdate::IP("10.0.0.5".to_string()))
        .unwrap();
    assert!(fanout.is_empty());

    let tasks = monitor
        .handle_event(&DnsUpdate::Host("web".to_string()))
        .unwrap();
    assert_eq!(tasks, vec!["web.example.com.".to_string()]);

    let writes = converge_host(
        &tasks[0],
        &HostObservation::NoAddress,
        monitor.current_ip().as_str(),
    )
    .unwrap();
    assert_eq!(writes.len(), 2);
    match &writes[0] {
        DnsWrite::CreateMarker { name, value } => {
            assert_eq!(name, "web_registry.example.com.");
            assert_eq!(value, "REGISTRY");
        }
        other => panic!("first write must claim ownership, got {other:?}"),
    }
    match &writes[1] {
        DnsWrite::CreateAddress { name, ip } => {
            assert_eq!(name, "web.example.com.");
            assert_eq!(ip, "10.0.0.5");
        }
        other => panic!("second write must create the address record, got {other:?}"),
    }
}

#[test]
fn test_scenario_owned_host_ip_change() {
    let obs = HostObservation::Address {
        ip: "10.0.0.5".to_string(),
        marker: Some("REGISTRY".to_string()),
    };
    let writes = converge_host("web.example.com.", &obs, "10.0.0.9").unwrap();
    assert_eq!(writes.len(), 1);
    match &writes[0] {
        DnsWrite::ReplaceAddress { name, old_ip, new_ip } => {
            assert_eq!(name, "web.example.com.");
            assert_eq!(old_ip, "10.0.0.5");
            assert_eq!(new_ip, "10.0.0.9");
        }
        other => panic!("expected one atomic replacement, got {other:?}"),
    }
}

#[test]
fn test_scenario_unowned_host_conflict() {
    let obs = HostObservation::Address {
        ip: "10.0.0.5".to_string(),
        marker: None,
    };
    let result = converge_host("web.example.com.", &obs, "10.0.0.9");
    assert!(matches!(result, Err(DnsError::OwnershipConflict)));

    let obs = HostObservation::Address {
        ip: "10.0.0.5".to_string(),
        marker: Some("foreign".to_string()),
    };
    let result = converge_host("web.example.com.", &obs, "10.0.0.9");
    assert!(matches!(result, Err(DnsError::OwnershipConflict)));
}

#[test]
fn test_rediscovery_is_not_a_duplicate() {
    let config = Config::default();
    let mut monitor = DnsMonitor::new(&config).unwrap();

    monitor
        .handle_event(&DnsUpdate::Host("web".to_string()))
        .unwrap();
    monitor
        .handle_event(&DnsUpdate::Host("web".to_string()))
        .unwrap();
    assert_eq!(monitor.hosts.len(), 1);
}

#[test]
fn test_ip_change_fans_out_over_all_hosts() {
    let config = Config::default();
    let mut monitor = DnsMonitor::new(&config).unwrap();

    monitor
        .handle_event(&DnsUpdate::Host("web".to_string()))
        .unwrap();
    monitor
        .handle_event(&DnsUpdate::Host("api.example.com".to_string()))
        .unwrap();

    let tasks = monitor
        .handle_event(&DnsUpdate::IP("10.0.0.7".to_string()))
        .unwrap();
    assert_eq!(
        tasks,
        vec!["web.example.com.".to_string(), "api.example.com.".to_string()]
    );
    assert_eq!(monitor.current_ip(), "10.0.0.7");
}

#[test]
fn test_monitor_rejects_foreign_hostname() {
    let config = Config::default();
    let mut monitor = DnsMonitor::new(&config).unwrap();

    let result = monitor.handle_event(&DnsUpdate::Host("web.example.net.".to_string()));
    assert!(matches!(result, Err(DnsError::ZoneMismatch)));
    assert!(monitor.hosts.is_empty());
}

#[test]
fn test_monitor_new_rejects_bad_algorithm() {
    let mut config = Config::default();
    config.key_alg = "hmac-md5".to_string();
    assert!(matches!(
        DnsMonitor::new(&config),
        Err(DnsError::UnsupportedAlgorithm)
    ));
}

#[test]
fn test_check_host_ip_no_change() {
    let mut dns_client = MockDnsClient::new();
    dns_client.set_ip("1.2.3.4".to_string());

    let mut monitor = SystemMonitor::new(dns_client, "hostname".to_string(), 60);
    monitor.current_ip = "1.2.3.4".to_string();

    let update = monitor.check_host_ip();
    assert!(update.is_none());
}

#[test]
fn test_check_host_ip_change() {
    let mut dns_client = MockDnsClient::new();
    dns_client.set_ip("1.2.3.4".to_string());

    let mut monitor = SystemMonitor::new(dns_client, "hostname".to_string(), 60);
    monitor.current_ip = "4.3.2.1".to_string();

    let update = monitor.check_host_ip();
    if let Some(DnsUpdate::IP(ip)) = update {
        assert_eq!(ip, "1.2.3.4");
    } else {
        panic!("Unexpected update type");
    }
}

#[test]
fn test_poller_dedup_two_ticks() {
    let mut dns_client = MockDnsClient::new();
    dns_client.set_ip("1.2.3.4".to_string());

    let mut monitor = SystemMonitor::new(dns_client, "hostname".to_string(), 60);

    let first = monitor.check_host_ip();
    assert!(matches!(first, Some(DnsUpdate::IP(ip)) if ip == "1.2.3.4"));

    let second = monitor.check_host_ip();
    assert!(second.is_none());

    monitor.dns.set_ip("4.3.2.1".to_string());
    let third = monitor.check_host_ip();
    assert!(matches!(third, Some(DnsUpdate::IP(ip)) if ip == "4.3.2.1"));
}

#[test]
fn test_poller_failed_resolution_skips_tick() {
    let dns_client = MockDnsClient::new();
    let mut monitor = SystemMonitor::new(dns_client, "hostname".to_string(), 60);
    monitor.current_ip = "1.2.3.4".to_string();

    let update = monitor.process_resolved(None);
    assert!(update.is_none());
    assert_eq!(monitor.current_ip, "1.2.3.4");
}

#[test]
fn test_mock_dns_client_fetch() {
    let mut dns_client = MockDnsClient::new();
    dns_client.set_ip("9.9.9.9".to_string());
    let answer = dns_client.fetch("anything", RecordType::A);
    assert_eq!(answer, Some("9.9.9.9".to_string()));
}

fn attrs(pairs: &[(&str, &str)]) -> Option<Vec<(String, String)>> {
    Some(
        pairs
            .iter()
            .map(|(k, v)| (k.to_string(), v.to_string()))
            .collect(),
    )
}

#[test]
fn test_event_routing_disabled_is_dropped() {
    let event = ContainerEvent {
        action: Some("start".to_string()),
        attributes: attrs(&[
            ("traefik.enable", "false"),
            ("traefik.http.routers.web.rule", "Host(`svc.example.com`)"),
            ("name", "web"),
        ]),
    };
    assert!(handle_container_event(&event).is_none());
}

#[test]
fn test_event_rule_label_yields_hostname() {
    let event = ContainerEvent {
        action: Some("start".to_string()),
        attributes: attrs(&[
            ("traefik.enable", "true"),
            ("traefik.http.routers.web.rule", "Host(`svc.example.com`)"),
            ("name", "web"),
        ]),
    };
    match handle_container_event(&event) {
        Some(DnsUpdate::Host(h)) => assert_eq!(h, "svc.example.com"),
        other => panic!("expected a discovery event, got {other:?}"),
    }
}

#[test]
fn test_event_falls_back_to_container_name() {
    let event = ContainerEvent {
        action: Some("start".to_string()),
        attributes: attrs(&[("traefik.enable", "true"), ("name", "mycontainer")]),
    };
    let hostname = extract_hostname(&event);
    assert_eq!(hostname, Some("mycontainer".to_string()));
}

#[test]
fn test_event_rule_without_backticks_falls_back() {
    let event = ContainerEvent {
        action: Some("start".to_string()),
        attributes: attrs(&[
            ("traefik.enable", "true"),
            ("traefik.http.routers.web.rule", "PathPrefix(/api)"),
            ("name", "fallback"),
        ]),
    };
    let hostname = extract_hostname(&event);
    assert_eq!(hostname, Some("fallback".to_string()));
}

#[test]
fn test_event_without_sources_is_dropped() {
    let event = ContainerEvent {
        action: Some("start".to_string()),
        attributes: attrs(&[("traefik.enable", "true")]),
    };
    assert!(extract_hostname(&event).is_none());

    let event = ContainerEvent {
        action: Some("start".to_string()),
        attributes: None,
    };
    assert!(extract_hostname(&event).is_none());
}

#[test]
fn test_event_non_start_action_is_ignored() {
    let event = ContainerEvent {
        action: Some("stop".to_string()),
        attributes: attrs(&[("traefik.enable", "true"), ("name", "web")]),
    };
    assert!(handle_container_event(&event).is_none());

    let event = ContainerEvent {
        action: None,
        attributes: attrs(&[("traefik.enable", "true"), ("name", "web")]),
    };
    assert!(handle_container_event(&event).is_none());
}

#[test]
fn test_build_rdata_validation() {
    match build_rdata(RecordType::A, "1.2.3.4".to_string()) {
        Some(Rdata::Ipv4(v)) => assert_eq!(v, "1.2.3.4"),
        other => panic!("expected address data, got {other:?}"),
    }
    assert!(build_rdata(RecordType::A, "notanip".to_string()).is_none());
    assert!(build_rdata(RecordType::A, "1.2.3.999".to_string()).is_none());
    match build_rdata(RecordType::TXT, "REGISTRY".to_string()) {
        Some(Rdata::Txt(v)) => assert_eq!(v, "REGISTRY"),
        other => panic!("expected text data, got {other:?}"),
    }
}

#[test]
fn test_check_update_response_codes() {
    assert!(matches!(
        check_update_response(&vec![]),
        Err(DnsError::NoResponse)
    ));
    assert!(check_update_response(&vec![0]).is_ok());
    assert!(check_update_response(&vec![0, 5]).is_ok());
    assert!(matches!(
        check_update_response(&vec![5]),
        Err(DnsError::ProtocolError { code: 5 })
    ));
}

#[test]
fn test_parse_u32_values() {
    assert_eq!(parse_u32("300"), Some(300));
    assert_eq!(parse_u32("0"), Some(0));
    assert_eq!(parse_u32(""), None);
    assert_eq!(parse_u32("12x"), None);
    assert_eq!(parse_u32("99999999999"), None);
}

#[test]
fn test_config_default_values() {
    let config = Config::default();
    assert_eq!(config.dns_server, "127.0.0.1:53");
    assert_eq!(config.dns_zone, "example.com");
    assert_eq!(config.key_name, "example-com");
    assert_eq!(config.key_alg, "hmac-sha256");
    assert_eq!(config.ttl, 300);
    assert_eq!(config.check_interval_secs, 300);
    assert_eq!(config.lookup_hostname, "thishost.example.com");
}
