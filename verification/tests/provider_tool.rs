use std::collections::HashSet;

use dns_update::error::Error;
use dns_update::ip::{is_ipv4_literal, is_ipv6_literal};
use dns_update::model::record::{DNSRecord, DNSRecordType};
use dns_update::model::registry::ProviderRegistry;
use dns_update::nextdns::error::{map_error, NextDNSProviderError};
use dns_update::nextdns::types::{to_dns_record, to_nextdns_record, NextDNSRecord};
use dns_update::onepassword::{
    credentials_from_fields, strip_formatting, NextDnsCredentials, OnePasswordClient,
    OnePasswordError,
};
use dns_update::rewrites::{parse_rewrites_from_iter, parse_rewrites_from_str};

// A local stand-in for a record parser over "value name" lines.
fn parse_record(line: &str) -> Result<DNSRecord, &'static str> {
    let parts: Vec<&str> = line.split_whitespace().collect();
    if parts.len() != 2 {
        return Err("Invalid record format");
    }
    let value = parts[0];
    let name = parts[1];
    if is_ipv4_literal(value) {
        Ok(DNSRecord {
            record_type: DNSRecordType::A,
            name: name.to_string(),
            value: value.to_string(),
            ttl: None,
        })
    } else if is_ipv6_literal(value) {
        Ok(DNSRecord {
            record_type: DNSRecordType::AAAA,
            name: name.to_string(),
            value: value.to_string(),
            ttl: None,
        })
    } else if value.contains('.') {
        Ok(DNSRecord {
            record_type: DNSRecordType::CNAME,
            name: name.to_string(),
            value: value.to_string(),
            ttl: None,
        })
    } else {
        Err("Unknown record type")
    }
}

#[test]
fn test_parse_a_record() {
    let line = "1.2.3.4 example.com";
    let rec = parse_record(line).unwrap();
    assert_eq!(rec.record_type, DNSRecordType::A);
    assert_eq!(rec.name, "example.com");
    assert_eq!(rec.value, "1.2.3.4");
}

#[test]
fn test_parse_aaaa_record() {
    let line = "2001:db8::1 ipv6.example.com";
    let rec = parse_record(line).unwrap();
    assert_eq!(rec.record_type, DNSRecordType::AAAA);
    assert_eq!(rec.name, "ipv6.example.com");
    assert_eq!(rec.value, "2001:db8::1");
}

#[test]
fn test_parse_cname_record() {
    let line = "target.example.com cname.example.com";
    let rec = parse_record(line).unwrap();
    assert_eq!(rec.record_type, DNSRecordType::CNAME);
    assert_eq!(rec.name, "cname.example.com");
    assert_eq!(rec.value, "target.example.com");
}

#[test]
fn test_parse_invalid_record() {
    let line = "notanip notadomain";
    assert!(parse_record(line).is_err());
    let line2 = "1.2.3.4";
    assert!(parse_record(line2).is_err());
}

#[test]
fn test_process_rewrites_diff() {
    // Simulate diff: old and new sets
    let old = [
        DNSRecord {
            record_type: DNSRecordType::A,
            name: "a.com".into(),
            value: "1.1.1.1".into(),
            ttl: None,
        },
        DNSRecord {
            record_type: DNSRecordType::CNAME,
            name: "b.com".into(),
            value: "c.com".into(),
            ttl: None,
        },
    ];
    let new = [
        DNSRecord {
            record_type: DNSRecordType::A,
            name: "a.com".into(),
            value: "2.2.2.2".into(),
            ttl: None,
        },
        DNSRecord {
            record_type: DNSRecordType::CNAME,
            name: "b.com".into(),
            value: "c.com".into(),
            ttl: None,
        },
        DNSRecord {
            record_type: DNSRecordType::AAAA,
            name: "ipv6.com".into(),
            value: "2001:db8::1".into(),
            ttl: None,
        },
    ];
    let old_set: HashSet<_> = old.iter().collect();
    let new_set: HashSet<_> = new.iter().collect();

    let to_add: Vec<_> = new_set.difference(&old_set).collect();
    let to_remove: Vec<_> = old_set.difference(&new_set).collect();

    assert_eq!(to_add.len(), 2); // new A for a.com and new AAAA
    assert_eq!(to_remove.len(), 1); // old A for a.com
}

#[test]
fn tests_test_to_dns_record_and_back() {
    let nextdns = NextDNSRecord {
        id: "abc".to_string(),
        domain: "example.com".to_string(),
        record_type: "A".to_string(),
        value: "1.2.3.4".to_string(),
        ttl: Some(60),
    };
    let dns = to_dns_record(&nextdns);
    assert_eq!(dns.record_type, DNSRecordType::A);
    assert_eq!(dns.name, "example.com");
    assert_eq!(dns.value, "1.2.3.4");
    assert_eq!(dns.ttl, Some(60));

    let req = to_nextdns_record(&dns);
    assert_eq!(req.domain, "example.com");
    assert_eq!(req.record_type, "A");
    assert_eq!(req.value, "1.2.3.4");
    assert_eq!(req.ttl, Some(60));
}

#[test]
fn types_test_to_dns_record_and_back() {
    let nextdns = NextDNSRecord {
        id: "abc".to_string(),
        domain: "example.com".to_string(),
        record_type: "A".to_string(),
        value: "1.2.3.4".to_string(),
        ttl: Some(60),
    };
    let dns = to_dns_record(&nextdns);
    assert_eq!(dns.record_type, DNSRecordType::A);
    assert_eq!(dns.name, "example.com");
    assert_eq!(dns.value, "1.2.3.4");
    assert_eq!(dns.ttl, Some(60));

    let req = to_nextdns_record(&dns);
    assert_eq!(req.domain, "example.com");
    assert_eq!(req.record_type, "A");
    assert_eq!(req.value, "1.2.3.4");
    assert_eq!(req.ttl, Some(60));
}

#[test]
fn tests_test_to_dns_record_invalid_type() {
    let nextdns = NextDNSRecord {
        id: "abc".to_string(),
        domain: "example.com".to_string(),
        record_type: "TXT".to_string(),
        value: "foo".to_string(),
        ttl: None,
    };
    let dns = to_dns_record(&nextdns);
    // Fallback is A
    assert_eq!(dns.record_type, DNSRecordType::A);
}

#[test]
fn types_test_to_dns_record_invalid_type() {
    let nextdns = NextDNSRecord {
        id: "abc".to_string(),
        domain: "example.com".to_string(),
        record_type: "TXT".to_string(),
        value: "foo".to_string(),
        ttl: None,
    };
    let dns = to_dns_record(&nextdns);
    // Fallback is A
    assert_eq!(dns.record_type, DNSRecordType::A);
}

#[test]
fn error_test_map_error_variants() {
    let err = map_error(NextDNSProviderError::Credential("fail".to_string()));
    assert!(matches!(err, Error::CredentialError(_)));
    let err = map_error(NextDNSProviderError::NotFound("not found".to_string()));
    assert!(matches!(err, Error::NotFound(_)));
    let err = map_error(NextDNSProviderError::InvalidInput("bad".to_string()));
    assert!(matches!(err, Error::InvalidInput(_)));
    let err = map_error(NextDNSProviderError::Provider("fail".to_string()));
    assert!(matches!(err, Error::ProviderError(_)));
    let err = map_error(NextDNSProviderError::RateLimited);
    assert!(matches!(err, Error::ProviderError(_)));
    let err = map_error(NextDNSProviderError::Unknown("fail".to_string()));
    assert!(matches!(err, Error::Other(_)));
}

#[test]
fn tests_test_map_error_variants() {
    let err = map_error(NextDNSProviderError::Http("bad".to_string()));
    assert!(matches!(err, Error::ProviderError(_)));
    let err = map_error(NextDNSProviderError::Credential("fail".to_string()));
    assert!(matches!(err, Error::CredentialError(_)));
    let err = map_error(NextDNSProviderError::NotFound("not found".to_string()));
    assert!(matches!(err, Error::NotFound(_)));
    let err = map_error(NextDNSProviderError::InvalidInput("bad".to_string()));
    assert!(matches!(err, Error::InvalidInput(_)));
    let err = map_error(NextDNSProviderError::Provider("fail".to_string()));
    assert!(matches!(err, Error::ProviderError(_)));
    let err = map_error(NextDNSProviderError::RateLimited);
    assert!(matches!(err, Error::ProviderError(_)));
    let err = map_error(NextDNSProviderError::Unknown("fail".to_string()));
    assert!(matches!(err, Error::Other(_)));
}

#[test]
fn test_error_body_classification() {
    let err = NextDNSProviderError::from(dns_update::nextdns::types::NextDNSError {
        code: "not_found".to_string(),
        message: "gone".to_string(),
    });
    assert!(matches!(err, NextDNSProviderError::NotFound(m) if m == "gone"));

    let err = NextDNSProviderError::from(dns_update::nextdns::types::NextDNSError {
        code: "rate_limited".to_string(),
        message: "slow down".to_string(),
    });
    assert!(matches!(err, NextDNSProviderError::RateLimited));

    let err = NextDNSProviderError::from(dns_update::nextdns::types::NextDNSError {
        code: "weird".to_string(),
        message: "odd".to_string(),
    });
    assert!(matches!(err, NextDNSProviderError::Provider(m) if m == "odd"));
}

#[test]
fn test_error_messages() {
    assert_eq!(
        Error::NotFound("x".to_string()).message(),
        "Not found: x".to_string()
    );
    assert_eq!(
        Error::ProviderError("y".to_string()).message(),
        "Provider error: y".to_string()
    );
    assert_eq!(
        Error::CredentialError("z".to_string()).message(),
        "Credential error: z".to_string()
    );
    assert_eq!(
        Error::InvalidInput("w".to_string()).message(),
        "Invalid input: w".to_string()
    );
    assert_eq!(Error::Other("v".to_string()).message(), "Other error: v".to_string());
}

struct FakeClient {
    result: Result<NextDnsCredentials, OnePasswordError>,
}

impl FakeClient {
    fn get_nextdns_credentials(&self) -> Result<NextDnsCredentials, OnePasswordError> {
        self.result.clone()
    }
}

#[test]
fn test_retrieve_credentials_success() {
    let creds = NextDnsCredentials {
        id: "profileid".into(),
        email: "user@example.com".into(),
        password: "secret".into(),
    };
    let client = FakeClient {
        result: Ok(creds.clone()),
    };
    let result = client.get_nextdns_credentials();
    assert!(result.is_ok());
    let out = result.unwrap();
    assert_eq!(out.id, "profileid");
    assert_eq!(out.email, "user@example.com");
    assert_eq!(out.password, "secret");
}

#[test]
fn test_retrieve_credentials_failure() {
    let client = FakeClient {
        result: Err(OnePasswordError::Cli("op error".into())),
    };
    let result = client.get_nextdns_credentials();
    assert!(matches!(result, Err(OnePasswordError::Cli(_))));
}

#[test]
fn test_invalid_credentials_format() {
    let client = FakeClient {
        result: Err(OnePasswordError::MissingField("prefix".into())),
    };
    let result = client.get_nextdns_credentials();
    assert!(matches!(result, Err(OnePasswordError::MissingField(_))));
}

#[test]
fn test_credentials_from_fields() {
    let fields = vec![
        ("prefix".to_string(), "profileid".to_string()),
        ("email".to_string(), "user@example.com".to_string()),
        ("password".to_string(), "secret".to_string()),
    ];
    let creds = credentials_from_fields(&fields).unwrap();
    assert_eq!(creds.id, "profileid");
    assert_eq!(creds.email, "user@example.com");
    assert_eq!(creds.password, "secret");

    let missing = vec![("email".to_string(), "user@example.com".to_string())];
    let result = credentials_from_fields(&missing);
    assert!(matches!(result, Err(OnePasswordError::MissingField(f)) if f == "prefix"));
}

#[test]
fn test_strip_formatting_fences() {
    assert_eq!(strip_formatting("```abc```"), "abc".to_string());
    assert_eq!(strip_formatting("  ~~~x~~~  "), "x".to_string());
    assert_eq!(strip_formatting("  plain value "), "plain value".to_string());
    assert_eq!(strip_formatting("```\n1.1.1.1 a.com\n```"), "1.1.1.1 a.com".to_string());
}

#[test]
fn test_onepassword_client_vault() {
    let client = OnePasswordClient::new("Applications");
    assert_eq!(client.vault, "Applications");
}

#[test]
fn test_parse_rewrites_from_str_mixed() {
    let input = "# stored rewrites\n1.1.1.1 a.com\n\n  c.com b.com  \n2001:db8::1 ipv6.com\nmalformed\n";
    let records = parse_rewrites_from_str(input).unwrap();
    assert_eq!(records.len(), 3);

    assert_eq!(records[0].record_type, DNSRecordType::A);
    assert_eq!(records[0].name, "a.com");
    assert_eq!(records[0].value, "1.1.1.1");
    assert_eq!(records[0].ttl, Some(300));

    assert_eq!(records[1].record_type, DNSRecordType::CNAME);
    assert_eq!(records[1].name, "b.com");
    assert_eq!(records[1].value, "c.com");

    assert_eq!(records[2].record_type, DNSRecordType::AAAA);
    assert_eq!(records[2].name, "ipv6.com");
    assert_eq!(records[2].value, "2001:db8::1");
}

#[test]
fn test_parse_rewrites_from_iter_skips_bad_lines() {
    let lines = vec![
        "1.2.3.4 host.com".to_string(),
        "one two three".to_string(),
        "".to_string(),
        "target.com alias.com".to_string(),
    ];
    let records = parse_rewrites_from_iter(&lines).unwrap();
    assert_eq!(records.len(), 2);
    assert_eq!(records[0].record_type, DNSRecordType::A);
    assert_eq!(records[0].name, "host.com");
    assert_eq!(records[1].record_type, DNSRecordType::CNAME);
    assert_eq!(records[1].name, "alias.com");
}

#[test]
fn test_ip_literal_syntax() {
    assert!(is_ipv4_literal("0.0.0.0"));
    assert!(is_ipv4_literal("255.255.255.255"));
    assert!(!is_ipv4_literal("256.1.1.1"));
    assert!(!is_ipv4_literal("01.1.1.1"));
    assert!(!is_ipv4_literal("1.2.3"));
    assert!(!is_ipv4_literal("1.2.3.4.5"));
    assert!(!is_ipv4_literal("a.b.c.d"));

    assert!(is_ipv6_literal("::"));
    assert!(is_ipv6_literal("::1"));
    assert!(is_ipv6_literal("1::"));
    assert!(is_ipv6_literal("2001:db8::1"));
    assert!(is_ipv6_literal("1:2:3:4:5:6:7:8"));
    assert!(!is_ipv6_literal(":::"));
    assert!(!is_ipv6_literal("1:2:3"));
    assert!(!is_ipv6_literal("notanip"));
    assert!(!is_ipv6_literal("1.2.3.4"));
}

#[test]
fn test_provider_registry_roundtrip() {
    let mut registry: ProviderRegistry<u32> = ProviderRegistry::new();
    assert!(registry.list().is_empty());
    assert!(registry.get("nextdns").is_none());

    registry.register("nextdns".to_string(), 1);
    registry.register("other".to_string(), 2);
    assert_eq!(registry.list(), vec!["nextdns".to_string(), "other".to_string()]);
    assert_eq!(registry.get("nextdns"), Some(&1));
    assert_eq!(registry.get("other"), Some(&2));

    registry.register("nextdns".to_string(), 3);
    assert_eq!(registry.list().len(), 2);
    assert_eq!(registry.get("nextdns"), Some(&3));
}

#[test]
fn test_credential_field_dispatch() {
    let creds = NextDnsCredentials {
        id: "profileid".into(),
        email: "user@example.com".into(),
        password: "secret".into(),
    };
    assert_eq!(
        dns_update::onepassword::credential_field(&creds, "nextdns_email").unwrap(),
        "user@example.com"
    );
    assert_eq!(
        dns_update::onepassword::credential_field(&creds, "nextdns_password").unwrap(),
        "secret"
    );
    assert_eq!(
        dns_update::onepassword::credential_field(&creds, "nextdns_profile_id").unwrap(),
        "profileid"
    );
    let err = dns_update::onepassword::credential_field(&creds, "other");
    assert!(matches!(err, Err(Error::CredentialError(m)) if m == "Unknown key: other"));
}
