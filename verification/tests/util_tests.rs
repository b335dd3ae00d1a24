use rcurl::certinfo::{key_size_for_algorithm, validity_status, CertificateInfo};
use rcurl::connector::DnsLoggingResolver;
use rcurl::disk::{display_width, truncate_for_display};
use rcurl::dns::{estimate_msg_size, rand_id};
use rcurl::port::{find_pid_by_port, get_listening_ports_unix, hex_to_ip, parse_proc_net, PortInfo};
use rcurl::timing::{ConnectionTimings, RequestTimings};
use rcurl::trust::{TrustDecision, TrustPolicy};
use rcurl::urlparse::parse_url;
use rcurl::whois::determine_whois_server;

#[test]
fn skipped_validation_accepts_any_chain() {
    let policy = TrustPolicy::new(0, true);
    let rejected = Err("certificate expired".to_string());
    assert!(matches!(policy.evaluate(rejected), TrustDecision::Accept));
}

#[test]
fn without_the_skip_flag_the_inner_verdict_stands() {
    let policy = TrustPolicy::new(0, false);
    match policy.evaluate(Err("certificate expired".to_string())) {
        TrustDecision::Reject { reason } => assert_eq!(reason, "certificate expired"),
        _ => panic!("expected a rejection"),
    }
    assert!(matches!(policy.evaluate(Ok(())), TrustDecision::Accept));
}

#[test]
fn diagnostics_follow_verbosity() {
    assert!(!TrustPolicy::new(0, false).wants_diagnostics());
    assert!(TrustPolicy::new(1, false).wants_diagnostics());
}

#[test]
fn timings_report_only_complete_phases() {
    let mut t = RequestTimings::new();
    assert_eq!(t.dns_duration(), None);
    t.start_total();
    assert_eq!(t.total_duration(), None);
    t.end_total();
    assert!(t.total_duration().is_some());
    t.start_dns();
    assert_eq!(t.dns_duration(), None);
    t.end_dns();
    assert!(t.dns_duration().is_some());
    assert_eq!(t.tls_duration(), None);
}

#[test]
fn timing_report_marks_unmeasured_phases() {
    let mut t = RequestTimings::new();
    t.dns_start = Some(1000);
    t.dns_end = Some(1250);
    let report = t.report();
    assert_eq!(
        report,
        "\nTime breakdown:\n  DNS lookup:           250 ms\n  TCP connect:     N/A\n  TLS handshake:   N/A\n  Total time:      N/A\n"
    );
}

#[test]
fn connection_timings_start_unmeasured() {
    let c = ConnectionTimings::new();
    assert!(c.dns_duration_ms.is_none());
    assert!(c.tcp_connect_duration_ms.is_none());
    assert!(c.tls_handshake_duration_ms.is_none());
    assert_eq!(c.total_duration_ms, 0);
}

#[test]
fn kernel_addresses_render_in_dotted_decimal() {
    assert_eq!(hex_to_ip("0100007F", false), "127.0.0.1");
    assert_eq!(hex_to_ip("00000000", false), "0.0.0.0");
    assert_eq!(hex_to_ip("zz", false), "0.0.0.0");
}

#[test]
fn all_zero_v6_address_renders_as_unspecified() {
    assert_eq!(hex_to_ip("00000000000000000000000000000000", true), "[::]");
    assert_eq!(
        hex_to_ip("00000000000000000000000001000000", true),
        "[0:0:0:0:0:0:100:0]"
    );
}

#[test]
fn proc_table_lines_yield_listening_sockets() {
    let table = "  sl  local_address rem_address   st tx_queue rx_queue tr tm->when retrnsmt   uid  timeout inode\n   0: 0100007F:1F90 00000000:0000 0A 00000000:00000000 00:00000000 00000000  1000        0 12345 1 0000000000000000 100 0 0 10 0\n   1: 0100007F:0050 0200007F:1234 01 00000000:00000000 00:00000000 00000000  1000        0 99999 1 0000000000000000 100 0 0 10 0\n";
    let entries = parse_proc_net(table, "TCP", false);
    assert_eq!(entries.len(), 1);
    assert_eq!(entries[0].local_address, "127.0.0.1");
    assert_eq!(entries[0].local_port, 0x1F90);
    assert_eq!(entries[0].state, "LISTEN");
    assert_eq!(entries[0].inode, "12345");
    assert_eq!(entries[0].pid, 0);
}

#[test]
fn tables_concatenate_in_protocol_order() {
    let tcp = "header\n 0: 0100007F:0016 00000000:0000 0A 0:0 00:0 0 0 0 111 x\n";
    let udp = "header\n 0: 00000000:0035 00000000:0000 07 0:0 00:0 0 0 0 222 x\n";
    let all = get_listening_ports_unix(Some(tcp), None, Some(udp), None);
    assert_eq!(all.len(), 2);
    assert_eq!(all[0].protocol, "TCP");
    assert_eq!(all[0].local_port, 22);
    assert_eq!(all[1].protocol, "UDP");
    assert_eq!(all[1].local_port, 53);
}

#[test]
fn first_socket_on_a_port_wins() {
    let mk = |port: u16, pid: u32| PortInfo {
        protocol: "TCP".to_string(),
        local_address: "127.0.0.1".to_string(),
        local_port: port,
        state: "LISTEN".to_string(),
        pid,
        inode: "0".to_string(),
    };
    let entries = vec![mk(80, 11), mk(443, 22), mk(80, 33)];
    assert_eq!(find_pid_by_port(&entries, 80), Some(11));
    assert_eq!(find_pid_by_port(&entries, 443), Some(22));
    assert_eq!(find_pid_by_port(&entries, 8080), None);
}

#[test]
fn whois_servers_follow_the_top_level_label() {
    assert_eq!(determine_whois_server("example.com", false), "whois.verisign-grs.com");
    assert_eq!(determine_whois_server("EXAMPLE.ORG", false), "whois.pir.org");
    assert_eq!(determine_whois_server("foo.co.uk", false), "whois.nic.uk");
    assert_eq!(determine_whois_server("something.unknowntld", false), "whois.iana.org");
    assert_eq!(determine_whois_server("192.0.2.1", true), "whois.arin.net");
}

#[test]
fn expiry_states_split_at_zero_and_thirty_days() {
    assert_eq!(validity_status(-1), "EXPIRED");
    assert_eq!(validity_status(0), "EXPIRING_SOON");
    assert_eq!(validity_status(29), "EXPIRING_SOON");
    assert_eq!(validity_status(30), "OK");
}

fn cert_with_issuer(issuer: &str) -> CertificateInfo {
    CertificateInfo {
        subject: String::new(),
        issuer: issuer.to_string(),
        serial_number: String::new(),
        validity_not_before: String::new(),
        validity_not_after: String::new(),
        subject_alt_names: Vec::new(),
        key_size: None,
        signature_algorithm: String::new(),
        public_key_algorithm: String::new(),
    }
}

#[test]
fn simple_issuer_prefers_the_common_name() {
    assert_eq!(
        cert_with_issuer("C=US, O=Let's Encrypt, CN=R3").extract_simple_issuer(),
        "R3"
    );
    assert_eq!(
        cert_with_issuer("C=US, O=Example Org").extract_simple_issuer(),
        "Example Org"
    );
    assert_eq!(
        cert_with_issuer("plain issuer text").extract_simple_issuer(),
        "plain issuer text"
    );
}

#[test]
fn json_summary_classifies_and_simplifies() {
    let cert = cert_with_issuer("C=US, O=Org, CN=Issuer CA");
    let json = cert.to_json_format(
        "example.com",
        "2024-01-01T00:00:00Z".to_string(),
        "2024-01-15T00:00:00Z".to_string(),
        14,
    );
    assert_eq!(json.host, "example.com");
    assert_eq!(json.issuer, "Issuer CA");
    assert_eq!(json.not_before, "2024-01-01T00:00:00Z");
    assert_eq!(json.not_after, "2024-01-15T00:00:00Z");
    assert_eq!(json.days_left, 14);
    assert_eq!(json.status, "EXPIRING_SOON");
    assert_eq!(json.base.issuer, "C=US, O=Org, CN=Issuer CA");
}

#[test]
fn key_sizes_follow_the_algorithm() {
    assert_eq!(key_size_for_algorithm("rsaEncryption", Some(256)), Some(2048));
    assert_eq!(key_size_for_algorithm("rsaEncryption", None), None);
    assert_eq!(key_size_for_algorithm("ecPublicKey (1.2.840.10045.2.1)", None), Some(256));
    assert_eq!(key_size_for_algorithm("ed25519", None), Some(256));
    assert_eq!(key_size_for_algorithm("ed448", None), Some(448));
    assert_eq!(key_size_for_algorithm("mystery", Some(4)), None);
}

#[test]
fn wide_characters_take_two_columns() {
    assert_eq!(display_width("abc"), 3);
    assert_eq!(display_width("中文"), 4);
    assert_eq!(display_width(""), 0);
}

#[test]
fn long_names_are_cut_with_an_ellipsis() {
    assert_eq!(truncate_for_display("short", 48), "short");
    assert_eq!(truncate_for_display("abcdefgh", 5), "ab...");
    let cut = truncate_for_display("中文名字很长", 6);
    assert_eq!(cut, "中...");
}

#[test]
fn query_ids_stay_in_range() {
    assert_eq!(rand_id(0), 0);
    assert_eq!(rand_id(65534), 65534);
    assert_eq!(rand_id(65535), 0);
    assert_eq!(rand_id(65536), 1);
}

#[test]
fn message_size_estimate_is_linear() {
    assert_eq!(estimate_msg_size(0), 32);
    assert_eq!(estimate_msg_size(3), 80);
}

#[test]
fn url_parsing_rejects_what_it_cannot_model() {
    assert!(parse_url("example.com").is_none());
    assert!(parse_url("http://").is_none());
    assert!(parse_url("http://host:notaport/").is_none());
    assert!(parse_url("http://host:70000/").is_none());
    let u = parse_url("http://host").unwrap();
    assert_eq!(u.path, "/");
    let _resolver = DnsLoggingResolver::new();
}
