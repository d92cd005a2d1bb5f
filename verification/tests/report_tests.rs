use desertstorm::banner::{
    analyze_banner, detect_os_from_banner, extract_version, ftp_version, http_version,
    probe_for_port, sanitize_banner, ssh_version,
};
use desertstorm::collect::{apply_banner, count_status, merge_results, open_targets};
use desertstorm::report::{cvss_string, format_results, report_format, ReportFormat};
use desertstorm::results::{guess_os_from_ttl, port_info, service_name, PortStatus, ScanResult};

fn finding(ip: &str, port: u16, status: PortStatus, timestamp: u64) -> ScanResult {
    ScanResult {
        ip: ip.to_string(),
        port,
        status,
        service: service_name(port).to_string(),
        version: None,
        banner: None,
        ttl: Some(64),
        timestamp,
        os_guess: guess_os_from_ttl(64),
    }
}

#[test]
fn ttl_os_guess() {
    assert_eq!(guess_os_from_ttl(0), Some("Linux/Unix".to_string()));
    assert_eq!(guess_os_from_ttl(64), Some("Linux/Unix".to_string()));
    assert_eq!(guess_os_from_ttl(65), Some("Windows".to_string()));
    assert_eq!(guess_os_from_ttl(128), Some("Windows".to_string()));
    assert_eq!(guess_os_from_ttl(129), Some("Cisco/Network".to_string()));
    assert_eq!(guess_os_from_ttl(255), Some("Cisco/Network".to_string()));
}

#[test]
fn port_database_entries() {
    let i = port_info(22).unwrap();
    assert_eq!(i.name, "ssh");
    assert_eq!(i.protocol, "TCP");
    assert_eq!(i.description, "Secure Shell - Encrypted remote administration");
    assert_eq!(i.security_risk, "Medium - Brute force target");
    assert_eq!(i.cvss_tenths, Some(53));
    assert_eq!(port_info(53).unwrap().protocol, "TCP/UDP");
    assert_eq!(port_info(27017).unwrap().name, "mongodb");
    assert!(port_info(9999).is_none());
    assert_eq!(port_info(139).unwrap().name, "netbios-ssn");
    let known = (0u16..=65535).filter(|p| port_info(*p).is_some()).count();
    assert_eq!(known, 20);
    assert_eq!(service_name(3306), "mysql");
    assert_eq!(service_name(8443), "https-alt");
    assert_eq!(service_name(1), "unknown");
}

#[test]
fn status_names() {
    assert_eq!(PortStatus::Open.to_string(), "open");
    assert_eq!(PortStatus::Closed.to_string(), "closed");
    assert_eq!(PortStatus::Filtered.to_string(), "filtered");
}

#[test]
fn probes_per_service() {
    assert_eq!(probe_for_port(21), "");
    assert_eq!(probe_for_port(110), "");
    assert_eq!(probe_for_port(143), "");
    assert_eq!(probe_for_port(22), "SSH-2.0-DesertStorm_5.1\r\n");
    assert_eq!(probe_for_port(25), "EHLO desertstorm\r\n");
    assert_eq!(probe_for_port(587), "EHLO desertstorm\r\n");
    let head = "HEAD / HTTP/1.0\r\nHost: target\r\nUser-Agent: DesertStorm/5.1\r\n\r\n";
    assert_eq!(probe_for_port(80), head);
    assert_eq!(probe_for_port(8080), head);
    assert_eq!(probe_for_port(8443), head);
    assert_eq!(probe_for_port(443), "\r\n");
    assert_eq!(probe_for_port(3306), "\r\n");
}

#[test]
fn banners_are_sanitized_and_trimmed() {
    assert_eq!(sanitize_banner(b"  SSH-2.0-OpenSSH_8.9p1\r\n"), "SSH-2.0-OpenSSH_8.9p1");
    assert_eq!(sanitize_banner(b"a\x00b\x1bc\x7f\xffd"), "a.b.c..d");
    assert_eq!(sanitize_banner(b"line1\r\nline2\n"), "line1\r\nline2");
    assert_eq!(sanitize_banner(b"\t x \t"), ". x .");
    assert_eq!(sanitize_banner(b"  x  "), "x");
    assert_eq!(sanitize_banner(b""), "");
    assert_eq!(sanitize_banner(b"\r\n"), "");
}

#[test]
fn sanitized_banners_hold_only_printable_ascii() {
    let raw: Vec<u8> = (0u8..=255).collect();
    let b = sanitize_banner(&raw);
    assert!(b.chars().all(|c| c == '\n' || c == '\r' || (' '..='~').contains(&c)));
    assert!(b.is_ascii());
}

#[test]
fn os_from_banner() {
    assert_eq!(detect_os_from_banner("SSH-2.0-OpenSSH_8.9p1 Ubuntu-3"), Some("Linux (Ubuntu)".to_string()));
    assert_eq!(detect_os_from_banner("Apache/2.4 (Debian)"), Some("Linux (Debian)".to_string()));
    assert_eq!(detect_os_from_banner("nginx (CentOS)"), Some("Linux (RHEL/CentOS)".to_string()));
    assert_eq!(detect_os_from_banner("Red Hat Enterprise"), Some("Linux (RHEL/CentOS)".to_string()));
    assert_eq!(detect_os_from_banner("rhel8"), Some("Linux (RHEL/CentOS)".to_string()));
    assert_eq!(detect_os_from_banner("Microsoft-IIS/10.0"), Some("Windows".to_string()));
    assert_eq!(detect_os_from_banner("WINDOWS server"), Some("Windows".to_string()));
    assert_eq!(detect_os_from_banner("FreeBSD 13"), Some("FreeBSD".to_string()));
    assert_eq!(detect_os_from_banner("ubuntu and debian"), Some("Linux (Ubuntu)".to_string()));
    assert_eq!(detect_os_from_banner("nothing here"), None);
    assert_eq!(detect_os_from_banner(""), None);
}

#[test]
fn ssh_versions() {
    assert_eq!(extract_version("SSH-2.0-OpenSSH_8.9p1 Ubuntu-3ubuntu0.1", 22), "OpenSSH 8.9");
    assert_eq!(extract_version("SSH-2.0-OPENSSH_7.4", 22), "OpenSSH 7.4");
    assert_eq!(extract_version("SSH-2.0-OpenSSH", 22), "OpenSSH");
    assert_eq!(extract_version("SSH-2.0-OpenSSH_p1", 22), "OpenSSH ");
    assert_eq!(extract_version("SSH-2.0-dropbear_2020.81", 22), "unknown");
    assert_eq!(extract_version("SSH-2.0-OpenSSH_8.9", 2222), "unknown");
    assert_eq!(ssh_version("x openssh_1.2.3a openssh_9"), "OpenSSH 1.2.3");
}

#[test]
fn http_versions() {
    let b = "HTTP/1.1 200 OK\r\nDate: today\r\nServer: nginx/1.18.0 (Ubuntu)\r\nX: y";
    assert_eq!(extract_version(b, 80), "nginx/1.18.0 (Ubuntu)");
    assert_eq!(extract_version(b, 443), "nginx/1.18.0 (Ubuntu)");
    assert_eq!(extract_version(b, 8080), "nginx/1.18.0 (Ubuntu)");
    assert_eq!(extract_version(b, 8443), "nginx/1.18.0 (Ubuntu)");
    assert_eq!(extract_version(b, 81), "unknown");
    assert_eq!(extract_version("HTTP/1.0 200 OK\nSERVER:::  Apache  \nServer: other", 80), "Apache");
    assert_eq!(extract_version("HTTP/1.0 200 OK\r\nX-Server: a", 80), "unknown");
    assert_eq!(extract_version("HTTP/1.0 200 OK", 80), "unknown");
    assert_eq!(http_version("server:"), "");
}

#[test]
fn ftp_versions() {
    assert_eq!(extract_version("220 ProFTPD 1.3.5 Server ready", 21), "220 ProFTPD 1.3.5");
    assert_eq!(extract_version("220   (vsFTPd 3.0.3)", 21), "220 (vsFTPd 3.0.3)");
    assert_eq!(extract_version("220 FTP", 21), "220 FTP");
    assert_eq!(extract_version("220 Welcome", 21), "unknown");
    assert_eq!(ftp_version("  a\tb\r\nc d  "), "a b c");
    assert_eq!(ftp_version(""), "");
}

#[test]
fn analysis_of_a_reply() {
    let (banner, version, os) = analyze_banner(b"SSH-2.0-OpenSSH_8.2p1 Ubuntu-4ubuntu0.5\r\n", 22);
    assert_eq!(banner, "SSH-2.0-OpenSSH_8.2p1 Ubuntu-4ubuntu0.5");
    assert_eq!(version, "OpenSSH 8.2");
    assert_eq!(os, Some("Linux (Ubuntu)".to_string()));
    let (banner, version, os) = analyze_banner(b"\x00\x01junk", 9999);
    assert_eq!(banner, "..junk");
    assert_eq!(version, "unknown");
    assert_eq!(os, None);
}

#[test]
fn merging_keeps_one_entry_per_target_preferring_open() {
    let rs = vec![
        finding("10.0.0.2", 80, PortStatus::Closed, 1),
        finding("10.0.0.1", 443, PortStatus::Open, 2),
        finding("10.0.0.2", 80, PortStatus::Open, 3),
        finding("10.0.0.2", 80, PortStatus::Open, 4),
        finding("10.0.0.1", 22, PortStatus::Closed, 5),
        finding("10.0.0.1", 22, PortStatus::Closed, 6),
    ];
    let m = merge_results(rs);
    let keys: Vec<(String, u16, u64)> = m.iter().map(|r| (r.ip.clone(), r.port, r.timestamp)).collect();
    assert_eq!(
        keys,
        vec![
            ("10.0.0.1".to_string(), 22, 5),
            ("10.0.0.1".to_string(), 443, 2),
            ("10.0.0.2".to_string(), 80, 3),
        ]
    );
}

#[test]
fn merging_orders_by_address_value() {
    let rs = vec![
        finding("10.0.0.10", 1, PortStatus::Open, 0),
        finding("9.255.255.255", 1, PortStatus::Open, 0),
        finding("10.0.0.9", 2, PortStatus::Open, 0),
        finding("not an address", 7, PortStatus::Open, 0),
    ];
    let m = merge_results(rs);
    let ips: Vec<&str> = m.iter().map(|r| r.ip.as_str()).collect();
    assert_eq!(ips, vec!["not an address", "9.255.255.255", "10.0.0.9", "10.0.0.10"]);
    assert!(merge_results(Vec::new()).is_empty());
}

#[test]
fn banners_attach_to_the_first_finding_of_the_target() {
    let mut rs = vec![
        finding("10.0.0.1", 22, PortStatus::Open, 1),
        finding("10.0.0.1", 22, PortStatus::Open, 2),
    ];
    apply_banner(&mut rs, "10.0.0.1", 22, "b".to_string(), "v".to_string(), None);
    assert_eq!(rs[0].banner, Some("b".to_string()));
    assert_eq!(rs[0].version, Some("v".to_string()));
    assert_eq!(rs[0].os_guess, Some("Linux/Unix".to_string()));
    assert_eq!(rs[1].banner, None);
    apply_banner(&mut rs, "10.0.0.1", 22, "c".to_string(), "w".to_string(), Some("FreeBSD".to_string()));
    assert_eq!(rs[0].banner, Some("c".to_string()));
    assert_eq!(rs[0].os_guess, Some("FreeBSD".to_string()));
    let before = rs.clone();
    apply_banner(&mut rs, "10.0.0.9", 22, "x".to_string(), "y".to_string(), None);
    assert_eq!(rs, before);
}

#[test]
fn open_targets_and_counts() {
    let rs = vec![
        finding("10.0.0.1", 22, PortStatus::Open, 1),
        finding("10.0.0.1", 23, PortStatus::Closed, 1),
        finding("10.0.0.2", 80, PortStatus::Open, 1),
        finding("10.0.0.3", 81, PortStatus::Filtered, 1),
    ];
    assert_eq!(
        open_targets(&rs),
        vec![("10.0.0.1".to_string(), 22), ("10.0.0.2".to_string(), 80)]
    );
    assert_eq!(count_status(&rs, PortStatus::Open), 2);
    assert_eq!(count_status(&rs, PortStatus::Closed), 1);
    assert_eq!(count_status(&rs, PortStatus::Filtered), 1);
}

#[test]
fn format_names() {
    assert_eq!(report_format("json"), ReportFormat::Json);
    assert_eq!(report_format("csv"), ReportFormat::Csv);
    assert_eq!(report_format("grepable"), ReportFormat::Grepable);
    assert_eq!(report_format("normal"), ReportFormat::Table);
    assert_eq!(report_format("CSV"), ReportFormat::Table);
}

#[test]
fn json_is_left_to_the_serialiser() {
    let rs = vec![finding("10.0.0.1", 22, PortStatus::Open, 1)];
    assert_eq!(format_results(&rs, "json", false), None);
}

#[test]
fn csv_report() {
    let mut a = finding("10.0.0.1", 22, PortStatus::Open, 1_234_567_890);
    a.version = Some("OpenSSH 8.9".to_string());
    let mut b = finding("10.0.0.2", 9999, PortStatus::Closed, 42_000);
    b.ttl = None;
    b.os_guess = None;
    let out = format_results(&vec![a, b], "csv", false).unwrap();
    assert_eq!(
        out,
        "ip,port,status,service,ttl,os,version,timestamp\n\
         10.0.0.1,22,open,ssh,64,Linux/Unix,OpenSSH 8.9,1.235\n\
         10.0.0.2,9999,closed,unknown,,,,0.000\n"
    );
}

#[test]
fn csv_timestamps_have_three_decimals() {
    let r = finding("1.1.1.1", 1, PortStatus::Open, 12_345_678_901_234);
    let out = format_results(&vec![r], "csv", false).unwrap();
    assert!(out.ends_with(",12345.679\n"));
    let r = finding("1.1.1.1", 1, PortStatus::Open, 2_000_400_000);
    let out = format_results(&vec![r], "csv", false).unwrap();
    assert!(out.ends_with(",2.000\n"));
    let r = finding("1.1.1.1", 1, PortStatus::Open, 61_000_600_000);
    let out = format_results(&vec![r], "csv", false).unwrap();
    assert!(out.ends_with(",61.001\n"));
}

#[test]
fn grepable_report_lists_open_ports_only() {
    let mut a = finding("10.0.0.1", 80, PortStatus::Open, 1);
    a.version = Some("nginx".to_string());
    let b = finding("10.0.0.1", 81, PortStatus::Closed, 1);
    let mut c = finding("10.0.0.3", 22, PortStatus::Open, 1);
    c.os_guess = None;
    let out = format_results(&vec![a, b, c], "grepable", true).unwrap();
    assert_eq!(
        out,
        "Host: 10.0.0.1\tPorts: 80/http/open/nginx/Linux/Unix/\n\
         Host: 10.0.0.3\tPorts: 22/ssh/open///\n"
    );
    assert_eq!(format_results(&[], "grepable", false).unwrap(), "");
}

#[test]
fn grepable_report_has_one_line_per_host() {
    let mut a = finding("10.0.0.1", 80, PortStatus::Open, 1);
    a.version = Some("nginx".to_string());
    let b = finding("10.0.0.2", 22, PortStatus::Open, 1);
    let c = finding("10.0.0.1", 443, PortStatus::Open, 1);
    let d = finding("10.0.0.1", 81, PortStatus::Closed, 1);
    let e = finding("10.0.0.3", 25, PortStatus::Filtered, 1);
    let out = format_results(&vec![d, a, b, e, c], "grepable", false).unwrap();
    assert_eq!(
        out,
        "Host: 10.0.0.1\tPorts: 80/http/open/nginx/Linux/Unix/, 443/https/open//Linux/Unix/\n\
         Host: 10.0.0.2\tPorts: 22/ssh/open//Linux/Unix/\n"
    );
}

#[test]
fn table_report() {
    let mut a = finding("10.0.0.1", 22, PortStatus::Open, 1);
    a.version = Some("OpenSSH 8.9".to_string());
    a.banner = Some("SSH-2.0-OpenSSH_8.9".to_string());
    let mut b = finding("192.168.100.200", 8080, PortStatus::Closed, 1);
    b.ttl = Some(128);
    b.os_guess = Some("Windows".to_string());
    b.version = Some("unknown".to_string());
    let mut c = finding("10.0.0.3", 5, PortStatus::Filtered, 1);
    c.ttl = None;
    let out = format_results(&vec![a, b, c], "normal", false).unwrap();
    let mut expected = String::new();
    expected.push_str("╔══════════════════════════════════════════════════════════╗\n");
    expected.push_str("║                     SCAN RESULTS                        ║\n");
    expected.push_str("╚══════════════════════════════════════════════════════════╝\n");
    expected.push_str(&format!("[{}] {:15} {:>5}/tcp  {:8}  {}\n", "+", "10.0.0.1", 22, "OPEN", "ssh"));
    expected.push_str("    TTL: 64 (Linux/Unix)\n    Version: OpenSSH 8.9\n    Banner: SSH-2.0-OpenSSH_8.9\n");
    expected.push_str(&format!(
        "[{}] {:15} {:>5}/tcp  {:8}  {}\n",
        "-", "192.168.100.200", 8080, "CLOSED", "http-proxy"
    ));
    expected.push_str("    TTL: 128 (Windows)\n");
    expected.push_str(&format!("[{}] {:15} {:>5}/tcp  {:8}  {}\n", "?", "10.0.0.3", 5, "FILTERED", "unknown"));
    assert_eq!(out, expected);
    assert!(out.contains("[+] 10.0.0.1           22/tcp  OPEN      ssh\n"));
}

#[test]
fn table_report_with_port_notes() {
    let a = finding("10.0.0.1", 3389, PortStatus::Open, 1);
    let mut b = finding("10.0.0.1", 3390, PortStatus::Open, 1);
    b.ttl = None;
    let c = finding("10.0.0.2", 22, PortStatus::Closed, 1);
    let out = format_results(&vec![a, b, c], "table", true).unwrap();
    let first = format!("[{}] {:15} {:>5}/tcp  {:8}  {}\n", "+", "10.0.0.1", 3389, "OPEN", "rdp");
    assert!(out.contains(&format!(
        "{}    TTL: 64 (Linux/Unix)\n    Info: Remote Desktop Protocol | Risk: CRITICAL - BlueKeep, brute force | CVSS: {:.1}\n",
        first, 9.8f32
    )));
    let second = format!("[{}] {:15} {:>5}/tcp  {:8}  {}\n", "+", "10.0.0.1", 3390, "OPEN", "unknown");
    assert!(out.contains(&format!("{}[-]", second)));
    assert!(!out.contains("Secure Shell"));
}

#[test]
fn table_cuts_long_banners() {
    let mut a = finding("10.0.0.1", 80, PortStatus::Open, 1);
    let long: String = std::iter::repeat('x').take(130).collect();
    a.banner = Some(long.clone());
    let mut b = finding("10.0.0.2", 80, PortStatus::Open, 1);
    let exact: String = std::iter::repeat('y').take(120).collect();
    b.banner = Some(exact.clone());
    let mut c = finding("10.0.0.3", 80, PortStatus::Open, 1);
    let wide = format!("{}é{}", "z".repeat(118), "z".repeat(10));
    c.banner = Some(wide.clone());
    let out = format_results(&vec![a, b, c], "normal", false).unwrap();
    assert!(out.contains(&format!("    Banner: {}...\n", &long[..120])));
    assert!(out.contains(&format!("    Banner: {}\n", exact)));
    assert!(out.contains(&format!("    Banner: {}...\n", &wide[..120])));
}

#[test]
fn cvss_texts() {
    assert_eq!(cvss_string(Some(75)), "7.5");
    assert_eq!(cvss_string(Some(100)), "10.0");
    assert_eq!(cvss_string(Some(4)), "0.4");
    assert_eq!(cvss_string(None), "0.0");
}
