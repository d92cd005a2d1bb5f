//! Scan results, the port database and the report formats.

use vstd::prelude::*;
use crate::text::starts_with;

verus! {

/// State of a probed port.
#[derive(PartialEq, Eq, Structural, Clone, Copy, Debug)]
pub enum PortStatus {
    Open,
    Closed,
    Filtered,
}

impl PortStatus {
    /// The lower-case name of the state, as its `Display` writes it.
    pub open spec fn name(self) -> Seq<char> {
        match self {
            PortStatus::Open => "open"@,
            PortStatus::Closed => "closed"@,
            PortStatus::Filtered => "filtered"@,
        }
    }

    /// The lower-case name of the state.
    pub fn to_string(&self) -> (r: String)
        ensures
            r@ == self.name(),
    {
        match self {
            PortStatus::Open => String::from_str("open"),
            PortStatus::Closed => String::from_str("closed"),
            PortStatus::Filtered => String::from_str("filtered"),
        }
    }
}

/// One finding of a scan. `timestamp` is the time since the receiver
/// started, in nanoseconds.
#[derive(Clone, Debug, PartialEq, Eq)]
pub struct ScanResult {
    pub ip: String,
    pub port: u16,
    pub status: PortStatus,
    pub service: String,
    pub version: Option<String>,
    pub banner: Option<String>,
    pub ttl: Option<u8>,
    pub timestamp: u64,
    pub os_guess: Option<String>,
}

/// The plain content of a `ScanResult`.
pub struct ResultView {
    pub ip: Seq<char>,
    pub port: u16,
    pub status: PortStatus,
    pub service: Seq<char>,
    pub version: Option<Seq<char>>,
    pub banner: Option<Seq<char>>,
    pub ttl: Option<u8>,
    pub timestamp: u64,
    pub os_guess: Option<Seq<char>>,
}

impl View for ScanResult {
    type V = ResultView;

    open spec fn view(&self) -> ResultView {
        ResultView {
            ip: self.ip@,
            port: self.port,
            status: self.status,
            service: self.service@,
            version: self.version.deep_view(),
            banner: self.banner.deep_view(),
            ttl: self.ttl,
            timestamp: self.timestamp,
            os_guess: self.os_guess.deep_view(),
        }
    }
}

/// What the port database holds of one port. The CVSS score is kept in
/// tenths (`75` for 7.5).
#[derive(Clone, Copy, Debug)]
pub struct PortInfo {
    pub name: &'static str,
    pub protocol: &'static str,
    pub description: &'static str,
    pub security_risk: &'static str,
    pub common_uses: &'static str,
    pub cvss_tenths: Option<u8>,
}

/// The plain content of a `PortInfo`.
pub struct PortRecord {
    pub name: Seq<char>,
    pub protocol: Seq<char>,
    pub description: Seq<char>,
    pub security_risk: Seq<char>,
    pub common_uses: Seq<char>,
    pub cvss_tenths: Option<u8>,
}

impl View for PortInfo {
    type V = PortRecord;

    open spec fn view(&self) -> PortRecord {
        PortRecord {
            name: self.name@,
            protocol: self.protocol@,
            description: self.description@,
            security_risk: self.security_risk@,
            common_uses: self.common_uses@,
            cvss_tenths: self.cvss_tenths,
        }
    }
}

/// The port database: well-known ports with their service, risk and uses.
pub open spec fn port_record(port: u16) -> Option<PortRecord> {
    if port == 21 {
        Some(PortRecord {
            name: "ftp"@,
            protocol: "TCP"@,
            description: "File Transfer Protocol"@,
            security_risk: "High - Cleartext credentials, bounce attacks"@,
            common_uses: "File transfers, firmware updates"@,
            cvss_tenths: Some(75u8),
        })
    } else if port == 22 {
        Some(PortRecord {
            name: "ssh"@,
            protocol: "TCP"@,
            description: "Secure Shell - Encrypted remote administration"@,
            security_risk: "Medium - Brute force target"@,
            common_uses: "Remote management, SFTP, Git, tunneling"@,
            cvss_tenths: Some(53u8),
        })
    } else if port == 23 {
        Some(PortRecord {
            name: "telnet"@,
            protocol: "TCP"@,
            description: "Telnet - Unencrypted remote access (OBSOLETE)"@,
            security_risk: "CRITICAL - Cleartext passwords"@,
            common_uses: "Legacy devices (replace with SSH)"@,
            cvss_tenths: Some(98u8),
        })
    } else if port == 25 {
        Some(PortRecord {
            name: "smtp"@,
            protocol: "TCP"@,
            description: "Simple Mail Transfer Protocol"@,
            security_risk: "Medium - Open relay, spoofing"@,
            common_uses: "Email delivery"@,
            cvss_tenths: Some(50u8),
        })
    } else if port == 53 {
        Some(PortRecord {
            name: "dns"@,
            protocol: "TCP/UDP"@,
            description: "Domain Name System"@,
            security_risk: "Medium - Zone transfer, amplification"@,
            common_uses: "Name resolution, service discovery"@,
            cvss_tenths: Some(50u8),
        })
    } else if port == 80 {
        Some(PortRecord {
            name: "http"@,
            protocol: "TCP"@,
            description: "HyperText Transfer Protocol"@,
            security_risk: "Medium - Web app vulnerabilities"@,
            common_uses: "Web browsing, APIs, redirects"@,
            cvss_tenths: Some(50u8),
        })
    } else if port == 110 {
        Some(PortRecord {
            name: "pop3"@,
            protocol: "TCP"@,
            description: "Post Office Protocol v3"@,
            security_risk: "High - Cleartext authentication"@,
            common_uses: "Email retrieval"@,
            cvss_tenths: Some(75u8),
        })
    } else if port == 139 {
        Some(PortRecord {
            name: "netbios-ssn"@,
            protocol: "TCP"@,
            description: "NetBIOS Session Service"@,
            security_risk: "High - Null sessions, share enumeration"@,
            common_uses: "Legacy Windows file and printer sharing"@,
            cvss_tenths: Some(75u8),
        })
    } else if port == 143 {
        Some(PortRecord {
            name: "imap"@,
            protocol: "TCP"@,
            description: "Internet Message Access Protocol"@,
            security_risk: "Medium - Cleartext without STARTTLS"@,
            common_uses: "Email access"@,
            cvss_tenths: Some(50u8),
        })
    } else if port == 443 {
        Some(PortRecord {
            name: "https"@,
            protocol: "TCP"@,
            description: "HTTP Secure (TLS)"@,
            security_risk: "Medium - Encrypted but app attacks persist"@,
            common_uses: "Secure web, e-commerce, APIs"@,
            cvss_tenths: Some(40u8),
        })
    } else if port == 445 {
        Some(PortRecord {
            name: "smb"@,
            protocol: "TCP"@,
            description: "Server Message Block (Windows sharing)"@,
            security_risk: "CRITICAL - EternalBlue, worms"@,
            common_uses: "Windows file sharing, AD"@,
            cvss_tenths: Some(100u8),
        })
    } else if port == 1433 {
        Some(PortRecord {
            name: "mssql"@,
            protocol: "TCP"@,
            description: "Microsoft SQL Server"@,
            security_risk: "High - SQL injection, xp_cmdshell"@,
            common_uses: "Enterprise databases"@,
            cvss_tenths: Some(80u8),
        })
    } else if port == 3306 {
        Some(PortRecord {
            name: "mysql"@,
            protocol: "TCP"@,
            description: "MySQL Database"@,
            security_risk: "High - SQL injection, ransomware"@,
            common_uses: "Web applications, CMS"@,
            cvss_tenths: Some(80u8),
        })
    } else if port == 3389 {
        Some(PortRecord {
            name: "rdp"@,
            protocol: "TCP"@,
            description: "Remote Desktop Protocol"@,
            security_risk: "CRITICAL - BlueKeep, brute force"@,
            common_uses: "Windows remote desktop"@,
            cvss_tenths: Some(98u8),
        })
    } else if port == 5432 {
        Some(PortRecord {
            name: "postgresql"@,
            protocol: "TCP"@,
            description: "PostgreSQL Database"@,
            security_risk: "High - SQL injection, misconfigs"@,
            common_uses: "Enterprise databases, web apps"@,
            cvss_tenths: Some(80u8),
        })
    } else if port == 5900 {
        Some(PortRecord {
            name: "vnc"@,
            protocol: "TCP"@,
            description: "Virtual Network Computing"@,
            security_risk: "CRITICAL - Weak auth, no encryption"@,
            common_uses: "Remote desktop (cross-platform)"@,
            cvss_tenths: Some(98u8),
        })
    } else if port == 6379 {
        Some(PortRecord {
            name: "redis"@,
            protocol: "TCP"@,
            description: "Redis Key-Value Store"@,
            security_risk: "CRITICAL - Often unauthenticated"@,
            common_uses: "Caching, session storage, message broker"@,
            cvss_tenths: Some(100u8),
        })
    } else if port == 8080 {
        Some(PortRecord {
            name: "http-proxy"@,
            protocol: "TCP"@,
            description: "HTTP Alternate/Proxy"@,
            security_risk: "Medium - Dev exposure, proxy attacks"@,
            common_uses: "Proxies, Tomcat, dev servers"@,
            cvss_tenths: Some(50u8),
        })
    } else if port == 8443 {
        Some(PortRecord {
            name: "https-alt"@,
            protocol: "TCP"@,
            description: "HTTPS Alternate"@,
            security_risk: "Medium - Often management interfaces"@,
            common_uses: "Admin panels, alternative HTTPS"@,
            cvss_tenths: Some(50u8),
        })
    } else if port == 27017 {
        Some(PortRecord {
            name: "mongodb"@,
            protocol: "TCP"@,
            description: "MongoDB NoSQL Database"@,
            security_risk: "CRITICAL - Often unauthenticated"@,
            common_uses: "NoSQL databases, web apps"@,
            cvss_tenths: Some(100u8),
        })
    } else {
        None
    }
}

/// Looks a port up in the port database.
pub fn port_info(port: u16) -> (r: Option<PortInfo>)
    ensures
        r matches Some(i) ==> port_record(port) == Some(i@),
        r is None ==> port_record(port) is None,
{
    match port {
        21 => Some(PortInfo {
            name: "ftp",
            protocol: "TCP",
            description: "File Transfer Protocol",
            security_risk: "High - Cleartext credentials, bounce attacks",
            common_uses: "File transfers, firmware updates",
            cvss_tenths: Some(75),
        }),
        22 => Some(PortInfo {
            name: "ssh",
            protocol: "TCP",
            description: "Secure Shell - Encrypted remote administration",
            security_risk: "Medium - Brute force target",
            common_uses: "Remote management, SFTP, Git, tunneling",
            cvss_tenths: Some(53),
        }),
        23 => Some(PortInfo {
            name: "telnet",
            protocol: "TCP",
            description: "Telnet - Unencrypted remote access (OBSOLETE)",
            security_risk: "CRITICAL - Cleartext passwords",
            common_uses: "Legacy devices (replace with SSH)",
            cvss_tenths: Some(98),
        }),
        25 => Some(PortInfo {
            name: "smtp",
            protocol: "TCP",
            description: "Simple Mail Transfer Protocol",
            security_risk: "Medium - Open relay, spoofing",
            common_uses: "Email delivery",
            cvss_tenths: Some(50),
        }),
        53 => Some(PortInfo {
            name: "dns",
            protocol: "TCP/UDP",
            description: "Domain Name System",
            security_risk: "Medium - Zone transfer, amplification",
            common_uses: "Name resolution, service discovery",
            cvss_tenths: Some(50),
        }),
        80 => Some(PortInfo {
            name: "http",
            protocol: "TCP",
            description: "HyperText Transfer Protocol",
            security_risk: "Medium - Web app vulnerabilities",
            common_uses: "Web browsing, APIs, redirects",
            cvss_tenths: Some(50),
        }),
        110 => Some(PortInfo {
            name: "pop3",
            protocol: "TCP",
            description: "Post Office Protocol v3",
            security_risk: "High - Cleartext authentication",
            common_uses: "Email retrieval",
            cvss_tenths: Some(75),
        }),
        139 => Some(PortInfo {
            name: "netbios-ssn",
            protocol: "TCP",
            description: "NetBIOS Session Service",
            security_risk: "High - Null sessions, share enumeration",
            common_uses: "Legacy Windows file and printer sharing",
            cvss_tenths: Some(75),
        }),
        143 => Some(PortInfo {
            name: "imap",
            protocol: "TCP",
            description: "Internet Message Access Protocol",
            security_risk: "Medium - Cleartext without STARTTLS",
            common_uses: "Email access",
            cvss_tenths: Some(50),
        }),
        443 => Some(PortInfo {
            name: "https",
            protocol: "TCP",
            description: "HTTP Secure (TLS)",
            security_risk: "Medium - Encrypted but app attacks persist",
            common_uses: "Secure web, e-commerce, APIs",
            cvss_tenths: Some(40),
        }),
        445 => Some(PortInfo {
            name: "smb",
            protocol: "TCP",
            description: "Server Message Block (Windows sharing)",
            security_risk: "CRITICAL - EternalBlue, worms",
            common_uses: "Windows file sharing, AD",
            cvss_tenths: Some(100),
        }),
        1433 => Some(PortInfo {
            name: "mssql",
            protocol: "TCP",
            description: "Microsoft SQL Server",
            security_risk: "High - SQL injection, xp_cmdshell",
            common_uses: "Enterprise databases",
            cvss_tenths: Some(80),
        }),
        3306 => Some(PortInfo {
            name: "mysql",
            protocol: "TCP",
            description: "MySQL Database",
            security_risk: "High - SQL injection, ransomware",
            common_uses: "Web applications, CMS",
            cvss_tenths: Some(80),
        }),
        3389 => Some(PortInfo {
            name: "rdp",
            protocol: "TCP",
            description: "Remote Desktop Protocol",
            security_risk: "CRITICAL - BlueKeep, brute force",
            common_uses: "Windows remote desktop",
            cvss_tenths: Some(98),
        }),
        5432 => Some(PortInfo {
            name: "postgresql",
            protocol: "TCP",
            description: "PostgreSQL Database",
            security_risk: "High - SQL injection, misconfigs",
            common_uses: "Enterprise databases, web apps",
            cvss_tenths: Some(80),
        }),
        5900 => Some(PortInfo {
            name: "vnc",
            protocol: "TCP",
            description: "Virtual Network Computing",
            security_risk: "CRITICAL - Weak auth, no encryption",
            common_uses: "Remote desktop (cross-platform)",
            cvss_tenths: Some(98),
        }),
        6379 => Some(PortInfo {
            name: "redis",
            protocol: "TCP",
            description: "Redis Key-Value Store",
            security_risk: "CRITICAL - Often unauthenticated",
            common_uses: "Caching, session storage, message broker",
            cvss_tenths: Some(100),
        }),
        8080 => Some(PortInfo {
            name: "http-proxy",
            protocol: "TCP",
            description: "HTTP Alternate/Proxy",
            security_risk: "Medium - Dev exposure, proxy attacks",
            common_uses: "Proxies, Tomcat, dev servers",
            cvss_tenths: Some(50),
        }),
        8443 => Some(PortInfo {
            name: "https-alt",
            protocol: "TCP",
            description: "HTTPS Alternate",
            security_risk: "Medium - Often management interfaces",
            common_uses: "Admin panels, alternative HTTPS",
            cvss_tenths: Some(50),
        }),
        27017 => Some(PortInfo {
            name: "mongodb",
            protocol: "TCP",
            description: "MongoDB NoSQL Database",
            security_risk: "CRITICAL - Often unauthenticated",
            common_uses: "NoSQL databases, web apps",
            cvss_tenths: Some(100),
        }),
        _ => None,
    }
}

/// The well-known services: for each port, its service name, protocol,
/// description, risk and common uses, and its CVSS base score in tenths.
pub open spec fn service_table() -> Seq<(u16, PortRecord)> {
    seq![
        (
            21u16,
            PortRecord {
                name: "ftp"@,
                protocol: "TCP"@,
                description: "File Transfer Protocol"@,
                security_risk: "High - Cleartext credentials, bounce attacks"@,
                common_uses: "File transfers, firmware updates"@,
                cvss_tenths: Some(75u8),
            },
        ),
        (
            22u16,
            PortRecord {
                name: "ssh"@,
                protocol: "TCP"@,
                description: "Secure Shell - Encrypted remote administration"@,
                security_risk: "Medium - Brute force target"@,
                common_uses: "Remote management, SFTP, Git, tunneling"@,
                cvss_tenths: Some(53u8),
            },
        ),
        (
            23u16,
            PortRecord {
                name: "telnet"@,
                protocol: "TCP"@,
                description: "Telnet - Unencrypted remote access (OBSOLETE)"@,
                security_risk: "CRITICAL - Cleartext passwords"@,
                common_uses: "Legacy devices (replace with SSH)"@,
                cvss_tenths: Some(98u8),
            },
        ),
        (
            25u16,
            PortRecord {
                name: "smtp"@,
                protocol: "TCP"@,
                description: "Simple Mail Transfer Protocol"@,
                security_risk: "Medium - Open relay, spoofing"@,
                common_uses: "Email delivery"@,
                cvss_tenths: Some(50u8),
            },
        ),
        (
            53u16,
            PortRecord {
                name: "dns"@,
                protocol: "TCP/UDP"@,
                description: "Domain Name System"@,
                security_risk: "Medium - Zone transfer, amplification"@,
                common_uses: "Name resolution, service discovery"@,
                cvss_tenths: Some(50u8),
            },
        ),
        (
            80u16,
            PortRecord {
                name: "http"@,
                protocol: "TCP"@,
                description: "HyperText Transfer Protocol"@,
                security_risk: "Medium - Web app vulnerabilities"@,
                common_uses: "Web browsing, APIs, redirects"@,
                cvss_tenths: Some(50u8),
            },
        ),
        (
            110u16,
            PortRecord {
                name: "pop3"@,
                protocol: "TCP"@,
                description: "Post Office Protocol v3"@,
                security_risk: "High - Cleartext authentication"@,
                common_uses: "Email retrieval"@,
                cvss_tenths: Some(75u8),
            },
        ),
        (
            139u16,
            PortRecord {
                name: "netbios-ssn"@,
                protocol: "TCP"@,
                description: "NetBIOS Session Service"@,
                security_risk: "High - Null sessions, share enumeration"@,
                common_uses: "Legacy Windows file and printer sharing"@,
                cvss_tenths: Some(75u8),
            },
        ),
        (
            143u16,
            PortRecord {
                name: "imap"@,
                protocol: "TCP"@,
                description: "Internet Message Access Protocol"@,
                security_risk: "Medium - Cleartext without STARTTLS"@,
                common_uses: "Email access"@,
                cvss_tenths: Some(50u8),
            },
        ),
        (
            443u16,
            PortRecord {
                name: "https"@,
                protocol: "TCP"@,
                description: "HTTP Secure (TLS)"@,
                security_risk: "Medium - Encrypted but app attacks persist"@,
                common_uses: "Secure web, e-commerce, APIs"@,
                cvss_tenths: Some(40u8),
            },
        ),
        (
            445u16,
            PortRecord {
                name: "smb"@,
                protocol: "TCP"@,
                description: "Server Message Block (Windows sharing)"@,
                security_risk: "CRITICAL - EternalBlue, worms"@,
                common_uses: "Windows file sharing, AD"@,
                cvss_tenths: Some(100u8),
            },
        ),
        (
            1433u16,
            PortRecord {
                name: "mssql"@,
                protocol: "TCP"@,
                description: "Microsoft SQL Server"@,
                security_risk: "High - SQL injection, xp_cmdshell"@,
                common_uses: "Enterprise databases"@,
                cvss_tenths: Some(80u8),
            },
        ),
        (
            3306u16,
            PortRecord {
                name: "mysql"@,
                protocol: "TCP"@,
                description: "MySQL Database"@,
                security_risk: "High - SQL injection, ransomware"@,
                common_uses: "Web applications, CMS"@,
                cvss_tenths: Some(80u8),
            },
        ),
        (
            3389u16,
            PortRecord {
                name: "rdp"@,
                protocol: "TCP"@,
                description: "Remote Desktop Protocol"@,
                security_risk: "CRITICAL - BlueKeep, brute force"@,
                common_uses: "Windows remote desktop"@,
                cvss_tenths: Some(98u8),
            },
        ),
        (
            5432u16,
            PortRecord {
                name: "postgresql"@,
                protocol: "TCP"@,
                description: "PostgreSQL Database"@,
                security_risk: "High - SQL injection, misconfigs"@,
                common_uses: "Enterprise databases, web apps"@,
                cvss_tenths: Some(80u8),
            },
        ),
        (
            5900u16,
            PortRecord {
                name: "vnc"@,
                protocol: "TCP"@,
                description: "Virtual Network Computing"@,
                security_risk: "CRITICAL - Weak auth, no encryption"@,
                common_uses: "Remote desktop (cross-platform)"@,
                cvss_tenths: Some(98u8),
            },
        ),
        (
            6379u16,
            PortRecord {
                name: "redis"@,
                protocol: "TCP"@,
                description: "Redis Key-Value Store"@,
                security_risk: "CRITICAL - Often unauthenticated"@,
                common_uses: "Caching, session storage, message broker"@,
                cvss_tenths: Some(100u8),
            },
        ),
        (
            8080u16,
            PortRecord {
                name: "http-proxy"@,
                protocol: "TCP"@,
                description: "HTTP Alternate/Proxy"@,
                security_risk: "Medium - Dev exposure, proxy attacks"@,
                common_uses: "Proxies, Tomcat, dev servers"@,
                cvss_tenths: Some(50u8),
            },
        ),
        (
            8443u16,
            PortRecord {
                name: "https-alt"@,
                protocol: "TCP"@,
                description: "HTTPS Alternate"@,
                security_risk: "Medium - Often management interfaces"@,
                common_uses: "Admin panels, alternative HTTPS"@,
                cvss_tenths: Some(50u8),
            },
        ),
        (
            27017u16,
            PortRecord {
                name: "mongodb"@,
                protocol: "TCP"@,
                description: "MongoDB NoSQL Database"@,
                security_risk: "CRITICAL - Often unauthenticated"@,
                common_uses: "NoSQL databases, web apps"@,
                cvss_tenths: Some(100u8),
            },
        ),
    ]
}

/// The port database holds exactly the well-known services of
/// `service_table`: each listed port maps to its listed record (and a
/// finding on it is named by the listed service name), and a port not
/// listed has no record.
pub proof fn lemma_port_database_contents()
    ensures
        forall|i: int|
            0 <= i < service_table().len() ==> port_record(#[trigger] service_table()[i].0) == Some(
                service_table()[i].1,
            ) && service_of(service_table()[i].0) == service_table()[i].1.name,
        forall|port: u16|
            #![trigger port_record(port)]
            port_record(port) is Some ==> exists|i: int|
                0 <= i < service_table().len() && #[trigger] service_table()[i].0 == port,
{
    let t = service_table();
    assert(t.len() == 20);
    assert forall|port: u16| #![trigger port_record(port)] port_record(port) is Some implies exists|i: int|
        0 <= i < t.len() && #[trigger] t[i].0 == port by {
        if port == 21 {
            assert(t[0].0 == port);
        } else if port == 22 {
            assert(t[1].0 == port);
        } else if port == 23 {
            assert(t[2].0 == port);
        } else if port == 25 {
            assert(t[3].0 == port);
        } else if port == 53 {
            assert(t[4].0 == port);
        } else if port == 80 {
            assert(t[5].0 == port);
        } else if port == 110 {
            assert(t[6].0 == port);
        } else if port == 139 {
            assert(t[7].0 == port);
        } else if port == 143 {
            assert(t[8].0 == port);
        } else if port == 443 {
            assert(t[9].0 == port);
        } else if port == 445 {
            assert(t[10].0 == port);
        } else if port == 1433 {
            assert(t[11].0 == port);
        } else if port == 3306 {
            assert(t[12].0 == port);
        } else if port == 3389 {
            assert(t[13].0 == port);
        } else if port == 5432 {
            assert(t[14].0 == port);
        } else if port == 5900 {
            assert(t[15].0 == port);
        } else if port == 6379 {
            assert(t[16].0 == port);
        } else if port == 8080 {
            assert(t[17].0 == port);
        } else if port == 8443 {
            assert(t[18].0 == port);
        } else if port == 27017 {
            assert(t[19].0 == port);
        }
    }
}

/// Every port in the database has a CVSS score from 4.0 to 10.0, and its
/// risk label follows the score's severity band: "CRITICAL" from 9.0 up,
/// "High" from 7.0 below 9.0, "Medium" below 7.0.
pub proof fn lemma_port_risk_follows_score(port: u16)
    ensures
        port_record(port) matches Some(r) ==> {
            &&& r.cvss_tenths matches Some(c) && 40 <= c <= 100
            &&& starts_with(r.security_risk, "CRITICAL"@) <==> r.cvss_tenths.unwrap() >= 90
            &&& starts_with(r.security_risk, "High"@) <==> 70 <= r.cvss_tenths.unwrap() < 90
            &&& starts_with(r.security_risk, "Medium"@) <==> r.cvss_tenths.unwrap() < 70
        },
{
    reveal_strlit("CRITICAL");
    reveal_strlit("High");
    reveal_strlit("Medium");
    reveal_strlit("CRITICAL - BlueKeep, brute force");
    reveal_strlit("CRITICAL - Cleartext passwords");
    reveal_strlit("CRITICAL - EternalBlue, worms");
    reveal_strlit("CRITICAL - Often unauthenticated");
    reveal_strlit("CRITICAL - Weak auth, no encryption");
    reveal_strlit("High - Cleartext authentication");
    reveal_strlit("High - Cleartext credentials, bounce attacks");
    reveal_strlit("High - Null sessions, share enumeration");
    reveal_strlit("High - SQL injection, misconfigs");
    reveal_strlit("High - SQL injection, ransomware");
    reveal_strlit("High - SQL injection, xp_cmdshell");
    reveal_strlit("Medium - Brute force target");
    reveal_strlit("Medium - Cleartext without STARTTLS");
    reveal_strlit("Medium - Dev exposure, proxy attacks");
    reveal_strlit("Medium - Encrypted but app attacks persist");
    reveal_strlit("Medium - Often management interfaces");
    reveal_strlit("Medium - Open relay, spoofing");
    reveal_strlit("Medium - Web app vulnerabilities");
    reveal_strlit("Medium - Zone transfer, amplification");
    assert("CRITICAL - BlueKeep, brute force"@.take(8) =~= "CRITICAL"@);
    assert(!starts_with("CRITICAL - BlueKeep, brute force"@, "High"@)) by { if "High"@.len() <= "CRITICAL - BlueKeep, brute force"@.len() { assert("CRITICAL - BlueKeep, brute force"@.take(4)[0] != "High"@[0]); } }
    assert(!starts_with("CRITICAL - BlueKeep, brute force"@, "Medium"@)) by { if "Medium"@.len() <= "CRITICAL - BlueKeep, brute force"@.len() { assert("CRITICAL - BlueKeep, brute force"@.take(6)[0] != "Medium"@[0]); } }
    assert("CRITICAL - Cleartext passwords"@.take(8) =~= "CRITICAL"@);
    assert(!starts_with("CRITICAL - Cleartext passwords"@, "High"@)) by { if "High"@.len() <= "CRITICAL - Cleartext passwords"@.len() { assert("CRITICAL - Cleartext passwords"@.take(4)[0] != "High"@[0]); } }
    assert(!starts_with("CRITICAL - Cleartext passwords"@, "Medium"@)) by { if "Medium"@.len() <= "CRITICAL - Cleartext passwords"@.len() { assert("CRITICAL - Cleartext passwords"@.take(6)[0] != "Medium"@[0]); } }
    assert("CRITICAL - EternalBlue, worms"@.take(8) =~= "CRITICAL"@);
    assert(!starts_with("CRITICAL - EternalBlue, worms"@, "High"@)) by { if "High"@.len() <= "CRITICAL - EternalBlue, worms"@.len() { assert("CRITICAL - EternalBlue, worms"@.take(4)[0] != "High"@[0]); } }
    assert(!starts_with("CRITICAL - EternalBlue, worms"@, "Medium"@)) by { if "Medium"@.len() <= "CRITICAL - EternalBlue, worms"@.len() { assert("CRITICAL - EternalBlue, worms"@.take(6)[0] != "Medium"@[0]); } }
    assert("CRITICAL - Often unauthenticated"@.take(8) =~= "CRITICAL"@);
    assert(!starts_with("CRITICAL - Often unauthenticated"@, "High"@)) by { if "High"@.len() <= "CRITICAL - Often unauthenticated"@.len() { assert("CRITICAL - Often unauthenticated"@.take(4)[0] != "High"@[0]); } }
    assert(!starts_with("CRITICAL - Often unauthenticated"@, "Medium"@)) by { if "Medium"@.len() <= "CRITICAL - Often unauthenticated"@.len() { assert("CRITICAL - Often unauthenticated"@.take(6)[0] != "Medium"@[0]); } }
    assert("CRITICAL - Weak auth, no encryption"@.take(8) =~= "CRITICAL"@);
    assert(!starts_with("CRITICAL - Weak auth, no encryption"@, "High"@)) by { if "High"@.len() <= "CRITICAL - Weak auth, no encryption"@.len() { assert("CRITICAL - Weak auth, no encryption"@.take(4)[0] != "High"@[0]); } }
    assert(!starts_with("CRITICAL - Weak auth, no encryption"@, "Medium"@)) by { if "Medium"@.len() <= "CRITICAL - Weak auth, no encryption"@.len() { assert("CRITICAL - Weak auth, no encryption"@.take(6)[0] != "Medium"@[0]); } }
    assert("High - Cleartext authentication"@.take(4) =~= "High"@);
    assert(!starts_with("High - Cleartext authentication"@, "CRITICAL"@)) by { if "CRITICAL"@.len() <= "High - Cleartext authentication"@.len() { assert("High - Cleartext authentication"@.take(8)[0] != "CRITICAL"@[0]); } }
    assert(!starts_with("High - Cleartext authentication"@, "Medium"@)) by { if "Medium"@.len() <= "High - Cleartext authentication"@.len() { assert("High - Cleartext authentication"@.take(6)[0] != "Medium"@[0]); } }
    assert("High - Cleartext credentials, bounce attacks"@.take(4) =~= "High"@);
    assert(!starts_with("High - Cleartext credentials, bounce attacks"@, "CRITICAL"@)) by { if "CRITICAL"@.len() <= "High - Cleartext credentials, bounce attacks"@.len() { assert("High - Cleartext credentials, bounce attacks"@.take(8)[0] != "CRITICAL"@[0]); } }
    assert(!starts_with("High - Cleartext credentials, bounce attacks"@, "Medium"@)) by { if "Medium"@.len() <= "High - Cleartext credentials, bounce attacks"@.len() { assert("High - Cleartext credentials, bounce attacks"@.take(6)[0] != "Medium"@[0]); } }
    assert("High - Null sessions, share enumeration"@.take(4) =~= "High"@);
    assert(!starts_with("High - Null sessions, share enumeration"@, "CRITICAL"@)) by { if "CRITICAL"@.len() <= "High - Null sessions, share enumeration"@.len() { assert("High - Null sessions, share enumeration"@.take(8)[0] != "CRITICAL"@[0]); } }
    assert(!starts_with("High - Null sessions, share enumeration"@, "Medium"@)) by { if "Medium"@.len() <= "High - Null sessions, share enumeration"@.len() { assert("High - Null sessions, share enumeration"@.take(6)[0] != "Medium"@[0]); } }
    assert("High - SQL injection, misconfigs"@.take(4) =~= "High"@);
    assert(!starts_with("High - SQL injection, misconfigs"@, "CRITICAL"@)) by { if "CRITICAL"@.len() <= "High - SQL injection, misconfigs"@.len() { assert("High - SQL injection, misconfigs"@.take(8)[0] != "CRITICAL"@[0]); } }
    assert(!starts_with("High - SQL injection, misconfigs"@, "Medium"@)) by { if "Medium"@.len() <= "High - SQL injection, misconfigs"@.len() { assert("High - SQL injection, misconfigs"@.take(6)[0] != "Medium"@[0]); } }
    assert("High - SQL injection, ransomware"@.take(4) =~= "High"@);
    assert(!starts_with("High - SQL injection, ransomware"@, "CRITICAL"@)) by { if "CRITICAL"@.len() <= "High - SQL injection, ransomware"@.len() { assert("High - SQL injection, ransomware"@.take(8)[0] != "CRITICAL"@[0]); } }
    assert(!starts_with("High - SQL injection, ransomware"@, "Medium"@)) by { if "Medium"@.len() <= "High - SQL injection, ransomware"@.len() { assert("High - SQL injection, ransomware"@.take(6)[0] != "Medium"@[0]); } }
    assert("High - SQL injection, xp_cmdshell"@.take(4) =~= "High"@);
    assert(!starts_with("High - SQL injection, xp_cmdshell"@, "CRITICAL"@)) by { if "CRITICAL"@.len() <= "High - SQL injection, xp_cmdshell"@.len() { assert("High - SQL injection, xp_cmdshell"@.take(8)[0] != "CRITICAL"@[0]); } }
    assert(!starts_with("High - SQL injection, xp_cmdshell"@, "Medium"@)) by { if "Medium"@.len() <= "High - SQL injection, xp_cmdshell"@.len() { assert("High - SQL injection, xp_cmdshell"@.take(6)[0] != "Medium"@[0]); } }
    assert("Medium - Brute force target"@.take(6) =~= "Medium"@);
    assert(!starts_with("Medium - Brute force target"@, "CRITICAL"@)) by { if "CRITICAL"@.len() <= "Medium - Brute force target"@.len() { assert("Medium - Brute force target"@.take(8)[0] != "CRITICAL"@[0]); } }
    assert(!starts_with("Medium - Brute force target"@, "High"@)) by { if "High"@.len() <= "Medium - Brute force target"@.len() { assert("Medium - Brute force target"@.take(4)[0] != "High"@[0]); } }
    assert("Medium - Cleartext without STARTTLS"@.take(6) =~= "Medium"@);
    assert(!starts_with("Medium - Cleartext without STARTTLS"@, "CRITICAL"@)) by { if "CRITICAL"@.len() <= "Medium - Cleartext without STARTTLS"@.len() { assert("Medium - Cleartext without STARTTLS"@.take(8)[0] != "CRITICAL"@[0]); } }
    assert(!starts_with("Medium - Cleartext without STARTTLS"@, "High"@)) by { if "High"@.len() <= "Medium - Cleartext without STARTTLS"@.len() { assert("Medium - Cleartext without STARTTLS"@.take(4)[0] != "High"@[0]); } }
    assert("Medium - Dev exposure, proxy attacks"@.take(6) =~= "Medium"@);
    assert(!starts_with("Medium - Dev exposure, proxy attacks"@, "CRITICAL"@)) by { if "CRITICAL"@.len() <= "Medium - Dev exposure, proxy attacks"@.len() { assert("Medium - Dev exposure, proxy attacks"@.take(8)[0] != "CRITICAL"@[0]); } }
    assert(!starts_with("Medium - Dev exposure, proxy attacks"@, "High"@)) by { if "High"@.len() <= "Medium - Dev exposure, proxy attacks"@.len() { assert("Medium - Dev exposure, proxy attacks"@.take(4)[0] != "High"@[0]); } }
    assert("Medium - Encrypted but app attacks persist"@.take(6) =~= "Medium"@);
    assert(!starts_with("Medium - Encrypted but app attacks persist"@, "CRITICAL"@)) by { if "CRITICAL"@.len() <= "Medium - Encrypted but app attacks persist"@.len() { assert("Medium - Encrypted but app attacks persist"@.take(8)[0] != "CRITICAL"@[0]); } }
    assert(!starts_with("Medium - Encrypted but app attacks persist"@, "High"@)) by { if "High"@.len() <= "Medium - Encrypted but app attacks persist"@.len() { assert("Medium - Encrypted but app attacks persist"@.take(4)[0] != "High"@[0]); } }
    assert("Medium - Often management interfaces"@.take(6) =~= "Medium"@);
    assert(!starts_with("Medium - Often management interfaces"@, "CRITICAL"@)) by { if "CRITICAL"@.len() <= "Medium - Often management interfaces"@.len() { assert("Medium - Often management interfaces"@.take(8)[0] != "CRITICAL"@[0]); } }
    assert(!starts_with("Medium - Often management interfaces"@, "High"@)) by { if "High"@.len() <= "Medium - Often management interfaces"@.len() { assert("Medium - Often management interfaces"@.take(4)[0] != "High"@[0]); } }
    assert("Medium - Open relay, spoofing"@.take(6) =~= "Medium"@);
    assert(!starts_with("Medium - Open relay, spoofing"@, "CRITICAL"@)) by { if "CRITICAL"@.len() <= "Medium - Open relay, spoofing"@.len() { assert("Medium - Open relay, spoofing"@.take(8)[0] != "CRITICAL"@[0]); } }
    assert(!starts_with("Medium - Open relay, spoofing"@, "High"@)) by { if "High"@.len() <= "Medium - Open relay, spoofing"@.len() { assert("Medium - Open relay, spoofing"@.take(4)[0] != "High"@[0]); } }
    assert("Medium - Web app vulnerabilities"@.take(6) =~= "Medium"@);
    assert(!starts_with("Medium - Web app vulnerabilities"@, "CRITICAL"@)) by { if "CRITICAL"@.len() <= "Medium - Web app vulnerabilities"@.len() { assert("Medium - Web app vulnerabilities"@.take(8)[0] != "CRITICAL"@[0]); } }
    assert(!starts_with("Medium - Web app vulnerabilities"@, "High"@)) by { if "High"@.len() <= "Medium - Web app vulnerabilities"@.len() { assert("Medium - Web app vulnerabilities"@.take(4)[0] != "High"@[0]); } }
    assert("Medium - Zone transfer, amplification"@.take(6) =~= "Medium"@);
    assert(!starts_with("Medium - Zone transfer, amplification"@, "CRITICAL"@)) by { if "CRITICAL"@.len() <= "Medium - Zone transfer, amplification"@.len() { assert("Medium - Zone transfer, amplification"@.take(8)[0] != "CRITICAL"@[0]); } }
    assert(!starts_with("Medium - Zone transfer, amplification"@, "High"@)) by { if "High"@.len() <= "Medium - Zone transfer, amplification"@.len() { assert("Medium - Zone transfer, amplification"@.take(4)[0] != "High"@[0]); } }
}

/// The service name of a port: its name in the port database, else
/// `unknown`.
pub open spec fn service_of(port: u16) -> Seq<char> {
    match port_record(port) {
        Some(r) => r.name,
        None => "unknown"@,
    }
}

/// The service name of a port.
pub fn service_name(port: u16) -> (r: &'static str)
    ensures
        r@ == service_of(port),
{
    match port_info(port) {
        Some(info) => info.name,
        None => "unknown",
    }
}

/// The operating-system family that an initial TTL suggests.
pub open spec fn os_of_ttl(ttl: u8) -> Seq<char> {
    if ttl <= 64 {
        "Linux/Unix"@
    } else if ttl <= 128 {
        "Windows"@
    } else {
        "Cisco/Network"@
    }
}

/// Guesses the operating system from the TTL of a reply.
pub fn guess_os_from_ttl(ttl: u8) -> (r: Option<String>)
    ensures
        r matches Some(s) && s@ == os_of_ttl(ttl),
{
    if ttl <= 64 {
        Some(String::from_str("Linux/Unix"))
    } else if ttl <= 128 {
        Some(String::from_str("Windows"))
    } else {
        Some(String::from_str("Cisco/Network"))
    }
}

} // verus!
