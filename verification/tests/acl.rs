use rustalk::acl::{
    create_default_acls, matches_cidr, Acl, AclAction, AclError, AclManager, AclRule,
};
use rustalk::ip::{matches_ipv4_cidr, matches_ipv6_cidr, IpAddress, SocketAddress};

fn ip(s: &str) -> IpAddress {
    IpAddress::parse(s).unwrap()
}

#[test]
fn test_single_ip_match() {
    let ip = ip("192.168.1.100");
    assert!(matches_cidr(ip, "192.168.1.100").unwrap());
    assert!(!matches_cidr(ip, "192.168.1.101").unwrap());
}

#[test]
fn test_ipv4_cidr_match() {
    let ip = ip("192.168.1.100");
    assert!(matches_cidr(ip, "192.168.1.0/24").unwrap());
    assert!(matches_cidr(ip, "192.168.0.0/16").unwrap());
    assert!(!matches_cidr(ip, "192.168.2.0/24").unwrap());
}

#[test]
fn test_ipv6_cidr_match() {
    let ip = ip("2001:db8::1");
    assert!(matches_cidr(ip, "2001:db8::/32").unwrap());
    assert!(!matches_cidr(ip, "2001:db9::/32").unwrap());
}

#[test]
fn test_acl_allow() {
    let mut acl = Acl::new("test");
    acl.default_policy = AclAction::Deny;
    acl.add_rule(AclRule {
        name: "allow_local".to_string(),
        cidr: "192.168.1.0/24".to_string(),
        action: AclAction::Allow,
        priority: 10,
    });

    let ip1 = ip("192.168.1.100");
    assert!(acl.is_allowed(ip1).unwrap());

    let ip2 = ip("192.168.2.100");
    assert!(!acl.is_allowed(ip2).unwrap());
}

#[test]
fn test_acl_deny() {
    let mut acl = Acl::new("test");
    acl.default_policy = AclAction::Allow;
    acl.add_rule(AclRule {
        name: "deny_badactor".to_string(),
        cidr: "10.0.0.5".to_string(),
        action: AclAction::Deny,
        priority: 10,
    });

    let ip1 = ip("10.0.0.5");
    assert!(!acl.is_allowed(ip1).unwrap());

    let ip2 = ip("10.0.0.6");
    assert!(acl.is_allowed(ip2).unwrap());
}

#[test]
fn test_acl_priority() {
    let mut acl = Acl::new("test");
    acl.default_policy = AclAction::Deny;

    // Higher priority rule (lower number) should win
    acl.add_rule(AclRule {
        name: "specific_deny".to_string(),
        cidr: "192.168.1.100".to_string(),
        action: AclAction::Deny,
        priority: 5,
    });
    acl.add_rule(AclRule {
        name: "subnet_allow".to_string(),
        cidr: "192.168.1.0/24".to_string(),
        action: AclAction::Allow,
        priority: 10,
    });

    let ip1 = ip("192.168.1.100");
    assert!(!acl.is_allowed(ip1).unwrap()); // Denied by higher priority rule

    let ip2 = ip("192.168.1.101");
    assert!(acl.is_allowed(ip2).unwrap()); // Allowed by subnet rule
}

#[test]
fn test_acl_manager() {
    let mut manager = AclManager::new();
    let mut acl = Acl::new("test_acl");
    acl.add_rule(AclRule {
        name: "allow_local".to_string(),
        cidr: "192.168.1.0/24".to_string(),
        action: AclAction::Allow,
        priority: 10,
    });
    manager.add_acl(acl);

    let ip = ip("192.168.1.100");
    assert!(manager.is_allowed("test_acl", ip).unwrap());
}

#[test]
fn test_default_acls() {
    let manager = create_default_acls();

    // Test RFC 1918
    let ip1 = ip("192.168.1.1");
    assert!(manager.is_allowed("rfc1918", ip1).unwrap());

    let ip2 = ip("8.8.8.8");
    assert!(!manager.is_allowed("rfc1918", ip2).unwrap());

    // Test localhost
    let ip3 = ip("127.0.0.1");
    assert!(manager.is_allowed("localhost", ip3).unwrap());
}

#[test]
fn test_disabled_acl() {
    let mut acl = Acl::new("test");
    acl.default_policy = AclAction::Deny;
    acl.enabled = false;
    acl.add_rule(AclRule {
        name: "allow_local".to_string(),
        cidr: "192.168.1.0/24".to_string(),
        action: AclAction::Allow,
        priority: 10,
    });

    let ip = ip("192.168.1.100");
    // When disabled, should use default policy
    assert!(!acl.is_allowed(ip).unwrap());
}

#[test]
fn default_acls_cover_the_private_networks() {
    let manager = create_default_acls();
    assert_eq!(manager.list_acls(), vec!["rfc1918", "localhost", "allow_all"]);
    assert!(manager.is_allowed("rfc1918", ip("10.255.255.255")).unwrap());
    assert!(manager.is_allowed("rfc1918", ip("172.16.0.1")).unwrap());
    assert!(manager.is_allowed("rfc1918", ip("172.31.255.255")).unwrap());
    assert!(!manager.is_allowed("rfc1918", ip("172.32.0.1")).unwrap());
    assert!(!manager.is_allowed("rfc1918", ip("11.0.0.1")).unwrap());
    assert!(!manager.is_allowed("rfc1918", ip("::1")).unwrap());
    assert!(manager.is_allowed("localhost", ip("::1")).unwrap());
    assert!(!manager.is_allowed("localhost", ip("::2")).unwrap());
    assert!(!manager.is_allowed("localhost", ip("128.0.0.1")).unwrap());
    // disabled: the default policy decides
    assert!(manager.is_allowed("allow_all", ip("8.8.8.8")).unwrap());
    assert_eq!(manager.is_allowed("missing", ip("8.8.8.8")), Err(AclError::NotFound));
    let rfc = manager.get_acl("rfc1918").unwrap();
    assert_eq!(rfc.description, Some("RFC 1918 private address space".to_string()));
    assert_eq!(rfc.rules.len(), 3);
    assert_eq!(rfc.rules[2].cidr, "192.168.0.0/16");
    assert_eq!(rfc.rules[2].priority, 30);
}

#[test]
fn ip_addresses_are_read_as_numbers() {
    assert_eq!(ip("192.168.1.100"), IpAddress::V4(0xc0a8_0164));
    assert_eq!(ip("0.0.0.0"), IpAddress::V4(0));
    assert_eq!(ip("255.255.255.255"), IpAddress::V4(0xffff_ffff));
    assert_eq!(IpAddress::from_octets(10, 0, 0, 5), IpAddress::V4(0x0a00_0005));
    assert_eq!(ip("::"), IpAddress::V6(0));
    assert_eq!(ip("::1"), IpAddress::V6(1));
    assert_eq!(ip("1::"), IpAddress::V6(1u128 << 112));
    assert_eq!(ip("2001:db8::1"), IpAddress::V6(0x2001_0db8_0000_0000_0000_0000_0000_0001));
    assert_eq!(
        ip("1:2:3:4:5:6:7:8"),
        IpAddress::V6(0x0001_0002_0003_0004_0005_0006_0007_0008)
    );
    assert_eq!(ip("::ffff:1.2.3.4"), IpAddress::V6(0xffff_0102_0304));
    assert_eq!(ip("FE80::AbCd"), IpAddress::V6((0xfe80u128 << 112) | 0xabcd));
    for bad in [
        "", "1.2.3", "1.2.3.4.5", "256.1.1.1", "01.2.3.4", "1.2.3.+4", "1..2.3", "a.b.c.d",
        ":", ":::", "1:2:3:4:5:6:7", "1:2:3:4:5:6:7:8:9", "1::2::3", "12345::", "g::",
        "1:2:3:4:5:6:7::8", "1.2.3.4::", " 1.2.3.4",
    ] {
        assert_eq!(IpAddress::parse(bad), None, "{}", bad);
    }
    let a = SocketAddress { ip: ip("1.2.3.4"), port: 5060 };
    assert_eq!(a.port, 5060);
}

#[test]
fn prefixes_compare_the_first_bits() {
    assert!(matches_ipv4_cidr(0xc0a8_0164, 0xc0a8_0100, 24));
    assert!(!matches_ipv4_cidr(0xc0a8_0164, 0xc0a8_0100, 32));
    assert!(matches_ipv4_cidr(0xc0a8_0164, 0xc0a8_0164, 32));
    assert!(matches_ipv4_cidr(0xc0a8_0164, 0, 0));
    assert!(matches_ipv4_cidr(0x8000_0000, 0xffff_ffff, 1));
    assert!(!matches_ipv4_cidr(0x7fff_ffff, 0xffff_ffff, 1));
    assert!(matches_ipv6_cidr(1, 0, 0));
    assert!(matches_ipv6_cidr(1, 0, 127));
    assert!(!matches_ipv6_cidr(1, 0, 128));
    assert!(matches_ipv6_cidr(u128::MAX, 1u128 << 127, 1));
}

#[test]
fn cidr_errors() {
    let a = ip("10.0.0.1");
    assert_eq!(matches_cidr(a, "not an ip"), Err(AclError::InvalidAddress));
    assert_eq!(matches_cidr(a, "10.0.0.0/8/9"), Err(AclError::InvalidFormat));
    assert_eq!(matches_cidr(a, "ten/8"), Err(AclError::InvalidNetwork));
    assert_eq!(matches_cidr(a, "10.0.0.0/x"), Err(AclError::InvalidPrefix));
    assert_eq!(matches_cidr(a, "10.0.0.0/256"), Err(AclError::InvalidPrefix));
    assert_eq!(matches_cidr(a, "10.0.0.0/"), Err(AclError::InvalidPrefix));
    assert_eq!(matches_cidr(a, "10.0.0.0/33"), Err(AclError::PrefixTooLong));
    assert_eq!(matches_cidr(ip("::1"), "::/129"), Err(AclError::PrefixTooLong));
    assert_eq!(matches_cidr(a, "10.0.0.0/0"), Ok(true));
    assert_eq!(matches_cidr(a, "10.0.0.0/+8"), Ok(true));
    // the other family never matches
    assert_eq!(matches_cidr(a, "::/0"), Ok(false));
    assert_eq!(matches_cidr(ip("::1"), "0.0.0.0/0"), Ok(false));
    assert_eq!(matches_cidr(ip("::ffff:10.0.0.1"), "10.0.0.1"), Ok(false));
    assert_eq!(AclError::NotFound.message(), "ACL not found");
    let mut acl = Acl::new("broken");
    acl.add_rule(AclRule {
        name: "bad".to_string(),
        cidr: "nonsense".to_string(),
        action: AclAction::Allow,
        priority: 1,
    });
    assert_eq!(acl.is_allowed(a), Err(AclError::InvalidAddress));
}

#[test]
fn rules_are_kept_in_priority_order_whatever_the_order_added() {
    let rule = |name: &str, cidr: &str, action: AclAction, priority: u32| AclRule {
        name: name.to_string(),
        cidr: cidr.to_string(),
        action,
        priority,
    };
    let rules = vec![
        rule("a", "10.0.0.0/8", AclAction::Allow, 30),
        rule("b", "10.1.0.0/16", AclAction::Deny, 20),
        rule("c", "10.1.2.0/24", AclAction::Allow, 10),
    ];
    let orders: [[usize; 3]; 6] = [[0, 1, 2], [0, 2, 1], [1, 0, 2], [1, 2, 0], [2, 0, 1], [2, 1, 0]];
    for order in orders {
        let mut acl = Acl::new("t");
        for i in order {
            acl.add_rule(rules[i].clone());
        }
        let names: Vec<&str> = acl.rules.iter().map(|r| r.name.as_str()).collect();
        assert_eq!(names, vec!["c", "b", "a"]);
        assert_eq!(acl.is_allowed(ip("10.1.2.3")), Ok(true));
        assert_eq!(acl.is_allowed(ip("10.1.3.3")), Ok(false));
        assert_eq!(acl.is_allowed(ip("10.2.3.3")), Ok(true));
        assert_eq!(acl.is_allowed(ip("11.2.3.3")), Ok(false));
    }
    // equal priorities keep the order in which they were added
    let mut acl = Acl::new("t");
    acl.add_rule(rule("first", "10.0.0.0/8", AclAction::Allow, 5));
    acl.add_rule(rule("second", "10.0.0.0/8", AclAction::Deny, 5));
    acl.add_rule(rule("zero", "11.0.0.0/8", AclAction::Deny, 1));
    let names: Vec<&str> = acl.rules.iter().map(|r| r.name.as_str()).collect();
    assert_eq!(names, vec!["zero", "first", "second"]);
    assert_eq!(acl.is_allowed(ip("10.0.0.1")), Ok(true));
}

#[test]
fn manager_replaces_and_removes_by_name() {
    let mut manager = AclManager::new();
    assert!(manager.list_acls().is_empty());
    manager.add_acl(Acl::new("a"));
    manager.add_acl(Acl::new("b"));
    let mut again = Acl::new("a");
    again.default_policy = AclAction::Allow;
    manager.add_acl(again);
    assert_eq!(manager.list_acls(), vec!["b", "a"]);
    assert_eq!(manager.get_acl("a").unwrap().default_policy, AclAction::Allow);
    assert!(manager.get_acl("c").is_none());
    assert!(manager.remove_acl("b"));
    assert!(!manager.remove_acl("b"));
    assert_eq!(manager.list_acls(), vec!["a"]);
    assert!(AclManager::default().acls.is_empty());
}
