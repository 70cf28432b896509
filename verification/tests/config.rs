use electrs_pivx::config::{
    check_monitoring_addr, db_subdir, daemon_subdir, default_ports, select_auth, select_magic,
    select_network, settle_network, settle_options, AuthChoice, ConfigError, DefaultPorts, NetworkSelection,
    RpcAuth, SensitiveAuth,
};
use electrs_pivx::consensus::BtcNetwork;

#[test]
fn test_auth_debug() {
    let auth = RpcAuth::NoAuth;
    assert_eq!(SensitiveAuth(auth).debug_string(), "None");

    let auth = RpcAuth::CookieFile("/foo/bar/.cookie".to_owned());
    assert_eq!(SensitiveAuth(auth).debug_string(), "CookieFile(\"/foo/bar/.cookie\")");

    let auth = RpcAuth::UserPass("user".to_owned(), "pass".to_owned());
    assert_eq!(SensitiveAuth(auth).debug_string(), "UserPass(\"user\", \"<sensitive>\")");
}

#[test]
fn auth_debug_hides_any_password() {
    let a = SensitiveAuth(RpcAuth::UserPass("alice".to_owned(), "secret1".to_owned()));
    let b = SensitiveAuth(RpcAuth::UserPass("alice".to_owned(), "other:pw".to_owned()));
    assert_eq!(a.debug_string(), b.debug_string());
    assert!(!a.debug_string().contains("secret1"));
}

#[test]
fn get_auth_copies_credentials() {
    let a = SensitiveAuth(RpcAuth::UserPass("u".to_owned(), "p".to_owned()));
    match a.get_auth() {
        RpcAuth::UserPass(u, p) => {
            assert_eq!(u, "u");
            assert_eq!(p, "p");
        }
        _ => panic!("wrong variant"),
    }
    match SensitiveAuth(RpcAuth::CookieFile("/c".to_owned())).get_auth() {
        RpcAuth::CookieFile(p) => assert_eq!(p, "/c"),
        _ => panic!("wrong variant"),
    }
}

#[test]
fn pivx_network_selection_is_exact() {
    let sel = select_network("pivx").unwrap();
    assert_eq!(sel, NetworkSelection { is_pivx: true, btc_network: BtcNetwork::Bitcoin });
    match select_network("PIVX") {
        Err(ConfigError::InvalidNetwork(s)) => assert_eq!(s, "PIVX"),
        other => panic!("unexpected {:?}", other),
    }
}

#[test]
fn bitcoin_network_names() {
    assert_eq!(select_network("bitcoin").unwrap().btc_network, BtcNetwork::Bitcoin);
    assert_eq!(select_network("testnet").unwrap().btc_network, BtcNetwork::Testnet);
    assert_eq!(select_network("testnet4").unwrap().btc_network, BtcNetwork::Testnet4);
    assert_eq!(select_network("signet").unwrap().btc_network, BtcNetwork::Signet);
    assert_eq!(select_network("regtest").unwrap().btc_network, BtcNetwork::Regtest);
    assert!(select_network("mainnet").is_err());
    assert!(select_network("Bitcoin").is_err());
}

fn btc(n: BtcNetwork) -> NetworkSelection {
    NetworkSelection { is_pivx: false, btc_network: n }
}

#[test]
fn subdirectories() {
    let pivx = select_network("pivx").unwrap();
    assert_eq!(db_subdir(pivx), "pivx");
    assert_eq!(daemon_subdir(pivx), None);
    assert_eq!(db_subdir(btc(BtcNetwork::Testnet)), "testnet");
    assert_eq!(daemon_subdir(btc(BtcNetwork::Testnet)), Some("testnet3"));
    assert_eq!(daemon_subdir(btc(BtcNetwork::Testnet4)), Some("testnet4"));
    assert_eq!(daemon_subdir(btc(BtcNetwork::Regtest)), Some("regtest"));
    assert_eq!(daemon_subdir(btc(BtcNetwork::Signet)), Some("signet"));
    assert_eq!(daemon_subdir(btc(BtcNetwork::Bitcoin)), None);
    assert_eq!(db_subdir(btc(BtcNetwork::Bitcoin)), "bitcoin");
}

#[test]
fn default_port_table() {
    let pivx = select_network("pivx").unwrap();
    assert_eq!(
        default_ports(pivx),
        DefaultPorts { daemon_rpc: 8050, daemon_p2p: 51472, electrum_rpc: 50001, monitoring: 4224 }
    );
    assert_eq!(
        default_ports(btc(BtcNetwork::Bitcoin)),
        DefaultPorts { daemon_rpc: 8332, daemon_p2p: 8333, electrum_rpc: 50001, monitoring: 4224 }
    );
    assert_eq!(
        default_ports(btc(BtcNetwork::Testnet)),
        DefaultPorts { daemon_rpc: 18332, daemon_p2p: 18333, electrum_rpc: 60001, monitoring: 14224 }
    );
    assert_eq!(
        default_ports(btc(BtcNetwork::Testnet4)),
        DefaultPorts { daemon_rpc: 48332, daemon_p2p: 48333, electrum_rpc: 40001, monitoring: 44224 }
    );
    assert_eq!(
        default_ports(btc(BtcNetwork::Regtest)),
        DefaultPorts { daemon_rpc: 18443, daemon_p2p: 18444, electrum_rpc: 60401, monitoring: 24224 }
    );
    assert_eq!(
        default_ports(btc(BtcNetwork::Signet)),
        DefaultPorts { daemon_rpc: 38332, daemon_p2p: 38333, electrum_rpc: 60601, monitoring: 34224 }
    );
}

#[test]
fn magic_selection() {
    let pivx = select_network("pivx").unwrap();
    assert_eq!(select_magic(pivx, Some("90c4fde9")).unwrap(), [0x90, 0xc4, 0xfd, 0xe9]);
    assert_eq!(select_magic(pivx, Some("90C4FDE9")).unwrap(), [0x90, 0xc4, 0xfd, 0xe9]);
    match select_magic(pivx, Some("90c4fd")) {
        Err(ConfigError::InvalidPivxMagic(s)) => assert_eq!(s, "90c4fd"),
        other => panic!("unexpected {:?}", other),
    }
    assert_eq!(select_magic(btc(BtcNetwork::Bitcoin), None).unwrap(), [0xF9, 0xBE, 0xB4, 0xD9]);
    assert_eq!(select_magic(btc(BtcNetwork::Testnet), None).unwrap(), [0x0B, 0x11, 0x09, 0x07]);
    assert_eq!(select_magic(btc(BtcNetwork::Testnet4), None).unwrap(), [0x1C, 0x16, 0x3F, 0x28]);
    assert_eq!(select_magic(btc(BtcNetwork::Signet), None).unwrap(), [0x0A, 0x03, 0xCF, 0x40]);
    assert_eq!(select_magic(btc(BtcNetwork::Regtest), None).unwrap(), [0xFA, 0xBF, 0xB5, 0xDA]);
    assert_eq!(select_magic(btc(BtcNetwork::Signet), Some("01020304")).unwrap(), [1, 2, 3, 4]);
    match select_magic(btc(BtcNetwork::Signet), Some("zz020304")) {
        Err(ConfigError::InvalidSignetMagic(s)) => assert_eq!(s, "zz020304"),
        other => panic!("unexpected {:?}", other),
    }
    assert!(matches!(
        select_magic(btc(BtcNetwork::Regtest), Some("01020304")),
        Err(ConfigError::SignetMagicNotAllowed)
    ));
}

#[test]
fn settle_network_end_to_end() {
    let st = settle_network("pivx", Some("90c4fde9")).unwrap();
    assert!(st.selection.is_pivx);
    assert_eq!(st.db_subdir, "pivx");
    assert_eq!(st.ports.daemon_rpc, 8050);
    assert_eq!(st.magic, [0x90, 0xc4, 0xfd, 0xe9]);
    let st = settle_network("regtest", None).unwrap();
    assert_eq!(st.daemon_subdir, Some("regtest"));
    assert_eq!(st.magic, [0xFA, 0xBF, 0xB5, 0xDA]);
    assert!(matches!(settle_network("nope", Some("zz")), Err(ConfigError::InvalidNetwork(_))));
    assert!(matches!(settle_network("bitcoin", Some("01020304")), Err(ConfigError::SignetMagicNotAllowed)));
}

#[test]
fn monitoring_needs_metrics() {
    assert!(check_monitoring_addr(false, false).is_ok());
    assert!(check_monitoring_addr(true, true).is_ok());
    assert!(matches!(check_monitoring_addr(true, false), Err(ConfigError::MonitoringNeedsMetrics)));
}

#[test]
fn auth_selection() {
    assert!(matches!(select_auth(None, None), Ok(AuthChoice::DaemonDirCookie)));
    match select_auth(None, Some("/x/.cookie")) {
        Ok(AuthChoice::CookieFile(p)) => assert_eq!(p, "/x/.cookie"),
        other => panic!("unexpected {:?}", other),
    }
    match select_auth(Some("user:pa:ss"), None) {
        Ok(AuthChoice::UserPass(u, p)) => {
            assert_eq!(u, "user");
            assert_eq!(p, "pa:ss");
        }
        other => panic!("unexpected {:?}", other),
    }
    match select_auth(Some(":"), None) {
        Ok(AuthChoice::UserPass(u, p)) => {
            assert_eq!(u, "");
            assert_eq!(p, "");
        }
        other => panic!("unexpected {:?}", other),
    }
    assert!(matches!(select_auth(Some("userpass"), None), Err(ConfigError::InvalidAuthFormat)));
    assert!(matches!(select_auth(Some("u:p"), Some("/c")), Err(ConfigError::AuthAndCookieFile)));
}

#[test]
fn settle_options_order_and_values() {
    match settle_options(true, 2, None, None, 0, 15, 10) {
        Err(ConfigError::Deprecated { timestamp, verbose }) => {
            assert!(timestamp);
            assert!(verbose);
        }
        other => panic!("unexpected {:?}", other),
    }
    assert!(matches!(
        settle_options(false, 0, Some("nocolon"), None, 0, 5, 10),
        Err(ConfigError::InvalidAuthFormat)
    ));
    match settle_options(false, 0, None, None, 0, 10, 10) {
        Err(ConfigError::TimeoutNotAboveWait { jsonrpc_timeout_secs, wait_duration_secs }) => {
            assert_eq!(jsonrpc_timeout_secs, 10);
            assert_eq!(wait_duration_secs, 10);
        }
        other => panic!("unexpected {:?}", other),
    }
    let o = settle_options(false, 0, None, None, 0, 15, 10).unwrap();
    assert_eq!(o.index_lookup_limit, None);
    assert!(matches!(o.auth, AuthChoice::DaemonDirCookie));
    let o = settle_options(false, 0, Some("a:b"), None, 200, 15, 10).unwrap();
    assert_eq!(o.index_lookup_limit, Some(200));
    assert!(matches!(o.auth, AuthChoice::UserPass(_, _)));
}
