//! Configuration decisions: which network a configured name selects, the
//! directories, default ports and magic bytes that follow from it, the RPC
//! authentication to use, and the checks that reject a configuration.

use vstd::prelude::*;
use vstd::string::StringExecFns;
use crate::consensus::{BtcNetwork, parse_network, network_named, network_magic, spec_network_magic, parse_magic};
use crate::encoding::{all_hex_digits, hex_bytes};
use crate::text::{split_at_first_colon, has_char, first_index_of};

verus! {

/// The network a configuration runs on. For PIVX the Bitcoin network is a
/// placeholder (`Bitcoin`); PIVX ports and magic replace its own.
#[derive(Clone, Copy, Debug, PartialEq, Eq, Structural)]
pub struct NetworkSelection {
    pub is_pivx: bool,
    pub btc_network: BtcNetwork,
}

/// Why a configuration is rejected.
#[derive(Debug)]
pub enum ConfigError {
    /// The network name is neither `pivx` nor a Bitcoin network.
    InvalidNetwork(String),
    /// The PIVX magic is not eight hex digits.
    InvalidPivxMagic(String),
    /// The signet magic is not eight hex digits.
    InvalidSignetMagic(String),
    /// A magic was given for a network other than signet or PIVX.
    SignetMagicNotAllowed,
    /// A monitoring address was given but metrics are not built in.
    MonitoringNeedsMetrics,
    /// Deprecated options were given.
    Deprecated { timestamp: bool, verbose: bool },
    /// The `auth` option has no `:` between user and password.
    InvalidAuthFormat,
    /// Both `auth` and `cookie_file` were given.
    AuthAndCookieFile,
    /// The JSON-RPC timeout is not longer than the wait duration.
    TimeoutNotAboveWait { jsonrpc_timeout_secs: u64, wait_duration_secs: u64 },
}

/// The selection that a configured network name makes, or `None` for an
/// invalid name: `pivx` (exactly) selects PIVX, a Bitcoin network name that
/// network.
pub open spec fn spec_select_network(raw: Seq<char>) -> Option<NetworkSelection> {
    if raw == "pivx"@ {
        Some(NetworkSelection { is_pivx: true, btc_network: BtcNetwork::Bitcoin })
    } else {
        match network_named(raw) {
            Some(n) => Some(NetworkSelection { is_pivx: false, btc_network: n }),
            None => None,
        }
    }
}

/// Selects the network from its configured name.
pub fn select_network(raw: &str) -> (r: Result<NetworkSelection, ConfigError>)
    ensures
        r is Ok <==> spec_select_network(raw@) is Some,
        r matches Ok(sel) ==> spec_select_network(raw@) == Some(sel),
        r matches Err(e) ==> (e matches ConfigError::InvalidNetwork(s) && s@ == raw@),
{
    let pivx = String::from_str("pivx");
    let own = String::from_str(raw);
    if own == pivx {
        return Ok(NetworkSelection { is_pivx: true, btc_network: BtcNetwork::Bitcoin });
    }
    match parse_network(raw) {
        Ok(n) => Ok(NetworkSelection { is_pivx: false, btc_network: n }),
        Err(_) => Err(ConfigError::InvalidNetwork(own)),
    }
}

/// The database subdirectory of each network.
pub open spec fn spec_db_subdir(sel: NetworkSelection) -> Seq<char> {
    if sel.is_pivx {
        "pivx"@
    } else {
        match sel.btc_network {
            BtcNetwork::Bitcoin => "bitcoin"@,
            BtcNetwork::Testnet => "testnet"@,
            BtcNetwork::Testnet4 => "testnet4"@,
            BtcNetwork::Regtest => "regtest"@,
            BtcNetwork::Signet => "signet"@,
        }
    }
}

/// The subdirectory of the database directory for the selected network.
pub fn db_subdir(sel: NetworkSelection) -> (r: &'static str)
    ensures
        r@ == spec_db_subdir(sel),
{
    if sel.is_pivx {
        "pivx"
    } else {
        match sel.btc_network {
            BtcNetwork::Bitcoin => "bitcoin",
            BtcNetwork::Testnet => "testnet",
            BtcNetwork::Testnet4 => "testnet4",
            BtcNetwork::Regtest => "regtest",
            BtcNetwork::Signet => "signet",
        }
    }
}

/// The subdirectory of the daemon directory where the daemon keeps this
/// network's data (none for Bitcoin mainnet and PIVX).
pub open spec fn spec_daemon_subdir(sel: NetworkSelection) -> Option<Seq<char>> {
    match sel.btc_network {
        BtcNetwork::Bitcoin => None,
        BtcNetwork::Testnet => Some("testnet3"@),
        BtcNetwork::Testnet4 => Some("testnet4"@),
        BtcNetwork::Regtest => Some("regtest"@),
        BtcNetwork::Signet => Some("signet"@),
    }
}

/// The subdirectory of the daemon directory for the selected network.
pub fn daemon_subdir(sel: NetworkSelection) -> (r: Option<&'static str>)
    ensures
        r is Some <==> spec_daemon_subdir(sel) is Some,
        r matches Some(s) ==> spec_daemon_subdir(sel) == Some(s@),
{
    match sel.btc_network {
        BtcNetwork::Bitcoin => None,
        BtcNetwork::Testnet => Some("testnet3"),
        BtcNetwork::Testnet4 => Some("testnet4"),
        BtcNetwork::Regtest => Some("regtest"),
        BtcNetwork::Signet => Some("signet"),
    }
}

/// Default ports of the daemon's RPC and p2p interfaces and of the
/// server's Electrum RPC and monitoring interfaces.
#[derive(Clone, Copy, Debug, PartialEq, Eq, Structural)]
pub struct DefaultPorts {
    pub daemon_rpc: u16,
    pub daemon_p2p: u16,
    pub electrum_rpc: u16,
    pub monitoring: u16,
}

/// The default ports of each network.
pub open spec fn spec_default_ports(sel: NetworkSelection) -> DefaultPorts {
    if sel.is_pivx {
        DefaultPorts { daemon_rpc: 8050, daemon_p2p: 51472, electrum_rpc: 50001, monitoring: 4224 }
    } else {
        match sel.btc_network {
            BtcNetwork::Bitcoin => DefaultPorts { daemon_rpc: 8332, daemon_p2p: 8333, electrum_rpc: 50001, monitoring: 4224 },
            BtcNetwork::Testnet => DefaultPorts { daemon_rpc: 18332, daemon_p2p: 18333, electrum_rpc: 60001, monitoring: 14224 },
            BtcNetwork::Testnet4 => DefaultPorts { daemon_rpc: 48332, daemon_p2p: 48333, electrum_rpc: 40001, monitoring: 44224 },
            BtcNetwork::Regtest => DefaultPorts { daemon_rpc: 18443, daemon_p2p: 18444, electrum_rpc: 60401, monitoring: 24224 },
            BtcNetwork::Signet => DefaultPorts { daemon_rpc: 38332, daemon_p2p: 38333, electrum_rpc: 60601, monitoring: 34224 },
        }
    }
}

/// The default ports for the selected network.
pub fn default_ports(sel: NetworkSelection) -> (r: DefaultPorts)
    ensures
        r == spec_default_ports(sel),
{
    if sel.is_pivx {
        DefaultPorts { daemon_rpc: 8050, daemon_p2p: 51472, electrum_rpc: 50001, monitoring: 4224 }
    } else {
        match sel.btc_network {
            BtcNetwork::Bitcoin => DefaultPorts { daemon_rpc: 8332, daemon_p2p: 8333, electrum_rpc: 50001, monitoring: 4224 },
            BtcNetwork::Testnet => DefaultPorts { daemon_rpc: 18332, daemon_p2p: 18333, electrum_rpc: 60001, monitoring: 14224 },
            BtcNetwork::Testnet4 => DefaultPorts { daemon_rpc: 48332, daemon_p2p: 48333, electrum_rpc: 40001, monitoring: 44224 },
            BtcNetwork::Regtest => DefaultPorts { daemon_rpc: 18443, daemon_p2p: 18444, electrum_rpc: 60401, monitoring: 24224 },
            BtcNetwork::Signet => DefaultPorts { daemon_rpc: 38332, daemon_p2p: 38333, electrum_rpc: 60601, monitoring: 34224 },
        }
    }
}

/// The configured magic text is eight hex digits.
pub open spec fn magic_text_ok(s: Seq<char>) -> bool {
    s.len() == 8 && all_hex_digits(s)
}

/// The magic bytes for the selected network: PIVX and signet read them from
/// the configured text, the other networks use their own, and a configured
/// magic for any other network is an error.
pub fn select_magic(sel: NetworkSelection, signet_magic: Option<&str>) -> (r: Result<[u8; 4], ConfigError>)
    requires
        sel.is_pivx ==> signet_magic is Some,
    ensures
        sel.is_pivx ==> (signet_magic matches Some(s) && (if magic_text_ok(s@) {
            r matches Ok(m) && m@ == hex_bytes(s@)
        } else {
            r matches Err(ConfigError::InvalidPivxMagic(t)) && t@ == s@
        })),
        !sel.is_pivx && sel.btc_network == BtcNetwork::Signet && signet_magic is Some ==> (
        signet_magic matches Some(s) && (if magic_text_ok(s@) {
            r matches Ok(m) && m@ == hex_bytes(s@)
        } else {
            r matches Err(ConfigError::InvalidSignetMagic(t)) && t@ == s@
        })),
        !sel.is_pivx && signet_magic is None ==> (r matches Ok(m) && m@ == spec_network_magic(sel.btc_network)),
        !sel.is_pivx && sel.btc_network != BtcNetwork::Signet && signet_magic is Some ==> (r matches Err(ConfigError::SignetMagicNotAllowed)),
{
    if sel.is_pivx {
        let s = signet_magic.unwrap();
        return match parse_magic(s) {
            Ok(m) => Ok(m),
            Err(_) => Err(ConfigError::InvalidPivxMagic(String::from_str(s))),
        };
    }
    match signet_magic {
        Some(s) => if sel.btc_network == BtcNetwork::Signet {
            match parse_magic(s) {
                Ok(m) => Ok(m),
                Err(_) => Err(ConfigError::InvalidSignetMagic(String::from_str(s))),
            }
        } else {
            Err(ConfigError::SignetMagicNotAllowed)
        },
        None => Ok(network_magic(sel.btc_network)),
    }
}

/// Everything the configured network name decides.
#[derive(Debug)]
pub struct NetworkSettings {
    pub selection: NetworkSelection,
    pub db_subdir: &'static str,
    pub daemon_subdir: Option<&'static str>,
    pub ports: DefaultPorts,
    pub magic: [u8; 4],
}

/// Settles the network-dependent part of a configuration: the network, the
/// database and daemon subdirectories, the default ports and the magic
/// bytes. Fails on an invalid network name or magic, in that order.
pub fn settle_network(raw_network: &str, signet_magic: Option<&str>) -> (r: Result<NetworkSettings, ConfigError>)
    requires
        raw_network@ == "pivx"@ ==> signet_magic is Some,
    ensures
        spec_select_network(raw_network@) is None ==> (r matches Err(ConfigError::InvalidNetwork(s)) && s@ == raw_network@),
        spec_select_network(raw_network@) matches Some(sel) ==> (match r {
            Ok(st) => {
                &&& st.selection == sel
                &&& st.db_subdir@ == spec_db_subdir(sel)
                &&& (st.daemon_subdir is Some <==> spec_daemon_subdir(sel) is Some)
                &&& (st.daemon_subdir matches Some(d) ==> spec_daemon_subdir(sel) == Some(d@))
                &&& st.ports == spec_default_ports(sel)
                &&& (if sel.is_pivx || (sel.btc_network == BtcNetwork::Signet && signet_magic is Some) {
                    signet_magic matches Some(s) && magic_text_ok(s@) && st.magic@ == hex_bytes(s@)
                } else {
                    signet_magic is None && st.magic@ == spec_network_magic(sel.btc_network)
                })
            },
            Err(e) => match signet_magic {
                Some(s) => if sel.is_pivx {
                    !magic_text_ok(s@) && (e matches ConfigError::InvalidPivxMagic(t) && t@ == s@)
                } else if sel.btc_network == BtcNetwork::Signet {
                    !magic_text_ok(s@) && (e matches ConfigError::InvalidSignetMagic(t) && t@ == s@)
                } else {
                    e matches ConfigError::SignetMagicNotAllowed
                },
                None => false,
            },
        }),
{
    let selection = match select_network(raw_network) {
        Ok(sel) => sel,
        Err(e) => {
            return Err(e);
        },
    };
    let magic = match select_magic(selection, signet_magic) {
        Ok(m) => m,
        Err(e) => {
            return Err(e);
        },
    };
    Ok(NetworkSettings {
        selection,
        db_subdir: db_subdir(selection),
        daemon_subdir: daemon_subdir(selection),
        ports: default_ports(selection),
        magic,
    })
}

/// A monitoring address needs the metrics feature.
pub fn check_monitoring_addr(monitoring_addr_given: bool, metrics_enabled: bool) -> (r: Result<(), ConfigError>)
    ensures
        r is Ok <==> (!monitoring_addr_given || metrics_enabled),
        r matches Err(e) ==> e matches ConfigError::MonitoringNeedsMetrics,
{
    if monitoring_addr_given && !metrics_enabled {
        Err(ConfigError::MonitoringNeedsMetrics)
    } else {
        Ok(())
    }
}

/// How the daemon RPC authenticates.
#[derive(Debug)]
pub enum AuthChoice {
    /// The `.cookie` file in the daemon directory.
    DaemonDirCookie,
    /// The given cookie file.
    CookieFile(String),
    /// The given user and password.
    UserPass(String, String),
}

/// The authentication that the `auth` (`user:password`) and `cookie_file`
/// options select: neither gives the daemon directory's cookie, one gives
/// that one, both is an error, and an `auth` without `:` is an error.
pub fn select_auth(auth: Option<&str>, cookie_file: Option<&str>) -> (r: Result<AuthChoice, ConfigError>)
    ensures
        match (auth, cookie_file) {
            (None, None) => r matches Ok(AuthChoice::DaemonDirCookie),
            (None, Some(p)) => r matches Ok(AuthChoice::CookieFile(q)) && q@ == p@,
            (Some(a), None) => if has_char(a@, ':') {
                r matches Ok(AuthChoice::UserPass(u, p)) && u@ == a@.take(first_index_of(a@, ':'))
                    && p@ == a@.skip(first_index_of(a@, ':') + 1)
            } else {
                r matches Err(ConfigError::InvalidAuthFormat)
            },
            (Some(_), Some(_)) => r matches Err(ConfigError::AuthAndCookieFile),
        },
{
    match (auth, cookie_file) {
        (None, None) => Ok(AuthChoice::DaemonDirCookie),
        (None, Some(path)) => Ok(AuthChoice::CookieFile(String::from_str(path))),
        (Some(a), None) => match split_at_first_colon(a) {
            Some((user, pass)) => Ok(AuthChoice::UserPass(user, pass)),
            None => Err(ConfigError::InvalidAuthFormat),
        },
        (Some(_), Some(_)) => Err(ConfigError::AuthAndCookieFile),
    }
}

/// What the rest of the configuration settles.
#[derive(Debug)]
pub struct SettledOptions {
    pub auth: AuthChoice,
    pub index_lookup_limit: Option<usize>,
}

/// Settles the options checked after the addresses are resolved, failing
/// in this order: deprecated `timestamp`/`verbose`, then the authentication
/// options, then a JSON-RPC timeout that is not longer than the wait
/// duration. A lookup limit of 0 means no limit.
pub fn settle_options(
    timestamp: bool,
    verbose: u8,
    auth: Option<&str>,
    cookie_file: Option<&str>,
    index_lookup_limit: usize,
    jsonrpc_timeout_secs: u64,
    wait_duration_secs: u64,
) -> (r: Result<SettledOptions, ConfigError>)
    ensures
        (timestamp || verbose > 0) ==> (r matches Err(ConfigError::Deprecated { timestamp: t, verbose: v })
            && t == timestamp && v == (verbose > 0)),
        !(timestamp || verbose > 0) && (auth is Some && cookie_file is Some) ==> r matches Err(ConfigError::AuthAndCookieFile),
        !(timestamp || verbose > 0) && cookie_file is None ==> (match auth {
            Some(a) => !has_char(a@, ':') ==> r matches Err(ConfigError::InvalidAuthFormat),
            None => true,
        }),
        !(timestamp || verbose > 0) && !(auth is Some && cookie_file is Some) && (match auth {
            Some(a) => has_char(a@, ':'),
            None => true,
        }) ==> (if jsonrpc_timeout_secs <= wait_duration_secs {
            r matches Err(ConfigError::TimeoutNotAboveWait { jsonrpc_timeout_secs: j, wait_duration_secs: w })
                && j == jsonrpc_timeout_secs && w == wait_duration_secs
        } else {
            r matches Ok(o) && o.index_lookup_limit == (if index_lookup_limit == 0 {
                None
            } else {
                Some(index_lookup_limit)
            }) && (match (auth, cookie_file) {
                (None, None) => o.auth matches AuthChoice::DaemonDirCookie,
                (None, Some(p)) => o.auth matches AuthChoice::CookieFile(q) && q@ == p@,
                (Some(a), _) => o.auth matches AuthChoice::UserPass(u, p) && u@ == a@.take(
                    first_index_of(a@, ':'),
                ) && p@ == a@.skip(first_index_of(a@, ':') + 1),
            })
        }),
{
    if timestamp || verbose > 0 {
        return Err(ConfigError::Deprecated { timestamp, verbose: verbose > 0 });
    }
    let auth = match select_auth(auth, cookie_file) {
        Ok(a) => a,
        Err(e) => {
            return Err(e);
        },
    };
    let index_lookup_limit = if index_lookup_limit == 0 {
        None
    } else {
        Some(index_lookup_limit)
    };
    if jsonrpc_timeout_secs <= wait_duration_secs {
        return Err(ConfigError::TimeoutNotAboveWait { jsonrpc_timeout_secs, wait_duration_secs });
    }
    Ok(SettledOptions { auth, index_lookup_limit })
}

/// How the daemon RPC authenticates (cookie paths as text).
#[derive(Debug)]
pub enum RpcAuth {
    /// No credentials.
    NoAuth,
    UserPass(String, String),
    CookieFile(String),
}

/// RPC credentials whose debug form hides the password.
#[derive(Debug)]
pub struct SensitiveAuth(pub RpcAuth);

/// What `format!("{:?}", s)` gives for a string slice.
pub uninterp spec fn str_debug(s: Seq<char>) -> Seq<char>;

/// What `format!("{:?}", std::path::Path::new(s))` gives.
pub uninterp spec fn path_debug(s: Seq<char>) -> Seq<char>;

/// Printable ASCII other than the quote characters and the backslash, which
/// `Debug` writes as they are.
pub open spec fn is_plain_debug_char(c: char) -> bool {
    ' ' <= c && c <= '~' && c != '"' && c != '\\' && c != '\''
}

/// Every character of `s` is written unchanged by `Debug`.
pub open spec fn all_plain_debug(s: Seq<char>) -> bool {
    forall|i: int| 0 <= i < s.len() ==> is_plain_debug_char(#[trigger] s[i])
}

/// `format!("{:?}", s)` for a string slice: the text in double quotes,
/// characters escaped as `char::escape_debug` does; printable ASCII other
/// than quotes and backslash is written unchanged.
#[verifier::external_body]
fn debug_quote_str(s: &str) -> (r: String)
    ensures
        r@ == str_debug(s@),
        all_plain_debug(s@) ==> r@ == seq!['"'] + s@ + seq!['"'],
{
    format!("{:?}", s)
}

/// `format!("{:?}", std::path::Path::new(s))`: the path's text in double
/// quotes with escapes; printable ASCII other than quotes and backslash is
/// written unchanged.
#[verifier::external_body]
fn debug_quote_path(s: &str) -> (r: String)
    ensures
        r@ == path_debug(s@),
        all_plain_debug(s@) ==> r@ == seq!['"'] + s@ + seq!['"'],
{
    format!("{:?}", std::path::Path::new(s))
}

/// The debug form of credentials: `None`, `CookieFile(<path>)`, or
/// `UserPass(<user>, "<sensitive>")` with the password hidden.
pub open spec fn spec_auth_debug(a: RpcAuth) -> Seq<char> {
    match a {
        RpcAuth::NoAuth => "None"@,
        RpcAuth::UserPass(u, _) => "UserPass("@ + str_debug(u@) + ", "@ + str_debug("<sensitive>"@) + ")"@,
        RpcAuth::CookieFile(p) => "CookieFile("@ + path_debug(p@) + ")"@,
    }
}

impl SensitiveAuth {
    /// A copy of the credentials.
    pub fn get_auth(&self) -> (r: RpcAuth)
        ensures
            r == self.0,
    {
        match &self.0 {
            RpcAuth::NoAuth => RpcAuth::NoAuth,
            RpcAuth::UserPass(u, p) => RpcAuth::UserPass(u.clone(), p.clone()),
            RpcAuth::CookieFile(path) => RpcAuth::CookieFile(path.clone()),
        }
    }

    /// The debug form of the credentials, password hidden.
    pub fn debug_string(&self) -> (r: String)
        ensures
            r@ == spec_auth_debug(self.0),
            self.0 matches RpcAuth::UserPass(u, _) ==> (all_plain_debug(u@) ==> r@ == "UserPass(\""@ + u@
                + "\", \"<sensitive>\")"@),
            self.0 matches RpcAuth::CookieFile(p) ==> (all_plain_debug(p@) ==> r@ == "CookieFile(\""@ + p@
                + "\")"@),
    {
        match &self.0 {
            RpcAuth::NoAuth => String::from_str("None"),
            RpcAuth::UserPass(u, _) => {
                proof {
                    reveal_strlit("<sensitive>");
                    reveal_strlit("UserPass(");
                    reveal_strlit(", ");
                    reveal_strlit(")");
                    reveal_strlit("UserPass(\"");
                    reveal_strlit("\", \"<sensitive>\")");
                    reveal_strlit("\"<sensitive>\"");
                    assert(all_plain_debug("<sensitive>"@));
                }
                let mut out = String::from_str("UserPass(");
                let user = debug_quote_str(u.as_str());
                out.append(user.as_str());
                out.append(", ");
                let hidden = debug_quote_str("<sensitive>");
                out.append(hidden.as_str());
                out.append(")");
                proof {
                    if all_plain_debug(u@) {
                        assert(user@ == seq!['"'] + u@ + seq!['"']);
                        assert(hidden@ =~= "\"<sensitive>\""@);
                        assert(out@ =~= "UserPass(\""@ + u@ + "\", \"<sensitive>\")"@);
                    }
                }
                out
            },
            RpcAuth::CookieFile(path) => {
                proof {
                    reveal_strlit("CookieFile(");
                    reveal_strlit(")");
                    reveal_strlit("CookieFile(\"");
                    reveal_strlit("\")");
                }
                let mut out = String::from_str("CookieFile(");
                let quoted = debug_quote_path(path.as_str());
                out.append(quoted.as_str());
                out.append(")");
                proof {
                    if all_plain_debug(path@) {
                        assert(out@ =~= "CookieFile(\""@ + path@ + "\")"@);
                    }
                }
                out
            },
        }
    }
}

/// The debug form of user/password credentials does not depend on the
/// password.
pub proof fn lemma_auth_debug_hides_password(user: String, pass1: String, pass2: String)
    ensures
        spec_auth_debug(RpcAuth::UserPass(user, pass1)) == spec_auth_debug(RpcAuth::UserPass(user, pass2)),
{
}

/// The database subdirectory of a valid network name is that name, and the
/// daemon's data subdirectory is none for `bitcoin` and `pivx`, `testnet3`
/// for `testnet`, and the name itself for the other networks.
pub proof fn lemma_subdirs_follow_network_name(name: Seq<char>)
    ensures
        spec_select_network(name) matches Some(sel) ==> spec_db_subdir(sel) == name,
        spec_select_network(name) matches Some(sel) ==> spec_daemon_subdir(sel) == (if name == "bitcoin"@
            || name == "pivx"@ {
            None
        } else if name == "testnet"@ {
            Some("testnet3"@)
        } else {
            Some(name)
        }),
{
    reveal_strlit("pivx");
    reveal_strlit("bitcoin");
    reveal_strlit("testnet");
    reveal_strlit("testnet4");
    reveal_strlit("signet");
    reveal_strlit("regtest");
    reveal_strlit("testnet3");
}

/// Two different network selections (as `spec_select_network` makes them,
/// PIVX with the placeholder `Bitcoin`) never share a database
/// subdirectory.
pub proof fn lemma_db_subdirs_distinct(sel1: NetworkSelection, sel2: NetworkSelection)
    requires
        sel1.is_pivx ==> sel1.btc_network == BtcNetwork::Bitcoin,
        sel2.is_pivx ==> sel2.btc_network == BtcNetwork::Bitcoin,
        sel1 != sel2,
    ensures
        spec_db_subdir(sel1) != spec_db_subdir(sel2),
{
    reveal_strlit("pivx");
    reveal_strlit("bitcoin");
    reveal_strlit("testnet");
    reveal_strlit("testnet4");
    reveal_strlit("signet");
    reveal_strlit("regtest");
    let a = spec_db_subdir(sel1);
    let b = spec_db_subdir(sel2);
    assert(a.len() != b.len() || a[0] != b[0] || a[a.len() - 1] != b[b.len() - 1]);
}

} // verus!
