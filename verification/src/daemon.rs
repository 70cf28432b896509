//! Daemon-side logic: the RPC client handle, and the normalisation of
//! `getnetworkinfo` / `getblockchaininfo` replies from pivxd into the shape
//! that Bitcoin Core clients expect.

use vstd::prelude::*;
use crate::json::{JsonValue, JsonNumber, obj_map, obj_wf, json_string, empty_object, obj_find, obj_insert, obj_or_insert, obj_take, obj_into_values, lemma_obj_map_at, empty_array};
use vstd::string::StringExecFns;
use crate::consensus::{BlockHeaderFields, parse_block_hash, deserialize_header, display_hash_bytes, header_decodes_to, deserialize_transaction, decoded_transaction, deserialize_block, decoded_block, serialize_block, block_encoding};
use crate::encoding::{hex_decode, all_hex_digits, hex_bytes};
use crate::text::{parse_hex_u32, spec_parse_unsigned, parse_u64, str_eq_ignore_ascii_case, eq_ignore_ascii_case, split_at_first_colon, has_char, first_index_of, lemma_split_rejoins};
use crate::chain_kind::ChainKind;

verus! {

/// The daemon's JSON-RPC client (`bitcoincore_rpc::Client`), carried as is.
#[verifier::external_type_specification]
#[verifier::external_body]
pub struct ExRpcClient(bitcoincore_rpc::Client);

/// A connection to the node daemon.
pub struct Daemon {
    pub rpc: bitcoincore_rpc::Client,
}

/// The value of member `k` in `m`, if any.
pub open spec fn map_get(m: Map<Seq<char>, JsonValue>, k: Seq<char>) -> Option<JsonValue> {
    if m.contains_key(k) {
        Some(m[k])
    } else {
        None
    }
}

/// Member `k` of `r` is `m`'s when `m` has it, else a value satisfying `default`.
pub open spec fn kept_or_default(
    m: Map<Seq<char>, JsonValue>,
    r: Map<Seq<char>, JsonValue>,
    k: Seq<char>,
    default: spec_fn(JsonValue) -> bool,
) -> bool {
    &&& r.contains_key(k)
    &&& m.contains_key(k) ==> r[k] == m[k]
    &&& !m.contains_key(k) ==> default(r[k])
}

/// What `networks` becomes: an array is kept, an object becomes the array of
/// its values (in entry order), anything else or a missing member becomes `[]`.
pub open spec fn networks_normalized(before: Option<JsonValue>, after: JsonValue) -> bool {
    match before {
        Some(JsonValue::Array(a)) => after == JsonValue::Array(a),
        Some(JsonValue::Object(o)) => after matches JsonValue::Array(a) && a@ == o@.map_values(
            |e: (String, JsonValue)| e.1,
        ),
        _ => after.is_empty_array(),
    }
}

/// The members that the `getnetworkinfo` normalisation may add or replace.
pub open spec fn network_info_keys() -> Set<Seq<char>> {
    set![
        "networks"@,
        "localaddresses"@,
        "localrelay"@,
        "incrementalfee"@,
        "localservicesnames"@,
        "connections_in"@,
        "connections_out"@,
    ]
}

/// `r` is the normalised form of the `getnetworkinfo` object `m`.
pub open spec fn network_info_normalized(
    m: Map<Seq<char>, JsonValue>,
    r: Map<Seq<char>, JsonValue>,
) -> bool {
    &&& r.dom() == m.dom().union(network_info_keys())
    &&& forall|k: Seq<char>| #[trigger] m.contains_key(k) && !network_info_keys().contains(k)
        ==> r[k] == m[k]
    &&& r.contains_key("networks"@) && networks_normalized(map_get(m, "networks"@), r["networks"@])
    &&& r.contains_key("localaddresses"@)
    &&& (map_get(m, "localaddresses"@) matches Some(v) && v.is_arr()) ==> r["localaddresses"@]
        == m["localaddresses"@]
    &&& !(map_get(m, "localaddresses"@) matches Some(v) && v.is_arr())
        ==> r["localaddresses"@].is_empty_array()
    &&& kept_or_default(m, r, "localrelay"@, |v: JsonValue| v == JsonValue::Bool(true))
    &&& kept_or_default(m, r, "incrementalfee"@, |v: JsonValue| v.is_float_of("0.0001"@))
    &&& kept_or_default(m, r, "localservicesnames"@, |v: JsonValue| v.is_empty_array())
    &&& kept_or_default(
        m,
        r,
        "connections_in"@,
        |v: JsonValue| v == JsonValue::Number(JsonNumber::PosInt(0)),
    )
    &&& kept_or_default(
        m,
        r,
        "connections_out"@,
        |v: JsonValue| v == JsonValue::Number(JsonNumber::PosInt(0)),
    )
}

/// Brings a pivxd `getnetworkinfo` reply into the shape Bitcoin Core returns:
/// `networks` becomes an array, `localaddresses` an array, and the members
/// `localrelay`, `incrementalfee`, `localservicesnames`, `connections_in`,
/// `connections_out` get defaults when missing.
pub fn normalize_network_info(raw: JsonValue) -> (r: JsonValue)
    requires
        raw.is_obj(),
        raw.wf(),
    ensures
        r.is_obj(),
        r.wf(),
        r matches JsonValue::Object(ro) && raw matches JsonValue::Object(o)
            && network_info_normalized(obj_map(o@), obj_map(ro@)),
{
    let ghost m0 = match &raw {
        JsonValue::Object(o) => obj_map(o@),
        _ => Map::empty(),
    };
    let mut o = match raw {
        JsonValue::Object(o) => o,
        _ => Vec::new(),
    };
    // networks
    let before = obj_take(&mut o, "networks");
    let ghost before_g = before;
    let networks = match before {
        Some(JsonValue::Array(a)) => JsonValue::Array(a),
        Some(JsonValue::Object(inner)) => JsonValue::Array(obj_into_values(inner)),
        _ => empty_array(),
    };
    assert(networks_normalized(before_g, networks));
    obj_insert(&mut o, "networks", networks);
    let ghost m1 = obj_map(o@);
    // localaddresses
    let idx = obj_find(&o, "localaddresses");
    let keep = match idx {
        Some(i) => o[i].1.is_array(),
        None => false,
    };
    proof {
        if let Some(i) = idx {
            lemma_obj_map_at(o@, i as int);
        }
    }
    if !keep {
        obj_insert(&mut o, "localaddresses", empty_array());
    }
    let ghost m2 = obj_map(o@);
    obj_or_insert(&mut o, "localrelay", JsonValue::Bool(true));
    let ghost m3 = obj_map(o@);
    obj_or_insert(&mut o, "incrementalfee", JsonValue::Number(JsonNumber::Float(String::from_str("0.0001"))));
    let ghost m4 = obj_map(o@);
    obj_or_insert(&mut o, "localservicesnames", empty_array());
    let ghost m5 = obj_map(o@);
    obj_or_insert(&mut o, "connections_in", JsonValue::Number(JsonNumber::PosInt(0)));
    let ghost m6 = obj_map(o@);
    obj_or_insert(&mut o, "connections_out", JsonValue::Number(JsonNumber::PosInt(0)));
    proof {
        reveal_strlit("networks");
        reveal_strlit("localaddresses");
        reveal_strlit("localrelay");
        reveal_strlit("incrementalfee");
        reveal_strlit("localservicesnames");
        reveal_strlit("connections_in");
        reveal_strlit("connections_out");
        let r = obj_map(o@);
        assert("networks"@.len() == 8);
        assert("localaddresses"@.len() == 14);
        assert("localrelay"@.len() == 10);
        assert("incrementalfee"@.len() == 14);
        assert("localservicesnames"@.len() == 18);
        assert("connections_in"@.len() == 14);
        assert("connections_out"@.len() == 15);
        assert("localaddresses"@[0] != "incrementalfee"@[0]);
        assert("localaddresses"@[0] != "connections_in"@[0]);
        assert("incrementalfee"@[0] != "connections_in"@[0]);
        assert(r.dom() =~= m0.dom().union(network_info_keys()));
        assert(m1 == m0.remove("networks"@).insert("networks"@, networks));
        assert(map_get(m0, "networks"@) == before_g);
        assert(map_get(m1, "localaddresses"@) == map_get(m0, "localaddresses"@));
        assert(map_get(m2, "localrelay"@) == map_get(m0, "localrelay"@));
        assert(map_get(m3, "incrementalfee"@) == map_get(m0, "incrementalfee"@));
        assert(map_get(m4, "localservicesnames"@) == map_get(m0, "localservicesnames"@));
        assert(map_get(m5, "connections_in"@) == map_get(m0, "connections_in"@));
        assert(map_get(m6, "connections_out"@) == map_get(m0, "connections_out"@));
        assert(r["networks"@] == m1["networks"@]);
        assert(r["localaddresses"@] == m2["localaddresses"@]);
        assert(r["localrelay"@] == m3["localrelay"@]);
        assert(r["incrementalfee"@] == m4["incrementalfee"@]);
        assert(r["localservicesnames"@] == m5["localservicesnames"@]);
        assert(r["connections_in"@] == m6["connections_in"@]);
        assert(forall|k: Seq<char>| #[trigger] m0.contains_key(k) && !network_info_keys().contains(k)
            ==> r[k] == m0[k]);
    }
    JsonValue::Object(o)
}

/// The id of a fork entry: its `id` member, when that is a string.
pub open spec fn entry_id(e: JsonValue) -> Option<Seq<char>> {
    match e.spec_get("id"@) {
        Some(JsonValue::Str(s)) => Some(s@),
        _ => None,
    }
}

/// `a[i]` is the last entry of `a` whose id is `k`.
pub open spec fn is_last_with_id(a: Seq<JsonValue>, k: Seq<char>, i: int) -> bool {
    &&& 0 <= i < a.len()
    &&& entry_id(a[i]) == Some(k)
    &&& forall|j: int| i < j < a.len() ==> entry_id(#[trigger] a[j]) != Some(k)
}

/// `p` is the fork entry `e` with `type: "buried"` and `active: true` added
/// where missing.
pub open spec fn fork_patched(e: JsonValue, p: JsonValue) -> bool {
    e matches JsonValue::Object(eo) && p matches JsonValue::Object(po) && {
        let m = obj_map(eo@);
        let r = obj_map(po@);
        &&& r.dom() == m.dom().insert("type"@).insert("active"@)
        &&& forall|k: Seq<char>| #[trigger] m.contains_key(k) && k != "type"@ && k != "active"@
            ==> r[k] == m[k]
        &&& kept_or_default(m, r, "type"@, |v: JsonValue| v.is_str_of("buried"@))
        &&& kept_or_default(m, r, "active"@, |v: JsonValue| v == JsonValue::Bool(true))
    }
}

/// `r` maps each id that occurs in `a` to the last entry with that id
/// (patched as a fork entry when `patch` holds); entries without a string id
/// are dropped.
pub open spec fn keyed_by_id(a: Seq<JsonValue>, r: Map<Seq<char>, JsonValue>, patch: bool) -> bool {
    &&& forall|k: Seq<char>| #[trigger] r.contains_key(k) <==> exists|i: int|
        0 <= i < a.len() && entry_id(#[trigger] a[i]) == Some(k)
    &&& forall|k: Seq<char>| #[trigger] r.contains_key(k) ==> exists|i: int|
        #[trigger] is_last_with_id(a, k, i) && (if patch {
            fork_patched(a[i], r[k])
        } else {
            r[k] == a[i]
        })
}

/// The id of a fork entry.
fn element_id(e: &JsonValue) -> (r: Option<String>)
    requires
        e.wf(),
    ensures
        r is Some <==> entry_id(*e) is Some,
        r matches Some(s) ==> entry_id(*e) == Some(s@),
{
    match e.get("id") {
        Some(v) => match v.as_str() {
            Some(s) => Some(String::from_str(s)),
            None => None,
        },
        None => None,
    }
}

/// Adds `type: "buried"` and `active: true` to a fork entry where missing.
fn patch_fork(e: JsonValue) -> (r: JsonValue)
    requires
        e.is_obj(),
        e.wf(),
    ensures
        r.wf(),
        fork_patched(e, r),
{
    let ghost m = match &e {
        JsonValue::Object(eo) => obj_map(eo@),
        _ => Map::empty(),
    };
    let mut eo = match e {
        JsonValue::Object(eo) => eo,
        _ => Vec::new(),
    };
    obj_or_insert(&mut eo, "type", json_string("buried"));
    let ghost m1 = obj_map(eo@);
    obj_or_insert(&mut eo, "active", JsonValue::Bool(true));
    proof {
        reveal_strlit("type");
        reveal_strlit("active");
        assert("type"@.len() == 4);
        assert("active"@.len() == 6);
        assert(map_get(m1, "active"@) == map_get(m, "active"@));
        assert(obj_map(eo@)["type"@] == m1["type"@]);
        assert(obj_map(eo@).dom() =~= m.dom().insert("type"@).insert("active"@));
    }
    JsonValue::Object(eo)
}

/// One more entry of the array keeps `keyed_by_id` for the longer prefix.
proof fn lemma_keyed_step(
    a: Seq<JsonValue>,
    n: int,
    m_old: Map<Seq<char>, JsonValue>,
    m_new: Map<Seq<char>, JsonValue>,
    v: JsonValue,
    patch: bool,
)
    requires
        0 <= n < a.len(),
        keyed_by_id(a.take(n), m_old, patch),
        entry_id(a[n]) is None ==> m_new == m_old,
        entry_id(a[n]) matches Some(k) ==> m_new == m_old.insert(k, v) && (if patch {
            fork_patched(a[n], v)
        } else {
            v == a[n]
        }),
    ensures
        keyed_by_id(a.take(n + 1), m_new, patch),
{
    let p = a.take(n);
    let q = a.take(n + 1);
    assert(forall|j: int| 0 <= j < n ==> #[trigger] q[j] == p[j]);
    assert(q[n] == a[n]);
    assert forall|k: Seq<char>| #[trigger] m_new.contains_key(k) <==> exists|i: int|
        0 <= i < q.len() && entry_id(#[trigger] q[i]) == Some(k) by {
        if m_new.contains_key(k) {
            if entry_id(a[n]) == Some(k) {
                assert(entry_id(q[n]) == Some(k));
            } else {
                assert(m_old.contains_key(k));
                let i = choose|i: int| 0 <= i < p.len() && entry_id(#[trigger] p[i]) == Some(k);
                assert(entry_id(q[i]) == Some(k));
            }
        }
        if exists|i: int| 0 <= i < q.len() && entry_id(#[trigger] q[i]) == Some(k) {
            let i = choose|i: int| 0 <= i < q.len() && entry_id(#[trigger] q[i]) == Some(k);
            if i < n {
                assert(entry_id(p[i]) == Some(k));
                assert(m_old.contains_key(k));
            }
        }
    };
    assert forall|k: Seq<char>| #[trigger] m_new.contains_key(k) implies exists|i: int|
        #[trigger] is_last_with_id(q, k, i) && (if patch {
            fork_patched(q[i], m_new[k])
        } else {
            m_new[k] == q[i]
        }) by {
        if entry_id(a[n]) == Some(k) {
            assert(is_last_with_id(q, k, n));
        } else {
            assert(m_old.contains_key(k));
            let i = choose|i: int|
                #[trigger] is_last_with_id(p, k, i) && (if patch {
                    fork_patched(p[i], m_old[k])
                } else {
                    m_old[k] == p[i]
                });
            assert(m_new[k] == m_old[k]);
            assert(q[i] == p[i]);
            assert forall|j: int| i < j < q.len() implies entry_id(#[trigger] q[j]) != Some(k) by {
                if j < n {
                    assert(q[j] == p[j]);
                }
            };
            assert(is_last_with_id(q, k, i));
        }
    };
}

/// Turns an array of entries into an object keyed by each entry's `id`,
/// the last entry winning for a repeated id.
fn index_by_id(arr: Vec<JsonValue>, patch: bool) -> (r: Vec<(String, JsonValue)>)
    requires
        forall|i: int| 0 <= i < arr@.len() ==> (#[trigger] arr@[i]).wf(),
    ensures
        obj_wf(r@),
        keyed_by_id(arr@, obj_map(r@), patch),
{
    let ghost a = arr@;
    let mut rest = arr;
    let mut out: Vec<(String, JsonValue)> = Vec::new();
    let ghost mut n: int = 0;
    proof {
        assert(obj_map(out@) =~= Map::empty());
        assert(a.take(0).len() == 0);
    }
    while rest.len() > 0
        invariant
            0 <= n <= a.len(),
            n + rest@.len() == a.len(),
            forall|j: int| 0 <= j < rest@.len() ==> #[trigger] rest@[j] == a[n + j],
            forall|i: int| 0 <= i < a.len() ==> (#[trigger] a[i]).wf(),
            obj_wf(out@),
            keyed_by_id(a.take(n), obj_map(out@), patch),
        decreases rest@.len(),
    {
        let ghost m_old = obj_map(out@);
        let e = rest.remove(0);
        assert(e == a[n]);
        let id = element_id(&e);
        let ghost mut v = e;
        match id {
            Some(k) => {
                let val = if patch {
                    patch_fork(e)
                } else {
                    e
                };
                proof {
                    v = val;
                }
                obj_insert(&mut out, k.as_str(), val);
            },
            None => {},
        }
        proof {
            lemma_keyed_step(a, n, m_old, obj_map(out@), v, patch);
            n = n + 1;
        }
    }
    assert(a.take(n) =~= a);
    out
}

/// The members that the `getblockchaininfo` normalisation may add.
pub open spec fn blockchain_info_added_keys() -> Set<Seq<char>> {
    set![
        "bip9_softforks"@,
        "initialblockdownload"@,
        "mediantime"@,
        "pruned"@,
        "chainwork"@,
        "size_on_disk"@,
        "warnings"@,
        "verificationprogress"@,
        "chain"@,
        "upgrades"@,
        "pruneheight"@,
        "automatic_pruning"@,
    ]
}

/// The members that the `getblockchaininfo` normalisation may change.
pub open spec fn blockchain_info_keys() -> Set<Seq<char>> {
    blockchain_info_added_keys().insert("softforks"@).insert("initial_block_downloading"@)
}

/// `r` is the normalised form of the `getblockchaininfo` object `m`, with
/// `now` (seconds since the Unix epoch) standing in for a missing
/// `mediantime`.
pub open spec fn blockchain_info_normalized(
    m: Map<Seq<char>, JsonValue>,
    r: Map<Seq<char>, JsonValue>,
    now: u64,
) -> bool {
    &&& r.dom() == m.dom().remove("initial_block_downloading"@).union(blockchain_info_added_keys())
    &&& forall|k: Seq<char>| #[trigger] m.contains_key(k) && !blockchain_info_keys().contains(k)
        ==> r[k] == m[k]
    // softforks: an array becomes an object keyed by fork id, with defaults
    &&& match map_get(m, "softforks"@) {
        Some(JsonValue::Array(a)) => r.contains_key("softforks"@) && (r["softforks"@] matches JsonValue::Object(ro)
            && keyed_by_id(a@, obj_map(ro@), true)),
        _ => map_get(r, "softforks"@) == map_get(m, "softforks"@),
    }
    // bip9_softforks: an array becomes an object keyed by id, an object stays, else {}
    &&& match map_get(m, "bip9_softforks"@) {
        Some(JsonValue::Array(a)) => r["bip9_softforks"@] matches JsonValue::Object(ro)
            && keyed_by_id(a@, obj_map(ro@), false),
        Some(JsonValue::Object(o)) => r["bip9_softforks"@] == JsonValue::Object(o),
        _ => r["bip9_softforks"@].is_empty_object(),
    }
    // initial_block_downloading is renamed to initialblockdownload
    &&& m.contains_key("initial_block_downloading"@) ==> r["initialblockdownload"@]
        == m["initial_block_downloading"@]
    &&& !m.contains_key("initial_block_downloading"@) ==> kept_or_default(
        m,
        r,
        "initialblockdownload"@,
        |v: JsonValue| v == JsonValue::Bool(false),
    )
    &&& kept_or_default(
        m,
        r,
        "mediantime"@,
        |v: JsonValue| v == JsonValue::Number(JsonNumber::PosInt(now)),
    )
    &&& kept_or_default(m, r, "pruned"@, |v: JsonValue| v == JsonValue::Bool(false))
    &&& kept_or_default(m, r, "chainwork"@, |v: JsonValue| v.is_str_of(Seq::<char>::empty()))
    &&& kept_or_default(
        m,
        r,
        "size_on_disk"@,
        |v: JsonValue| v == JsonValue::Number(JsonNumber::PosInt(0)),
    )
    &&& kept_or_default(m, r, "warnings"@, |v: JsonValue| v.is_str_of(Seq::<char>::empty()))
    &&& kept_or_default(m, r, "verificationprogress"@, |v: JsonValue| v.is_float_of("1.0"@))
    &&& kept_or_default(m, r, "chain"@, |v: JsonValue| v.is_str_of("main"@))
    &&& kept_or_default(m, r, "upgrades"@, |v: JsonValue| v.is_empty_object())
    &&& kept_or_default(
        m,
        r,
        "pruneheight"@,
        |v: JsonValue| v == JsonValue::Number(JsonNumber::PosInt(0)),
    )
    &&& kept_or_default(m, r, "automatic_pruning"@, |v: JsonValue| v == JsonValue::Bool(false))
}

/// The members for which `getblockchaininfo` normalisation supplies a default.
pub open spec fn blockchain_default_keys() -> Set<Seq<char>> {
    set![
        "mediantime"@,
        "pruned"@,
        "chainwork"@,
        "size_on_disk"@,
        "warnings"@,
        "initialblockdownload"@,
        "verificationprogress"@,
        "chain"@,
        "upgrades"@,
        "pruneheight"@,
        "automatic_pruning"@,
    ]
}

/// `r` is `m` with every missing default member filled in.
pub open spec fn blockchain_defaults_filled(
    m: Map<Seq<char>, JsonValue>,
    r: Map<Seq<char>, JsonValue>,
    now: u64,
) -> bool {
    &&& r.dom() == m.dom().union(blockchain_default_keys())
    &&& forall|k: Seq<char>| #[trigger] m.contains_key(k) ==> r[k] == m[k]
    &&& kept_or_default(
        m,
        r,
        "mediantime"@,
        |v: JsonValue| v == JsonValue::Number(JsonNumber::PosInt(now)),
    )
    &&& kept_or_default(m, r, "pruned"@, |v: JsonValue| v == JsonValue::Bool(false))
    &&& kept_or_default(m, r, "chainwork"@, |v: JsonValue| v.is_str_of(Seq::<char>::empty()))
    &&& kept_or_default(
        m,
        r,
        "size_on_disk"@,
        |v: JsonValue| v == JsonValue::Number(JsonNumber::PosInt(0)),
    )
    &&& kept_or_default(m, r, "warnings"@, |v: JsonValue| v.is_str_of(Seq::<char>::empty()))
    &&& kept_or_default(m, r, "initialblockdownload"@, |v: JsonValue| v == JsonValue::Bool(false))
    &&& kept_or_default(m, r, "verificationprogress"@, |v: JsonValue| v.is_float_of("1.0"@))
    &&& kept_or_default(m, r, "chain"@, |v: JsonValue| v.is_str_of("main"@))
    &&& kept_or_default(m, r, "upgrades"@, |v: JsonValue| v.is_empty_object())
    &&& kept_or_default(
        m,
        r,
        "pruneheight"@,
        |v: JsonValue| v == JsonValue::Number(JsonNumber::PosInt(0)),
    )
    &&& kept_or_default(m, r, "automatic_pruning"@, |v: JsonValue| v == JsonValue::Bool(false))
}

/// Fills in the default members of a `getblockchaininfo` object.
#[verifier::spinoff_prover]
#[verifier::rlimit(40)]
fn fill_blockchain_defaults(o: &mut Vec<(String, JsonValue)>, now: u64)
    requires
        obj_wf(old(o)@),
    ensures
        obj_wf(final(o)@),
        blockchain_defaults_filled(obj_map(old(o)@), obj_map(final(o)@), now),
{
    let ghost m = obj_map(o@);
    proof {
        reveal_strlit("");
        reveal_strlit("mediantime");
        reveal_strlit("pruned");
        reveal_strlit("chainwork");
        reveal_strlit("size_on_disk");
        reveal_strlit("warnings");
        reveal_strlit("initialblockdownload");
        reveal_strlit("verificationprogress");
        reveal_strlit("chain");
        reveal_strlit("upgrades");
        reveal_strlit("pruneheight");
        reveal_strlit("automatic_pruning");
        assert(""@ =~= Seq::<char>::empty());
        assert("mediantime"@.len() == 10);
        assert("pruned"@.len() == 6);
        assert("chainwork"@.len() == 9);
        assert("size_on_disk"@.len() == 12);
        assert("warnings"@.len() == 8 && "warnings"@[0] == 'w');
        assert("initialblockdownload"@.len() == 20 && "initialblockdownload"@[0] == 'i');
        assert("verificationprogress"@.len() == 20 && "verificationprogress"@[0] == 'v');
        assert("chain"@.len() == 5);
        assert("upgrades"@.len() == 8 && "upgrades"@[0] == 'u');
        assert("pruneheight"@.len() == 11);
        assert("automatic_pruning"@.len() == 17);
    }
    let v = JsonValue::Number(JsonNumber::PosInt(now));
    obj_or_insert(o, "mediantime", v);
    let ghost b1 = obj_map(o@);
    let v = JsonValue::Bool(false);
    obj_or_insert(o, "pruned", v);
    let ghost b2 = obj_map(o@);
    let v = json_string("");
    obj_or_insert(o, "chainwork", v);
    let ghost b3 = obj_map(o@);
    let v = JsonValue::Number(JsonNumber::PosInt(0));
    obj_or_insert(o, "size_on_disk", v);
    let ghost b4 = obj_map(o@);
    let v = json_string("");
    obj_or_insert(o, "warnings", v);
    let ghost b5 = obj_map(o@);
    let v = JsonValue::Bool(false);
    obj_or_insert(o, "initialblockdownload", v);
    let ghost b6 = obj_map(o@);
    let v = JsonValue::Number(JsonNumber::Float(String::from_str("1.0")));
    obj_or_insert(o, "verificationprogress", v);
    let ghost b7 = obj_map(o@);
    let v = json_string("main");
    obj_or_insert(o, "chain", v);
    let ghost b8 = obj_map(o@);
    let v = empty_object();
    obj_or_insert(o, "upgrades", v);
    let ghost b9 = obj_map(o@);
    let v = JsonValue::Number(JsonNumber::PosInt(0));
    obj_or_insert(o, "pruneheight", v);
    let ghost b10 = obj_map(o@);
    let v = JsonValue::Bool(false);
    obj_or_insert(o, "automatic_pruning", v);
    proof {
        let r = obj_map(o@);
        assert(map_get(r, "mediantime"@) == map_get(b1, "mediantime"@));
        assert(map_get(r, "pruned"@) == map_get(b2, "pruned"@));
        assert(map_get(r, "chainwork"@) == map_get(b3, "chainwork"@));
        assert(map_get(r, "size_on_disk"@) == map_get(b4, "size_on_disk"@));
        assert(map_get(r, "warnings"@) == map_get(b5, "warnings"@));
        assert(map_get(r, "initialblockdownload"@) == map_get(b6, "initialblockdownload"@));
        assert(map_get(r, "verificationprogress"@) == map_get(b7, "verificationprogress"@));
        assert(map_get(r, "chain"@) == map_get(b8, "chain"@));
        assert(map_get(r, "upgrades"@) == map_get(b9, "upgrades"@));
        assert(map_get(r, "pruneheight"@) == map_get(b10, "pruneheight"@));
        assert(r.dom() =~= m.dom().union(blockchain_default_keys()));
    }
}

/// Facts about the member names used by the `getblockchaininfo`
/// normalisation that tell them apart.
proof fn lemma_blockchain_key_names()
    ensures
        "softforks"@.len() == 9 && "softforks"@[0] == 's',
        "bip9_softforks"@.len() == 14,
        "initial_block_downloading"@.len() == 25,
        "initialblockdownload"@.len() == 20 && "initialblockdownload"@[0] == 'i',
        "mediantime"@.len() == 10,
        "pruned"@.len() == 6,
        "chainwork"@.len() == 9 && "chainwork"@[0] == 'c',
        "size_on_disk"@.len() == 12,
        "warnings"@.len() == 8 && "warnings"@[0] == 'w',
        "verificationprogress"@.len() == 20 && "verificationprogress"@[0] == 'v',
        "chain"@.len() == 5,
        "upgrades"@.len() == 8 && "upgrades"@[0] == 'u',
        "pruneheight"@.len() == 11,
        "automatic_pruning"@.len() == 17,
{
    reveal_strlit("softforks");
    reveal_strlit("bip9_softforks");
    reveal_strlit("initial_block_downloading");
    reveal_strlit("initialblockdownload");
    reveal_strlit("mediantime");
    reveal_strlit("pruned");
    reveal_strlit("chainwork");
    reveal_strlit("size_on_disk");
    reveal_strlit("warnings");
    reveal_strlit("verificationprogress");
    reveal_strlit("chain");
    reveal_strlit("upgrades");
    reveal_strlit("pruneheight");
    reveal_strlit("automatic_pruning");
}

/// `r` is `m` after the structural part of the `getblockchaininfo`
/// normalisation (fork lists keyed by id, the renamed member), before
/// defaults are filled in.
pub open spec fn blockchain_info_restructured(
    m: Map<Seq<char>, JsonValue>,
    r: Map<Seq<char>, JsonValue>,
) -> bool {
    &&& r.dom() == m.dom().remove("initial_block_downloading"@).insert("bip9_softforks"@).union(
        if m.contains_key("initial_block_downloading"@) {
            set!["initialblockdownload"@]
        } else {
            Set::empty()
        },
    )
    &&& forall|k: Seq<char>|
        #![trigger m.contains_key(k)]
        #![trigger r.contains_key(k)]
        m.contains_key(k) && k != "softforks"@ && k != "bip9_softforks"@ && k
            != "initial_block_downloading"@ && k != "initialblockdownload"@ ==> r[k] == m[k]
    &&& match map_get(m, "softforks"@) {
        Some(JsonValue::Array(a)) => r.contains_key("softforks"@) && (r["softforks"@] matches JsonValue::Object(ro)
            && keyed_by_id(a@, obj_map(ro@), true)),
        _ => map_get(r, "softforks"@) == map_get(m, "softforks"@),
    }
    &&& match map_get(m, "bip9_softforks"@) {
        Some(JsonValue::Array(a)) => r["bip9_softforks"@] matches JsonValue::Object(ro)
            && keyed_by_id(a@, obj_map(ro@), false),
        Some(JsonValue::Object(o)) => r["bip9_softforks"@] == JsonValue::Object(o),
        _ => r["bip9_softforks"@].is_empty_object(),
    }
    &&& m.contains_key("initial_block_downloading"@) ==> r["initialblockdownload"@]
        == m["initial_block_downloading"@]
    &&& !m.contains_key("initial_block_downloading"@) ==> map_get(r, "initialblockdownload"@)
        == map_get(m, "initialblockdownload"@)
}

/// The structural part of the `getblockchaininfo` normalisation.
fn restructure_blockchain_info(o: &mut Vec<(String, JsonValue)>)
    requires
        obj_wf(old(o)@),
    ensures
        obj_wf(final(o)@),
        blockchain_info_restructured(obj_map(old(o)@), obj_map(final(o)@)),
{
    let ghost m0 = obj_map(o@);
    // softforks: array -> object keyed by fork id
    let sf = obj_take(o, "softforks");
    let ghost sf_g = sf;
    match sf {
        Some(JsonValue::Array(a)) => {
            let forks = index_by_id(a, true);
            obj_insert(o, "softforks", JsonValue::Object(forks));
        },
        Some(v) => {
            obj_insert(o, "softforks", v);
        },
        None => {},
    }
    let ghost m1 = obj_map(o@);
    // bip9_softforks: array -> object keyed by id; object kept; else {}
    let b9 = obj_take(o, "bip9_softforks");
    let b9_new = match b9 {
        Some(JsonValue::Array(a)) => JsonValue::Object(index_by_id(a, false)),
        Some(JsonValue::Object(x)) => JsonValue::Object(x),
        _ => empty_object(),
    };
    let ghost b9_g = b9_new;
    obj_insert(o, "bip9_softforks", b9_new);
    let ghost m2 = obj_map(o@);
    // initial_block_downloading -> initialblockdownload
    let ibd = obj_take(o, "initial_block_downloading");
    match ibd {
        Some(v) => {
            obj_insert(o, "initialblockdownload", v);
        },
        None => {},
    }
    proof {
        lemma_blockchain_key_names();
        let r = obj_map(o@);
        assert(map_get(m0, "softforks"@) == sf_g);
        assert(map_get(m1, "bip9_softforks"@) == map_get(m0, "bip9_softforks"@));
        assert(map_get(m2, "initial_block_downloading"@) == map_get(m0, "initial_block_downloading"@));
        assert(map_get(m2, "initialblockdownload"@) == map_get(m0, "initialblockdownload"@));
        assert(map_get(r, "softforks"@) == map_get(m1, "softforks"@));
        assert(r["bip9_softforks"@] == b9_g);
        assert(r.dom() =~= m0.dom().remove("initial_block_downloading"@).insert("bip9_softforks"@).union(
            if m0.contains_key("initial_block_downloading"@) {
                set!["initialblockdownload"@]
            } else {
                Set::empty()
            },
        ));
    }
}

/// The structural step followed by the defaults is the whole normalisation.
proof fn lemma_blockchain_compose(
    m0: Map<Seq<char>, JsonValue>,
    m3: Map<Seq<char>, JsonValue>,
    r: Map<Seq<char>, JsonValue>,
    now: u64,
)
    requires
        blockchain_info_restructured(m0, m3),
        blockchain_defaults_filled(m3, r, now),
    ensures
        blockchain_info_normalized(m0, r, now),
{
    lemma_blockchain_key_names();
    assert(m3.contains_key("bip9_softforks"@));
    assert(r["bip9_softforks"@] == m3["bip9_softforks"@]);
    if m3.contains_key("softforks"@) {
        assert(r["softforks"@] == m3["softforks"@]);
    }
    if m3.contains_key("initialblockdownload"@) {
        assert(r["initialblockdownload"@] == m3["initialblockdownload"@]);
    }
    assert(r.dom() =~= m0.dom().remove("initial_block_downloading"@).union(blockchain_info_added_keys()));
    assert forall|k: Seq<char>| #[trigger] m0.contains_key(k) && !blockchain_info_keys().contains(k)
        implies r[k] == m0[k] by {
        assert(k != "softforks"@ && k != "bip9_softforks"@);
        assert(k != "initial_block_downloading"@ && k != "initialblockdownload"@);
        assert(m3.dom().contains(k));
        assert(m3.contains_key(k) && m3[k] == m0[k]);
    };
}

/// Brings a pivxd `getblockchaininfo` reply into the shape Bitcoin Core
/// returns: `softforks` and `bip9_softforks` arrays become objects keyed by
/// fork id, `initial_block_downloading` is renamed `initialblockdownload`,
/// and missing members get defaults (`mediantime` defaults to `now`).
pub fn normalize_blockchain_info(raw: JsonValue, now: u64) -> (r: JsonValue)
    requires
        raw.is_obj(),
        raw.wf(),
    ensures
        r.is_obj(),
        r.wf(),
        r matches JsonValue::Object(ro) && raw matches JsonValue::Object(o)
            && blockchain_info_normalized(obj_map(o@), obj_map(ro@), now),
{
    let ghost m0 = match &raw {
        JsonValue::Object(o) => obj_map(o@),
        _ => Map::empty(),
    };
    let mut o = match raw {
        JsonValue::Object(o) => o,
        _ => Vec::new(),
    };
    restructure_blockchain_info(&mut o);
    let ghost m3 = obj_map(o@);
    fill_blockchain_defaults(&mut o, now);
    proof {
        lemma_blockchain_compose(m0, m3, obj_map(o@), now);
    }
    JsonValue::Object(o)
}

/// Thirty-two zero bytes, the hash used where a reply gives none.
pub open spec fn zero_hash_bytes() -> Seq<u8> {
    Seq::new(32, |_i: int| 0u8)
}

/// Thirty-two zero bytes.
fn zero_hash() -> (r: Vec<u8>)
    ensures
        r@ == zero_hash_bytes(),
{
    let mut v: Vec<u8> = Vec::new();
    while v.len() < 32
        invariant
            v@.len() <= 32,
            forall|i: int| 0 <= i < v@.len() ==> v@[i] == 0u8,
        decreases 32 - v@.len(),
    {
        v.push(0u8);
    }
    assert(v@ =~= zero_hash_bytes());
    v
}

/// The header used when a header cannot be fetched: every field zero.
pub fn zero_header() -> (h: BlockHeaderFields)
    ensures
        h.wf(),
        h.version == 0,
        h.prev_blockhash@ == zero_hash_bytes(),
        h.merkle_root@ == zero_hash_bytes(),
        h.time == 0,
        h.bits == 0,
        h.nonce == 0,
{
    BlockHeaderFields {
        version: 0,
        prev_blockhash: zero_hash(),
        merkle_root: zero_hash(),
        time: 0,
        bits: 0,
        nonce: 0,
    }
}

/// Member `k` of `v` read as a `u64`, or `default` when missing or not one.
pub open spec fn json_u64_or(v: JsonValue, k: Seq<char>, default: u64) -> u64 {
    match v.spec_get(k) {
        Some(x) => match x.spec_as_u64() {
            Some(n) => n,
            None => default,
        },
        None => default,
    }
}

/// Member `k` of `v` read as an `i64`, or `default` when missing or not one.
pub open spec fn json_i64_or(v: JsonValue, k: Seq<char>, default: i64) -> i64 {
    match v.spec_get(k) {
        Some(x) => match x.spec_as_i64() {
            Some(n) => n,
            None => default,
        },
        None => default,
    }
}

/// Member `k` of `v` read as a hash in display order, or the zero hash when
/// missing, not a string, or not 64 hex digits.
pub open spec fn json_display_hash_or_zero(v: JsonValue, k: Seq<char>) -> Seq<u8> {
    match v.spec_get(k) {
        Some(JsonValue::Str(s)) => if s@.len() == 64 && all_hex_digits(s@) {
            display_hash_bytes(s@)
        } else {
            zero_hash_bytes()
        },
        _ => zero_hash_bytes(),
    }
}

fn get_u64_or(v: &JsonValue, k: &str, default: u64) -> (r: u64)
    requires
        v.wf(),
    ensures
        r == json_u64_or(*v, k@, default),
{
    match v.get(k) {
        Some(x) => match x.as_u64() {
            Some(n) => n,
            None => default,
        },
        None => default,
    }
}

fn get_i64_or(v: &JsonValue, k: &str, default: i64) -> (r: i64)
    requires
        v.wf(),
    ensures
        r == json_i64_or(*v, k@, default),
{
    match v.get(k) {
        Some(x) => match x.as_i64() {
            Some(n) => n,
            None => default,
        },
        None => default,
    }
}

fn get_block_hash_or_zero(v: &JsonValue, k: &str) -> (r: Vec<u8>)
    requires
        v.wf(),
    ensures
        r@ == json_display_hash_or_zero(*v, k@),
{
    match v.get(k) {
        Some(x) => match x.as_str() {
            Some(s) => match parse_block_hash(s) {
                Ok(h) => h,
                Err(_) => zero_hash(),
            },
            None => zero_hash(),
        },
        None => zero_hash(),
    }
}

/// `h` holds the header fields that a verbose `getblockheader` reply `v`
/// gives, each missing or ill-typed field read as zero.
pub open spec fn header_from_json_fields(v: JsonValue, h: BlockHeaderFields) -> bool {
    &&& h.version == json_i64_or(v, "version"@, 0) as i32
    &&& h.prev_blockhash@ == json_display_hash_or_zero(v, "previousblockhash"@)
    &&& h.merkle_root@ == json_display_hash_or_zero(v, "merkleroot"@)
    &&& h.time == json_u64_or(v, "time"@, 0) as u32
    &&& h.bits == json_u64_or(v, "bits"@, 0) as u32
    &&& h.nonce == json_u64_or(v, "nonce"@, 0) as u32
}

/// The header that a `getblockheader` RPC reply stands for; `None` means
/// the call failed, which gives the all-zero header.
pub fn header_from_rpc_reply(reply: Option<&JsonValue>) -> (h: BlockHeaderFields)
    requires
        reply matches Some(v) ==> v.wf(),
    ensures
        h.wf(),
        reply matches Some(v) ==> header_from_json_fields(*v, h),
        reply is None ==> h.version == 0 && h.prev_blockhash@ == zero_hash_bytes()
            && h.merkle_root@ == zero_hash_bytes() && h.time == 0 && h.bits == 0 && h.nonce == 0,
{
    match reply {
        Some(raw) => {
            let version = get_i64_or(raw, "version", 0) as i32;
            let prev_blockhash = get_block_hash_or_zero(raw, "previousblockhash");
            let merkle_root = match raw.get("merkleroot") {
                Some(x) => match x.as_str() {
                    Some(s) => match crate::consensus::parse_merkle_node(s) {
                        Ok(h) => h,
                        Err(_) => zero_hash(),
                    },
                    None => zero_hash(),
                },
                None => zero_hash(),
            };
            let time = get_u64_or(raw, "time", 0) as u32;
            let bits = get_u64_or(raw, "bits", 0) as u32;
            let nonce = get_u64_or(raw, "nonce", 0) as u32;
            BlockHeaderFields { version, prev_blockhash, merkle_root, time, bits, nonce }
        },
        None => zero_header(),
    }
}

/// Why a pivxd header reply could not be turned into a header.
#[derive(Debug, Clone, Copy, PartialEq, Eq, Structural)]
pub enum HeaderReplyError {
    /// The hex text is not valid hex.
    InvalidHex,
    /// The bytes are not an 80-byte consensus-encoded header.
    InvalidHeader,
    /// The reply is neither hex text nor an object.
    NotObject,
}

/// `r` is what reading the hex text `s` as a consensus-encoded header gives:
/// invalid hex fails with `InvalidHex`, bytes that are not 80 long with
/// `InvalidHeader`, and 80 bytes decode to their fields.
pub open spec fn header_hex_result(s: Seq<char>, r: Result<BlockHeaderFields, HeaderReplyError>) -> bool {
    if !(s.len() % 2 == 0 && all_hex_digits(s)) {
        r == Err::<BlockHeaderFields, HeaderReplyError>(HeaderReplyError::InvalidHex)
    } else if hex_bytes(s).len() != 80 {
        r == Err::<BlockHeaderFields, HeaderReplyError>(HeaderReplyError::InvalidHeader)
    } else {
        r matches Ok(h) && header_decodes_to(hex_bytes(s), h) && h.wf()
    }
}

/// A header from its hex-encoded consensus bytes (as `getblockheader <hash>
/// false` returns it).
pub fn header_from_hex(hex: &str) -> (r: Result<BlockHeaderFields, HeaderReplyError>)
    ensures
        header_hex_result(hex@, r),
{
    match hex_decode(hex) {
        Ok(bytes) => match deserialize_header(bytes.as_slice()) {
            Ok(h) => Ok(h),
            Err(_) => Err(HeaderReplyError::InvalidHeader),
        },
        Err(_) => Err(HeaderReplyError::InvalidHex),
    }
}

/// The transaction that the hex text `s` encodes: `None` when `s` is not
/// hex or its bytes do not decode as a transaction.
pub open spec fn hex_transaction(s: Seq<char>) -> Option<bitcoin::Transaction> {
    if s.len() % 2 == 0 && all_hex_digits(s) {
        decoded_transaction(hex_bytes(s))
    } else {
        None
    }
}

/// The block that the hex text `s` encodes: `None` when `s` is not hex or
/// its bytes do not decode as a block.
pub open spec fn hex_block(s: Seq<char>) -> Option<bitcoin::Block> {
    if s.len() % 2 == 0 && all_hex_digits(s) {
        decoded_block(hex_bytes(s))
    } else {
        None
    }
}

/// The transaction that one `getrawtransaction` reply of a mempool batch
/// carries as hex text: `None` when the reply is missing, is not hex, or does
/// not decode as a transaction.
pub fn mempool_transaction_from_reply(reply: Option<&str>) -> (r: Option<bitcoin::Transaction>)
    ensures
        r == (match reply {
            Some(s) => hex_transaction(s@),
            None => None,
        }),
        reply matches Some(s) ==> ((s@.len() % 2 == 0 && all_hex_digits(s@)) ==> r == decoded_transaction(
            hex_bytes(s@),
        )),
        reply matches Some(s) ==> (!(s@.len() % 2 == 0 && all_hex_digits(s@)) ==> r is None),
        reply is None ==> r is None,
{
    let hex = match reply {
        Some(s) => s,
        None => return None,
    };
    match hex_decode(hex) {
        Ok(bytes) => match deserialize_transaction(bytes.as_slice()) {
            Ok(tx) => Some(tx),
            Err(_) => None,
        },
        Err(_) => None,
    }
}

/// The block that a `getblock <hash> false` reply (hex text) carries: `None`
/// when the text is not hex or its bytes do not decode as a block.
pub fn block_from_hex(hex: &str) -> (r: Option<bitcoin::Block>)
    ensures
        r == hex_block(hex@),
        (hex@.len() % 2 == 0 && all_hex_digits(hex@)) ==> r == decoded_block(hex_bytes(hex@)),
        !(hex@.len() % 2 == 0 && all_hex_digits(hex@)) ==> r is None,
{
    match hex_decode(hex) {
        Ok(bytes) => match deserialize_block(bytes.as_slice()) {
            Ok(b) => Some(b),
            Err(_) => None,
        },
        Err(_) => None,
    }
}

/// The bytes handed on for a `getblock <hash> false` reply (hex text): the
/// consensus encoding of the block it carries, or `None` when the text is not
/// hex or does not decode as a block.
pub fn block_bytes_from_hex(hex: &str) -> (r: Option<Vec<u8>>)
    ensures
        r is Some <==> hex_block(hex@) is Some,
        r matches Some(v) ==> (hex_block(hex@) matches Some(b) && v@ == block_encoding(b)),
        r is Some <==> (hex@.len() % 2 == 0 && all_hex_digits(hex@) && decoded_block(hex_bytes(hex@)) is Some),
        r matches Some(v) ==> (decoded_block(hex_bytes(hex@)) matches Some(b) && v@ == block_encoding(b)),
{
    match block_from_hex(hex) {
        Some(b) => Some(serialize_block(&b)),
        None => None,
    }
}

/// The `bits` that a pivxd header object gives: its hex string (default
/// `1d00ffff`), or 0 when that does not parse.
pub open spec fn pivx_header_bits(v: JsonValue) -> u32 {
    let text = match v.spec_get("bits"@) {
        Some(JsonValue::Str(s)) => s@,
        _ => "1d00ffff"@,
    };
    match spec_parse_unsigned(text, true, u32::MAX as nat) {
        Some(n) => n as u32,
        None => 0,
    }
}

/// The merkle root that a pivxd header object gives: the hex bytes as
/// written (no reversal), or zero when the member is missing or not a
/// string.
pub open spec fn pivx_header_merkle(v: JsonValue) -> Seq<u8> {
    match v.spec_get("merkleroot"@) {
        Some(JsonValue::Str(s)) => hex_bytes(s@),
        _ => zero_hash_bytes(),
    }
}

/// The `getblockheader` reply of pivxd, which is hex text or an object,
/// read as a header. A string `merkleroot` must be 64 hex digits (any other
/// string makes the reader fail outright).
pub fn header_from_getblockheader_reply(raw: &JsonValue) -> (r: Result<BlockHeaderFields, HeaderReplyError>)
    requires
        raw.wf(),
        raw.spec_get("merkleroot"@) matches Some(JsonValue::Str(s)) ==> s@.len() == 64 && all_hex_digits(s@),
    ensures
        raw matches JsonValue::Str(s) ==> header_hex_result(s@, r),
        raw is Object ==> (r matches Ok(h) && h.wf() && h.version == json_i64_or(*raw, "version"@, 0) as i32
            && h.prev_blockhash@ == json_display_hash_or_zero(*raw, "previousblockhash"@)
            && h.merkle_root@ == pivx_header_merkle(*raw)
            && h.time == json_u64_or(*raw, "time"@, 0) as u32
            && h.bits == pivx_header_bits(*raw)
            && h.nonce == json_u64_or(*raw, "nonce"@, 0) as u32),
        !(raw is Str || raw is Object) ==> r == Err::<BlockHeaderFields, HeaderReplyError>(HeaderReplyError::NotObject),
{
    if let Some(hex) = raw.as_str() {
        return header_from_hex(hex);
    }
    if !raw.is_object() {
        return Err(HeaderReplyError::NotObject);
    }
    let version = get_i64_or(raw, "version", 0) as i32;
    let prev_blockhash = get_block_hash_or_zero(raw, "previousblockhash");
    let merkle_root = match raw.get("merkleroot") {
        Some(x) => match x.as_str() {
            Some(s) => match hex_decode(s) {
                Ok(b) => b,
                Err(_) => zero_hash(),
            },
            None => zero_hash(),
        },
        None => zero_hash(),
    };
    let time = get_u64_or(raw, "time", 0) as u32;
    let bits_text = match raw.get("bits") {
        Some(x) => match x.as_str() {
            Some(s) => s,
            None => "1d00ffff",
        },
        None => "1d00ffff",
    };
    let bits = match parse_hex_u32(bits_text) {
        Some(b) => b,
        None => 0,
    };
    let nonce = get_u64_or(raw, "nonce", 0) as u32;
    proof {
        assert(merkle_root@.len() == 32);
    }
    Ok(BlockHeaderFields { version, prev_blockhash, merkle_root, time, bits, nonce })
}

/// What one `getblockchaininfo` poll while waiting for the daemon returned.
pub enum ChainInfoReply {
    /// The daemon answered.
    Info { headers: u64, blocks: u64, initial_block_download: bool },
    /// The call failed; the daemon's RPC error code, when it sent one.
    Failed { rpc_error_code: Option<i32> },
}

/// What to do after one poll of the daemon.
#[derive(Debug, Clone, Copy, PartialEq, Eq, Structural)]
pub enum PollOutcome {
    /// The daemon is synced (or the wait is skipped): go on.
    Ready,
    /// Blocks are still downloading: poll again.
    Downloading { left_blocks: u64, initial_block_download: bool },
    /// The daemon is warming up (RPC error -28): poll again.
    WarmingUp,
    /// The daemon is not available: give up.
    Unavailable,
}

/// The RPC error code of a daemon that is still warming up.
pub open spec fn rpc_in_warmup() -> i32 {
    -28i32
}

/// Decides what one poll of the daemon means: an answer is ready unless
/// blocks are left to download (or the daemon is in initial block download),
/// which means waiting, as does a warming-up error; any other failure means
/// the daemon is unavailable.
pub fn poll_outcome(reply: &ChainInfoReply, skip_block_download_wait: bool) -> (r: PollOutcome)
    ensures
        r == (match *reply {
            ChainInfoReply::Info { headers, blocks, initial_block_download } => {
                let left: u64 = if headers >= blocks { (headers - blocks) as u64 } else { 0 };
                if skip_block_download_wait {
                    PollOutcome::Ready
                } else if initial_block_download || left > 0 {
                    PollOutcome::Downloading { left_blocks: left, initial_block_download }
                } else {
                    PollOutcome::Ready
                }
            },
            ChainInfoReply::Failed { rpc_error_code } => if rpc_error_code == Some(rpc_in_warmup()) {
                PollOutcome::WarmingUp
            } else {
                PollOutcome::Unavailable
            },
        }),
{
    match reply {
        ChainInfoReply::Info { headers, blocks, initial_block_download } => {
            if skip_block_download_wait {
                return PollOutcome::Ready;
            }
            let left = headers.saturating_sub(*blocks);
            if *initial_block_download || left > 0 {
                PollOutcome::Downloading { left_blocks: left, initial_block_download: *initial_block_download }
            } else {
                PollOutcome::Ready
            }
        },
        ChainInfoReply::Failed { rpc_error_code } => match rpc_error_code {
            Some(code) => if *code == -28 {
                PollOutcome::WarmingUp
            } else {
                PollOutcome::Unavailable
            },
            None => PollOutcome::Unavailable,
        },
    }
}

/// Why a Bitcoin node is refused.
#[derive(Debug, Clone, Copy, PartialEq, Eq, Structural)]
pub enum NodeError {
    /// bitcoind older than 0.21.
    TooOld,
    /// The node's p2p network is inactive.
    NetworkInactive,
    /// The node is pruned.
    Pruned,
}

/// The oldest supported bitcoind version (0.21.0).
pub open spec fn min_bitcoind_version() -> usize {
    210000
}

/// Checks a Bitcoin node's requirements, in order: version at least 0.21,
/// active p2p network, not pruned. PIVX nodes are not checked.
pub fn check_node(chain: ChainKind, version: usize, network_active: bool, pruned: bool) -> (r: Result<(), NodeError>)
    ensures
        chain == ChainKind::Pivx ==> r is Ok,
        chain == ChainKind::Bitcoin ==> r == (if version < min_bitcoind_version() {
            Err::<(), NodeError>(NodeError::TooOld)
        } else if !network_active {
            Err(NodeError::NetworkInactive)
        } else if pruned {
            Err(NodeError::Pruned)
        } else {
            Ok(())
        }),
{
    if chain == ChainKind::Bitcoin && version < 210000 {
        return Err(NodeError::TooOld);
    }
    if chain == ChainKind::Bitcoin && !network_active {
        return Err(NodeError::NetworkInactive);
    }
    if chain == ChainKind::Bitcoin && pruned {
        return Err(NodeError::Pruned);
    }
    Ok(())
}

/// Mempool statistics synthesised for pivxd, which has no `getmempoolinfo`
/// in Bitcoin Core's shape. Fees are in satoshis.
#[derive(Debug)]
pub struct MempoolSummary {
    pub size: usize,
    pub bytes: usize,
    pub usage: usize,
    pub max_mempool: usize,
    pub mempool_min_fee_sat: u64,
    pub min_relay_tx_fee_sat: u64,
    pub incremental_relay_fee_sat: Option<u64>,
    pub full_rbf: Option<bool>,
    pub loaded: Option<bool>,
    pub unbroadcast_count: Option<usize>,
    pub total_fee_sat: Option<u64>,
}

/// The bytes assumed per mempool transaction.
pub open spec fn assumed_tx_bytes() -> nat {
    250
}

/// The sum of the known fees, saturating at `u64::MAX`.
pub open spec fn saturating_fee_sum(fees: Seq<Option<u64>>) -> u64
    decreases fees.len(),
{
    if fees.len() == 0 {
        0
    } else {
        let acc = saturating_fee_sum(fees.drop_last());
        match fees.last() {
            Some(f) => if acc + f > u64::MAX {
                u64::MAX
            } else {
                (acc + f) as u64
            },
            None => acc,
        }
    }
}

/// Synthesises mempool statistics from the number of mempool transactions
/// and each entry's fee (`None` for an entry whose fee could not be read):
/// 250 bytes per transaction, fixed 1000-satoshi fee floors, a 300 MB
/// maximum, and the saturating sum of the known fees.
pub fn pivx_mempool_summary(tx_count: usize, entry_fees_sat: &Vec<Option<u64>>) -> (r: MempoolSummary)
    requires
        tx_count * assumed_tx_bytes() <= usize::MAX,
    ensures
        r.size == tx_count,
        r.bytes == tx_count * assumed_tx_bytes(),
        r.usage == r.bytes,
        r.max_mempool == 300_000_000,
        r.mempool_min_fee_sat == 1000,
        r.min_relay_tx_fee_sat == 1000,
        r.incremental_relay_fee_sat == Some(1000u64),
        r.full_rbf == Some(false),
        r.loaded == Some(true),
        r.unbroadcast_count == Some(0usize),
        r.total_fee_sat == Some(saturating_fee_sum(entry_fees_sat@)),
{
    let bytes = tx_count * 250;
    let mut total: u64 = 0;
    let mut i: usize = 0;
    while i < entry_fees_sat.len()
        invariant
            0 <= i <= entry_fees_sat@.len(),
            total == saturating_fee_sum(entry_fees_sat@.take(i as int)),
        decreases entry_fees_sat@.len() - i,
    {
        proof {
            assert(entry_fees_sat@.take(i as int + 1).drop_last() =~= entry_fees_sat@.take(i as int));
        }
        match entry_fees_sat[i] {
            Some(f) => {
                total = total.saturating_add(f);
            },
            None => {},
        }
        i = i + 1;
    }
    assert(entry_fees_sat@.take(entry_fees_sat@.len() as int) =~= entry_fees_sat@);
    MempoolSummary {
        size: tx_count,
        bytes,
        usage: bytes,
        max_mempool: 300_000_000,
        mempool_min_fee_sat: 1000,
        min_relay_tx_fee_sat: 1000,
        incremental_relay_fee_sat: Some(1000),
        full_rbf: Some(false),
        loaded: Some(true),
        unbroadcast_count: Some(0),
        total_fee_sat: Some(total),
    }
}

/// The header range still to fetch from pivxd, or `None` when there is
/// nothing to fetch (already at the tip, or at the test limit).
pub open spec fn spec_header_sync_range(
    tip_height: u64,
    chain_height: u64,
    skip_genesis: bool,
    test_limit: Option<u64>,
) -> Option<(u64, u64)> {
    let local: u64 = if skip_genesis && chain_height < 1 { 1 } else { chain_height };
    if test_limit matches Some(l) && local >= l {
        None
    } else if tip_height <= local {
        None
    } else {
        let target = match test_limit {
            Some(l) => l,
            None => tip_height,
        };
        let end: u64 = if tip_height <= target { tip_height } else { target };
        Some(((local + 1) as u64, end))
    }
}

/// The first and last heights of the headers to fetch: from just above the
/// local height (at least 1 when the genesis header is skipped) up to the
/// daemon's tip, or to the test limit when that is lower.
pub fn header_sync_range(tip_height: u64, chain_height: u64, skip_genesis: bool, test_limit: Option<u64>) -> (r: Option<(u64, u64)>)
    ensures
        r == spec_header_sync_range(tip_height, chain_height, skip_genesis, test_limit),
        r matches Some((s, e)) ==> s == (if chain_height >= 1 { chain_height as int } else if skip_genesis {
            1int
        } else {
            0int
        }) + 1 && s <= e && e <= tip_height,
{
    let local = if skip_genesis && chain_height < 1 {
        1
    } else {
        chain_height
    };
    if let Some(l) = test_limit {
        if local >= l {
            return None;
        }
    }
    if tip_height <= local {
        return None;
    }
    let target = match test_limit {
        Some(l) => l,
        None => tip_height,
    };
    let end = if tip_height <= target {
        tip_height
    } else {
        target
    };
    Some((local + 1, end))
}

/// The batches `[first, last]` that split `start..=end` into consecutive
/// runs of `batch_size` heights, the last batch possibly shorter.
pub fn header_batches(start: u64, end: u64, batch_size: u64) -> (r: Vec<(u64, u64)>)
    requires
        1 <= batch_size,
        start <= end,
        end < u64::MAX,
    ensures
        r@.len() > 0,
        r@[0].0 == start,
        r@.last().1 == end,
        forall|i: int| 0 <= i < r@.len() ==> (#[trigger] r@[i]).0 <= r@[i].1,
        forall|i: int| 0 <= i < r@.len() - 1 ==> (#[trigger] r@[i]).1 - r@[i].0 + 1 == batch_size,
        r@.last().1 - r@.last().0 + 1 <= batch_size,
        forall|i: int| 0 <= i < r@.len() - 1 ==> (#[trigger] r@[i + 1]).0 == r@[i].1 + 1,
{
    let mut r: Vec<(u64, u64)> = Vec::new();
    let mut next = start;
    while next <= end
        invariant
            1 <= batch_size,
            start <= end,
            end < u64::MAX,
            start <= next <= end + 1,
            r@.len() == 0 <==> next == start,
            r@.len() > 0 ==> r@[0].0 == start && r@.last().1 + 1 == next,
            forall|i: int| 0 <= i < r@.len() ==> (#[trigger] r@[i]).0 <= r@[i].1,
            forall|i: int| 0 <= i < r@.len() ==> (#[trigger] r@[i]).1 - r@[i].0 + 1 <= batch_size,
            forall|i: int| 0 <= i < r@.len() - 1 ==> (#[trigger] r@[i]).1 - r@[i].0 + 1 == batch_size,
            r@.len() > 0 && next <= end ==> r@.last().1 - r@.last().0 + 1 == batch_size,
            forall|i: int| 0 <= i < r@.len() - 1 ==> (#[trigger] r@[i + 1]).0 == r@[i].1 + 1,
        decreases end + 1 - next,
    {
        let last = if batch_size - 1 < end - next {
            next + (batch_size - 1)
        } else {
            end
        };
        r.push((next, last));
        next = last + 1;
    }
    r
}

/// `PIVX_BATCH_SIZE`: a decimal batch size, 2000 when unset or unreadable.
pub fn batch_size_setting(v: Option<&str>) -> (r: u64)
    ensures
        r == (match v {
            Some(s) => match spec_parse_unsigned(s@, false, u64::MAX as nat) {
                Some(n) => n as u64,
                None => 2000,
            },
            None => 2000,
        }),
{
    match v {
        Some(s) => match parse_u64(s) {
            Some(n) => n,
            None => 2000,
        },
        None => 2000,
    }
}

/// `PIVX_HEADER_TEST_LIMIT`: an optional decimal height limit.
pub fn test_limit_setting(v: Option<&str>) -> (r: Option<u64>)
    ensures
        r == (match v {
            Some(s) => match spec_parse_unsigned(s@, false, u64::MAX as nat) {
                Some(n) => Some(n as u64),
                None => None,
            },
            None => None,
        }),
{
    match v {
        Some(s) => parse_u64(s),
        None => None,
    }
}

/// `ELECTRS_SKIP_GENESIS`: set when the value is `1` or `true` in any case.
/// (For `true`, Unicode lower-casing and ASCII lower-casing agree: only
/// `T`, `R`, `U`, `E` lower-case to those letters.)
pub fn skip_genesis_setting(v: Option<&str>) -> (r: bool)
    ensures
        r == (match v {
            Some(s) => s@ == "1"@ || eq_ignore_ascii_case(s@, "true"@),
            None => false,
        }),
{
    match v {
        Some(s) => {
            let one = String::from_str("1");
            let own = String::from_str(s);
            own == one || str_eq_ignore_ascii_case(s, "true")
        },
        None => false,
    }
}

/// Why a cookie file could not be read as credentials.
#[derive(Debug, Clone, Copy, PartialEq, Eq, Structural)]
pub enum CookieError {
    /// No `:` separates user and password.
    MissingSeparator,
}

/// Reads bitcoind cookie-file contents `user:password` (the password is
/// everything after the first `:`).
pub fn parse_cookie(contents: &str) -> (r: Result<(String, String), CookieError>)
    ensures
        !has_char(contents@, ':') ==> r == Err::<(String, String), CookieError>(CookieError::MissingSeparator),
        has_char(contents@, ':') ==> (r matches Ok((u, p)) && u@ == contents@.take(first_index_of(contents@, ':'))
            && p@ == contents@.skip(first_index_of(contents@, ':') + 1)),
{
    match split_at_first_colon(contents) {
        Some(parts) => Ok(parts),
        None => Err(CookieError::MissingSeparator),
    }
}

/// Normalising a `getnetworkinfo` reply twice gives what normalising it
/// once gives.
pub proof fn lemma_network_info_normalization_idempotent(
    m: Map<Seq<char>, JsonValue>,
    r: Map<Seq<char>, JsonValue>,
    r2: Map<Seq<char>, JsonValue>,
)
    requires
        network_info_normalized(m, r),
        network_info_normalized(r, r2),
    ensures
        r2 == r,
{
    reveal_strlit("networks");
    reveal_strlit("localaddresses");
    reveal_strlit("localrelay");
    reveal_strlit("incrementalfee");
    reveal_strlit("localservicesnames");
    reveal_strlit("connections_in");
    reveal_strlit("connections_out");
    assert(r.dom().union(network_info_keys()) =~= r.dom());
    assert(r["networks"@] is Array);
    assert(r2["networks"@] == r["networks"@]);
    assert(r["localaddresses"@] is Array);
    assert(r2["localaddresses"@] == r["localaddresses"@]);
    assert forall|k: Seq<char>| #[trigger] r.contains_key(k) implies r2[k] == r[k] by {
        if network_info_keys().contains(k) {
            assert(k == "networks"@ || k == "localaddresses"@ || k == "localrelay"@ || k == "incrementalfee"@
                || k == "localservicesnames"@ || k == "connections_in"@ || k == "connections_out"@);
        }
    };
    assert(r2 =~= r);
}

/// Normalising a `getblockchaininfo` reply twice gives what normalising it
/// once gives (whatever time the second pass is given).
pub proof fn lemma_blockchain_info_normalization_idempotent(
    m: Map<Seq<char>, JsonValue>,
    r: Map<Seq<char>, JsonValue>,
    r2: Map<Seq<char>, JsonValue>,
    now: u64,
    later: u64,
)
    requires
        blockchain_info_normalized(m, r, now),
        blockchain_info_normalized(r, r2, later),
    ensures
        r2 == r,
{
    lemma_blockchain_key_names();
    assert(!r.contains_key("initial_block_downloading"@));
    assert(r.dom().remove("initial_block_downloading"@).union(blockchain_info_added_keys()) =~= r.dom());
    assert(!(map_get(r, "softforks"@) matches Some(JsonValue::Array(_))));
    assert(map_get(r2, "softforks"@) == map_get(r, "softforks"@));
    assert(r["bip9_softforks"@] is Object);
    assert(r2["bip9_softforks"@] == r["bip9_softforks"@]);
    assert forall|k: Seq<char>| #[trigger] r.contains_key(k) implies r2[k] == r[k] by {
        if k == "softforks"@ {
            assert(map_get(r2, k) == map_get(r, k));
        }
    };
    assert(r2 =~= r);
}

/// The user and password read from a cookie, joined by `:`, give back the
/// cookie's contents; the user holds no `:`.
pub proof fn lemma_cookie_rejoins(contents: Seq<char>, user: Seq<char>, pass: Seq<char>)
    requires
        has_char(contents, ':'),
        user == contents.take(first_index_of(contents, ':')),
        pass == contents.skip(first_index_of(contents, ':') + 1),
    ensures
        user + seq![':'] + pass == contents,
        !has_char(user, ':'),
{
    lemma_split_rejoins(contents);
}

/// The RPC error code with which `estimatesmartfee` reports that fee
/// estimation is disabled (as with `-blocksonly=1`).
pub open spec fn fee_estimation_disabled_code() -> i32 {
    -32603i32
}

/// Whether a failed fee estimate means "no estimate" rather than an error.
pub fn fee_estimation_disabled(rpc_error_code: Option<i32>) -> (r: bool)
    ensures
        r == (rpc_error_code == Some(fee_estimation_disabled_code())),
{
    match rpc_error_code {
        Some(code) => code == -32603,
        None => false,
    }
}

/// The header range to sync starts one above the local height, where
/// `skip_genesis` only lifts a local height of 0 to 1; it ends at the tip,
/// or at the test limit when that is lower; and there is a range exactly
/// when the local height is below both the tip and the test limit.
pub proof fn lemma_header_sync_range_bounds(
    tip_height: u64,
    chain_height: u64,
    skip_genesis: bool,
    test_limit: Option<u64>,
)
    ensures
        ({
            let local: int = if chain_height >= 1 {
                chain_height as int
            } else if skip_genesis {
                1int
            } else {
                0int
            };
            &&& spec_header_sync_range(tip_height, chain_height, skip_genesis, test_limit) is Some <==> (local
                < tip_height && (test_limit matches Some(l) ==> local < l))
            &&& spec_header_sync_range(tip_height, chain_height, skip_genesis, test_limit) matches Some((s, e))
                ==> (s == local + 1 && s <= e && (e == tip_height || test_limit == Some(e)) && e <= tip_height
                && (test_limit matches Some(l) ==> e <= l))
        }),
{
}

/// Once the local chain holds a block above genesis, `skip_genesis` makes no
/// difference to the range that is synced.
pub proof fn lemma_header_sync_skip_genesis_irrelevant(tip_height: u64, chain_height: u64, test_limit: Option<u64>)
    requires
        chain_height >= 1,
    ensures
        spec_header_sync_range(tip_height, chain_height, true, test_limit) == spec_header_sync_range(
            tip_height,
            chain_height,
            false,
            test_limit,
        ),
{
}

/// Hex text of even length is decoded whatever its size: the block (or
/// transaction) is what its bytes decode to, and text that is not hex gives
/// `None`.
pub proof fn lemma_hex_decoding(s: Seq<char>)
    ensures
        (s.len() % 2 == 0 && all_hex_digits(s)) ==> hex_block(s) == decoded_block(hex_bytes(s)),
        (s.len() % 2 == 0 && all_hex_digits(s)) ==> hex_transaction(s) == decoded_transaction(hex_bytes(s)),
        !(s.len() % 2 == 0 && all_hex_digits(s)) ==> hex_block(s) is None && hex_transaction(s) is None,
{
}

} // verus!
