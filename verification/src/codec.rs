//! The schema codec: an explicit, verified mapping between the config
//! model and a plain document tree ([`DocValue`]), the shape the on-disk
//! text carries. Turning the tree into text and back is the job of the
//! surrounding program; this module owns the schema: which keys exist,
//! which are required, how optional fields are omitted, and the rename of
//! `current-context` on disk to `current_context` in memory.
//!
//! Encoding always writes every key of the schema, with `null` standing
//! for an absent optional field; decoding accepts a missing key, `null`,
//! or a value for an optional field, looks keys up by first occurrence,
//! and ignores keys outside the schema.

use vstd::prelude::*;

use crate::errors::KmanError;
use crate::kubeconfig::{
    Cluster, ClusterContext, KubeConfig, NamedCluster, NamedContext, NamedUser, User,
};
use crate::text::str_eq;

verus! {

broadcast use vstd::string::group_string_axioms;

/// A plain structured-document tree: everything a config document can
/// hold, with mappings kept as ordered pairs so that rewriting a file
/// preserves the order of its keys.
#[derive(Debug, PartialEq)]
pub enum DocValue {
    /// An absent value.
    Null,
    /// A boolean scalar.
    Bool(bool),
    /// A non-negative integer scalar.
    Num(u64),
    /// A text scalar.
    Text(String),
    /// A sequence of values.
    List(Vec<DocValue>),
    /// An ordered mapping from text keys to values.
    Mapping(Vec<(String, DocValue)>),
}

/// Whether some pair of `pairs` carries the key `key`.
pub open spec fn has_key(pairs: Seq<(String, DocValue)>, key: Seq<char>) -> bool {
    exists|i: int| 0 <= i < pairs.len() && pairs[i].0@ == key
}

/// Whether `i` is the first index of `pairs` whose pair carries `key`.
pub open spec fn is_first_key_match(
    pairs: Seq<(String, DocValue)>,
    key: Seq<char>,
    i: int,
) -> bool {
    &&& 0 <= i < pairs.len()
    &&& pairs[i].0@ == key
    &&& forall|j: int| 0 <= j < i ==> pairs[j].0@ != key
}

/// The value under the first occurrence of `key`.
pub open spec fn key_value(pairs: Seq<(String, DocValue)>, key: Seq<char>) -> DocValue
    recommends
        has_key(pairs, key),
{
    pairs[choose|i: int| is_first_key_match(pairs, key, i)].1
}

/// First matches are unique: two indices that both come first among the
/// pairs keyed `key` are the same index.
pub proof fn lemma_first_key_match_unique(
    pairs: Seq<(String, DocValue)>,
    key: Seq<char>,
    i: int,
    j: int,
)
    requires
        is_first_key_match(pairs, key, i),
        is_first_key_match(pairs, key, j),
    ensures
        i == j,
{
}

/// Finds the value under the first occurrence of `key`.
fn get_key<'a>(pairs: &'a Vec<(String, DocValue)>, key: &str) -> (r: Option<&'a DocValue>)
    ensures
        match r {
            Some(v) => has_key(pairs@, key@) && *v == key_value(pairs@, key@),
            None => !has_key(pairs@, key@),
        },
{
    let n = pairs.len();
    let mut i: usize = 0;
    while i < n
        invariant
            i <= n,
            n == pairs@.len(),
            forall|j: int| 0 <= j < i ==> pairs@[j].0@ != key@,
        decreases n - i,
    {
        if str_eq(pairs[i].0.as_str(), key) {
            proof {
                assert(is_first_key_match(pairs@, key@, i as int));
                let j = choose|j: int| is_first_key_match(pairs@, key@, j);
                lemma_first_key_match_unique(pairs@, key@, i as int, j);
            }
            return Some(&pairs[i].1);
        }
        i += 1;
    }
    None
}

/// Whether `v` is the text scalar reading `s`.
pub open spec fn is_text(v: DocValue, s: Seq<char>) -> bool {
    v matches DocValue::Text(t) && t@ == s
}

/// Whether `v` carries the optional text `o`: its content when present,
/// `null` when absent.
pub open spec fn is_opt_text(v: DocValue, o: Option<String>) -> bool {
    match o {
        Some(s) => is_text(v, s@),
        None => v == DocValue::Null,
    }
}

/// Whether `v` carries the optional boolean `o`.
pub open spec fn is_opt_bool(v: DocValue, o: Option<bool>) -> bool {
    match o {
        Some(b) => v == DocValue::Bool(b),
        None => v == DocValue::Null,
    }
}

/// Whether `items` is the list of number scalars reading `bytes`.
pub open spec fn is_byte_list(items: Seq<DocValue>, bytes: Seq<u8>) -> bool {
    &&& items.len() == bytes.len()
    &&& forall|i: int| 0 <= i < bytes.len() ==> items[i] == DocValue::Num(bytes[i] as u64)
}

/// Whether `v` carries the optional byte string `o` as a list of numbers.
pub open spec fn is_opt_bytes(v: DocValue, o: Option<Vec<u8>>) -> bool {
    match o {
        Some(bytes) => v matches DocValue::List(items) && is_byte_list(items@, bytes@),
        None => v == DocValue::Null,
    }
}

/// Whether the first occurrence of `key` in `pairs` is the text `s`.
/// The field is required: a missing key satisfies no `s`.
pub open spec fn text_field(pairs: Seq<(String, DocValue)>, key: Seq<char>, s: String) -> bool {
    has_key(pairs, key) && is_text(key_value(pairs, key), s@)
}

/// Whether `pairs` carries the optional text `o` under `key`: a missing
/// key and `null` both stand for an absent field.
pub open spec fn opt_text_field(
    pairs: Seq<(String, DocValue)>,
    key: Seq<char>,
    o: Option<String>,
) -> bool {
    if has_key(pairs, key) {
        is_opt_text(key_value(pairs, key), o)
    } else {
        o is None
    }
}

/// Whether `pairs` carries the optional boolean `o` under `key`.
pub open spec fn opt_bool_field(
    pairs: Seq<(String, DocValue)>,
    key: Seq<char>,
    o: Option<bool>,
) -> bool {
    if has_key(pairs, key) {
        is_opt_bool(key_value(pairs, key), o)
    } else {
        o is None
    }
}

/// Whether `pairs` carries the optional byte string `o` under `key`.
pub open spec fn opt_bytes_field(
    pairs: Seq<(String, DocValue)>,
    key: Seq<char>,
    o: Option<Vec<u8>>,
) -> bool {
    if has_key(pairs, key) {
        is_opt_bytes(key_value(pairs, key), o)
    } else {
        o is None
    }
}

/// Whether the document value `v` decodes to the cluster `c`.
pub open spec fn cluster_decodes_from(v: DocValue, c: Cluster) -> bool {
    &&& v matches DocValue::Mapping(pairs)
    &&& text_field(pairs@, "server"@, c.server)
    &&& opt_text_field(pairs@, "tls_server_name"@, c.tls_server_name)
    &&& opt_bool_field(pairs@, "insecure_skip_verify"@, c.insecure_skip_verify)
    &&& opt_text_field(pairs@, "certificate_authority"@, c.certificate_authority)
    &&& opt_bytes_field(pairs@, "certificate_authority_data"@, c.certificate_authority_data)
    &&& opt_text_field(pairs@, "proxy_url"@, c.proxy_url)
    &&& opt_bool_field(pairs@, "disable_compression"@, c.disable_compression)
}

/// Whether the document value `v` decodes to the named cluster `nc`.
pub open spec fn named_cluster_decodes_from(v: DocValue, nc: NamedCluster) -> bool {
    &&& v matches DocValue::Mapping(pairs)
    &&& text_field(pairs@, "name"@, nc.name)
    &&& has_key(pairs@, "cluster"@)
    &&& cluster_decodes_from(key_value(pairs@, "cluster"@), nc.cluster)
}

/// Whether the document value `v` decodes to the context `c`.
pub open spec fn context_decodes_from(v: DocValue, c: ClusterContext) -> bool {
    &&& v matches DocValue::Mapping(pairs)
    &&& text_field(pairs@, "cluster"@, c.cluster)
    &&& text_field(pairs@, "user"@, c.user)
    &&& opt_text_field(pairs@, "namespace"@, c.namespace)
}

/// Whether the document value `v` decodes to the named context `nc`.
pub open spec fn named_context_decodes_from(v: DocValue, nc: NamedContext) -> bool {
    &&& v matches DocValue::Mapping(pairs)
    &&& text_field(pairs@, "name"@, nc.name)
    &&& has_key(pairs@, "context"@)
    &&& context_decodes_from(key_value(pairs@, "context"@), nc.context)
}

/// Whether the document value `v` decodes to the named user `nu`.
pub open spec fn named_user_decodes_from(v: DocValue, nu: NamedUser) -> bool {
    &&& v matches DocValue::Mapping(pairs)
    &&& text_field(pairs@, "name"@, nu.name)
    &&& has_key(pairs@, "user"@)
    &&& key_value(pairs@, "user"@) matches DocValue::Mapping(upairs)
    &&& text_field(upairs@, "token"@, nu.user.token)
}

/// Whether the document value `v` decodes to the whole config `c`: the
/// three scalar fields and the three sequences, element by element.
pub open spec fn config_decodes_from(v: DocValue, c: KubeConfig) -> bool {
    &&& v matches DocValue::Mapping(pairs)
    &&& text_field(pairs@, "apiVersion"@, c.api_version)
    &&& text_field(pairs@, "kind"@, c.kind)
    &&& text_field(pairs@, "current-context"@, c.current_context)
    &&& has_key(pairs@, "clusters"@)
    &&& key_value(pairs@, "clusters"@) matches DocValue::List(citems)
    &&& citems@.len() == c.clusters@.len()
    &&& forall|i: int|
        0 <= i < citems@.len() ==> named_cluster_decodes_from(citems@[i], #[trigger] c.clusters@[i])
    &&& has_key(pairs@, "contexts"@)
    &&& key_value(pairs@, "contexts"@) matches DocValue::List(xitems)
    &&& xitems@.len() == c.contexts@.len()
    &&& forall|i: int|
        0 <= i < xitems@.len() ==> named_context_decodes_from(xitems@[i], #[trigger] c.contexts@[i])
    &&& has_key(pairs@, "users"@)
    &&& key_value(pairs@, "users"@) matches DocValue::List(uitems)
    &&& uitems@.len() == c.users@.len()
    &&& forall|i: int|
        0 <= i < uitems@.len() ==> named_user_decodes_from(uitems@[i], #[trigger] c.users@[i])
}

/// Whether `v` is the canonical encoding of the cluster `c`: every key of
/// the schema, in order, an absent optional field written as `null`.
pub open spec fn cluster_encodes_to(c: Cluster, v: DocValue) -> bool {
    &&& v matches DocValue::Mapping(pairs)
    &&& pairs@.len() == 7
    &&& pairs@[0].0@ == "server"@ && is_text(pairs@[0].1, c.server@)
    &&& pairs@[1].0@ == "tls_server_name"@ && is_opt_text(pairs@[1].1, c.tls_server_name)
    &&& pairs@[2].0@ == "insecure_skip_verify"@ && is_opt_bool(pairs@[2].1, c.insecure_skip_verify)
    &&& pairs@[3].0@ == "certificate_authority"@ && is_opt_text(
        pairs@[3].1,
        c.certificate_authority,
    )
    &&& pairs@[4].0@ == "certificate_authority_data"@ && is_opt_bytes(
        pairs@[4].1,
        c.certificate_authority_data,
    )
    &&& pairs@[5].0@ == "proxy_url"@ && is_opt_text(pairs@[5].1, c.proxy_url)
    &&& pairs@[6].0@ == "disable_compression"@ && is_opt_bool(pairs@[6].1, c.disable_compression)
}

/// Whether `v` is the canonical encoding of the named cluster `nc`.
pub open spec fn named_cluster_encodes_to(nc: NamedCluster, v: DocValue) -> bool {
    &&& v matches DocValue::Mapping(pairs)
    &&& pairs@.len() == 2
    &&& pairs@[0].0@ == "name"@ && is_text(pairs@[0].1, nc.name@)
    &&& pairs@[1].0@ == "cluster"@ && cluster_encodes_to(nc.cluster, pairs@[1].1)
}

/// Whether `v` is the canonical encoding of the context `c`.
pub open spec fn context_encodes_to(c: ClusterContext, v: DocValue) -> bool {
    &&& v matches DocValue::Mapping(pairs)
    &&& pairs@.len() == 3
    &&& pairs@[0].0@ == "cluster"@ && is_text(pairs@[0].1, c.cluster@)
    &&& pairs@[1].0@ == "user"@ && is_text(pairs@[1].1, c.user@)
    &&& pairs@[2].0@ == "namespace"@ && is_opt_text(pairs@[2].1, c.namespace)
}

/// Whether `v` is the canonical encoding of the named context `nc`.
pub open spec fn named_context_encodes_to(nc: NamedContext, v: DocValue) -> bool {
    &&& v matches DocValue::Mapping(pairs)
    &&& pairs@.len() == 2
    &&& pairs@[0].0@ == "name"@ && is_text(pairs@[0].1, nc.name@)
    &&& pairs@[1].0@ == "context"@ && context_encodes_to(nc.context, pairs@[1].1)
}

/// Whether `v` is the canonical encoding of the named user `nu`.
pub open spec fn named_user_encodes_to(nu: NamedUser, v: DocValue) -> bool {
    &&& v matches DocValue::Mapping(pairs)
    &&& pairs@.len() == 2
    &&& pairs@[0].0@ == "name"@ && is_text(pairs@[0].1, nu.name@)
    &&& pairs@[1].0@ == "user"@
    &&& pairs@[1].1 matches DocValue::Mapping(upairs)
    &&& upairs@.len() == 1
    &&& upairs@[0].0@ == "token"@ && is_text(upairs@[0].1, nu.user.token@)
}

/// Whether `v` is the canonical encoding of the whole config `c`: the six
/// top-level keys in document order, the on-disk spelling
/// `current-context` among them, the sequences element by element.
pub open spec fn config_encodes_to(c: KubeConfig, v: DocValue) -> bool {
    &&& v matches DocValue::Mapping(pairs)
    &&& pairs@.len() == 6
    &&& pairs@[0].0@ == "apiVersion"@ && is_text(pairs@[0].1, c.api_version@)
    &&& pairs@[1].0@ == "kind"@ && is_text(pairs@[1].1, c.kind@)
    &&& pairs@[2].0@ == "clusters"@
    &&& pairs@[2].1 matches DocValue::List(citems)
    &&& citems@.len() == c.clusters@.len()
    &&& forall|i: int|
        0 <= i < citems@.len() ==> named_cluster_encodes_to(#[trigger] c.clusters@[i], citems@[i])
    &&& pairs@[3].0@ == "contexts"@
    &&& pairs@[3].1 matches DocValue::List(xitems)
    &&& xitems@.len() == c.contexts@.len()
    &&& forall|i: int|
        0 <= i < xitems@.len() ==> named_context_encodes_to(#[trigger] c.contexts@[i], xitems@[i])
    &&& pairs@[4].0@ == "current-context"@ && is_text(pairs@[4].1, c.current_context@)
    &&& pairs@[5].0@ == "users"@
    &&& pairs@[5].1 matches DocValue::List(uitems)
    &&& uitems@.len() == c.users@.len()
    &&& forall|i: int|
        0 <= i < uitems@.len() ==> named_user_encodes_to(#[trigger] c.users@[i], uitems@[i])
}

/// Encodes an absent optional text as `null`.
fn encode_opt_text(o: &Option<String>) -> (r: DocValue)
    ensures
        is_opt_text(r, *o),
{
    match o {
        Some(s) => DocValue::Text(s.clone()),
        None => DocValue::Null,
    }
}

/// Encodes an absent optional boolean as `null`.
fn encode_opt_bool(o: &Option<bool>) -> (r: DocValue)
    ensures
        is_opt_bool(r, *o),
{
    match o {
        Some(b) => DocValue::Bool(*b),
        None => DocValue::Null,
    }
}

/// Encodes an optional byte string as a list of numbers, `null` when
/// absent.
fn encode_opt_bytes(o: &Option<Vec<u8>>) -> (r: DocValue)
    ensures
        is_opt_bytes(r, *o),
{
    match o {
        Some(bytes) => {
            let n = bytes.len();
            let mut items: Vec<DocValue> = Vec::new();
            let mut i: usize = 0;
            while i < n
                invariant
                    i <= n,
                    n == bytes@.len(),
                    items@.len() == i,
                    forall|j: int| 0 <= j < i ==> items@[j] == DocValue::Num(bytes@[j] as u64),
                decreases n - i,
            {
                items.push(DocValue::Num(bytes[i] as u64));
                i += 1;
            }
            DocValue::List(items)
        },
        None => DocValue::Null,
    }
}

/// Encodes a cluster as its canonical mapping.
fn encode_cluster(c: &Cluster) -> (r: DocValue)
    ensures
        cluster_encodes_to(*c, r),
{
    let mut pairs: Vec<(String, DocValue)> = Vec::new();
    pairs.push(("server".to_owned(), DocValue::Text(c.server.clone())));
    pairs.push(("tls_server_name".to_owned(), encode_opt_text(&c.tls_server_name)));
    pairs.push(("insecure_skip_verify".to_owned(), encode_opt_bool(&c.insecure_skip_verify)));
    pairs.push(("certificate_authority".to_owned(), encode_opt_text(&c.certificate_authority)));
    pairs.push((
        "certificate_authority_data".to_owned(),
        encode_opt_bytes(&c.certificate_authority_data),
    ));
    pairs.push(("proxy_url".to_owned(), encode_opt_text(&c.proxy_url)));
    pairs.push(("disable_compression".to_owned(), encode_opt_bool(&c.disable_compression)));
    DocValue::Mapping(pairs)
}

/// Encodes a named cluster as its canonical mapping.
fn encode_named_cluster(nc: &NamedCluster) -> (r: DocValue)
    ensures
        named_cluster_encodes_to(*nc, r),
{
    let mut pairs: Vec<(String, DocValue)> = Vec::new();
    pairs.push(("name".to_owned(), DocValue::Text(nc.name.clone())));
    pairs.push(("cluster".to_owned(), encode_cluster(&nc.cluster)));
    DocValue::Mapping(pairs)
}

/// Encodes a context as its canonical mapping.
fn encode_context(c: &ClusterContext) -> (r: DocValue)
    ensures
        context_encodes_to(*c, r),
{
    let mut pairs: Vec<(String, DocValue)> = Vec::new();
    pairs.push(("cluster".to_owned(), DocValue::Text(c.cluster.clone())));
    pairs.push(("user".to_owned(), DocValue::Text(c.user.clone())));
    pairs.push(("namespace".to_owned(), encode_opt_text(&c.namespace)));
    DocValue::Mapping(pairs)
}

/// Encodes a named context as its canonical mapping.
fn encode_named_context(nc: &NamedContext) -> (r: DocValue)
    ensures
        named_context_encodes_to(*nc, r),
{
    let mut pairs: Vec<(String, DocValue)> = Vec::new();
    pairs.push(("name".to_owned(), DocValue::Text(nc.name.clone())));
    pairs.push(("context".to_owned(), encode_context(&nc.context)));
    DocValue::Mapping(pairs)
}

/// Encodes a named user as its canonical mapping.
fn encode_named_user(nu: &NamedUser) -> (r: DocValue)
    ensures
        named_user_encodes_to(*nu, r),
{
    let mut upairs: Vec<(String, DocValue)> = Vec::new();
    upairs.push(("token".to_owned(), DocValue::Text(nu.user.token.clone())));
    let mut pairs: Vec<(String, DocValue)> = Vec::new();
    pairs.push(("name".to_owned(), DocValue::Text(nu.name.clone())));
    pairs.push(("user".to_owned(), DocValue::Mapping(upairs)));
    DocValue::Mapping(pairs)
}

/// Encodes a whole config as its canonical document tree. Encoding never
/// fails: every model value has a canonical document.
pub fn encode_config(c: &KubeConfig) -> (r: DocValue)
    ensures
        config_encodes_to(*c, r),
{
    let mut citems: Vec<DocValue> = Vec::new();
    let cn = c.clusters.len();
    let mut i: usize = 0;
    while i < cn
        invariant
            i <= cn,
            cn == c.clusters@.len(),
            citems@.len() == i,
            forall|j: int|
                0 <= j < i ==> named_cluster_encodes_to(#[trigger] c.clusters@[j], citems@[j]),
        decreases cn - i,
    {
        citems.push(encode_named_cluster(&c.clusters[i]));
        i += 1;
    }
    let mut xitems: Vec<DocValue> = Vec::new();
    let xn = c.contexts.len();
    let mut i: usize = 0;
    while i < xn
        invariant
            i <= xn,
            xn == c.contexts@.len(),
            xitems@.len() == i,
            forall|j: int|
                0 <= j < i ==> named_context_encodes_to(#[trigger] c.contexts@[j], xitems@[j]),
        decreases xn - i,
    {
        xitems.push(encode_named_context(&c.contexts[i]));
        i += 1;
    }
    let mut uitems: Vec<DocValue> = Vec::new();
    let un = c.users.len();
    let mut i: usize = 0;
    while i < un
        invariant
            i <= un,
            un == c.users@.len(),
            uitems@.len() == i,
            forall|j: int| 0 <= j < i ==> named_user_encodes_to(#[trigger] c.users@[j], uitems@[j]),
        decreases un - i,
    {
        uitems.push(encode_named_user(&c.users[i]));
        i += 1;
    }
    let mut pairs: Vec<(String, DocValue)> = Vec::new();
    pairs.push(("apiVersion".to_owned(), DocValue::Text(c.api_version.clone())));
    pairs.push(("kind".to_owned(), DocValue::Text(c.kind.clone())));
    pairs.push(("clusters".to_owned(), DocValue::List(citems)));
    pairs.push(("contexts".to_owned(), DocValue::List(xitems)));
    pairs.push(("current-context".to_owned(), DocValue::Text(c.current_context.clone())));
    pairs.push(("users".to_owned(), DocValue::List(uitems)));
    DocValue::Mapping(pairs)
}

/// Decodes a list of number scalars into bytes.
fn decode_bytes(items: &Vec<DocValue>) -> (r: Result<Vec<u8>, KmanError>)
    ensures
        match r {
            Ok(bytes) => is_byte_list(items@, bytes@),
            Err(e) => e == KmanError::Decode && forall|bytes: Seq<u8>| !is_byte_list(items@, bytes),
        },
{
    let n = items.len();
    let mut bytes: Vec<u8> = Vec::new();
    let mut i: usize = 0;
    while i < n
        invariant
            i <= n,
            n == items@.len(),
            bytes@.len() == i,
            forall|j: int| 0 <= j < i ==> items@[j] == DocValue::Num(bytes@[j] as u64),
        decreases n - i,
    {
        match &items[i] {
            DocValue::Num(num) => {
                if *num > 255 {
                    return Err(KmanError::Decode);
                }
                bytes.push(*num as u8);
            },
            _ => {
                return Err(KmanError::Decode);
            },
        }
        i += 1;
    }
    Ok(bytes)
}

/// Decodes a document value into a cluster.
fn decode_cluster(v: &DocValue) -> (r: Result<Cluster, KmanError>)
    ensures
        match r {
            Ok(c) => cluster_decodes_from(*v, c),
            Err(e) => e == KmanError::Decode && forall|c: Cluster| !cluster_decodes_from(*v, c),
        },
{
    let pairs = match v {
        DocValue::Mapping(pairs) => pairs,
        _ => {
            return Err(KmanError::Decode);
        },
    };
    let server = match get_key(pairs, "server") {
        Some(DocValue::Text(s)) => s.clone(),
        _ => {
            return Err(KmanError::Decode);
        },
    };
    let tls_server_name = match get_key(pairs, "tls_server_name") {
        None => None,
        Some(DocValue::Null) => None,
        Some(DocValue::Text(s)) => Some(s.clone()),
        Some(_) => {
            return Err(KmanError::Decode);
        },
    };
    let insecure_skip_verify = match get_key(pairs, "insecure_skip_verify") {
        None => None,
        Some(DocValue::Null) => None,
        Some(DocValue::Bool(b)) => Some(*b),
        Some(_) => {
            return Err(KmanError::Decode);
        },
    };
    let certificate_authority = match get_key(pairs, "certificate_authority") {
        None => None,
        Some(DocValue::Null) => None,
        Some(DocValue::Text(s)) => Some(s.clone()),
        Some(_) => {
            return Err(KmanError::Decode);
        },
    };
    let certificate_authority_data = match get_key(pairs, "certificate_authority_data") {
        None => None,
        Some(DocValue::Null) => None,
        Some(DocValue::List(items)) => match decode_bytes(items) {
            Ok(bytes) => Some(bytes),
            Err(e) => {
                return Err(e);
            },
        },
        Some(_) => {
            return Err(KmanError::Decode);
        },
    };
    let proxy_url = match get_key(pairs, "proxy_url") {
        None => None,
        Some(DocValue::Null) => None,
        Some(DocValue::Text(s)) => Some(s.clone()),
        Some(_) => {
            return Err(KmanError::Decode);
        },
    };
    let disable_compression = match get_key(pairs, "disable_compression") {
        None => None,
        Some(DocValue::Null) => None,
        Some(DocValue::Bool(b)) => Some(*b),
        Some(_) => {
            return Err(KmanError::Decode);
        },
    };
    Ok(
        Cluster {
            server,
            tls_server_name,
            insecure_skip_verify,
            certificate_authority,
            certificate_authority_data,
            proxy_url,
            disable_compression,
        },
    )
}

/// Decodes a document value into a named cluster.
fn decode_named_cluster(v: &DocValue) -> (r: Result<NamedCluster, KmanError>)
    ensures
        match r {
            Ok(nc) => named_cluster_decodes_from(*v, nc),
            Err(e) => e == KmanError::Decode && forall|nc: NamedCluster|
                !named_cluster_decodes_from(*v, nc),
        },
{
    let pairs = match v {
        DocValue::Mapping(pairs) => pairs,
        _ => {
            return Err(KmanError::Decode);
        },
    };
    let name = match get_key(pairs, "name") {
        Some(DocValue::Text(s)) => s.clone(),
        _ => {
            return Err(KmanError::Decode);
        },
    };
    let cluster = match get_key(pairs, "cluster") {
        Some(cv) => match decode_cluster(cv) {
            Ok(c) => c,
            Err(e) => {
                return Err(e);
            },
        },
        None => {
            return Err(KmanError::Decode);
        },
    };
    Ok(NamedCluster { name, cluster })
}

/// Decodes a document value into a context.
fn decode_context(v: &DocValue) -> (r: Result<ClusterContext, KmanError>)
    ensures
        match r {
            Ok(c) => context_decodes_from(*v, c),
            Err(e) => e == KmanError::Decode && forall|c: ClusterContext|
                !context_decodes_from(*v, c),
        },
{
    let pairs = match v {
        DocValue::Mapping(pairs) => pairs,
        _ => {
            return Err(KmanError::Decode);
        },
    };
    let cluster = match get_key(pairs, "cluster") {
        Some(DocValue::Text(s)) => s.clone(),
        _ => {
            return Err(KmanError::Decode);
        },
    };
    let user = match get_key(pairs, "user") {
        Some(DocValue::Text(s)) => s.clone(),
        _ => {
            return Err(KmanError::Decode);
        },
    };
    let namespace = match get_key(pairs, "namespace") {
        None => None,
        Some(DocValue::Null) => None,
        Some(DocValue::Text(s)) => Some(s.clone()),
        Some(_) => {
            return Err(KmanError::Decode);
        },
    };
    Ok(ClusterContext { cluster, user, namespace })
}

/// Decodes a document value into a named context.
fn decode_named_context(v: &DocValue) -> (r: Result<NamedContext, KmanError>)
    ensures
        match r {
            Ok(nc) => named_context_decodes_from(*v, nc),
            Err(e) => e == KmanError::Decode && forall|nc: NamedContext|
                !named_context_decodes_from(*v, nc),
        },
{
    let pairs = match v {
        DocValue::Mapping(pairs) => pairs,
        _ => {
            return Err(KmanError::Decode);
        },
    };
    let name = match get_key(pairs, "name") {
        Some(DocValue::Text(s)) => s.clone(),
        _ => {
            return Err(KmanError::Decode);
        },
    };
    let context = match get_key(pairs, "context") {
        Some(cv) => match decode_context(cv) {
            Ok(c) => c,
            Err(e) => {
                return Err(e);
            },
        },
        None => {
            return Err(KmanError::Decode);
        },
    };
    Ok(NamedContext { name, context })
}

/// Decodes a document value into a named user.
fn decode_named_user(v: &DocValue) -> (r: Result<NamedUser, KmanError>)
    ensures
        match r {
            Ok(nu) => named_user_decodes_from(*v, nu),
            Err(e) => e == KmanError::Decode && forall|nu: NamedUser|
                !named_user_decodes_from(*v, nu),
        },
{
    let pairs = match v {
        DocValue::Mapping(pairs) => pairs,
        _ => {
            return Err(KmanError::Decode);
        },
    };
    let name = match get_key(pairs, "name") {
        Some(DocValue::Text(s)) => s.clone(),
        _ => {
            return Err(KmanError::Decode);
        },
    };
    let token = match get_key(pairs, "user") {
        Some(DocValue::Mapping(upairs)) => match get_key(upairs, "token") {
            Some(DocValue::Text(s)) => s.clone(),
            _ => {
                return Err(KmanError::Decode);
            },
        },
        _ => {
            return Err(KmanError::Decode);
        },
    };
    Ok(NamedUser { name, user: User { token } })
}

/// Whether no named cluster at all decodes from `items[k]`.
pub open spec fn cluster_item_undecodable(items: Seq<DocValue>, k: int) -> bool {
    forall|nc: NamedCluster| !named_cluster_decodes_from(items[k], nc)
}

/// Whether no named context at all decodes from `items[k]`.
pub open spec fn context_item_undecodable(items: Seq<DocValue>, k: int) -> bool {
    forall|nc: NamedContext| !named_context_decodes_from(items[k], nc)
}

/// Whether no named user at all decodes from `items[k]`.
pub open spec fn user_item_undecodable(items: Seq<DocValue>, k: int) -> bool {
    forall|nu: NamedUser| !named_user_decodes_from(items[k], nu)
}

/// Decodes a list of document values into named clusters.
fn decode_clusters(items: &Vec<DocValue>) -> (r: Result<Vec<NamedCluster>, KmanError>)
    ensures
        match r {
            Ok(ncs) => ncs@.len() == items@.len() && forall|i: int|
                0 <= i < items@.len() ==> named_cluster_decodes_from(
                    items@[i],
                    #[trigger] ncs@[i],
                ),
            Err(e) => e == KmanError::Decode && exists|k: int|
                0 <= k < items@.len() && #[trigger] cluster_item_undecodable(items@, k),
        },
{
    let n = items.len();
    let mut ncs: Vec<NamedCluster> = Vec::new();
    let mut i: usize = 0;
    while i < n
        invariant
            i <= n,
            n == items@.len(),
            ncs@.len() == i,
            forall|j: int|
                0 <= j < i ==> named_cluster_decodes_from(items@[j], #[trigger] ncs@[j]),
        decreases n - i,
    {
        match decode_named_cluster(&items[i]) {
            Ok(nc) => ncs.push(nc),
            Err(e) => {
                proof {
                    assert(cluster_item_undecodable(items@, i as int));
                }
                return Err(e);
            },
        }
        i += 1;
    }
    Ok(ncs)
}

/// Decodes a list of document values into named contexts.
fn decode_contexts(items: &Vec<DocValue>) -> (r: Result<Vec<NamedContext>, KmanError>)
    ensures
        match r {
            Ok(ncs) => ncs@.len() == items@.len() && forall|i: int|
                0 <= i < items@.len() ==> named_context_decodes_from(
                    items@[i],
                    #[trigger] ncs@[i],
                ),
            Err(e) => e == KmanError::Decode && exists|k: int|
                0 <= k < items@.len() && #[trigger] context_item_undecodable(items@, k),
        },
{
    let n = items.len();
    let mut ncs: Vec<NamedContext> = Vec::new();
    let mut i: usize = 0;
    while i < n
        invariant
            i <= n,
            n == items@.len(),
            ncs@.len() == i,
            forall|j: int|
                0 <= j < i ==> named_context_decodes_from(items@[j], #[trigger] ncs@[j]),
        decreases n - i,
    {
        match decode_named_context(&items[i]) {
            Ok(nc) => ncs.push(nc),
            Err(e) => {
                proof {
                    assert(context_item_undecodable(items@, i as int));
                }
                return Err(e);
            },
        }
        i += 1;
    }
    Ok(ncs)
}

/// Decodes a list of document values into named users.
fn decode_users(items: &Vec<DocValue>) -> (r: Result<Vec<NamedUser>, KmanError>)
    ensures
        match r {
            Ok(nus) => nus@.len() == items@.len() && forall|i: int|
                0 <= i < items@.len() ==> named_user_decodes_from(items@[i], #[trigger] nus@[i]),
            Err(e) => e == KmanError::Decode && exists|k: int|
                0 <= k < items@.len() && #[trigger] user_item_undecodable(items@, k),
        },
{
    let n = items.len();
    let mut nus: Vec<NamedUser> = Vec::new();
    let mut i: usize = 0;
    while i < n
        invariant
            i <= n,
            n == items@.len(),
            nus@.len() == i,
            forall|j: int| 0 <= j < i ==> named_user_decodes_from(items@[j], #[trigger] nus@[j]),
        decreases n - i,
    {
        match decode_named_user(&items[i]) {
            Ok(nu) => nus.push(nu),
            Err(e) => {
                proof {
                    assert(user_item_undecodable(items@, i as int));
                }
                return Err(e);
            },
        }
        i += 1;
    }
    Ok(nus)
}

/// Decodes a whole document tree into a config. Fails with a decode error
/// exactly when no config at all decodes from the tree: a missing or
/// ill-typed required field, or an ill-shaped entry in one of the three
/// sequences.
#[verifier::rlimit(30)]
pub fn decode_config(v: &DocValue) -> (r: Result<KubeConfig, KmanError>)
    ensures
        match r {
            Ok(c) => config_decodes_from(*v, c),
            Err(e) => e == KmanError::Decode && forall|c: KubeConfig| !config_decodes_from(*v, c),
        },
{
    let pairs = match v {
        DocValue::Mapping(pairs) => pairs,
        _ => {
            return Err(KmanError::Decode);
        },
    };
    let api_version = match get_key(pairs, "apiVersion") {
        Some(DocValue::Text(s)) => s.clone(),
        _ => {
            return Err(KmanError::Decode);
        },
    };
    let kind = match get_key(pairs, "kind") {
        Some(DocValue::Text(s)) => s.clone(),
        _ => {
            return Err(KmanError::Decode);
        },
    };
    let current_context = match get_key(pairs, "current-context") {
        Some(DocValue::Text(s)) => s.clone(),
        _ => {
            return Err(KmanError::Decode);
        },
    };
    let clusters = match get_key(pairs, "clusters") {
        Some(DocValue::List(items)) => match decode_clusters(items) {
            Ok(ncs) => ncs,
            Err(e) => {
                proof {
                    let k = choose|k: int|
                        0 <= k < items@.len() && #[trigger] cluster_item_undecodable(items@, k);
                    assert forall|c: KubeConfig| !config_decodes_from(*v, c) by {
                        if config_decodes_from(*v, c) {
                            assert(named_cluster_decodes_from(items@[k], c.clusters@[k]));
                        }
                    }
                }
                return Err(e);
            },
        },
        _ => {
            return Err(KmanError::Decode);
        },
    };
    let contexts = match get_key(pairs, "contexts") {
        Some(DocValue::List(items)) => match decode_contexts(items) {
            Ok(ncs) => ncs,
            Err(e) => {
                proof {
                    let k = choose|k: int|
                        0 <= k < items@.len() && #[trigger] context_item_undecodable(items@, k);
                    assert forall|c: KubeConfig| !config_decodes_from(*v, c) by {
                        if config_decodes_from(*v, c) {
                            assert(named_context_decodes_from(items@[k], c.contexts@[k]));
                        }
                    }
                }
                return Err(e);
            },
        },
        _ => {
            return Err(KmanError::Decode);
        },
    };
    let users = match get_key(pairs, "users") {
        Some(DocValue::List(items)) => match decode_users(items) {
            Ok(nus) => nus,
            Err(e) => {
                proof {
                    let k = choose|k: int|
                        0 <= k < items@.len() && #[trigger] user_item_undecodable(items@, k);
                    assert forall|c: KubeConfig| !config_decodes_from(*v, c) by {
                        if config_decodes_from(*v, c) {
                            assert(named_user_decodes_from(items@[k], c.users@[k]));
                        }
                    }
                }
                return Err(e);
            },
        },
        _ => {
            return Err(KmanError::Decode);
        },
    };
    Ok(KubeConfig { api_version, kind, clusters, contexts, current_context, users })
}

/// Whether two optional texts carry the same content.
pub open spec fn opt_text_like(a: Option<String>, b: Option<String>) -> bool {
    match (a, b) {
        (Option::None, Option::None) => true,
        (Option::Some(x), Option::Some(y)) => x@ == y@,
        _ => false,
    }
}

/// Whether two optional byte strings carry the same content.
pub open spec fn opt_bytes_like(a: Option<Vec<u8>>, b: Option<Vec<u8>>) -> bool {
    match (a, b) {
        (Option::None, Option::None) => true,
        (Option::Some(x), Option::Some(y)) => x@ == y@,
        _ => false,
    }
}

/// Whether two clusters agree field for field.
pub open spec fn cluster_like(a: Cluster, b: Cluster) -> bool {
    &&& a.server@ == b.server@
    &&& opt_text_like(a.tls_server_name, b.tls_server_name)
    &&& a.insecure_skip_verify == b.insecure_skip_verify
    &&& opt_text_like(a.certificate_authority, b.certificate_authority)
    &&& opt_bytes_like(a.certificate_authority_data, b.certificate_authority_data)
    &&& opt_text_like(a.proxy_url, b.proxy_url)
    &&& a.disable_compression == b.disable_compression
}

/// Whether two named clusters agree field for field.
pub open spec fn named_cluster_like(a: NamedCluster, b: NamedCluster) -> bool {
    a.name@ == b.name@ && cluster_like(a.cluster, b.cluster)
}

/// Whether two contexts agree field for field.
pub open spec fn context_like(a: ClusterContext, b: ClusterContext) -> bool {
    &&& a.cluster@ == b.cluster@
    &&& a.user@ == b.user@
    &&& opt_text_like(a.namespace, b.namespace)
}

/// Whether two named contexts agree field for field.
pub open spec fn named_context_like(a: NamedContext, b: NamedContext) -> bool {
    a.name@ == b.name@ && context_like(a.context, b.context)
}

/// Whether two named users agree field for field.
pub open spec fn named_user_like(a: NamedUser, b: NamedUser) -> bool {
    a.name@ == b.name@ && a.user.token@ == b.user.token@
}

/// Whether two configs agree field for field, every entry included.
pub open spec fn config_like(a: KubeConfig, b: KubeConfig) -> bool {
    &&& a.api_version@ == b.api_version@
    &&& a.kind@ == b.kind@
    &&& a.current_context@ == b.current_context@
    &&& a.clusters@.len() == b.clusters@.len()
    &&& forall|i: int|
        0 <= i < a.clusters@.len() ==> named_cluster_like(
            #[trigger] a.clusters@[i],
            b.clusters@[i],
        )
    &&& a.contexts@.len() == b.contexts@.len()
    &&& forall|i: int|
        0 <= i < a.contexts@.len() ==> named_context_like(
            #[trigger] a.contexts@[i],
            b.contexts@[i],
        )
    &&& a.users@.len() == b.users@.len()
    &&& forall|i: int|
        0 <= i < a.users@.len() ==> named_user_like(#[trigger] a.users@[i], b.users@[i])
}

/// A first match at `i` settles the key lookup: `key_value` reads there.
proof fn lemma_key_at(pairs: Seq<(String, DocValue)>, key: Seq<char>, i: int)
    requires
        is_first_key_match(pairs, key, i),
    ensures
        has_key(pairs, key),
        key_value(pairs, key) == pairs[i].1,
{
    assert(has_key(pairs, key));
    let j = choose|j: int| is_first_key_match(pairs, key, j);
    lemma_first_key_match_unique(pairs, key, i, j);
}

/// The canonical encoding of a cluster decodes back to it.
#[verifier::rlimit(50)]
proof fn lemma_cluster_encode_decodes_back(c: Cluster, v: DocValue)
    requires
        cluster_encodes_to(c, v),
    ensures
        cluster_decodes_from(v, c),
{
    reveal_strlit("server");
    reveal_strlit("tls_server_name");
    reveal_strlit("insecure_skip_verify");
    reveal_strlit("certificate_authority");
    reveal_strlit("certificate_authority_data");
    reveal_strlit("proxy_url");
    reveal_strlit("disable_compression");
    assert("server"@.len() == 6);
    assert("tls_server_name"@.len() == 15);
    assert("insecure_skip_verify"@.len() == 20);
    assert("certificate_authority"@.len() == 21);
    assert("certificate_authority_data"@.len() == 26);
    assert("proxy_url"@.len() == 9);
    assert("disable_compression"@.len() == 19);
    match v {
        DocValue::Mapping(pairs) => {
            assert(is_first_key_match(pairs@, "server"@, 0));
            lemma_key_at(pairs@, "server"@, 0);
            assert(is_first_key_match(pairs@, "tls_server_name"@, 1));
            lemma_key_at(pairs@, "tls_server_name"@, 1);
            assert(is_first_key_match(pairs@, "insecure_skip_verify"@, 2));
            lemma_key_at(pairs@, "insecure_skip_verify"@, 2);
            assert(is_first_key_match(pairs@, "certificate_authority"@, 3));
            lemma_key_at(pairs@, "certificate_authority"@, 3);
            assert(is_first_key_match(pairs@, "certificate_authority_data"@, 4));
            lemma_key_at(pairs@, "certificate_authority_data"@, 4);
            assert(is_first_key_match(pairs@, "proxy_url"@, 5));
            lemma_key_at(pairs@, "proxy_url"@, 5);
            assert(is_first_key_match(pairs@, "disable_compression"@, 6));
            lemma_key_at(pairs@, "disable_compression"@, 6);
        },
        _ => {},
    }
}

/// The canonical encoding of a named cluster decodes back to it.
proof fn lemma_named_cluster_encode_decodes_back(nc: NamedCluster, v: DocValue)
    requires
        named_cluster_encodes_to(nc, v),
    ensures
        named_cluster_decodes_from(v, nc),
{
    reveal_strlit("name");
    reveal_strlit("cluster");
    assert("name"@.len() == 4);
    assert("cluster"@.len() == 7);
    match v {
        DocValue::Mapping(pairs) => {
            assert(is_first_key_match(pairs@, "name"@, 0));
            lemma_key_at(pairs@, "name"@, 0);
            assert(is_first_key_match(pairs@, "cluster"@, 1));
            lemma_key_at(pairs@, "cluster"@, 1);
            lemma_cluster_encode_decodes_back(nc.cluster, pairs@[1].1);
        },
        _ => {},
    }
}

/// The canonical encoding of a context decodes back to it.
proof fn lemma_context_encode_decodes_back(c: ClusterContext, v: DocValue)
    requires
        context_encodes_to(c, v),
    ensures
        context_decodes_from(v, c),
{
    reveal_strlit("cluster");
    reveal_strlit("user");
    reveal_strlit("namespace");
    assert("cluster"@.len() == 7);
    assert("user"@.len() == 4);
    assert("namespace"@.len() == 9);
    match v {
        DocValue::Mapping(pairs) => {
            assert(is_first_key_match(pairs@, "cluster"@, 0));
            lemma_key_at(pairs@, "cluster"@, 0);
            assert(is_first_key_match(pairs@, "user"@, 1));
            lemma_key_at(pairs@, "user"@, 1);
            assert(is_first_key_match(pairs@, "namespace"@, 2));
            lemma_key_at(pairs@, "namespace"@, 2);
        },
        _ => {},
    }
}

/// The canonical encoding of a named context decodes back to it.
proof fn lemma_named_context_encode_decodes_back(nc: NamedContext, v: DocValue)
    requires
        named_context_encodes_to(nc, v),
    ensures
        named_context_decodes_from(v, nc),
{
    reveal_strlit("name");
    reveal_strlit("context");
    assert("name"@.len() == 4);
    assert("context"@.len() == 7);
    match v {
        DocValue::Mapping(pairs) => {
            assert(is_first_key_match(pairs@, "name"@, 0));
            lemma_key_at(pairs@, "name"@, 0);
            assert(is_first_key_match(pairs@, "context"@, 1));
            lemma_key_at(pairs@, "context"@, 1);
            lemma_context_encode_decodes_back(nc.context, pairs@[1].1);
        },
        _ => {},
    }
}

/// The canonical encoding of a named user decodes back to it.
proof fn lemma_named_user_encode_decodes_back(nu: NamedUser, v: DocValue)
    requires
        named_user_encodes_to(nu, v),
    ensures
        named_user_decodes_from(v, nu),
{
    reveal_strlit("name");
    reveal_strlit("user");
    reveal_strlit("token");
    assert("name"@.len() == 4);
    assert("user"@.len() == 4);
    assert("token"@.len() == 5);
    assert("name"@[0] == 'n');
    assert("user"@[0] == 'u');
    match v {
        DocValue::Mapping(pairs) => {
            assert(is_first_key_match(pairs@, "name"@, 0));
            lemma_key_at(pairs@, "name"@, 0);
            assert(is_first_key_match(pairs@, "user"@, 1));
            lemma_key_at(pairs@, "user"@, 1);
            match pairs@[1].1 {
                DocValue::Mapping(upairs) => {
                    assert(is_first_key_match(upairs@, "token"@, 0));
                    lemma_key_at(upairs@, "token"@, 0);
                },
                _ => {},
            }
        },
        _ => {},
    }
}

/// Round trip, first half: the canonical encoding of a config decodes
/// back to that very config. Together with the contract of
/// [`decode_config`] this says that decoding an encoded config always
/// succeeds.
pub proof fn lemma_encode_decodes_back(c: KubeConfig, v: DocValue)
    requires
        config_encodes_to(c, v),
    ensures
        config_decodes_from(v, c),
{
    reveal_strlit("apiVersion");
    reveal_strlit("kind");
    reveal_strlit("clusters");
    reveal_strlit("contexts");
    reveal_strlit("current-context");
    reveal_strlit("users");
    assert("apiVersion"@.len() == 10);
    assert("kind"@.len() == 4);
    assert("clusters"@.len() == 8);
    assert("contexts"@.len() == 8);
    assert("current-context"@.len() == 15);
    assert("users"@.len() == 5);
    assert("clusters"@[1] == 'l');
    assert("contexts"@[1] == 'o');
    match v {
        DocValue::Mapping(pairs) => {
            assert(is_first_key_match(pairs@, "apiVersion"@, 0));
            lemma_key_at(pairs@, "apiVersion"@, 0);
            assert(is_first_key_match(pairs@, "kind"@, 1));
            lemma_key_at(pairs@, "kind"@, 1);
            assert(is_first_key_match(pairs@, "clusters"@, 2));
            lemma_key_at(pairs@, "clusters"@, 2);
            assert(is_first_key_match(pairs@, "contexts"@, 3));
            lemma_key_at(pairs@, "contexts"@, 3);
            assert(is_first_key_match(pairs@, "current-context"@, 4));
            lemma_key_at(pairs@, "current-context"@, 4);
            assert(is_first_key_match(pairs@, "users"@, 5));
            lemma_key_at(pairs@, "users"@, 5);
            match pairs@[2].1 {
                DocValue::List(citems) => {
                    assert forall|i: int| 0 <= i < citems@.len() implies named_cluster_decodes_from(
                        citems@[i],
                        #[trigger] c.clusters@[i],
                    ) by {
                        lemma_named_cluster_encode_decodes_back(c.clusters@[i], citems@[i]);
                    }
                },
                _ => {},
            }
            match pairs@[3].1 {
                DocValue::List(xitems) => {
                    assert forall|i: int| 0 <= i < xitems@.len() implies named_context_decodes_from(
                        xitems@[i],
                        #[trigger] c.contexts@[i],
                    ) by {
                        lemma_named_context_encode_decodes_back(c.contexts@[i], xitems@[i]);
                    }
                },
                _ => {},
            }
            match pairs@[5].1 {
                DocValue::List(uitems) => {
                    assert forall|i: int| 0 <= i < uitems@.len() implies named_user_decodes_from(
                        uitems@[i],
                        #[trigger] c.users@[i],
                    ) by {
                        lemma_named_user_encode_decodes_back(c.users@[i], uitems@[i]);
                    }
                },
                _ => {},
            }
        },
        _ => {},
    }
}

/// Decoding a cluster is deterministic: one document value decodes to at
/// most one cluster, up to field content.
proof fn lemma_cluster_decode_deterministic(v: DocValue, a: Cluster, b: Cluster)
    requires
        cluster_decodes_from(v, a),
        cluster_decodes_from(v, b),
    ensures
        cluster_like(a, b),
{
    match (a.certificate_authority_data, b.certificate_authority_data) {
        (Option::Some(x), Option::Some(y)) => {
            match v {
                DocValue::Mapping(pairs) => {
                    match key_value(pairs@, "certificate_authority_data"@) {
                        DocValue::List(items) => {
                            assert(is_byte_list(items@, x@));
                            assert(is_byte_list(items@, y@));
                            assert forall|i: int| 0 <= i < x@.len() implies x@[i] == y@[i] by {
                                assert(items@[i] == DocValue::Num(x@[i] as u64));
                                assert(items@[i] == DocValue::Num(y@[i] as u64));
                            }
                            assert(x@ =~= y@);
                        },
                        _ => {},
                    }
                },
                _ => {},
            }
        },
        _ => {},
    }
}

/// Decoding a named cluster is deterministic.
proof fn lemma_named_cluster_decode_deterministic(v: DocValue, a: NamedCluster, b: NamedCluster)
    requires
        named_cluster_decodes_from(v, a),
        named_cluster_decodes_from(v, b),
    ensures
        named_cluster_like(a, b),
{
    match v {
        DocValue::Mapping(pairs) => {
            lemma_cluster_decode_deterministic(
                key_value(pairs@, "cluster"@),
                a.cluster,
                b.cluster,
            );
        },
        _ => {},
    }
}

/// Decoding a named context is deterministic.
proof fn lemma_named_context_decode_deterministic(v: DocValue, a: NamedContext, b: NamedContext)
    requires
        named_context_decodes_from(v, a),
        named_context_decodes_from(v, b),
    ensures
        named_context_like(a, b),
{
}

/// Decoding a named user is deterministic.
proof fn lemma_named_user_decode_deterministic(v: DocValue, a: NamedUser, b: NamedUser)
    requires
        named_user_decodes_from(v, a),
        named_user_decodes_from(v, b),
    ensures
        named_user_like(a, b),
{
}

/// Round trip, second half: decoding is deterministic. One document
/// decodes to at most one config, up to field content, so decoding an
/// encoded document gives back the encoded config, field for field.
pub proof fn lemma_decode_deterministic(v: DocValue, a: KubeConfig, b: KubeConfig)
    requires
        config_decodes_from(v, a),
        config_decodes_from(v, b),
    ensures
        config_like(a, b),
{
    match v {
        DocValue::Mapping(pairs) => {
            match key_value(pairs@, "clusters"@) {
                DocValue::List(items) => {
                    assert forall|i: int| 0 <= i < a.clusters@.len() implies named_cluster_like(
                        #[trigger] a.clusters@[i],
                        b.clusters@[i],
                    ) by {
                        lemma_named_cluster_decode_deterministic(
                            items@[i],
                            a.clusters@[i],
                            b.clusters@[i],
                        );
                    }
                },
                _ => {},
            }
            match key_value(pairs@, "contexts"@) {
                DocValue::List(items) => {
                    assert forall|i: int| 0 <= i < a.contexts@.len() implies named_context_like(
                        #[trigger] a.contexts@[i],
                        b.contexts@[i],
                    ) by {
                        lemma_named_context_decode_deterministic(
                            items@[i],
                            a.contexts@[i],
                            b.contexts@[i],
                        );
                    }
                },
                _ => {},
            }
            match key_value(pairs@, "users"@) {
                DocValue::List(items) => {
                    assert forall|i: int| 0 <= i < a.users@.len() implies named_user_like(
                        #[trigger] a.users@[i],
                        b.users@[i],
                    ) by {
                        lemma_named_user_decode_deterministic(items@[i], a.users@[i], b.users@[i]);
                    }
                },
                _ => {},
            }
        },
        _ => {},
    }
}

} // verus!
