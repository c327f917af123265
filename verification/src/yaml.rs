//! A plain-value model of a parsed YAML document.
//!
//! The descriptor schema is applied to a [`YamlValue`] tree, so all of the
//! schema logic (defaulting, flattening, strict enums) works on values that
//! the verifier can reason about directly.

use vstd::prelude::*;

verus! {

/// One node of a parsed YAML document.
///
/// Mappings keep their entries in document order; a later entry with the
/// same key shadows an earlier one (last-write-wins).  `Other` stands for
/// scalars the descriptor schema never accepts (floating-point numbers,
/// integers outside the signed 64-bit range, tagged values): such a node can
/// only sit under an ignored key or cause a type error.
pub enum YamlValue {
    Null,
    Bool(bool),
    Int(i64),
    Str(String),
    Sequence(Vec<YamlValue>),
    Mapping(Vec<(YamlValue, YamlValue)>),
    Other,
}

/// The value bound to string key `key` in mapping entries `entries`,
/// when the last entry whose key is the string `key` wins.
pub open spec fn lookup(entries: Seq<(YamlValue, YamlValue)>, key: Seq<char>) -> Option<YamlValue>
    decreases entries.len(),
{
    if entries.len() == 0 {
        None
    } else if entries.last().0 matches YamlValue::Str(s) && s@ == key {
        Some(entries.last().1)
    } else {
        lookup(entries.drop_last(), key)
    }
}

/// Character-by-character string comparison.
pub fn str_eq(a: &str, b: &str) -> (r: bool)
    ensures
        r == (a@ == b@),
{
    let la = a.unicode_len();
    let lb = b.unicode_len();
    if la != lb {
        assert(a@ != b@) by {
            assert(a@.len() != b@.len());
        }
        return false;
    }
    let mut i: usize = 0;
    while i < la
        invariant
            la == a@.len(),
            la == b@.len(),
            0 <= i <= la,
            forall|j: int| 0 <= j < i ==> a@[j] == b@[j],
        decreases la - i,
    {
        if a.get_char(i) != b.get_char(i) {
            return false;
        }
        i += 1;
    }
    proof {
        assert(a@ =~= b@);
    }
    true
}

/// Index of the last entry of `m` whose key is the string `key`, if any.
pub fn find_last_str_key(m: &Vec<(YamlValue, YamlValue)>, key: &str) -> (r: Option<usize>)
    ensures
        match r {
            Some(i) => i < m@.len() && lookup(m@, key@) == Some(m@[i as int].1),
            None => lookup(m@, key@) is None,
        },
{
    let n = m.len();
    let mut i: usize = n;
    proof {
        assert(m@.take(n as int) =~= m@);
    }
    while i > 0
        invariant
            n == m@.len(),
            0 <= i <= n,
            lookup(m@, key@) == lookup(m@.take(i as int), key@),
        decreases i,
    {
        proof {
            lemma_lookup_take(m@, key@, i as int);
        }
        i -= 1;
        match &m[i].0 {
            YamlValue::Str(s) => {
                if str_eq(s.as_str(), key) {
                    proof {
                        assert(m@.take(i + 1).last() == m@[i as int]);
                    }
                    return Some(i);
                }
            },
            _ => {},
        }
        proof {
            assert(m@.take(i + 1).drop_last() =~= m@.take(i as int));
        }
    }
    proof {
        assert(m@.take(0).len() == 0);
    }
    None
}

#[verifier::external_type_specification]
#[verifier::external_body]
pub struct ExSerdeYamlValue(serde_yaml::Value);

/// The document tree that YAML syntax parsing yields for `bytes`, or `None`
/// where the bytes do not form one well-formed YAML document.
pub uninterp spec fn yaml_doc_of(bytes: Seq<u8>) -> Option<YamlValue>;

/// Relies on serde_yaml::from_slice: whether the bytes parse, and the
/// document tree that comes out, depend on the bytes alone.
#[verifier::external_body]
pub(crate) fn parse_yaml_bytes(bytes: &[u8]) -> (r: Result<YamlValue, String>)
    ensures
        r matches Ok(v) ==> yaml_doc_of(bytes@) == Some(v),
        r matches Err(_) ==> yaml_doc_of(bytes@) is None,
{
    match serde_yaml::from_slice::<serde_yaml::Value>(bytes) {
        Ok(v) => Ok(yaml_tree(v)),
        Err(e) => Err(format!("{}", e)),
    }
}

/// Relies on serde_yaml::Value (and Number::as_i64): rebuilds the parsed
/// document, node for node, as the library's own value type.
#[verifier::external_body]
fn yaml_tree(v: serde_yaml::Value) -> YamlValue {
    match v {
        serde_yaml::Value::Null => YamlValue::Null,
        serde_yaml::Value::Bool(b) => YamlValue::Bool(b),
        serde_yaml::Value::Number(n) => n.as_i64().map_or(YamlValue::Other, YamlValue::Int),
        serde_yaml::Value::String(s) => YamlValue::Str(s),
        serde_yaml::Value::Sequence(s) => YamlValue::Sequence(
            s.into_iter().map(yaml_tree).collect(),
        ),
        serde_yaml::Value::Mapping(m) => YamlValue::Mapping(
            m.into_iter().map(|(k, w)| (yaml_tree(k), yaml_tree(w))).collect(),
        ),
        serde_yaml::Value::Tagged(_) => YamlValue::Other,
    }
}

/// `lookup` over a prefix is unchanged when the dropped last entry does not
/// match the key.
proof fn lemma_lookup_take(s: Seq<(YamlValue, YamlValue)>, key: Seq<char>, i: int)
    requires
        0 < i <= s.len(),
    ensures
        !(s.take(i).last().0 matches YamlValue::Str(t) && t@ == key) ==> lookup(
            s.take(i),
            key,
        ) == lookup(s.take(i - 1), key),
        (s.take(i).last().0 matches YamlValue::Str(t) && t@ == key) ==> lookup(s.take(i), key)
            == Some(s[i - 1].1),
{
    assert(s.take(i).drop_last() =~= s.take(i - 1));
    assert(s.take(i).last() == s[i - 1]);
}

} // verus!
