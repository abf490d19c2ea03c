//! YAML, read and written by `serde_yaml`. What it reads and writes is named here.
use vstd::prelude::*;

verus! {

/// What `serde_yaml::from_str::<Mapping>` reads from a text at a top-level key,
/// as a string: `None` where the text is not a mapping; `Some(None)` where the
/// key is missing or not a string.
pub uninterp spec fn yaml_top_str(text: Seq<char>, key: Seq<char>) -> Option<Option<Seq<char>>>;

/// What `serde_yaml::to_string` writes for a mapping of one key to a string.
pub uninterp spec fn yaml_pair(key: Seq<char>, value: Seq<char>) -> Option<Seq<char>>;

/// What `serde_yaml` writes for the mapping of a text with a top-level key set to
/// a string (`Mapping::insert`).
pub uninterp spec fn yaml_with(text: Seq<char>, key: Seq<char>, value: Seq<char>) -> Option<Seq<char>>;

/// Calls `serde_yaml::from_str::<Mapping>` and reads the string at a key; named
/// `yaml_top_str`. An error is given by its message.
#[verifier::external_body]
pub(crate) fn yaml_read_str(text: &str, key: &str) -> (r: Result<Option<String>, String>)
    ensures
        r matches Ok(o) ==> yaml_top_str(text@, key@) == Some(
            match o {
                Some(s) => Some(s@),
                None => None::<Seq<char>>,
            },
        ),
        r is Err ==> yaml_top_str(text@, key@) is None,
{
    let m = serde_yaml::from_str::<serde_yaml::Mapping>(text).map_err(|e| e.to_string())?;
    Ok(m.get(key).and_then(|v| v.as_str()).map(|s| s.to_string()))
}

/// Calls `serde_yaml::to_string` on a mapping of one key to a string; named
/// `yaml_pair`. An error is given by its message.
#[verifier::external_body]
pub(crate) fn yaml_write_pair(key: &str, value: &str) -> (r: Result<String, String>)
    ensures
        r matches Ok(s) ==> yaml_pair(key@, value@) == Some(s@),
        r is Err ==> yaml_pair(key@, value@) is None,
{
    let mut m = serde_yaml::Mapping::new();
    m.insert(serde_yaml::Value::String(key.to_string()), serde_yaml::Value::String(value.to_string()));
    serde_yaml::to_string(&m).map_err(|e| e.to_string())
}

/// Reads a text as a mapping with `serde_yaml::from_str`, sets a top-level key to a
/// string with `Mapping::insert` and writes it with `serde_yaml::to_string`; named
/// `yaml_with`. An error is given by its message.
#[verifier::external_body]
pub(crate) fn yaml_set_str(text: &str, key: &str, value: &str) -> (r: Result<String, String>)
    ensures
        r matches Ok(s) ==> yaml_with(text@, key@, value@) == Some(s@),
        r is Err ==> yaml_with(text@, key@, value@) is None,
{
    let mut m = serde_yaml::from_str::<serde_yaml::Mapping>(text).map_err(|e| e.to_string())?;
    m.insert(serde_yaml::Value::String(key.to_string()), serde_yaml::Value::String(value.to_string()));
    serde_yaml::to_string(&m).map_err(|e| e.to_string())
}

} // verus!
