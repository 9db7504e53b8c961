//! What a Chromium browser's `Local State` file says about its profiles:
//! the profile used last, the profiles with open windows, and the display
//! names of profile directories. The file is JSON, read with `serde_json`.

use vstd::prelude::*;

use crate::text::is_blank_spec;

verus! {

/// The string that JSON text `bytes` holds at JSON pointer `pointer`
/// (`serde_json::from_slice::<Value>`, then `Value::pointer` and
/// `Value::as_str`): `None` where the bytes are not JSON, nothing is at the
/// pointer, or what is there is not a string.
pub uninterp spec fn json_text_at(bytes: Seq<u8>, pointer: Seq<char>) -> Option<Seq<char>>;

/// The array that JSON text `bytes` holds at `pointer`, each element taken
/// as a string where it is one (`Value::as_array`, then `Value::as_str` on
/// each element, in order): `None` where the bytes are not JSON, nothing is
/// at the pointer, or what is there is not an array.
pub uninterp spec fn json_array_texts_at(bytes: Seq<u8>, pointer: Seq<char>) -> Option<Seq<Option<Seq<char>>>>;

/// The object that JSON text `bytes` holds at `pointer`: for each entry, in
/// the order `serde_json::Map` iterates them, the key and the string that
/// the entry's value holds under `field` (`Value::as_object`, then
/// `Value::get` and `Value::as_str` on each value): `None` where the bytes
/// are not JSON, nothing is at the pointer, or what is there is not an
/// object.
pub uninterp spec fn json_object_field_texts_at(bytes: Seq<u8>, pointer: Seq<char>, field: Seq<char>) -> Option<Seq<(Seq<char>, Option<Seq<char>>)>>;

/// Calls `serde_json::from_slice::<serde_json::Value>`, `Value::pointer`
/// and `Value::as_str`; the contract claims only that the result is the
/// named function of the bytes and the pointer.
#[verifier::external_body]
fn json_text(bytes: &[u8], pointer: &str) -> (r: Option<String>)
    ensures
        crate::web_url::opt_text(r) == json_text_at(bytes@, pointer@),
{
    match serde_json::from_slice::<serde_json::Value>(bytes) {
        Ok(value) => value.pointer(pointer).and_then(|v| v.as_str()).map(|s| s.to_string()),
        Err(_) => None,
    }
}

/// The texts of a list of optional strings.
pub open spec fn opt_texts(v: Seq<Option<String>>) -> Seq<Option<Seq<char>>> {
    v.map_values(|o: Option<String>| crate::web_url::opt_text(o))
}

/// Calls `serde_json::from_slice::<serde_json::Value>`, `Value::pointer`,
/// `Value::as_array` and `Value::as_str` on each element; the contract
/// claims only that the result is the named function of the bytes and the
/// pointer.
#[verifier::external_body]
fn json_array_texts(bytes: &[u8], pointer: &str) -> (r: Option<Vec<Option<String>>>)
    ensures
        match r {
            Some(v) => json_array_texts_at(bytes@, pointer@) == Some(opt_texts(v@)),
            None => json_array_texts_at(bytes@, pointer@) is None,
        },
{
    match serde_json::from_slice::<serde_json::Value>(bytes) {
        Ok(value) => value.pointer(pointer).and_then(|v| v.as_array()).map(
            |items| items.iter().map(|item| item.as_str().map(|s| s.to_string())).collect(),
        ),
        Err(_) => None,
    }
}

/// The texts of a list of (key, optional string) entries.
pub open spec fn entry_texts(v: Seq<(String, Option<String>)>) -> Seq<(Seq<char>, Option<Seq<char>>)> {
    v.map_values(|e: (String, Option<String>)| (e.0@, crate::web_url::opt_text(e.1)))
}

/// Calls `serde_json::from_slice::<serde_json::Value>`, `Value::pointer`,
/// `Value::as_object`, and `Value::get` and `Value::as_str` on each entry's
/// value; the contract claims only that the result is the named function of
/// the bytes, the pointer and the field.
#[verifier::external_body]
fn json_object_field_texts(bytes: &[u8], pointer: &str, field: &str) -> (r: Option<Vec<(String, Option<String>)>>)
    ensures
        match r {
            Some(v) => json_object_field_texts_at(bytes@, pointer@, field@) == Some(entry_texts(v@)),
            None => json_object_field_texts_at(bytes@, pointer@, field@) is None,
        },
{
    match serde_json::from_slice::<serde_json::Value>(bytes) {
        Ok(value) => value.pointer(pointer).and_then(|v| v.as_object()).map(
            |entries| entries.iter().map(
                |(key, v)| (key.clone(), v.get(field).and_then(|n| n.as_str()).map(|s| s.to_string())),
            ).collect(),
        ),
        Err(_) => None,
    }
}

/// The profile a `Local State` names as used last, where it names a
/// non-blank one.
pub open spec fn last_used_spec(value: Option<Seq<char>>) -> Option<Seq<char>> {
    match value {
        Some(v) => if is_blank_spec(v) {
            None
        } else {
            Some(v)
        },
        None => None,
    }
}

/// Keeps a non-blank profile name.
pub fn last_used_profile(value: Option<&str>) -> (r: Option<String>)
    ensures
        crate::web_url::opt_text(r) == last_used_spec(
            match value {
                Some(v) => Some(v@),
                None => None,
            },
        ),
{
    match value {
        Some(v) => if crate::text::is_blank(v) {
            None
        } else {
            Some(v.to_owned())
        },
        None => None,
    }
}

/// The profile that a Chromium `Local State` names as used last
/// (`profile.last_used`), blank or not.
pub fn last_used_text(bytes: &[u8]) -> (r: Option<String>)
    ensures
        crate::web_url::opt_text(r) == json_text_at(bytes@, "/profile/last_used"@),
{
    json_text(bytes, "/profile/last_used")
}

/// The profile that a Chromium `Local State` names as used last
/// (`profile.last_used`), where it names a non-blank one.
pub fn parse_last_used_profile_id(bytes: &[u8]) -> (r: Option<String>)
    ensures
        crate::web_url::opt_text(r) == last_used_spec(json_text_at(bytes@, "/profile/last_used"@)),
{
    let value = json_text(bytes, "/profile/last_used");
    match &value {
        Some(v) => last_used_profile(Some(v.as_str())),
        None => last_used_profile(None),
    }
}

/// The non-blank strings among the first `n` values, each once, in order
/// of first appearance.
pub open spec fn distinct_named_upto(values: Seq<Option<Seq<char>>>, n: int) -> Seq<Seq<char>>
    decreases n,
{
    if n <= 0 {
        Seq::empty()
    } else {
        let prev = distinct_named_upto(values, n - 1);
        match values[n - 1] {
            Some(v) => if !is_blank_spec(v) && !prev.contains(v) {
                prev.push(v)
            } else {
                prev
            },
            None => prev,
        }
    }
}

/// The profiles with open windows that a list read from `Local State`
/// gives: its non-blank strings, each once, in order.
pub open spec fn active_profiles_spec(values: Option<Seq<Option<Seq<char>>>>) -> Seq<Seq<char>> {
    match values {
        Some(vs) => distinct_named_upto(vs, vs.len() as int),
        None => Seq::empty(),
    }
}

/// Keeps the non-blank strings of a list, each once, in order.
pub fn active_profiles_from(values: Option<Vec<Option<String>>>) -> (r: Vec<String>)
    ensures
        crate::text::string_texts(r@) == active_profiles_spec(
            match values {
                Some(v) => Some(opt_texts(v@)),
                None => None,
            },
        ),
{
    let values = match values {
        Some(v) => v,
        None => {
            let r: Vec<String> = Vec::new();
            assert(crate::text::string_texts(r@) =~= Seq::<Seq<char>>::empty());
            return r;
        },
    };
    let ghost vs = opt_texts(values@);
    let mut out: Vec<String> = Vec::new();
    let mut i: usize = 0;
    assert(crate::text::string_texts(out@) =~= Seq::<Seq<char>>::empty());
    while i < values.len()
        invariant
            vs == opt_texts(values@),
            i <= values@.len(),
            crate::text::string_texts(out@) == distinct_named_upto(vs, i as int),
        decreases values.len() - i,
    {
        assert(vs[i as int] == crate::web_url::opt_text(values@[i as int]));
        match &values[i] {
            Some(v) => {
                proof {
                    crate::guard::lemma_text_set_contains(out@, v@);
                }
                if !crate::text::is_blank(v.as_str()) && !crate::guard::text_list_holds(&out, v.as_str()) {
                    let ghost before = crate::text::string_texts(out@);
                    out.push(v.clone());
                    assert(crate::text::string_texts(out@) =~= before.push(v@));
                }
            },
            None => {},
        }
        i = i + 1;
    }
    out
}

/// The profiles with open windows that a Chromium `Local State` lists
/// (`profile.last_active_profiles`): non-blank, each once, in order.
pub fn parse_active_profile_ids(bytes: &[u8]) -> (r: Vec<String>)
    ensures
        crate::text::string_texts(r@) == active_profiles_spec(
            json_array_texts_at(bytes@, "/profile/last_active_profiles"@),
        ),
{
    let values = json_array_texts(bytes, "/profile/last_active_profiles");
    active_profiles_from(values)
}

/// The (directory, display name) pairs among the first `n` entries whose
/// name is a non-blank string.
pub open spec fn named_entries_upto(entries: Seq<(Seq<char>, Option<Seq<char>>)>, n: int) -> Seq<(Seq<char>, Seq<char>)>
    decreases n,
{
    if n <= 0 {
        Seq::empty()
    } else {
        let prev = named_entries_upto(entries, n - 1);
        match entries[n - 1].1 {
            Some(name) => if !is_blank_spec(name) {
                prev.push((entries[n - 1].0, name))
            } else {
                prev
            },
            None => prev,
        }
    }
}

/// The display names that the entries of `profile.info_cache` give.
pub open spec fn display_names_spec(entries: Option<Seq<(Seq<char>, Option<Seq<char>>)>>) -> Seq<(Seq<char>, Seq<char>)> {
    match entries {
        Some(es) => named_entries_upto(es, es.len() as int),
        None => Seq::empty(),
    }
}

/// The texts of a list of string pairs.
pub open spec fn pair_texts(v: Seq<(String, String)>) -> Seq<(Seq<char>, Seq<char>)> {
    v.map_values(|e: (String, String)| (e.0@, e.1@))
}

/// Keeps the entries that carry a non-blank name, in order.
pub fn display_names_from(entries: Option<Vec<(String, Option<String>)>>) -> (r: Vec<(String, String)>)
    ensures
        pair_texts(r@) == display_names_spec(
            match entries {
                Some(v) => Some(entry_texts(v@)),
                None => None,
            },
        ),
{
    let entries = match entries {
        Some(v) => v,
        None => {
            let r: Vec<(String, String)> = Vec::new();
            assert(pair_texts(r@) =~= Seq::<(Seq<char>, Seq<char>)>::empty());
            return r;
        },
    };
    let ghost es = entry_texts(entries@);
    let mut out: Vec<(String, String)> = Vec::new();
    let mut i: usize = 0;
    assert(pair_texts(out@) =~= Seq::<(Seq<char>, Seq<char>)>::empty());
    while i < entries.len()
        invariant
            es == entry_texts(entries@),
            i <= entries@.len(),
            pair_texts(out@) == named_entries_upto(es, i as int),
        decreases entries.len() - i,
    {
        let entry = &entries[i];
        assert(es[i as int] == (entry.0@, crate::web_url::opt_text(entry.1)));
        match &entry.1 {
            Some(name) => {
                if !crate::text::is_blank(name.as_str()) {
                    let ghost before = pair_texts(out@);
                    out.push((entry.0.clone(), name.clone()));
                    assert(pair_texts(out@) =~= before.push((entry.0@, name@)));
                }
            },
            None => {},
        }
        i = i + 1;
    }
    out
}

/// The display names of profile directories that a Chromium `Local State`
/// gives (`profile.info_cache.<dir>.name`), non-blank ones only; an
/// unreadable file gives none.
pub fn read_profile_display_names(local_state: Option<&[u8]>) -> (r: Vec<(String, String)>)
    ensures
        pair_texts(r@) == match local_state {
            Some(bytes) => display_names_spec(
                json_object_field_texts_at(bytes@, "/profile/info_cache"@, "name"@),
            ),
            None => Seq::empty(),
        },
{
    match local_state {
        Some(bytes) => {
            let entries = json_object_field_texts(bytes, "/profile/info_cache", "name");
            display_names_from(entries)
        },
        None => {
            let r: Vec<(String, String)> = Vec::new();
            assert(pair_texts(r@) =~= Seq::<(Seq<char>, Seq<char>)>::empty());
            r
        },
    }
}

} // verus!
