//! JSON text: string literals for responses and flat string-to-string
//! objects read from upstream answers, both through `serde_json`.

use std::collections::HashMap;
use vstd::prelude::*;

verus! {

/// The lower-case hexadecimal digit for `d` (0 to 15).
pub open spec fn hex_digit(d: int) -> char {
    if d < 10 {
        ('0' as int + d) as char
    } else {
        ('a' as int + d - 10) as char
    }
}

/// How `serde_json` writes character `c` inside a string literal: quote and
/// backslash behind a backslash, the five control characters with a short
/// escape as such, every other control character as `\u00xx`, anything else
/// as it is.
pub open spec fn escape_char(c: char) -> Seq<char> {
    if c == '"' {
        seq!['\\', '"']
    } else if c == '\\' {
        seq!['\\', '\\']
    } else if c == '\x08' {
        seq!['\\', 'b']
    } else if c == '\t' {
        seq!['\\', 't']
    } else if c == '\n' {
        seq!['\\', 'n']
    } else if c == '\x0c' {
        seq!['\\', 'f']
    } else if c == '\r' {
        seq!['\\', 'r']
    } else if (c as int) < 0x20 {
        seq!['\\', 'u', '0', '0', hex_digit(c as int / 16), hex_digit(c as int % 16)]
    } else {
        seq![c]
    }
}

/// The characters of `s`, each escaped.
pub open spec fn escape_chars(s: Seq<char>) -> Seq<char>
    decreases s.len(),
{
    if s.len() == 0 {
        seq![]
    } else {
        escape_chars(s.drop_last()) + escape_char(s.last())
    }
}

/// Text with no quote, no backslash and no control character is written as
/// it is.
pub proof fn lemma_plain_text_unescaped(s: Seq<char>)
    requires
        forall|i: int| 0 <= i < s.len() ==> #[trigger] s[i] != '"' && s[i] != '\\' && (s[i] as int)
            >= 0x20,
    ensures
        escape_chars(s) == s,
    decreases s.len(),
{
    if s.len() > 0 {
        let init = s.drop_last();
        assert forall|i: int| 0 <= i < init.len() implies #[trigger] init[i] != '"' && init[i]
            != '\\' && (init[i] as int) >= 0x20 by {
            assert(init[i] == s[i]);
        }
        lemma_plain_text_unescaped(init);
        assert(s.last() == s[s.len() - 1]);
        assert(escape_chars(s) =~= s);
    }
}

/// Escaping works character by character: the escape of two texts one after
/// the other is the escape of the first followed by that of the second.
pub proof fn lemma_escape_concat(s: Seq<char>, t: Seq<char>)
    ensures
        escape_chars(s + t) == escape_chars(s) + escape_chars(t),
    decreases t.len(),
{
    if t.len() == 0 {
        assert(s + t =~= s);
        assert(escape_chars(s) + escape_chars(t) =~= escape_chars(s));
    } else {
        lemma_escape_concat(s, t.drop_last());
        assert((s + t).drop_last() =~= s + t.drop_last());
        assert((s + t).last() == t.last());
        assert(escape_chars(s + t) =~= escape_chars(s) + escape_chars(t));
    }
}

/// The JSON string literal `serde_json` writes for `s`: its characters,
/// escaped, between double quotes.
pub open spec fn json_string_literal(s: Seq<char>) -> Seq<char> {
    seq!['"'] + escape_chars(s) + seq!['"']
}

/// The flat object `serde_json` reads from `bytes` as a map from string to
/// string, or `None` where the text is not such an object.
pub uninterp spec fn json_string_object(bytes: Seq<u8>) -> Option<Map<Seq<char>, Seq<char>>>;

/// Writes `s` as a JSON string literal with `serde_json::to_string`.
/// Claimed of it: the result is `json_string_literal(s)`, as the escape table
/// and `write_char_escape` of `serde_json::ser` give it. Serialising a `str`
/// does not fail; the empty string would stand for a failure.
#[verifier::external_body]
pub(crate) fn json_string(s: &str) -> (r: String)
    ensures
        r@ == json_string_literal(s@),
{
    serde_json::to_string(s).unwrap_or_default()
}

/// The pairs of `v` by their views.
pub open spec fn pairs_view(v: Seq<(String, String)>) -> Seq<(Seq<char>, Seq<char>)> {
    v.map_values(|p: (String, String)| (p.0@, p.1@))
}

/// No key occurs twice in `s`.
pub open spec fn distinct_keys(s: Seq<(Seq<char>, Seq<char>)>) -> bool {
    forall|i: int, j: int| 0 <= i < s.len() && 0 <= j < s.len() && #[trigger] s[i].0 == #[trigger] s[j].0 ==> i == j
}

/// The map that a sequence of pairs with distinct keys stands for.
pub open spec fn pairs_map(s: Seq<(Seq<char>, Seq<char>)>) -> Map<Seq<char>, Seq<char>> {
    Map::new(
        |k: Seq<char>| exists|i: int| 0 <= i < s.len() && s[i].0 == k,
        |k: Seq<char>| s[choose|i: int| 0 <= i < s.len() && s[i].0 == k].1,
    )
}

/// Reads `bytes` as a JSON object of strings with
/// `serde_json::from_slice::<HashMap<String, String>>`, the call that
/// `reqwest`'s `json` makes, and hands out its entries.
/// Claimed of it: `None` exactly where the named object is `None`, else the
/// entries have distinct keys and stand for the named object. Their order is
/// the hash map's and is left unsaid.
#[verifier::external_body]
pub(crate) fn parse_string_object(bytes: &[u8]) -> (r: Option<Vec<(String, String)>>)
    ensures
        match r {
            None => json_string_object(bytes@) is None,
            Some(v) => distinct_keys(pairs_view(v@)) && json_string_object(bytes@) == Some(
                pairs_map(pairs_view(v@)),
            ),
        },
{
    match serde_json::from_slice::<HashMap<String, String>>(bytes) {
        Ok(map) => Some(map.into_iter().collect()),
        Err(_) => None,
    }
}

/// The value stored under `key`, if any.
pub open spec fn map_get(m: Map<Seq<char>, Seq<char>>, key: Seq<char>) -> Option<Seq<char>> {
    if m.contains_key(key) {
        Some(m[key])
    } else {
        None
    }
}

/// The value stored under `key` among `entries`, whose keys are distinct.
pub fn lookup(entries: &Vec<(String, String)>, key: &String) -> (r: Option<String>)
    requires
        distinct_keys(pairs_view(entries@)),
    ensures
        match r {
            None => map_get(pairs_map(pairs_view(entries@)), key@) is None,
            Some(v) => map_get(pairs_map(pairs_view(entries@)), key@) == Some(v@),
        },
{
    let ghost s = pairs_view(entries@);
    let mut i: usize = 0;
    while i < entries.len()
        invariant
            s == pairs_view(entries@),
            distinct_keys(s),
            i <= entries.len(),
            forall|j: int| 0 <= j < i ==> s[j].0 != key@,
        decreases entries.len() - i,
    {
        if entries[i].0 == *key {
            let v = entries[i].1.clone();
            proof {
                assert(s[i as int].0 == key@);
                let c = choose|j: int| 0 <= j < s.len() && s[j].0 == key@;
                assert(s[c].0 == s[i as int].0);
            }
            return Some(v);
        }
        i += 1;
    }
    proof {
        assert forall|j: int| 0 <= j < s.len() implies s[j].0 != key@ by {}
    }
    None
}

} // verus!
