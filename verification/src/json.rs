//! JSON text as it goes on the wire. Objects with fixed member names are
//! written out literally by their callers; this module supplies the pieces
//! that depend on data: string literals, arrays of strings and objects
//! whose members are strings.

use vstd::prelude::*;
use vstd::string::*;

verus! {

/// The JSON string literal for a text: what `serde_json` writes for a
/// `Value::String` holding it, quotes and escapes included.
pub uninterp spec fn json_string_text(text: Seq<char>) -> Seq<char>;

/// Renders a text as a JSON string literal by `Display` of
/// `serde_json::Value::String`. The result depends on the text alone; the
/// contract names it and says nothing of its shape.
#[verifier::external_body]
pub(crate) fn json_string(text: &str) -> (literal: String)
    ensures
        literal@ == json_string_text(text@),
{
    serde_json::Value::String(text.to_string()).to_string()
}

/// The views of a sequence of strings.
pub open spec fn texts(items: Seq<String>) -> Seq<Seq<char>> {
    items.map_values(|s: String| s@)
}

/// The views of a sequence of string pairs.
pub open spec fn text_pairs(pairs: Seq<(String, String)>) -> Seq<(Seq<char>, Seq<char>)> {
    pairs.map_values(|p: (String, String)| (p.0@, p.1@))
}

/// Whether the text `a` stands before the text `b` in the order of a
/// dictionary, character by character, a shorter text before its
/// continuations. No text stands before itself.
pub open spec fn text_before(a: Seq<char>, b: Seq<char>) -> bool
    decreases a.len(),
{
    if b.len() == 0 {
        false
    } else if a.len() == 0 {
        true
    } else if a[0] != b[0] {
        a[0] < b[0]
    } else {
        text_before(a.drop_first(), b.drop_first())
    }
}

/// Whether the pairs are the members of a map, written in the order of
/// their keys: every key stands before the keys behind it, so that none
/// occurs twice.
pub open spec fn keys_ascend(pairs: Seq<(Seq<char>, Seq<char>)>) -> bool {
    forall|i: int, j: int|
        0 <= i < j < pairs.len() ==> text_before((#[trigger] pairs[i]).0, (#[trigger] pairs[j]).0)
}

/// The parts written one after another with `sep` between neighbours.
pub open spec fn joined(parts: Seq<Seq<char>>, sep: Seq<char>) -> Seq<char>
    decreases parts.len(),
{
    if parts.len() == 0 {
        Seq::empty()
    } else if parts.len() == 1 {
        parts[0]
    } else {
        joined(parts.drop_last(), sep) + sep + parts.last()
    }
}

/// One member of an object of strings: `"name":"value"`.
pub open spec fn member_text(pair: (Seq<char>, Seq<char>)) -> Seq<char> {
    json_string_text(pair.0) + ":"@ + json_string_text(pair.1)
}

/// A JSON object whose members are the given pairs of strings, in order.
/// It is the text of a map where the keys ascend.
pub open spec fn string_map_text(pairs: Seq<(Seq<char>, Seq<char>)>) -> Seq<char> {
    "{"@ + joined(pairs.map_values(|p: (Seq<char>, Seq<char>)| member_text(p)), ","@) + "}"@
}

/// A JSON array of the given strings, in order.
pub open spec fn string_array_text(items: Seq<Seq<char>>) -> Seq<char> {
    "["@ + joined(items.map_values(|s: Seq<char>| json_string_text(s)), ","@) + "]"@
}

/// A JSON array of already rendered values, in order.
pub open spec fn array_text(values: Seq<Seq<char>>) -> Seq<char> {
    "["@ + joined(values, ","@) + "]"@
}

/// A JSON string literal, or `null` for an absent text.
pub open spec fn optional_string_text(text: Option<Seq<char>>) -> Seq<char> {
    match text {
        Some(t) => json_string_text(t),
        None => "null"@,
    }
}

/// Decides whether the text `a` stands before the text `b`.
pub fn stands_before(a: &str, b: &str) -> (before: bool)
    ensures
        before == text_before(a@, b@),
{
    let la = a.unicode_len();
    let lb = b.unicode_len();
    let mut i: usize = 0;
    assert(a@.skip(0) =~= a@ && b@.skip(0) =~= b@);
    loop
        invariant
            la == a@.len(),
            lb == b@.len(),
            i <= la,
            i <= lb,
            text_before(a@, b@) == text_before(a@.skip(i as int), b@.skip(i as int)),
        decreases la - i,
    {
        if i == lb {
            return false;
        }
        if i == la {
            return true;
        }
        let ca = a.get_char(i);
        let cb = b.get_char(i);
        assert(a@.skip(i as int)[0] == ca && b@.skip(i as int)[0] == cb);
        if ca != cb {
            return ca < cb;
        }
        assert(a@.skip(i as int).drop_first() =~= a@.skip(i + 1));
        assert(b@.skip(i as int).drop_first() =~= b@.skip(i + 1));
        i = i + 1;
    }
}

/// Decides whether the pairs are the members of a map, written in the
/// order of their keys.
pub fn ascending(pairs: &Vec<(String, String)>) -> (ascend: bool)
    ensures
        ascend == keys_ascend(text_pairs(pairs@)),
{
    let mut j: usize = 0;
    while j < pairs.len()
        invariant
            j <= pairs.len(),
            forall|i: int, k: int|
                0 <= i < k < j ==> text_before(
                    (#[trigger] text_pairs(pairs@)[i]).0,
                    (#[trigger] text_pairs(pairs@)[k]).0,
                ),
        decreases pairs.len() - j,
    {
        let mut i: usize = 0;
        while i < j
            invariant
                i <= j < pairs.len(),
                forall|h: int|
                    0 <= h < i ==> text_before(
                        (#[trigger] text_pairs(pairs@)[h]).0,
                        text_pairs(pairs@)[j as int].0,
                    ),
            decreases j - i,
        {
            if !stands_before(pairs[i].0.as_str(), pairs[j].0.as_str()) {
                assert(!text_before(
                    text_pairs(pairs@)[i as int].0,
                    text_pairs(pairs@)[j as int].0,
                ));
                return false;
            }
            i = i + 1;
        }
        j = j + 1;
    }
    true
}

/// Joins the parts with `sep` between neighbours.
pub fn join(parts: &Vec<String>, sep: &str) -> (out: String)
    ensures
        out@ == joined(texts(parts@), sep@),
{
    let mut out = String::new();
    let mut i: usize = 0;
    while i < parts.len()
        invariant
            i <= parts.len(),
            out@ == joined(texts(parts@).take(i as int), sep@),
        decreases parts.len() - i,
    {
        let ghost done = texts(parts@).take(i as int);
        let ghost next = texts(parts@).take(i + 1);
        assert(next.drop_last() =~= done);
        assert(next.last() == parts@[i as int]@);
        if i > 0 {
            out.append(sep);
        } else {
            assert(out@ + parts@[i as int]@ =~= parts@[i as int]@);
        }
        out.append(parts[i].as_str());
        i = i + 1;
    }
    assert(texts(parts@).take(parts.len() as int) =~= texts(parts@));
    out
}

/// Renders a map from strings to strings as an object, the members in the
/// order of their keys.
pub fn string_map(pairs: &Vec<(String, String)>) -> (out: String)
    requires
        keys_ascend(text_pairs(pairs@)),
    ensures
        out@ == string_map_text(text_pairs(pairs@)),
{
    let mut members: Vec<String> = Vec::new();
    let mut i: usize = 0;
    let ghost want = text_pairs(pairs@).map_values(|p: (Seq<char>, Seq<char>)| member_text(p));
    while i < pairs.len()
        invariant
            i <= pairs.len(),
            want == text_pairs(pairs@).map_values(|p: (Seq<char>, Seq<char>)| member_text(p)),
            texts(members@) =~= want.take(i as int),
        decreases pairs.len() - i,
    {
        let mut member = json_string(pairs[i].0.as_str());
        member.append(":");
        let value = json_string(pairs[i].1.as_str());
        member.append(value.as_str());
        proof {
            assert(text_pairs(pairs@)[i as int] == (pairs@[i as int].0@, pairs@[i as int].1@));
            assert(want[i as int] == member@);
            assert(texts(members@.push(member)) =~= texts(members@).push(member@));
            assert(want.take(i + 1) =~= want.take(i as int).push(want[i as int]));
        }
        members.push(member);
        i = i + 1;
    }
    assert(want.take(pairs.len() as int) =~= want);
    let body = join(&members, ",");
    let mut out = String::from_str("{");
    out.append(body.as_str());
    out.append("}");
    out
}

/// Renders an array of strings, in the order given.
pub fn string_array(items: &Vec<String>) -> (out: String)
    ensures
        out@ == string_array_text(texts(items@)),
{
    let mut literals: Vec<String> = Vec::new();
    let mut i: usize = 0;
    let ghost want = texts(items@).map_values(|s: Seq<char>| json_string_text(s));
    while i < items.len()
        invariant
            i <= items.len(),
            want == texts(items@).map_values(|s: Seq<char>| json_string_text(s)),
            texts(literals@) =~= want.take(i as int),
        decreases items.len() - i,
    {
        let literal = json_string(items[i].as_str());
        proof {
            assert(want[i as int] == literal@);
            assert(texts(literals@.push(literal)) =~= texts(literals@).push(literal@));
            assert(want.take(i + 1) =~= want.take(i as int).push(want[i as int]));
        }
        literals.push(literal);
        i = i + 1;
    }
    assert(want.take(items.len() as int) =~= want);
    let body = join(&literals, ",");
    let mut out = String::from_str("[");
    out.append(body.as_str());
    out.append("]");
    out
}

/// Renders an array of already rendered values, in the order given.
pub fn array(values: &Vec<String>) -> (out: String)
    ensures
        out@ == array_text(texts(values@)),
{
    let body = join(values, ",");
    let mut out = String::from_str("[");
    out.append(body.as_str());
    out.append("]");
    out
}

/// Renders a string literal, or `null` for an absent text.
pub fn optional_string(text: &Option<String>) -> (out: String)
    ensures
        out@ == optional_string_text(
            match *text {
                Some(t) => Some(t@),
                None => None,
            },
        ),
{
    match text {
        Some(t) => json_string(t.as_str()),
        None => String::from_str("null"),
    }
}

} // verus!
