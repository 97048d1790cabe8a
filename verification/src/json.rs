//! JSON text, read and written by `serde_json`.
use crate::string_map::{distinct_keys, entries_map};
use std::collections::HashMap;
use vstd::prelude::*;

verus! {

/// What `serde_json` reads from `text` as an object whose members are all strings: the members,
/// the later of two with one name. `None` where it reads no such object.
pub uninterp spec fn json_strings(text: Seq<char>) -> Option<Map<Seq<char>, Seq<char>>>;

/// Calls `serde_json::from_str` for a map from strings to strings. The claim: it succeeds or fails
/// by the text alone, and on success hands out each member once, as `json_strings` has it. The
/// order of the members is left open: it is that of a hash map.
#[verifier::external_body]
pub(crate) fn read_strings(text: &str) -> (r: Option<Vec<(String, String)>>)
    ensures
        match r {
            Some(e) => distinct_keys(e@) && json_strings(text@) == Some(entries_map(e@)),
            None => json_strings(text@) is None,
        },
{
    let read = serde_json::from_str::<HashMap<String, String>>(text);
    read.ok().map(|members| members.into_iter().collect())
}

/// Calls `serde_json::to_string` on a map from strings to strings. The claim: it succeeds, since
/// every name is a string, and what it writes reads back as the same map. The order in which the
/// members are written is left open: it is that of a hash map.
#[verifier::external_body]
pub(crate) fn write_strings(entries: &Vec<(String, String)>) -> (r: Option<String>)
    requires
        distinct_keys(entries@),
    ensures
        r is Some,
        json_strings(r->0@) == Some(entries_map(entries@)),
{
    let members: HashMap<&String, &String> = entries.iter().map(|e| (&e.0, &e.1)).collect();
    serde_json::to_string(&members).ok()
}

/// The hexadecimal digit of `d`, in lower case.
pub open spec fn hex_digit(d: int) -> char
    recommends
        0 <= d < 16,
{
    if d < 10 {
        (48 + d) as char
    } else {
        (87 + d) as char
    }
}

/// How a character is written inside a JSON string: the quotation mark, the backslash and the
/// control characters below the space are escaped, every other character stands for itself.
pub open spec fn escaped_char(c: char) -> Seq<char> {
    if c == '"' || c == '\\' {
        seq!['\\', c]
    } else if c as int == 8 {
        seq!['\\', 'b']
    } else if c as int == 9 {
        seq!['\\', 't']
    } else if c as int == 10 {
        seq!['\\', 'n']
    } else if c as int == 12 {
        seq!['\\', 'f']
    } else if c as int == 13 {
        seq!['\\', 'r']
    } else if (c as int) < 32 {
        seq!['\\', 'u', '0', '0', hex_digit(c as int / 16), hex_digit(c as int % 16)]
    } else {
        seq![c]
    }
}

/// The characters of a string as they are written inside a JSON string.
pub open spec fn escaped(s: Seq<char>) -> Seq<char>
    decreases s.len(),
{
    if s.len() == 0 {
        Seq::empty()
    } else {
        escaped(s.drop_last()) + escaped_char(s.last())
    }
}

/// The JSON text of a string.
pub open spec fn json_quoted(s: Seq<char>) -> Seq<char> {
    seq!['"'] + escaped(s) + seq!['"']
}

/// Whether JSON writes every character of `s` as it stands: there is no quotation mark, no
/// backslash and no control character below the space.
pub open spec fn is_plain(s: Seq<char>) -> bool {
    forall|i: int|
        0 <= i < s.len() ==> (#[trigger] s[i]) as int >= 32 && s[i] != '"' && s[i] != '\\'
}

/// A plain string is written as it stands.
pub proof fn law_plain_string_is_not_escaped(s: Seq<char>)
    requires
        is_plain(s),
    ensures
        escaped(s) == s,
    decreases s.len(),
{
    if s.len() > 0 {
        let front = s.drop_last();
        assert forall|i: int| 0 <= i < front.len() implies (#[trigger] front[i]) as int >= 32
            && front[i] != '"' && front[i] != '\\' by {
            assert(front[i] == s[i]);
        }
        law_plain_string_is_not_escaped(front);
        assert(s.last() == s[s.len() - 1]);
        assert(escaped(s) =~= s);
    } else {
        assert(escaped(s) =~= s);
    }
}

/// Calls `serde_json::to_string` on a string. The claim: it succeeds, and writes the characters of
/// the string, escaped where JSON asks for it, between two quotation marks.
#[verifier::external_body]
pub(crate) fn write_string(s: &str) -> (r: String)
    ensures
        r@ == json_quoted(s@),
{
    serde_json::to_string(s).unwrap()
}

/// What is written for two strings one behind the other is what is written for each, one behind
/// the other.
pub proof fn law_escapes_stand_in_their_order(a: Seq<char>, b: Seq<char>)
    ensures
        escaped(a + b) == escaped(a) + escaped(b),
        escaped(Seq::<char>::empty()) == Seq::<char>::empty(),
    decreases b.len(),
{
    if b.len() == 0 {
        assert(a + b =~= a);
        assert(escaped(a) + escaped(b) =~= escaped(a));
    } else {
        law_escapes_stand_in_their_order(a, b.drop_last());
        assert((a + b).drop_last() =~= a + b.drop_last());
        assert((a + b).last() == b.last());
        assert(escaped(a + b) =~= escaped(a) + escaped(b));
    }
}

/// A character is written as it stands, unless it is a quotation mark, a backslash or a control
/// character below the space. The first two get a backslash in front; so do the letters that stand
/// for backspace, tab, line feed, form feed and carriage return; the others are written as four
/// hexadecimal digits.
pub proof fn law_escape_of_a_character(c: char)
    ensures
        escaped(seq![c]) == escaped_char(c),
        c as int >= 32 && c != '"' && c != '\\' ==> escaped_char(c) == seq![c],
        c == '"' || c == '\\' ==> escaped_char(c) == seq!['\\', c],
        c as int == 8 ==> escaped_char(c) == seq!['\\', 'b'],
        c as int == 9 ==> escaped_char(c) == seq!['\\', 't'],
        c as int == 10 ==> escaped_char(c) == seq!['\\', 'n'],
        c as int == 12 ==> escaped_char(c) == seq!['\\', 'f'],
        c as int == 13 ==> escaped_char(c) == seq!['\\', 'r'],
        (c as int) < 32 && !(8 <= c as int <= 10) && c as int != 12 && c as int != 13 ==> {
            let e = escaped_char(c);
            &&& e.len() == 6
            &&& e.take(4) == seq!['\\', 'u', '0', '0']
            &&& e[4] as int == 48 + c as int / 16
            &&& e[5] as int == (if c as int % 16 < 10 {
                48 + c as int % 16
            } else {
                87 + c as int % 16
            })
        },
{
    assert(seq![c].drop_last() =~= Seq::<char>::empty());
    reveal_with_fuel(escaped, 2);
    assert(escaped(seq![c]) =~= escaped_char(c));
    if (c as int) < 32 && !(8 <= c as int <= 10) && c as int != 12 && c as int != 13 {
        assert(escaped_char(c).take(4) =~= seq!['\\', 'u', '0', '0']);
    }
}

/// The JSON text of a string begins and ends with a quotation mark, and between them is what is
/// written for its characters.
pub proof fn law_json_text_is_quoted(s: Seq<char>)
    ensures
        json_quoted(s).len() == escaped(s).len() + 2,
        json_quoted(s)[0] == '"',
        json_quoted(s).last() == '"',
        json_quoted(s).subrange(1, json_quoted(s).len() - 1) == escaped(s),
{
    assert(json_quoted(s).subrange(1, json_quoted(s).len() - 1) =~= escaped(s));
}

/// A string is plain exactly where none of its characters is a quotation mark, a backslash or a
/// control character below the space.
pub proof fn law_plain_means_nothing_to_escape(s: Seq<char>)
    ensures
        is_plain(s) <==> forall|i: int|
            0 <= i < s.len() ==> (#[trigger] s[i]) as int >= 32 && s[i] != '"' && s[i] != '\\',
{
}

} // verus!
