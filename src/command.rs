//! Command lines and command output.
use vstd::prelude::*;
use crate::json::{Json, JsonModel};

verus! {

/// The words that `shell_words::split` makes of a command line, or `None`
/// where it reports an unterminated quote.
pub uninterp spec fn shell_split(s: Seq<char>) -> Option<Seq<Seq<char>>>;

/// Relies on `shell_words::split`: shell-style word splitting, which fails
/// only on malformed quoting; the result depends on the text alone.
#[verifier::external_body]
fn split_words(s: &str) -> (r: Option<Vec<String>>)
    ensures
        match shell_split(s@) {
            Some(ws) => r is Some && r->0@.map_values(|w: String| w@) == ws,
            None => r is None,
        },
{
    shell_words::split(s).ok()
}

/// The program and arguments of a command line, if it has well-formed
/// quoting and at least one word.
pub open spec fn command_words(s: Seq<char>) -> Option<(Seq<char>, Seq<Seq<char>>)> {
    match shell_split(s) {
        Some(ws) => if ws.len() > 0 {
            Some((ws[0], ws.drop_first()))
        } else {
            None
        },
        None => None,
    }
}

pub fn split_command(s: &str) -> (r: Option<(String, Vec<String>)>)
    ensures
        match command_words(s@) {
            Some((p, a)) => match r {
                Some((rp, ra)) => rp@ == p && ra@.map_values(|w: String| w@) == a,
                None => false,
            },
            None => r is None,
        },
{
    match split_words(s) {
        Some(mut words) => {
            if words.len() == 0 {
                return None;
            }
            let ghost ws = words@.map_values(|w: String| w@);
            let program = words.remove(0);
            assert(words@.map_values(|w: String| w@) =~= ws.drop_first());
            Some((program, words))
        },
        None => None,
    }
}

/// White space as `char::is_whitespace` defines it (the Unicode White_Space property).
pub open spec fn is_space(c: char) -> bool {
    ('\u{9}' <= c <= '\u{d}') || c == ' ' || c == '\u{85}' || c == '\u{a0}' || c == '\u{1680}'
        || ('\u{2000}' <= c <= '\u{200a}') || c == '\u{2028}' || c == '\u{2029}' || c == '\u{202f}'
        || c == '\u{205f}' || c == '\u{3000}'
}

fn space(c: char) -> (r: bool)
    ensures
        r == is_space(c),
{
    ('\u{9}' <= c && c <= '\u{d}') || c == ' ' || c == '\u{85}' || c == '\u{a0}' || c == '\u{1680}'
        || ('\u{2000}' <= c && c <= '\u{200a}') || c == '\u{2028}' || c == '\u{2029}' || c
        == '\u{202f}' || c == '\u{205f}' || c == '\u{3000}'
}

/// Where the trailing white space of `t[..j]` starts.
pub open spec fn space_start(t: Seq<char>, j: int) -> int
    decreases j,
{
    if 0 < j <= t.len() && is_space(t[j - 1]) {
        space_start(t, j - 1)
    } else {
        j
    }
}

/// `t` without trailing white space.
pub open spec fn trim_end(t: Seq<char>) -> Seq<char> {
    t.subrange(0, space_start(t, t.len() as int))
}

pub fn trimmed_end(t: &str) -> (r: String)
    ensures
        r@ == trim_end(t@),
{
    let n = t.unicode_len();
    let mut j = n;
    while j > 0 && space(t.get_char(j - 1))
        invariant
            n == t@.len(),
            j <= n,
            space_start(t@, n as int) == space_start(t@, j as int),
        decreases j,
    {
        j = j - 1;
    }
    String::from_str(t.substring_char(0, j))
}

/// The value of a command input: the output's JSON value when it parses,
/// else the output text, without trailing white space, as a string.
pub open spec fn command_value(text: Seq<char>, parsed: Option<JsonModel>) -> JsonModel {
    match parsed {
        Some(v) => v,
        None => JsonModel::Str(trim_end(text)),
    }
}

pub fn output_value(text: &String, parsed: &Option<Json>) -> (r: Json)
    ensures
        r@ == command_value(
            text@,
            match parsed {
                Some(v) => Some(v@),
                None => None,
            },
        ),
{
    match parsed {
        Some(v) => v.duplicate(),
        None => Json::Str(trimmed_end(text.as_str())),
    }
}

} // verus!
