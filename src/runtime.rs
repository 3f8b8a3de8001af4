use vstd::prelude::*;

verus! {

/// The runtime tag used when the environment names none.
pub const DEFAULT_RUNTIME: &'static str = "dev";

/// The JSON text that stands in the script when the tag cannot be encoded.
pub const DEFAULT_RUNTIME_JSON: &'static str = "\"dev\"";

/// The assignment that the tag's JSON text completes.
pub const RUNTIME_SCRIPT_HEAD: &'static str = "window.__MTGA_RUNTIME__ = ";

pub const RUNTIME_SCRIPT_TAIL: &'static str = ";";

/// Whether `c` has the Unicode `White_Space` property.
pub open spec fn is_white_space(c: char) -> bool {
    let u = c as u32;
    ||| 0x9 <= u <= 0xd
    ||| u == 0x20
    ||| u == 0x85
    ||| u == 0xa0
    ||| u == 0x1680
    ||| 0x2000 <= u <= 0x200a
    ||| u == 0x2028
    ||| u == 0x2029
    ||| u == 0x202f
    ||| u == 0x205f
    ||| u == 0x3000
}

/// `s` without its leading white space.
pub open spec fn trim_start_of(s: Seq<char>) -> Seq<char>
    decreases s.len(),
{
    if s.len() > 0 && is_white_space(s[0]) {
        trim_start_of(s.drop_first())
    } else {
        s
    }
}

/// `s` without its trailing white space.
pub open spec fn trim_end_of(s: Seq<char>) -> Seq<char>
    decreases s.len(),
{
    if s.len() > 0 && is_white_space(s.last()) {
        trim_end_of(s.drop_last())
    } else {
        s
    }
}

/// `s` without its leading and trailing white space.
pub open spec fn trimmed(s: Seq<char>) -> Seq<char> {
    trim_end_of(trim_start_of(s))
}

/// The lowercase mapping of `s`.
pub uninterp spec fn lowercased(s: Seq<char>) -> Seq<char>;

/// The lower-case hexadecimal digit of `d`, below sixteen.
pub open spec fn hex_digit(d: u32) -> char {
    seq!['0', '1', '2', '3', '4', '5', '6', '7', '8', '9', 'a', 'b', 'c', 'd', 'e', 'f'][d as int]
}

/// How a JSON string literal writes the character `c`: quote, backslash and
/// the control characters below U+0020 are escaped, all else stands as is.
pub open spec fn json_escape(c: char) -> Seq<char> {
    let u = c as u32;
    if c == '"' {
        seq!['\\', '"']
    } else if c == '\\' {
        seq!['\\', '\\']
    } else if u == 0x8 {
        seq!['\\', 'b']
    } else if u == 0x9 {
        seq!['\\', 't']
    } else if u == 0xa {
        seq!['\\', 'n']
    } else if u == 0xc {
        seq!['\\', 'f']
    } else if u == 0xd {
        seq!['\\', 'r']
    } else if u < 0x20 {
        seq!['\\', 'u', '0', '0', hex_digit(u / 16), hex_digit(u % 16)]
    } else {
        seq![c]
    }
}

/// The escaped characters of `s`, in order.
pub open spec fn json_escaped(s: Seq<char>) -> Seq<char>
    decreases s.len(),
{
    if s.len() == 0 {
        Seq::empty()
    } else {
        json_escaped(s.drop_last()) + json_escape(s.last())
    }
}

/// The JSON string literal of `s`: its escaped characters between quotes.
pub open spec fn json_string_text(s: Seq<char>) -> Seq<char> {
    seq!['"'] + json_escaped(s) + seq!['"']
}

/// Relies on `str::trim`: leading and trailing characters with the Unicode
/// `White_Space` property removed.
#[verifier::external_body]
fn trim_text(s: &str) -> (r: &str)
    ensures
        r@ == trimmed(s@),
{
    s.trim()
}

/// Relies on `str::to_lowercase`: the result depends on the characters alone.
#[verifier::external_body]
fn lowercase_text(s: &str) -> (r: String)
    ensures
        r@ == lowercased(s@),
{
    s.to_lowercase()
}

/// Relies on `serde_json::to_string` for a `str`: the JSON string literal of
/// `s`, escaped as `format_escaped_str` does. It writes into a `Vec`, so it
/// never reports an error for a `str`.
#[verifier::external_body]
fn encode_json_string(s: &str) -> (r: Option<String>)
    ensures
        r is Some,
        r matches Some(t) ==> t@ == json_string_text(s@),
{
    serde_json::to_string(s).ok()
}

/// The runtime tag, from the value that the environment gave (if any):
/// trimmed and lowercased, `dev` by default.
pub fn runtime_tag(raw: Option<&str>) -> (r: String)
    ensures
        r@ == lowercased(trimmed(
            match raw {
                Some(s) => s@,
                None => DEFAULT_RUNTIME@,
            },
        )),
{
    let text = match raw {
        Some(s) => s,
        None => DEFAULT_RUNTIME,
    };
    lowercase_text(trim_text(text))
}

/// The script that publishes the runtime tag to the page, given the tag's
/// JSON text; without one, the default tag's text stands in.
pub fn runtime_script_from_json(json: Option<String>) -> (r: String)
    ensures
        r@ == RUNTIME_SCRIPT_HEAD@ + match json {
            Some(t) => t@,
            None => DEFAULT_RUNTIME_JSON@,
        } + RUNTIME_SCRIPT_TAIL@,
{
    let mut script = String::from_str(RUNTIME_SCRIPT_HEAD);
    match json {
        Some(t) => script.append(t.as_str()),
        None => script.append(DEFAULT_RUNTIME_JSON),
    }
    script.append(RUNTIME_SCRIPT_TAIL);
    script
}

/// The script that publishes `tag` to the page.
pub fn runtime_tag_script(tag: &str) -> (r: String)
    ensures
        r@ == RUNTIME_SCRIPT_HEAD@ + json_string_text(tag@) + RUNTIME_SCRIPT_TAIL@,
{
    runtime_script_from_json(encode_json_string(tag))
}

} // verus!
