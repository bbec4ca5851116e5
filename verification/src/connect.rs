//! What the window tells a user who wants to connect an agent to the
//! application's MCP HTTP server: the endpoint, and the snippets that the
//! usual agent hosts take.

use crate::json::text;
use crate::literal::{decimal, write_decimal};
use vstd::prelude::*;

verus! {

/// The endpoint of the MCP HTTP server on `port`.
pub open spec fn url_spec(port: u16) -> Seq<char> {
    "http://127.0.0.1:"@ + decimal(port as nat) + "/mcp"@
}

/// The endpoint of the MCP HTTP server on `port`.
pub fn mcp_url(port: u16) -> (r: String)
    ensures
        r@ == url_spec(port),
{
    let mut r = text("http://127.0.0.1:");
    write_decimal(&mut r, port as usize);
    r.append("/mcp");
    r
}

/// The lower case of a text, as `str::to_lowercase` gives it.
pub uninterp spec fn lowercase(s: Seq<char>) -> Seq<char>;

/// `str::to_lowercase`: named as a function of the text.
#[verifier::external_body]
fn to_lower(s: &str) -> (r: String)
    ensures
        r@ == lowercase(s@),
{
    s.to_lowercase()
}

/// `String::push`: appends one character at the end, as std documents it.
pub assume_specification[ std::string::String::push ](s: &mut String, ch: char)
    ensures
        final(s)@ == old(s)@.push(ch),
;

/// `s` with every space replaced by a hyphen.
pub open spec fn hyphenated(s: Seq<char>) -> Seq<char> {
    s.map_values(|c: char| if c == ' ' { '-' } else { c })
}

/// The key under which a host's configuration names the application: its
/// name in lower case, spaces turned into hyphens.
pub fn app_slug(name: &str) -> (r: String)
    ensures
        r@ == hyphenated(lowercase(name@)),
{
    let lower = to_lower(name);
    let v = crate::literal::chars_of(lower.as_str());
    let mut r = String::new();
    let mut i: usize = 0;
    while i < v.len()
        invariant
            i <= v.len(),
            v@ == lowercase(name@),
            r@ == hyphenated(v@.subrange(0, i as int)),
        decreases v.len() - i,
    {
        let c = v[i];
        let d = if c == ' ' {
            '-'
        } else {
            c
        };
        r.push(d);
        assert(hyphenated(v@.subrange(0, i + 1)) =~= hyphenated(v@.subrange(0, i as int)).push(d));
        i = i + 1;
    }
    assert(v@.subrange(0, v@.len() as int) =~= v@);
    r
}

/// The `mcpServers` entry of a host configuration (`.mcp.json` and the
/// like).
pub open spec fn servers_json_spec(slug: Seq<char>, url: Seq<char>) -> Seq<char> {
    "{\n  \"mcpServers\": {\n    \""@ + slug + "\": {\n      \"type\": \"http\",\n      \"url\": \""@ + url
        + "\"\n    }\n  }\n}"@
}

/// The `mcpServers` entry of a host configuration.
pub fn servers_json(slug: &str, url: &str) -> (r: String)
    ensures
        r@ == servers_json_spec(slug@, url@),
{
    let mut r = text("{\n  \"mcpServers\": {\n    \"");
    r.append(slug);
    r.append("\": {\n      \"type\": \"http\",\n      \"url\": \"");
    r.append(url);
    r.append("\"\n    }\n  }\n}");
    r
}

/// The `mcp.servers` entry of an editor's settings (Cursor, VS Code).
pub open spec fn editor_json_spec(slug: Seq<char>, url: Seq<char>) -> Seq<char> {
    "{\n  \"mcp\": {\n    \"servers\": {\n      \""@ + slug + "\": {\n        \"type\": \"http\",\n        \"url\": \""@
        + url + "\"\n      }\n    }\n  }\n}"@
}

/// The `mcp.servers` entry of an editor's settings.
pub fn editor_json(slug: &str, url: &str) -> (r: String)
    ensures
        r@ == editor_json_spec(slug@, url@),
{
    let mut r = text("{\n  \"mcp\": {\n    \"servers\": {\n      \"");
    r.append(slug);
    r.append("\": {\n        \"type\": \"http\",\n        \"url\": \"");
    r.append(url);
    r.append("\"\n      }\n    }\n  }\n}");
    r
}

} // verus!
