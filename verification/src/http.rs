//! The small HTTP front of the MCP server: what a request head asks for,
//! and the texts of the answers. The socket is read and written by the
//! caller.

use crate::json::text;
use crate::literal::{parse_usize, parse_usize_spec};
use vstd::prelude::*;

verus! {

/// The lines of a text as `str::lines` gives them: split at `\n`, a `\r`
/// right before it dropped, and no empty last line after a final `\n`.
pub open spec fn lines_of(s: Seq<char>) -> Seq<Seq<char>>
    decreases s.len(),
{
    if s.len() == 0 {
        Seq::empty()
    } else {
        proof {
            lemma_newline_bound(s);
        }
        match newline_at(s) {
            Some(i) => seq![strip_cr(s.subrange(0, i))] + lines_of(s.subrange(i + 1, s.len() as int)),
            None => seq![strip_cr(s)],
        }
    }
}

pub proof fn lemma_newline_bound(s: Seq<char>)
    ensures
        newline_at(s) matches Some(i) ==> 0 <= i < s.len(),
    decreases s.len(),
{
    if s.len() > 0 {
        lemma_newline_bound(s.drop_first());
    }
}

/// Position of the first `\n`.
pub open spec fn newline_at(s: Seq<char>) -> Option<int>
    decreases s.len(),
{
    if s.len() == 0 {
        None
    } else if s[0] == '\n' {
        Some(0)
    } else {
        match newline_at(s.drop_first()) {
            Some(i) => Some(i + 1),
            None => None,
        }
    }
}

/// `s` without one final `\r`.
pub open spec fn strip_cr(s: Seq<char>) -> Seq<char> {
    if s.len() > 0 && s.last() == '\r' {
        s.drop_last()
    } else {
        s
    }
}

/// The characters `char::is_whitespace` accepts.
pub open spec fn is_ws(c: char) -> bool {
    let v = c as u32;
    (9 <= v <= 13) || v == 32 || v == 0x85 || v == 0xA0 || v == 0x1680 || (0x2000 <= v <= 0x200A) || v == 0x2028
        || v == 0x2029 || v == 0x202F || v == 0x205F || v == 0x3000
}

/// Number of white-space characters at the start.
pub open spec fn leading_ws(s: Seq<char>) -> nat
    decreases s.len(),
{
    if s.len() > 0 && is_ws(s[0]) {
        1 + leading_ws(s.drop_first())
    } else {
        0
    }
}

/// Number of white-space characters at the end.
pub open spec fn trailing_ws(s: Seq<char>) -> nat
    decreases s.len(),
{
    if s.len() > 0 && is_ws(s.last()) {
        1 + trailing_ws(s.drop_last())
    } else {
        0
    }
}

/// `s` without white space at either end, as `str::trim` gives it.
pub open spec fn trimmed(s: Seq<char>) -> Seq<char> {
    let start = leading_ws(s);
    if start == s.len() {
        Seq::empty()
    } else {
        s.subrange(start as int, s.len() - trailing_ws(s))
    }
}

/// ASCII lower case, as `str::to_ascii_lowercase` gives it.
pub open spec fn lower(s: Seq<char>) -> Seq<char> {
    s.map_values(|c: char| crate::literal::ascii_lower(c))
}

/// The text after the first `:`, if there is one.
pub open spec fn after_colon(s: Seq<char>) -> Option<Seq<char>>
    decreases s.len(),
{
    if s.len() == 0 {
        None
    } else if s[0] == ':' {
        Some(s.drop_first())
    } else {
        after_colon(s.drop_first())
    }
}

/// The first line that names the content length.
pub open spec fn length_line(lines: Seq<Seq<char>>) -> Option<Seq<char>>
    decreases lines.len(),
{
    if lines.len() == 0 {
        None
    } else if "content-length:"@.is_prefix_of(lower(lines[0])) {
        Some(lines[0])
    } else {
        length_line(lines.drop_first())
    }
}

/// The content length a request head gives: the value of its first
/// `Content-Length` line, 0 when there is none or it is not a number.
pub open spec fn content_length_of(head: Seq<char>) -> int {
    match length_line(lines_of(head)) {
        Some(line) => match after_colon(line) {
            Some(v) => match parse_usize_spec(trimmed(v)) {
                Ok(n) => n,
                Err(_) => 0,
            },
            None => 0,
        },
        None => 0,
    }
}

/// `needle` occurs in `s`.
pub open spec fn contains_text(s: Seq<char>, needle: Seq<char>) -> bool {
    exists|i: int| 0 <= i && i + needle.len() <= s.len() && #[trigger] s.subrange(i, i + needle.len()) == needle
}

/// The first line of a request head.
pub open spec fn request_line(head: Seq<char>) -> Seq<char> {
    let lines = lines_of(head);
    if lines.len() > 0 {
        lines[0]
    } else {
        Seq::empty()
    }
}

/// What a request head asks for.
pub struct HttpHead {
    pub content_length: usize,
    /// A CORS preflight request.
    pub is_options: bool,
    /// A `POST` to the MCP endpoint (`/mcp` or `/`).
    pub is_post_mcp: bool,
}

proof fn lemma_newline_at(s: Seq<char>, k: int)
    requires
        0 <= k <= s.len(),
        forall|j: int| 0 <= j < k ==> s[j] != '\n',
        k < s.len() ==> s[k] == '\n',
    ensures
        newline_at(s) == (if k < s.len() {
            Some(k)
        } else {
            None
        }),
    decreases k,
{
    if k > 0 {
        assert forall|j: int| 0 <= j < k - 1 implies s.drop_first()[j] != '\n' by {
            assert(s.drop_first()[j] == s[j + 1]);
        }
        if k < s.len() {
            assert(s.drop_first()[k - 1] == s[k]);
        }
        lemma_newline_at(s.drop_first(), k - 1);
    } else if s.len() == 0 {
    }
}

/// A copy of `v[from..to]`.
fn copy_range(v: &Vec<char>, from: usize, to: usize) -> (r: Vec<char>)
    requires
        from <= to <= v.len(),
    ensures
        r@ == v@.subrange(from as int, to as int),
{
    let mut r: Vec<char> = Vec::new();
    let mut i = from;
    while i < to
        invariant
            from <= i <= to,
            to <= v.len(),
            r@ == v@.subrange(from as int, i as int),
        decreases to - i,
    {
        r.push(v[i]);
        assert(r@ =~= v@.subrange(from as int, i + 1));
        i = i + 1;
    }
    r
}

/// `v[from..to]` without a final `\r`.
fn line_of(v: &Vec<char>, from: usize, to: usize) -> (r: Vec<char>)
    requires
        from <= to <= v.len(),
    ensures
        r@ == strip_cr(v@.subrange(from as int, to as int)),
{
    let mut r = copy_range(v, from, to);
    if r.len() > 0 && r[r.len() - 1] == '\r' {
        r.pop();
        assert(r@ =~= v@.subrange(from as int, to as int).drop_last());
    }
    r
}

/// The lines of a text, as `str::lines` gives them.
pub fn split_lines(v: &Vec<char>) -> (lines: Vec<Vec<char>>)
    ensures
        lines@.map_values(|l: Vec<char>| l@) == lines_of(v@),
{
    let n = v.len();
    let mut lines: Vec<Vec<char>> = Vec::new();
    let mut start: usize = 0;
    let mut i: usize = 0;
    assert(v@.subrange(0, n as int) =~= v@);
    while i < n
        invariant
            n == v.len(),
            start <= i <= n,
            forall|j: int| start <= j < i ==> v@[j] != '\n',
            lines@.map_values(|l: Vec<char>| l@) + lines_of(v@.subrange(start as int, n as int)) == lines_of(v@),
        decreases n - i,
    {
        if v[i] == '\n' {
            let ghost sub = v@.subrange(start as int, n as int);
            proof {
                assert forall|j: int| 0 <= j < i - start implies sub[j] != '\n' by {
                    assert(sub[j] == v@[start + j]);
                }
                assert(sub[i - start] == v@[i as int]);
                lemma_newline_at(sub, i - start);
                assert(sub.subrange(0, i - start) =~= v@.subrange(start as int, i as int));
                assert(sub.subrange(i - start + 1, sub.len() as int) =~= v@.subrange(i + 1, n as int));
            }
            let ghost before = lines@.map_values(|l: Vec<char>| l@);
            let line = line_of(v, start, i);
            let ghost lm = line@;
            lines.push(line);
            assert(lines@.map_values(|l: Vec<char>| l@) =~= before.push(lm));
            assert(before.push(lm) + lines_of(v@.subrange(i + 1, n as int)) =~= before + lines_of(sub));
            start = i + 1;
        }
        i = i + 1;
    }
    if start < n {
        let ghost sub = v@.subrange(start as int, n as int);
        proof {
            assert forall|j: int| 0 <= j < sub.len() implies sub[j] != '\n' by {
                assert(sub[j] == v@[start + j]);
            }
            lemma_newline_at(sub, sub.len() as int);
        }
        let ghost before = lines@.map_values(|l: Vec<char>| l@);
        let line = line_of(v, start, n);
        let ghost lm = line@;
        lines.push(line);
        assert(lines@.map_values(|l: Vec<char>| l@) =~= before.push(lm));
        assert(before.push(lm) =~= before + lines_of(sub));
    } else {
        assert(v@.subrange(start as int, n as int) =~= Seq::<char>::empty());
        assert(lines@.map_values(|l: Vec<char>| l@) + Seq::<Seq<char>>::empty() =~= lines@.map_values(|l: Vec<char>| l@));
    }
    lines
}

/// `word` (in lower case) starts `line`, read in ASCII lower case.
pub(crate) fn starts_lower(line: &Vec<char>, word: &str) -> (b: bool)
    ensures
        b == word@.is_prefix_of(lower(line@)),
{
    let m = word.unicode_len();
    if m > line.len() {
        return false;
    }
    let mut i: usize = 0;
    while i < m
        invariant
            m == word@.len(),
            m <= line.len(),
            i <= m,
            forall|j: int| 0 <= j < i ==> word@[j] == crate::literal::ascii_lower(line@[j]),
        decreases m - i,
    {
        let c = line[i];
        let lc = if 'A' <= c && c <= 'Z' {
            ((c as u32) + 32) as u8 as char
        } else {
            c
        };
        assert(lc == crate::literal::ascii_lower(c)) by {
            if 'A' <= c && c <= 'Z' {
                assert(((c as u32) + 32) as u8 as char == (((c as int) + 32) as char));
            }
        }
        if lc != word.get_char(i) {
            assert(lower(line@)[i as int] == lc);
            return false;
        }
        i = i + 1;
    }
    assert(lower(line@).subrange(0, m as int) =~= word@);
    true
}

fn is_ws_char(c: char) -> (b: bool)
    ensures
        b == is_ws(c),
{
    let v = c as u32;
    (9 <= v && v <= 13) || v == 32 || v == 0x85 || v == 0xA0 || v == 0x1680 || (0x2000 <= v && v <= 0x200A) || v
        == 0x2028 || v == 0x2029 || v == 0x202F || v == 0x205F || v == 0x3000
}

proof fn lemma_leading_ws(s: Seq<char>, k: int)
    requires
        0 <= k <= s.len(),
        forall|j: int| 0 <= j < k ==> is_ws(s[j]),
        k < s.len() ==> !is_ws(s[k]),
    ensures
        leading_ws(s) == k,
    decreases k,
{
    if k > 0 {
        assert forall|j: int| 0 <= j < k - 1 implies is_ws(s.drop_first()[j]) by {
            assert(s.drop_first()[j] == s[j + 1]);
        }
        if k < s.len() {
            assert(s.drop_first()[k - 1] == s[k]);
        }
        lemma_leading_ws(s.drop_first(), k - 1);
    }
}

proof fn lemma_trailing_ws(s: Seq<char>, k: int)
    requires
        0 <= k <= s.len(),
        forall|j: int| s.len() - k <= j < s.len() ==> is_ws(s[j]),
        k < s.len() ==> !is_ws(s[s.len() - k - 1]),
    ensures
        trailing_ws(s) == k,
    decreases k,
{
    if k > 0 {
        assert forall|j: int| s.len() - 1 - (k - 1) <= j < s.len() - 1 implies is_ws(s.drop_last()[j]) by {
            assert(s.drop_last()[j] == s[j]);
        }
        if k < s.len() {
            assert(s.drop_last()[s.len() - 1 - (k - 1) - 1] == s[s.len() - k - 1]);
        }
        lemma_trailing_ws(s.drop_last(), k - 1);
    }
}

/// `v` without white space at either end.
pub(crate) fn trim_chars(v: &Vec<char>) -> (r: Vec<char>)
    ensures
        r@ == trimmed(v@),
{
    let n = v.len();
    let mut a: usize = 0;
    while a < n && is_ws_char(v[a])
        invariant
            a <= n,
            n == v.len(),
            forall|j: int| 0 <= j < a ==> is_ws(v@[j]),
        decreases n - a,
    {
        a = a + 1;
    }
    proof {
        lemma_leading_ws(v@, a as int);
    }
    if a == n {
        return Vec::new();
    }
    let mut b: usize = 0;
    while b < n - a && is_ws_char(v[n - 1 - b])
        invariant
            a < n,
            b <= n - a,
            n == v.len(),
            forall|j: int| n - b <= j < n ==> is_ws(v@[j]),
        decreases n - a - b,
    {
        b = b + 1;
    }
    proof {
        if b == n - a {
            assert(!is_ws(v@[a as int]));
            assert(false);
        }
        lemma_trailing_ws(v@, b as int);
    }
    copy_range(v, a, n - b)
}

proof fn lemma_after_colon(s: Seq<char>, k: int)
    requires
        0 <= k <= s.len(),
        forall|j: int| 0 <= j < k ==> s[j] != ':',
        k < s.len() ==> s[k] == ':',
    ensures
        after_colon(s) == (if k < s.len() {
            Some(s.subrange(k + 1, s.len() as int))
        } else {
            None
        }),
    decreases k,
{
    if k > 0 {
        assert forall|j: int| 0 <= j < k - 1 implies s.drop_first()[j] != ':' by {
            assert(s.drop_first()[j] == s[j + 1]);
        }
        if k < s.len() {
            assert(s.drop_first()[k - 1] == s[k]);
            assert(s.drop_first().subrange(k, s.len() - 1) =~= s.subrange(k + 1, s.len() as int));
        }
        lemma_after_colon(s.drop_first(), k - 1);
    } else if k < s.len() {
        assert(s.drop_first() =~= s.subrange(1, s.len() as int));
    }
}

/// The text after the first `:`.
fn after_colon_chars(v: &Vec<char>) -> (r: Option<Vec<char>>)
    ensures
        match r {
            Some(rest) => after_colon(v@) == Some(rest@),
            None => after_colon(v@) is None,
        },
{
    let mut i: usize = 0;
    while i < v.len() && v[i] != ':'
        invariant
            i <= v.len(),
            forall|j: int| 0 <= j < i ==> v@[j] != ':',
        decreases v.len() - i,
    {
        i = i + 1;
    }
    proof {
        lemma_after_colon(v@, i as int);
    }
    if i == v.len() {
        None
    } else {
        Some(copy_range(v, i + 1, v.len()))
    }
}

/// `needle` occurs in `v`.
fn contains_chars(v: &Vec<char>, needle: &str) -> (b: bool)
    ensures
        b == contains_text(v@, needle@),
{
    let m = needle.unicode_len();
    if m > v.len() {
        assert forall|i: int| 0 <= i && i + m <= v@.len() implies #[trigger] v@.subrange(i, i + m) != needle@ by {}
        return false;
    }
    let mut i: usize = 0;
    while i <= v.len() - m
        invariant
            m == needle@.len(),
            m <= v.len(),
            i <= v.len() - m + 1,
            forall|k: int| 0 <= k < i ==> #[trigger] v@.subrange(k, k + m) != needle@,
        decreases v.len() - i,
    {
        let mut j: usize = 0;
        let mut same = true;
        while j < m
            invariant
                m == needle@.len(),
                i + m <= v.len(),
                j <= m,
                same == (forall|x: int| 0 <= x < j ==> v@[i + x] == needle@[x]),
            decreases m - j,
        {
            if v[i + j] != needle.get_char(j) {
                same = false;
            }
            j = j + 1;
        }
        if same {
            assert(v@.subrange(i as int, i + m) =~= needle@);
            return true;
        }
        assert(v@.subrange(i as int, i + m) != needle@) by {
            let x = choose|x: int| 0 <= x < m && v@[i + x] != needle@[x];
            assert(v@.subrange(i as int, i + m)[x] == v@[i + x]);
        }
        i = i + 1;
    }
    false
}

/// `word` starts `v`.
fn starts_with_chars(v: &Vec<char>, word: &str) -> (b: bool)
    ensures
        b == word@.is_prefix_of(v@),
{
    let m = word.unicode_len();
    if m > v.len() {
        return false;
    }
    let mut i: usize = 0;
    while i < m
        invariant
            m == word@.len(),
            m <= v.len(),
            i <= m,
            forall|j: int| 0 <= j < i ==> word@[j] == v@[j],
        decreases m - i,
    {
        if v[i] != word.get_char(i) {
            return false;
        }
        i = i + 1;
    }
    assert(v@.subrange(0, m as int) =~= word@);
    true
}

/// The content length that the first `Content-Length` line gives.
fn length_from_lines(lines: &Vec<Vec<char>>) -> (n: usize)
    ensures
        n as int == (match length_line(lines@.map_values(|l: Vec<char>| l@)) {
            Some(line) => match after_colon(line) {
                Some(v) => match parse_usize_spec(trimmed(v)) {
                    Ok(n) => n,
                    Err(_) => 0,
                },
                None => 0,
            },
            None => 0,
        }),
{
    let ghost ls = lines@.map_values(|l: Vec<char>| l@);
    let mut i: usize = 0;
    assert(ls.subrange(0, ls.len() as int) =~= ls);
    while i < lines.len()
        invariant
            i <= lines.len(),
            ls == lines@.map_values(|l: Vec<char>| l@),
            length_line(ls) == length_line(ls.subrange(i as int, ls.len() as int)),
        decreases lines.len() - i,
    {
        let ghost rest = ls.subrange(i as int, ls.len() as int);
        assert(rest[0] == lines@[i as int]@);
        assert(rest.drop_first() =~= ls.subrange(i + 1, ls.len() as int));
        if starts_lower(&lines[i], "content-length:") {
            return match after_colon_chars(&lines[i]) {
                Some(value) => {
                    let t = trim_chars(&value);
                    match crate::literal::parse_usize_chars(&t) {
                        Ok(n) => n,
                        Err(_) => 0,
                    }
                },
                None => 0,
            };
        }
        i = i + 1;
    }
    assert(ls.subrange(i as int, ls.len() as int) =~= Seq::<Seq<char>>::empty());
    0
}

impl HttpHead {
    /// What a request head asks for: its content length (the first
    /// `Content-Length` line, 0 when missing or not a number), whether it
    /// is an `OPTIONS` request, and whether it is a `POST` to `/mcp` or `/`.
    pub fn parse(head: &str) -> (h: HttpHead)
        ensures
            h.content_length as int == content_length_of(head@),
            h.is_options == "OPTIONS"@.is_prefix_of(request_line(head@)),
            h.is_post_mcp == ("POST"@.is_prefix_of(request_line(head@)) && (contains_text(
                request_line(head@),
                "/mcp"@,
            ) || contains_text(request_line(head@), " / "@))),
    {
        let v = crate::literal::chars_of(head);
        let lines = split_lines(&v);
        let ghost ls = lines@.map_values(|l: Vec<char>| l@);
        let content_length = length_from_lines(&lines);
        let first: Vec<char> = if lines.len() > 0 {
            copy_range(&lines[0], 0, lines[0].len())
        } else {
            Vec::new()
        };
        assert(first@ == request_line(head@)) by {
            if lines.len() > 0 {
                assert(lines[0]@.subrange(0, lines[0]@.len() as int) =~= lines[0]@);
                assert(ls[0] == lines@[0]@);
            }
        }
        let is_options = starts_with_chars(&first, "OPTIONS");
        let is_post_mcp = starts_with_chars(&first, "POST") && (contains_chars(&first, "/mcp") || contains_chars(
            &first,
            " / ",
        ));
        HttpHead { content_length, is_options, is_post_mcp }
    }
}

/// The answer to a CORS preflight request.
pub fn preflight_response() -> (r: String)
    ensures
        r@ == "HTTP/1.1 204 No Content\r\nAccess-Control-Allow-Origin: *\r\nAccess-Control-Allow-Methods: POST, OPTIONS\r\nAccess-Control-Allow-Headers: Content-Type, Accept, Mcp-Session-Id, MCP-Protocol-Version\r\nAccess-Control-Expose-Headers: Mcp-Session-Id\r\n\r\n"@,
{
    text("HTTP/1.1 204 No Content\r\nAccess-Control-Allow-Origin: *\r\nAccess-Control-Allow-Methods: POST, OPTIONS\r\nAccess-Control-Allow-Headers: Content-Type, Accept, Mcp-Session-Id, MCP-Protocol-Version\r\nAccess-Control-Expose-Headers: Mcp-Session-Id\r\n\r\n")
}

/// The answer to a request that is not a `POST` to the MCP endpoint, or
/// has no body.
pub fn bad_request_response() -> (r: String)
    ensures
        r@ == "HTTP/1.1 400 Bad Request\r\nContent-Length: 0\r\n\r\n"@,
{
    text("HTTP/1.1 400 Bad Request\r\nContent-Length: 0\r\n\r\n")
}

/// The answer to a notification, which has no response.
pub fn accepted_response() -> (r: String)
    ensures
        r@ == "HTTP/1.1 202 Accepted\r\nAccess-Control-Allow-Origin: *\r\nContent-Length: 0\r\n\r\n"@,
{
    text("HTTP/1.1 202 Accepted\r\nAccess-Control-Allow-Origin: *\r\nContent-Length: 0\r\n\r\n")
}

/// The head of an answer that carries a JSON body of `length` bytes.
pub fn json_response_head(length: usize) -> (r: String)
    ensures
        r@ == "HTTP/1.1 200 OK\r\nContent-Type: application/json\r\nContent-Length: "@ + crate::literal::decimal(
            length as nat,
        ) + "\r\nAccess-Control-Allow-Origin: *\r\n\r\n"@,
{
    let mut r = text("HTTP/1.1 200 OK\r\nContent-Type: application/json\r\nContent-Length: ");
    crate::literal::write_decimal(&mut r, length);
    r.append("\r\nAccess-Control-Allow-Origin: *\r\n\r\n");
    r
}

/// What the server does with a request, by its head.
pub enum HttpAction {
    /// Answer the preflight request.
    Preflight,
    /// Refuse the request.
    BadRequest,
    /// Read a body of this many bytes and handle it as a JSON-RPC message.
    ReadBody(usize),
}

impl HttpHead {
    /// What the server does with the request.
    pub fn action(&self) -> (a: HttpAction)
        ensures
            a == (if self.is_options {
                HttpAction::Preflight
            } else if !self.is_post_mcp || self.content_length == 0 {
                HttpAction::BadRequest
            } else {
                HttpAction::ReadBody(self.content_length)
            }),
    {
        if self.is_options {
            HttpAction::Preflight
        } else if !self.is_post_mcp || self.content_length == 0 {
            HttpAction::BadRequest
        } else {
            HttpAction::ReadBody(self.content_length)
        }
    }
}

} // verus!
