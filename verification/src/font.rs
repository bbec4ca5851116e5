//! The icon names of an icon font: the glyph names of its `post` table
//! (version 2.0) joined with the private-use code points that its first
//! `cmap` subtable of format 12 gives the same glyphs.
//!
//! Offsets and counts are read big-endian, as TrueType stores them. A font
//! whose tables point outside its bytes is not read.

use crate::collections::{first_index, first_value, lemma_first_index};
use crate::icons::{
    compare_text, lemma_text_less_irreflexive, lemma_text_less_total,
    lemma_text_less_transitive, sorted_names, text_less, IconMap, TextOrder,
};
use vstd::prelude::*;

verus! {

/// The big-endian 16-bit number at `i`.
pub open spec fn u16_at(d: Seq<u8>, i: int) -> int {
    d[i] as int * 256 + d[i + 1] as int
}

/// The big-endian 32-bit number at `i`.
pub open spec fn u32_at(d: Seq<u8>, i: int) -> int {
    u16_at(d, i) * 65536 + u16_at(d, i + 2)
}

/// `n` bytes from `i` lie inside the data.
pub open spec fn fits(d: Seq<u8>, i: int, n: int) -> bool {
    0 <= i && 0 <= n && i + n <= d.len()
}

/// The number of tables of the font.
pub open spec fn table_count(d: Seq<u8>) -> int {
    u16_at(d, 4)
}

/// The table directory can be read.
pub open spec fn directory_ok(d: Seq<u8>) -> bool {
    fits(d, 4, 2) && fits(d, 12, 16 * table_count(d))
}

/// The offset and length of the last of the first `n` directory records
/// tagged `tag`.
pub open spec fn find_table(d: Seq<u8>, tag: Seq<u8>, n: int) -> Option<(int, int)>
    decreases n,
{
    if n <= 0 {
        None
    } else if d.subrange(12 + 16 * (n - 1), 12 + 16 * (n - 1) + 4) == tag {
        Some((u32_at(d, 12 + 16 * (n - 1) + 8), u32_at(d, 12 + 16 * (n - 1) + 12)))
    } else {
        find_table(d, tag, n - 1)
    }
}

/// The offset and length of table `tag`; a later record wins over an
/// earlier one.
pub open spec fn table(d: Seq<u8>, tag: Seq<u8>) -> Option<(int, int)> {
    find_table(d, tag, table_count(d))
}

pub open spec fn post_tag() -> Seq<u8> {
    seq![112u8, 111u8, 115u8, 116u8]
}

pub open spec fn cmap_tag() -> Seq<u8> {
    seq![99u8, 109u8, 97u8, 112u8]
}

// ─── post ───────────────────────────────────────────────────────────────────

/// The Pascal strings from `pos` on can be read, up to `end`.
pub open spec fn strings_ok(d: Seq<u8>, pos: int, end: int) -> bool
    decreases if pos < end { end - pos } else { 0 },
{
    if pos >= end {
        true
    } else {
        fits(d, pos, 1) && fits(d, pos + 1, d[pos] as int) && strings_ok(d, pos + 1 + d[pos], end)
    }
}

/// The bytes of the `k`-th Pascal string from `pos`, among those that start
/// before `end`.
pub open spec fn string_at(d: Seq<u8>, pos: int, end: int, k: nat) -> Option<Seq<u8>>
    decreases if pos < end { end - pos } else { 0 },
{
    if pos >= end || !fits(d, pos, 1) {
        None
    } else if k == 0 {
        Some(d.subrange(pos + 1, pos + 1 + d[pos]))
    } else {
        string_at(d, pos + 1 + d[pos], end, (k - 1) as nat)
    }
}

/// The `post` table at `off` of length `len` can be read.
pub open spec fn post_ok(d: Seq<u8>, off: int, len: int) -> bool {
    &&& fits(d, off, 4)
    &&& u32_at(d, off) == 0x20000 ==> {
        &&& fits(d, off + 32, 2)
        &&& fits(d, off + 34, 2 * u16_at(d, off + 32))
        &&& strings_ok(d, off + 34 + 2 * u16_at(d, off + 32), off + len)
    }
}

/// The text that `String::from_utf8_lossy` makes of some bytes.
pub uninterp spec fn lossy_text(b: Seq<u8>) -> Seq<char>;

/// `String::from_utf8_lossy`, made owned: named as a function of the
/// bytes.
#[verifier::external_body]
fn lossy(b: &[u8]) -> (r: String)
    ensures
        r@ == lossy_text(b@),
{
    String::from_utf8_lossy(b).into_owned()
}

/// The name the `post` table at `off` gives glyph `gid`.
pub open spec fn post_name(d: Seq<u8>, off: int, len: int, gid: int) -> Option<Seq<char>> {
    if u32_at(d, off) != 0x20000 {
        None
    } else {
        let ng = u16_at(d, off + 32);
        if gid < 0 || gid >= ng {
            None
        } else {
            let idx = u16_at(d, off + 34 + 2 * gid);
            if idx < 258 {
                None
            } else {
                match string_at(d, off + 34 + 2 * ng, off + len, (idx - 258) as nat) {
                    Some(b) => Some(lossy_text(b)),
                    None => None,
                }
            }
        }
    }
}

/// The name of glyph `gid`.
pub open spec fn glyph_name(d: Seq<u8>, gid: int) -> Option<Seq<char>> {
    match table(d, post_tag()) {
        Some((off, len)) => post_name(d, off, len, gid),
        None => None,
    }
}

// ─── cmap ───────────────────────────────────────────────────────────────────

/// The offset of subtable `i` of the `cmap` table at `off`.
pub open spec fn subtable_at(d: Seq<u8>, off: int, i: int) -> int {
    off + u32_at(d, off + 4 + 8 * i + 4)
}

/// The groups of a format-12 subtable at `sto` can be read.
pub open spec fn groups_ok(d: Seq<u8>, sto: int) -> bool {
    fits(d, sto + 12, 4) && fits(d, sto + 16, 12 * u32_at(d, sto + 12))
}

/// Subtables `i` to `n` of the `cmap` table at `off` can be read, up to
/// the first of format 12, whose groups can be read too.
pub open spec fn subtables_ok(d: Seq<u8>, off: int, i: int, n: int) -> bool
    decreases n - i,
{
    if i >= n {
        true
    } else {
        &&& fits(d, off + 4 + 8 * i + 4, 4)
        &&& fits(d, subtable_at(d, off, i), 2)
        &&& if u16_at(d, subtable_at(d, off, i)) == 12 {
            groups_ok(d, subtable_at(d, off, i))
        } else {
            subtables_ok(d, off, i + 1, n)
        }
    }
}

/// The offset of the first subtable of format 12 among subtables `i` to
/// `n`.
pub open spec fn first_format12(d: Seq<u8>, off: int, i: int, n: int) -> Option<int>
    decreases n - i,
{
    if i >= n {
        None
    } else if u16_at(d, subtable_at(d, off, i)) == 12 {
        Some(subtable_at(d, off, i))
    } else {
        first_format12(d, off, i + 1, n)
    }
}

/// The `cmap` table at `off` can be read.
pub open spec fn cmap_ok(d: Seq<u8>, off: int) -> bool {
    fits(d, off + 2, 2) && subtables_ok(d, off, 0, u16_at(d, off + 2))
}

/// The last code point of the group `start..=end`, mapped from glyph
/// `start_glyph` on, whose glyph number (taken modulo 65536) is `gid`.
pub open spec fn group_code(start: int, end: int, start_glyph: int, gid: int) -> Option<int> {
    if end < start {
        None
    } else {
        let k0 = (gid - start_glyph) % 65536;
        let span = end - start;
        if k0 > span {
            None
        } else {
            Some(start + k0 + 65536 * ((span - k0) / 65536))
        }
    }
}

/// The code point the first `n` groups from `base` give glyph `gid`: a
/// later group wins over an earlier one.
pub open spec fn groups_code(d: Seq<u8>, base: int, n: int, gid: int) -> Option<int>
    decreases n,
{
    if n <= 0 {
        None
    } else {
        let g = base + 12 * (n - 1);
        match group_code(u32_at(d, g), u32_at(d, g + 4), u32_at(d, g + 8), gid) {
            Some(c) => Some(c),
            None => groups_code(d, base, n - 1, gid),
        }
    }
}

/// The code point of glyph `gid`.
pub open spec fn glyph_code(d: Seq<u8>, gid: int) -> Option<int> {
    match table(d, cmap_tag()) {
        Some((off, _)) => match first_format12(d, off, 0, u16_at(d, off + 2)) {
            Some(sto) => groups_code(d, sto + 16, u32_at(d, sto + 12), gid),
            None => None,
        },
        None => None,
    }
}

// ─── Icons ──────────────────────────────────────────────────────────────────

/// The font can be read.
pub open spec fn font_ok(d: Seq<u8>) -> bool {
    &&& directory_ok(d)
    &&& (table(d, post_tag()) matches Some((off, len)) ==> post_ok(d, off, len))
    &&& (table(d, cmap_tag()) matches Some((off, _)) ==> cmap_ok(d, off))
}

/// Glyph `g` is an icon named `name`.
#[verifier::opaque]
pub open spec fn icon_named(d: Seq<u8>, g: int, name: Seq<char>) -> bool {
    candidate(d, g) && glyph_name(d, g) == Some(name)
}

/// A glyph is an icon of one name at most.
proof fn lemma_icon_named_unique(d: Seq<u8>, g: int, a: Seq<char>, b: Seq<char>)
    requires
        icon_named(d, g, a),
        icon_named(d, g, b),
    ensures
        a == b,
{
    reveal(icon_named);
}

/// The last glyph below `upto` that is an icon named `name`.
pub open spec fn last_icon_glyph(d: Seq<u8>, name: Seq<char>, upto: int) -> Option<int>
    decreases upto,
{
    if upto <= 0 {
        None
    } else if icon_named(d, upto - 1, name) {
        Some(upto - 1)
    } else {
        last_icon_glyph(d, name, upto - 1)
    }
}

/// The code point of icon `name`: that of the last glyph with that name,
/// a non-empty name, and a private-use code point.
pub open spec fn icon_code(d: Seq<u8>, name: Seq<char>) -> Option<int> {
    match last_icon_glyph(d, name, 65536) {
        Some(g) => glyph_code(d, g),
        None => None,
    }
}

/// The code point of an optional character.
pub open spec fn char_code(c: Option<char>) -> Option<int> {
    match c {
        Some(c) => Some(c as int),
        None => None,
    }
}

// ─── Reading ────────────────────────────────────────────────────────────────

/// `char::from_u32`: the character of a scalar value, `None` for a
/// surrogate or a number above `0x10FFFF`, as std documents it.
pub assume_specification[ core::char::from_u32 ](i: u32) -> (r: Option<char>)
    ensures
        r == (if i < 0xD800 || (0xE000 <= i && i <= 0x10FFFF) {
            Some(i as char)
        } else {
            None
        }),
;

/// Whether `n` bytes from `i` lie inside the data.
fn fits_exec(d: &[u8], i: u64, n: u64) -> (b: bool)
    ensures
        b == fits(d@, i as int, n as int),
{
    let len = d.len() as u64;
    n <= len && i <= len - n
}

fn rd16(d: &[u8], i: u64) -> (r: u64)
    requires
        fits(d@, i as int, 2),
    ensures
        r == u16_at(d@, i as int),
        r < 65536,
{
    let k = i as usize;
    (d[k] as u64) * 256 + d[k + 1] as u64
}

fn rd32(d: &[u8], i: u64) -> (r: u64)
    requires
        fits(d@, i as int, 4),
    ensures
        r == u32_at(d@, i as int),
        r < 0x1_0000_0000,
{
    let len = d.len();
    assert(i + 4 <= len);
    rd16(d, i) * 65536 + rd16(d, i + 2)
}

/// The offset and length of the table tagged `t`.
fn table_of(d: &[u8], t: &[u8]) -> (r: Option<(u64, u64)>)
    requires
        directory_ok(d@),
        t@.len() == 4,
    ensures
        match r {
            Some((o, l)) => table(d@, t@) == Some((o as int, l as int)) && o < 0x1_0000_0000 && l < 0x1_0000_0000,
            None => table(d@, t@) is None,
        },
{
    let n = rd16(d, 4);
    let mut found: Option<(u64, u64)> = None;
    let mut i: u64 = 0;
    while i < n
        invariant
            i <= n,
            n == table_count(d@),
            directory_ok(d@),
            t@.len() == 4,
            match found {
                Some((o, l)) => find_table(d@, t@, i as int) == Some((o as int, l as int)) && o < 0x1_0000_0000
                    && l < 0x1_0000_0000,
                None => find_table(d@, t@, i as int) is None,
            },
        decreases n - i,
    {
        let o = 12 + 16 * i;
        let k = o as usize;
        let same = d[k] == t[0] && d[k + 1] == t[1] && d[k + 2] == t[2] && d[k + 3] == t[3];
        proof {
            let sub = d@.subrange(o as int, o + 4);
            if same {
                assert(sub =~= t@);
            } else {
                assert(sub != t@) by {
                    if d@[k as int] != t@[0] {
                        assert(sub[0] != t@[0]);
                    } else if d@[k + 1] != t@[1] {
                        assert(sub[1] != t@[1]);
                    } else if d@[k + 2] != t@[2] {
                        assert(sub[2] != t@[2]);
                    } else {
                        assert(sub[3] != t@[3]);
                    }
                }
            }
        }
        if same {
            found = Some((rd32(d, o + 8), rd32(d, o + 12)));
        }
        i = i + 1;
    }
    found
}

/// Where the Pascal strings from `start` that begin before `end` lie: the
/// first byte and the length of each.
fn read_strings(d: &[u8], start: u64, end: u64) -> (r: Option<Vec<(usize, usize)>>)
    ensures
        match r {
            Some(v) => {
                &&& strings_ok(d@, start as int, end as int)
                &&& forall|k: int|
                    0 <= k < v.len() ==> #[trigger] string_at(d@, start as int, end as int, k as nat) == Some(
                        d@.subrange(v@[k].0 as int, v@[k].0 + v@[k].1),
                    ) && v@[k].0 + v@[k].1 <= d@.len()
                &&& forall|k: nat| k >= v.len() ==> #[trigger] string_at(d@, start as int, end as int, k) is None
            },
            None => !strings_ok(d@, start as int, end as int),
        },
{
    let mut v: Vec<(usize, usize)> = Vec::new();
    let mut pos: u64 = start;
    let len = d.len();
    while pos < end
        invariant
            len == d@.len(),
            strings_ok(d@, start as int, end as int) == strings_ok(d@, pos as int, end as int),
            forall|j: nat|
                #[trigger] string_at(d@, pos as int, end as int, j) == string_at(
                    d@,
                    start as int,
                    end as int,
                    (v.len() + j) as nat,
                ),
            forall|k: int|
                0 <= k < v.len() ==> #[trigger] string_at(d@, start as int, end as int, k as nat) == Some(
                    d@.subrange(v@[k].0 as int, v@[k].0 + v@[k].1),
                ) && v@[k].0 + v@[k].1 <= d@.len(),
        decreases if pos < end {
            end - pos
        } else {
            0
        },
    {
        if !fits_exec(d, pos, 1) {
            return None;
        }
        let ln = d[pos as usize] as u64;
        if !fits_exec(d, pos + 1, ln) {
            return None;
        }
        let ghost c = v.len();
        let ghost p = pos as int;
        let next = pos + 1 + ln;
        proof {
            assert(string_at(d@, p, end as int, 0) == string_at(d@, start as int, end as int, (c + 0) as nat));
            assert forall|j: nat| #[trigger] string_at(d@, next as int, end as int, j) == string_at(
                d@,
                start as int,
                end as int,
                (c + 1 + j) as nat,
            ) by {
                assert(string_at(d@, p, end as int, j + 1) == string_at(
                    d@,
                    start as int,
                    end as int,
                    (c + (j + 1)) as nat,
                ));
            }
        }
        v.push(((pos + 1) as usize, ln as usize));
        pos = next;
    }
    proof {
        assert forall|k: nat| k >= v.len() implies #[trigger] string_at(d@, start as int, end as int, k) is None by {
            assert(string_at(d@, pos as int, end as int, (k - v.len()) as nat) is None);
        }
    }
    Some(v)
}

/// The groups of the first format-12 subtable of the `cmap` table at
/// `off`: where they start and how many there are. `None` when the table
/// cannot be read.
fn format12_groups(d: &[u8], off: u64) -> (r: Option<Option<(u64, u64)>>)
    requires
        off < 0x1_0000_0000,
    ensures
        match r {
            None => !cmap_ok(d@, off as int),
            Some(g) => cmap_ok(d@, off as int) && match g {
                Some((base, n)) => {
                    &&& first_format12(d@, off as int, 0, u16_at(d@, off + 2)) == Some(base - 16)
                    &&& n == u32_at(d@, base - 4)
                    &&& fits(d@, base as int, 12 * n)
                    &&& base >= 16
                    &&& base < 0x3_0000_0000
                    &&& n < 0x1_0000_0000
                },
                None => first_format12(d@, off as int, 0, u16_at(d@, off + 2)) is None,
            },
        },
{
    if !fits_exec(d, off + 2, 2) {
        return None;
    }
    let n = rd16(d, off + 2);
    let mut i: u64 = 0;
    while i < n
        invariant
            i <= n,
            off < 0x1_0000_0000,
            n == u16_at(d@, off + 2),
            fits(d@, off + 2, 2),
            cmap_ok(d@, off as int) == subtables_ok(d@, off as int, i as int, n as int),
            first_format12(d@, off as int, 0, n as int) == first_format12(d@, off as int, i as int, n as int),
        decreases n - i,
    {
        let rec = off + 4 + 8 * i + 4;
        if !fits_exec(d, rec, 4) {
            return None;
        }
        let sto = off + rd32(d, rec);
        if !fits_exec(d, sto, 2) {
            return None;
        }
        if rd16(d, sto) == 12 {
            if !fits_exec(d, sto + 12, 4) {
                return None;
            }
            let groups = rd32(d, sto + 12);
            if !fits_exec(d, sto + 16, 12 * groups) {
                return None;
            }
            return Some(Some((sto + 16, groups)));
        }
        i = i + 1;
    }
    Some(None)
}

/// The code point the group `start..=end` from glyph `start_glyph` gives
/// glyph `gid`.
fn group_code_exec(start: u64, end: u64, start_glyph: u64, gid: u64) -> (r: Option<u64>)
    requires
        start < 0x1_0000_0000,
        end < 0x1_0000_0000,
        start_glyph < 0x1_0000_0000,
        gid < 65536,
    ensures
        match r {
            Some(c) => group_code(start as int, end as int, start_glyph as int, gid as int) == Some(c as int)
                && c < 0x1_0000_0000,
            None => group_code(start as int, end as int, start_glyph as int, gid as int) is None,
        },
{
    if end < start {
        return None;
    }
    let k0 = (gid + 65536 - start_glyph % 65536) % 65536;
    assert(k0 == (gid - start_glyph) % 65536) by (nonlinear_arith)
        requires
            k0 == (gid + 65536 - start_glyph % 65536) % 65536,
            0 <= gid < 65536,
            0 <= start_glyph,
    {
        let q = start_glyph / 65536;
        let r = start_glyph % 65536;
        assert(start_glyph == 65536 * q + r);
        assert(gid + 65536 - r == (gid - start_glyph) + 65536 * (q + 1));
        vstd::arithmetic::div_mod::lemma_mod_multiples_vanish(q + 1, gid - start_glyph, 65536);
    }
    let span = end - start;
    if k0 > span {
        return None;
    }
    let t = (span - k0) / 65536;
    assert(65536 * t <= span - k0) by (nonlinear_arith)
        requires
            t == (span - k0) / 65536,
            k0 <= span,
    ;
    Some(start + k0 + 65536 * t)
}

/// The icon entries as names and characters.
pub open spec fn icon_pairs(v: Seq<(String, char)>) -> Seq<(Seq<char>, char)> {
    v.map_values(|p: (String, char)| (p.0@, p.1))
}

/// The first position whose name does not come before `name`.
fn position_for(v: &Vec<(String, char)>, name: &String) -> (j: usize)
    ensures
        j <= v.len(),
        forall|k: int| 0 <= k < j ==> text_less(#[trigger] icon_pairs(v@)[k].0, name@),
        j < v.len() ==> !text_less(icon_pairs(v@)[j as int].0, name@),
{
    let ghost s = icon_pairs(v@);
    let mut j: usize = 0;
    while j < v.len()
        invariant
            j <= v.len(),
            s == icon_pairs(v@),
            s.len() == v.len(),
            forall|k: int| 0 <= k < j ==> text_less(#[trigger] s[k].0, name@),
        decreases v.len() - j,
    {
        assert(s[j as int].0 == v@[j as int].0@);
        match compare_text(v[j].0.as_str(), name.as_str()) {
            TextOrder::Less => {},
            _ => {
                return j;
            },
        }
        j = j + 1;
    }
    j
}

/// `t` is the sorted table `s` with `(nm, c)` put in it.
pub open spec fn placed(s: Seq<(Seq<char>, char)>, t: Seq<(Seq<char>, char)>, nm: Seq<char>, c: char) -> bool {
    &&& sorted_names(t)
    &&& exists|i: int| 0 <= i < t.len() && #[trigger] t[i] == (nm, c)
    &&& forall|i: int|
        0 <= i < t.len() ==> #[trigger] t[i] == (nm, c) || exists|j: int| 0 <= j < s.len() && s[j] == t[i]
    &&& forall|j: int|
        0 <= j < s.len() && (#[trigger] s[j]).0 != nm ==> exists|i: int| 0 <= i < t.len() && t[i] == s[j]
}

proof fn lemma_replace(s: Seq<(Seq<char>, char)>, j: int, nm: Seq<char>, c: char)
    requires
        sorted_names(s),
        0 <= j < s.len(),
        s[j].0 == nm,
    ensures
        placed(s, s.update(j, (nm, c)), nm, c),
{
    let t = s.update(j, (nm, c));
    assert(t[j] == (nm, c));
    assert forall|a: int, b: int| 0 <= a < b < t.len() implies text_less(#[trigger] t[a].0, #[trigger] t[b].0) by {
        assert(s[a].0 == t[a].0 && s[b].0 == t[b].0);
    }
    assert forall|i: int| 0 <= i < t.len() implies #[trigger] t[i] == (nm, c) || exists|k: int|
        0 <= k < s.len() && s[k] == t[i] by {
        if i != j {
            assert(s[i] == t[i]);
        }
    }
    assert forall|k: int| 0 <= k < s.len() && (#[trigger] s[k]).0 != nm implies exists|i: int|
        0 <= i < t.len() && t[i] == s[k] by {
        assert(t[k] == s[k]);
    }
}

proof fn lemma_insert(s: Seq<(Seq<char>, char)>, j: int, nm: Seq<char>, c: char)
    requires
        sorted_names(s),
        0 <= j <= s.len(),
        forall|k: int| 0 <= k < j ==> text_less(#[trigger] s[k].0, nm),
        j < s.len() ==> text_less(nm, s[j].0),
    ensures
        placed(s, s.insert(j, (nm, c)), nm, c),
{
    let t = s.insert(j, (nm, c));
    assert(t[j] == (nm, c));
    assert forall|a: int, b: int| 0 <= a < b < t.len() implies text_less(#[trigger] t[a].0, #[trigger] t[b].0) by {
        if b < j {
            assert(t[a] == s[a] && t[b] == s[b]);
        } else if b == j {
            assert(t[a] == s[a]);
        } else if a < j {
            assert(t[a] == s[a] && t[b] == s[b - 1]);
        } else if a == j {
            assert(t[b] == s[b - 1]);
            if b - 1 > j {
                lemma_text_less_transitive(nm, s[j].0, s[b - 1].0);
            }
        } else {
            assert(t[a] == s[a - 1] && t[b] == s[b - 1]);
        }
    }
    assert forall|i: int| 0 <= i < t.len() implies #[trigger] t[i] == (nm, c) || exists|k: int|
        0 <= k < s.len() && s[k] == t[i] by {
        if i < j {
            assert(s[i] == t[i]);
        } else if i > j {
            assert(s[i - 1] == t[i]);
        }
    }
    assert forall|k: int| 0 <= k < s.len() && (#[trigger] s[k]).0 != nm implies exists|i: int|
        0 <= i < t.len() && t[i] == s[k] by {
        if k < j {
            assert(t[k] == s[k]);
        } else {
            assert(t[k + 1] == s[k]);
        }
    }
}

/// Puts `(name, c)` in a table sorted by name: in place of the entry of
/// the same name, or where its name belongs.
fn insert_icon(v: &mut Vec<(String, char)>, name: String, c: char)
    requires
        sorted_names(icon_pairs(old(v)@)),
    ensures
        placed(icon_pairs(old(v)@), icon_pairs(final(v)@), name@, c),
{
    let ghost s = icon_pairs(v@);
    let ghost nm = name@;
    let j = position_for(v, &name);
    let same = j < v.len() && crate::json::string_eq(&v[j].0, &name);
    if same {
        v.set(j, (name, c));
        proof {
            assert(icon_pairs(v@) =~= s.update(j as int, (nm, c)));
            lemma_replace(s, j as int, nm, c);
        }
    } else {
        proof {
            if j < s.len() {
                assert(s[j as int].0 != nm);
                lemma_text_less_total(s[j as int].0, nm);
            }
        }
        v.insert(j, (name, c));
        proof {
            assert(icon_pairs(v@) =~= s.insert(j as int, (nm, c)));
            lemma_insert(s, j as int, nm, c);
        }
    }
}

/// The code point the first `n` groups from `base` give glyph `gid`.
fn groups_code_exec(d: &[u8], base: u64, n: u64, gid: u64) -> (r: Option<u64>)
    requires
        fits(d@, base as int, 12 * n),
        base < 0x3_0000_0000,
        n < 0x1_0000_0000,
        gid < 65536,
    ensures
        match r {
            Some(c) => groups_code(d@, base as int, n as int, gid as int) == Some(c as int),
            None => groups_code(d@, base as int, n as int, gid as int) is None,
        },
{
    let mut g: u64 = n;
    while g > 0
        invariant
            g <= n,
            fits(d@, base as int, 12 * n),
            base < 0x3_0000_0000,
            n < 0x1_0000_0000,
            gid < 65536,
            groups_code(d@, base as int, n as int, gid as int) == groups_code(d@, base as int, g as int, gid as int),
        decreases g,
    {
        let at = base + 12 * (g - 1);
        let start = rd32(d, at);
        let end = rd32(d, at + 4);
        let first = rd32(d, at + 8);
        match group_code_exec(start, end, first, gid) {
            Some(c) => {
                return Some(c);
            },
            None => {},
        }
        g = g - 1;
    }
    None
}

/// Glyph `gid` has a non-empty name and a private-use code point.
pub open spec fn candidate(d: Seq<u8>, gid: int) -> bool {
    &&& glyph_name(d, gid) matches Some(n) && n.len() > 0
    &&& glyph_code(d, gid) matches Some(cp) && 0xE000 <= cp <= 0x10FFFF
}

/// Some entry of `s` is named `n`.
pub open spec fn has_name(s: Seq<(Seq<char>, char)>, n: Seq<char>) -> bool {
    exists|i: int| 0 <= i < s.len() && #[trigger] s[i].0 == n
}

/// The `post` table at `off` of length `len` has names for `ng` glyphs,
/// whose strings `strs` locates.
pub open spec fn names_read(d: Seq<u8>, off: int, len: int, ng: int, strs: Seq<(usize, usize)>) -> bool {
    &&& table(d, post_tag()) == Some((off, len))
    &&& u32_at(d, off) == 0x20000
    &&& ng == u16_at(d, off + 32)
    &&& fits(d, off + 34, 2 * ng)
    &&& 0 <= off < 0x1_0000_0000
    &&& 0 <= len < 0x1_0000_0000
    &&& forall|k: int|
        0 <= k < strs.len() ==> #[trigger] string_at(d, off + 34 + 2 * ng, off + len, k as nat) == Some(
            d.subrange(strs[k].0 as int, strs[k].0 + strs[k].1),
        ) && strs[k].0 + strs[k].1 <= d.len()
    &&& forall|k: nat| k >= strs.len() ==> #[trigger] string_at(d, off + 34 + 2 * ng, off + len, k) is None
}

/// `groups` locates the groups that give the glyphs their code points.
pub open spec fn codes_read(d: Seq<u8>, groups: Option<(u64, u64)>) -> bool {
    &&& forall|g: int| #[trigger] glyph_code(d, g) == (match groups {
        Some((base, n)) => groups_code(d, base as int, n as int, g),
        None => None,
    })
    &&& match groups {
        Some((base, n)) => fits(d, base as int, 12 * n) && base < 0x3_0000_0000 && n < 0x1_0000_0000,
        None => true,
    }
}

/// The name and character of glyph `gid`, when it is an icon.
fn glyph_icon(
    d: &[u8],
    off: u64,
    len: u64,
    ng: u64,
    strs: &Vec<(usize, usize)>,
    groups: Option<(u64, u64)>,
    gid: u64,
) -> (r: Option<(String, char)>)
    requires
        names_read(d@, off as int, len as int, ng as int, strs@),
        codes_read(d@, groups),
        gid < ng,
    ensures
        match r {
            Some((n, c)) => {
                &&& candidate(d@, gid as int)
                &&& glyph_name(d@, gid as int) == Some(n@)
                &&& glyph_code(d@, gid as int) == Some(c as int)
            },
            None => !candidate(d@, gid as int),
        },
{
    let idx = rd16(d, off + 34 + 2 * gid);
    let mut name: Option<String> = None;
    if idx >= 258 {
        let k = (idx - 258) as usize;
        if k < strs.len() {
            let (a, l) = strs[k];
            let dl = d.len();
            assert(strs@[k as int] == (a, l));
            assert(string_at(d@, off + 34 + 2 * ng, off + len, (k as int) as nat) == Some(
                d@.subrange(a as int, a + l),
            ));
            let bytes = vstd::slice::slice_subrange(d, a, a + l);
            name = Some(lossy(bytes));
        }
    }
    proof {
        let nm = glyph_name(d@, gid as int);
        assert(nm == post_name(d@, off as int, len as int, gid as int));
        if idx >= 258 && idx - 258 >= strs.len() {
            assert(string_at(d@, off + 34 + 2 * ng, off + len, (idx - 258) as nat) is None);
        }
        assert(match name {
            Some(t) => nm == Some(t@),
            None => nm is None,
        });
    }
    let code = match groups {
        Some((base, n)) => groups_code_exec(d, base, n, gid),
        None => None,
    };
    assert(match code {
        Some(cp) => glyph_code(d@, gid as int) == Some(cp as int),
        None => glyph_code(d@, gid as int) is None,
    });
    match (name, code) {
        (Some(nm), Some(cp)) => {
            if nm.as_str().unicode_len() > 0 && 0xE000 <= cp && cp <= 0x10FFFF {
                let c = core::char::from_u32(cp as u32).unwrap();
                Some((nm, c))
            } else {
                None
            }
        },
        _ => None,
    }
}

/// `name` is an icon among the glyphs below `upto`, and `c` has the code
/// point of the last such glyph.
#[verifier::opaque]
pub open spec fn entry_ok(d: Seq<u8>, name: Seq<char>, c: char, upto: int) -> bool {
    match last_icon_glyph(d, name, upto) {
        Some(g) => glyph_code(d, g) == Some(c as int),
        None => false,
    }
}

/// Every entry of `s` names an icon among the glyphs below `upto`, with
/// the code point of the last such glyph.
pub open spec fn entries_exact(d: Seq<u8>, s: Seq<(Seq<char>, char)>, upto: int) -> bool {
    forall|i: int| 0 <= i < s.len() ==> entry_ok(d, #[trigger] s[i].0, s[i].1, upto)
}

/// The icon of glyph `gid` is exact for the glyphs up to `gid`.
proof fn lemma_entry_new(d: Seq<u8>, nv: Seq<char>, c: char, gid: int)
    requires
        icon_named(d, gid, nv),
        glyph_code(d, gid) == Some(c as int),
        0 <= gid,
    ensures
        entry_ok(d, nv, c, gid + 1),
{
    reveal(entry_ok);
}

/// An entry of another name than glyph `gid`'s stays exact.
proof fn lemma_entry_kept(d: Seq<u8>, name: Seq<char>, c: char, nv: Seq<char>, gid: int)
    requires
        icon_named(d, gid, nv),
        name != nv,
        entry_ok(d, name, c, gid),
        0 <= gid,
    ensures
        entry_ok(d, name, c, gid + 1),
{
    reveal(entry_ok);
    if icon_named(d, gid, name) {
        lemma_icon_named_unique(d, gid, name, nv);
    }
}

/// Every icon name among the glyphs below `upto` is in `s`.
pub open spec fn names_covered(d: Seq<u8>, s: Seq<(Seq<char>, char)>, upto: int) -> bool {
    forall|n: Seq<char>| #[trigger] last_icon_glyph(d, n, upto) is Some ==> has_name(s, n)
}

/// Putting in the icon of glyph `gid` keeps every entry exact for one more
/// glyph.
proof fn lemma_icon_step_entries(
    d: Seq<u8>,
    before: Seq<(Seq<char>, char)>,
    after: Seq<(Seq<char>, char)>,
    nv: Seq<char>,
    c: char,
    gid: int,
)
    requires
        placed(before, after, nv, c),
        icon_named(d, gid, nv),
        glyph_code(d, gid) == Some(c as int),
        0 <= gid,
        entries_exact(d, before, gid),
    ensures
        entries_exact(d, after, gid + 1),
{
    let k = choose|k: int| 0 <= k < after.len() && #[trigger] after[k] == (nv, c);
    assert forall|i: int| 0 <= i < after.len() implies entry_ok(d, #[trigger] after[i].0, after[i].1, gid + 1) by {
        if after[i].0 == nv {
            if i != k {
                lemma_text_less_irreflexive(nv);
                if i < k {
                    assert(text_less(after[i].0, after[k].0));
                } else {
                    assert(text_less(after[k].0, after[i].0));
                }
            }
            lemma_entry_new(d, nv, c, gid);
        } else {
            let j = choose|j: int| 0 <= j < before.len() && before[j] == after[i];
            assert(entry_ok(d, before[j].0, before[j].1, gid));
            lemma_entry_kept(d, after[i].0, after[i].1, nv, gid);
        }
    }
}

/// Putting in the icon of glyph `gid` keeps every icon name in the table,
/// for one more glyph.
proof fn lemma_icon_step_names(
    d: Seq<u8>,
    before: Seq<(Seq<char>, char)>,
    after: Seq<(Seq<char>, char)>,
    nv: Seq<char>,
    c: char,
    gid: int,
)
    requires
        placed(before, after, nv, c),
        icon_named(d, gid, nv),
        0 <= gid,
        names_covered(d, before, gid),
    ensures
        names_covered(d, after, gid + 1),
{
    let k = choose|k: int| 0 <= k < after.len() && #[trigger] after[k] == (nv, c);
    assert forall|n: Seq<char>| #[trigger] last_icon_glyph(d, n, gid + 1) is Some implies has_name(after, n) by {
        if n == nv {
            assert(after[k].0 == n);
        } else {
            if icon_named(d, gid, n) {
                lemma_icon_named_unique(d, gid, n, nv);
            }
            assert(last_icon_glyph(d, n, gid) is Some);
            let j = choose|j: int| 0 <= j < before.len() && #[trigger] before[j].0 == n;
            let i = choose|i: int| 0 <= i < after.len() && after[i] == before[j];
            assert(after[i].0 == n);
        }
    }
}

/// A glyph that is no icon leaves the table exact for one more glyph.
proof fn lemma_no_icon_step(d: Seq<u8>, s: Seq<(Seq<char>, char)>, gid: int)
    requires
        !candidate(d, gid),
        0 <= gid,
        entries_exact(d, s, gid),
        names_covered(d, s, gid),
    ensures
        entries_exact(d, s, gid + 1),
        names_covered(d, s, gid + 1),
{
    reveal(icon_named);
    reveal(entry_ok);
    assert forall|i: int| 0 <= i < s.len() implies entry_ok(d, #[trigger] s[i].0, s[i].1, gid + 1) by {
        assert(last_icon_glyph(d, s[i].0, gid + 1) == last_icon_glyph(d, s[i].0, gid));
    }
    assert forall|n: Seq<char>| #[trigger] last_icon_glyph(d, n, gid + 1) is Some implies has_name(s, n) by {
        assert(last_icon_glyph(d, n, gid + 1) == last_icon_glyph(d, n, gid));
    }
}

/// Glyphs from `lo` to `hi` that are no icons change no name's last icon
/// glyph.
proof fn lemma_last_stable(d: Seq<u8>, n: Seq<char>, lo: int, hi: int)
    requires
        0 <= lo <= hi,
        forall|g: int| lo <= g < hi ==> !#[trigger] candidate(d, g),
    ensures
        last_icon_glyph(d, n, hi) == last_icon_glyph(d, n, lo),
    decreases hi - lo,
{
    if lo < hi {
        lemma_last_stable(d, n, lo, hi - 1);
        assert(!candidate(d, hi - 1));
        reveal(icon_named);
    }
}

/// A table exact for the glyphs below `upto`, above which no glyph is an
/// icon, answers each name with its icon's code point.
proof fn lemma_icon_lookup(d: Seq<u8>, s: Seq<(Seq<char>, char)>, upto: int)
    requires
        0 <= upto <= 65536,
        forall|g: int| upto <= g < 65536 ==> !#[trigger] candidate(d, g),
        entries_exact(d, s, upto),
        names_covered(d, s, upto),
    ensures
        forall|name: Seq<char>| #[trigger] char_code(first_value(s, name)) == icon_code(d, name),
{
    reveal(entry_ok);
    assert forall|name: Seq<char>| #[trigger] char_code(first_value(s, name)) == icon_code(d, name) by {
        lemma_last_stable(d, name, upto, 65536);
        lemma_first_index(s, name);
        match first_index(s, name) {
            Some(i) => {
                assert(s[i].0 == name);
            },
            None => {
                if last_icon_glyph(d, name, upto) is Some {
                    let j = choose|j: int| 0 <= j < s.len() && #[trigger] s[j].0 == name;
                    assert(false);
                }
            },
        }
    }
}

/// The icon names of a font and the characters that draw them, sorted by
/// name; `None` when the font cannot be read. Where two glyphs have the
/// same name, the later glyph's character is kept.
pub fn icon_map(data: &[u8]) -> (m: Option<IconMap>)
    ensures
        match m {
            Some(map) => {
                &&& font_ok(data@)
                &&& map.wf()
                &&& forall|name: Seq<char>| #[trigger] char_code(first_value(map@, name)) == icon_code(data@, name)
            },
            None => !font_ok(data@),
        },
{
    let d = data;
    if !fits_exec(d, 4, 2) {
        return None;
    }
    let nt = rd16(d, 4);
    if !fits_exec(d, 12, 16 * nt) {
        return None;
    }
    let mut pt: Vec<u8> = Vec::new();
    pt.push(112);
    pt.push(111);
    pt.push(115);
    pt.push(116);
    let mut ct: Vec<u8> = Vec::new();
    ct.push(99);
    ct.push(109);
    ct.push(97);
    ct.push(112);
    assert(pt@ =~= post_tag());
    assert(ct@ =~= cmap_tag());
    let post = table_of(d, pt.as_slice());
    let cmap = table_of(d, ct.as_slice());

    let mut has_names = false;
    let mut off: u64 = 0;
    let mut len: u64 = 0;
    let mut ng: u64 = 0;
    let mut strs: Vec<(usize, usize)> = Vec::new();
    match post {
        Some((o, l)) => {
            if !fits_exec(d, o, 4) {
                return None;
            }
            if rd32(d, o) == 0x20000 {
                if !fits_exec(d, o + 32, 2) {
                    return None;
                }
                let count = rd16(d, o + 32);
                if !fits_exec(d, o + 34, 2 * count) {
                    return None;
                }
                match read_strings(d, o + 34 + 2 * count, o + l) {
                    None => {
                        return None;
                    },
                    Some(v) => {
                        strs = v;
                        has_names = true;
                        off = o;
                        len = l;
                        ng = count;
                    },
                }
            }
        },
        None => {},
    }
    let mut groups: Option<(u64, u64)> = None;
    match cmap {
        Some((o, _)) => match format12_groups(d, o) {
            None => {
                return None;
            },
            Some(g) => {
                groups = g;
            },
        },
        None => {},
    }
    assert(font_ok(d@));
    proof {
        assert forall|g: int| #[trigger] glyph_code(d@, g) == (match groups {
            Some((base, n)) => groups_code(d@, base as int, n as int, g),
            None => None,
        }) by {}
        assert(codes_read(d@, groups));
        if !has_names {
            assert forall|g: int| #[trigger] glyph_name(d@, g) is None by {}
        } else {
            assert(names_read(d@, off as int, len as int, ng as int, strs@));
        }
    }
    let mut entries: Vec<(String, char)> = Vec::new();
    assert(sorted_names(icon_pairs(entries@)));
    assert(entries_exact(d@, icon_pairs(entries@), 0));
    let mut gid: u64 = 0;
    while gid < ng
        invariant
            gid <= ng,
            has_names ==> names_read(d@, off as int, len as int, ng as int, strs@),
            !has_names ==> ng == 0,
            codes_read(d@, groups),
            sorted_names(icon_pairs(entries@)),
            entries_exact(d@, icon_pairs(entries@), gid as int),
            names_covered(d@, icon_pairs(entries@), gid as int),
        decreases ng - gid,
    {
        let ghost before = icon_pairs(entries@);
        match glyph_icon(d, off, len, ng, &strs, groups, gid) {
            Some((nm, c)) => {
                let ghost nv = nm@;
                insert_icon(&mut entries, nm, c);
                proof {
                    reveal(icon_named);
                    lemma_icon_step_entries(d@, before, icon_pairs(entries@), nv, c, gid as int);
                    lemma_icon_step_names(d@, before, icon_pairs(entries@), nv, c, gid as int);
                }
            },
            None => {
                proof {
                    lemma_no_icon_step(d@, before, gid as int);
                }
            },
        }
        gid = gid + 1;
    }
    let ghost fin = icon_pairs(entries@);
    proof {
        assert forall|g: int| ng <= g < 65536 implies !#[trigger] candidate(d@, g) by {
            if has_names {
                assert(glyph_name(d@, g) == post_name(d@, off as int, len as int, g));
            }
        }
    }
    let map = match IconMap::from_sorted(entries) {
        Some(m) => m,
        None => {
            return None;
        },
    };
    proof {
        assert(map@ == fin);
        lemma_icon_lookup(d@, fin, ng as int);
    }
    Some(map)
}

} // verus!
