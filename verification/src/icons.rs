//! Icon names and the characters of the icon font that draw them. The
//! table is kept sorted by name, so a name is found by binary search.

use crate::collections::first_value;
use vstd::prelude::*;

verus! {

/// `a` comes before `b` in the order of their characters (shorter first
/// when one starts the other), the order of `str`'s comparison.
pub open spec fn text_less(a: Seq<char>, b: Seq<char>) -> bool
    decreases a.len(),
{
    if a.len() == 0 {
        b.len() > 0
    } else if b.len() == 0 {
        false
    } else if a[0] != b[0] {
        (a[0] as int) < (b[0] as int)
    } else {
        text_less(a.drop_first(), b.drop_first())
    }
}

pub proof fn lemma_text_less_irreflexive(a: Seq<char>)
    ensures
        !text_less(a, a),
    decreases a.len(),
{
    if a.len() > 0 {
        lemma_text_less_irreflexive(a.drop_first());
    }
}

pub proof fn lemma_text_less_total(a: Seq<char>, b: Seq<char>)
    ensures
        a == b || text_less(a, b) || text_less(b, a),
    decreases a.len(),
{
    if a.len() > 0 && b.len() > 0 && a[0] == b[0] {
        lemma_text_less_total(a.drop_first(), b.drop_first());
        if a.drop_first() == b.drop_first() {
            assert(a =~= seq![a[0]] + a.drop_first());
            assert(b =~= seq![b[0]] + b.drop_first());
        }
    }
    if a.len() == 0 && b.len() == 0 {
        assert(a =~= b);
    }
}

pub proof fn lemma_text_less_transitive(a: Seq<char>, b: Seq<char>, c: Seq<char>)
    requires
        text_less(a, b),
        text_less(b, c),
    ensures
        text_less(a, c),
    decreases a.len(),
{
    if a.len() > 0 && b.len() > 0 && c.len() > 0 && a[0] == b[0] && b[0] == c[0] {
        lemma_text_less_transitive(a.drop_first(), b.drop_first(), c.drop_first());
    }
    if a.len() > 0 && b.len() > 0 && c.len() > 0 {
        assert((a[0] as int) <= (b[0] as int));
    }
}

pub proof fn lemma_text_less_asymmetric(a: Seq<char>, b: Seq<char>)
    requires
        text_less(a, b),
    ensures
        !text_less(b, a),
{
    if text_less(b, a) {
        lemma_text_less_transitive(a, b, a);
        lemma_text_less_irreflexive(a);
    }
}

/// How two texts compare.
pub enum TextOrder {
    Less,
    Equal,
    Greater,
}

/// Compares two texts character by character.
pub fn compare_text(a: &str, b: &str) -> (o: TextOrder)
    ensures
        o is Less <==> text_less(a@, b@),
        o is Equal <==> a@ == b@,
        o is Greater <==> text_less(b@, a@),
{
    proof {
        lemma_text_less_total(a@, b@);
        lemma_text_less_irreflexive(a@);
        if text_less(a@, b@) {
            lemma_text_less_asymmetric(a@, b@);
        }
    }
    let n = a.unicode_len();
    let m = b.unicode_len();
    let mut i: usize = 0;
    assert(a@.subrange(0, n as int) =~= a@);
    assert(b@.subrange(0, m as int) =~= b@);
    while i < n && i < m
        invariant
            n == a@.len(),
            m == b@.len(),
            i <= n,
            i <= m,
            a@.subrange(0, i as int) == b@.subrange(0, i as int),
            text_less(a@, b@) == text_less(a@.subrange(i as int, n as int), b@.subrange(i as int, m as int)),
            text_less(b@, a@) == text_less(b@.subrange(i as int, m as int), a@.subrange(i as int, n as int)),
        decreases n - i,
    {
        let x = a.get_char(i);
        let y = b.get_char(i);
        let ghost ra = a@.subrange(i as int, n as int);
        let ghost rb = b@.subrange(i as int, m as int);
        assert(ra[0] == x && rb[0] == y);
        if x != y {
            proof {
                if a@ == b@ {
                    assert(a@[i as int] == b@[i as int]);
                }
            }
            if (x as u32) < (y as u32) {
                return TextOrder::Less;
            } else {
                return TextOrder::Greater;
            }
        }
        assert(ra.drop_first() =~= a@.subrange(i + 1, n as int));
        assert(rb.drop_first() =~= b@.subrange(i + 1, m as int));
        assert(a@.subrange(0, i + 1) =~= a@.subrange(0, i as int).push(x));
        assert(b@.subrange(0, i + 1) =~= b@.subrange(0, i as int).push(y));
        i = i + 1;
    }
    if i == n && i == m {
        assert(a@ =~= a@.subrange(0, i as int));
        assert(b@ =~= b@.subrange(0, i as int));
        TextOrder::Equal
    } else if i == n {
        proof {
            if a@ == b@ {
                assert(false);
            }
        }
        TextOrder::Less
    } else {
        proof {
            if a@ == b@ {
                assert(false);
            }
        }
        TextOrder::Greater
    }
}

/// Names in strictly increasing order.
pub open spec fn sorted_names(s: Seq<(Seq<char>, char)>) -> bool {
    forall|i: int, j: int| 0 <= i < j < s.len() ==> text_less(#[trigger] s[i].0, #[trigger] s[j].0)
}

/// The icon names of a font and their characters, sorted by name.
pub struct IconMap {
    entries: Vec<(String, char)>,
}

impl View for IconMap {
    type V = Seq<(Seq<char>, char)>;

    closed spec fn view(&self) -> Seq<(Seq<char>, char)> {
        self.entries@.map_values(|p: (String, char)| (p.0@, p.1))
    }
}

impl IconMap {
    /// The map is sorted by name.
    pub closed spec fn wf(&self) -> bool {
        sorted_names(self@)
    }

    /// An empty map.
    pub fn new() -> (m: IconMap)
        ensures
            m@ == Seq::<(Seq<char>, char)>::empty(),
            m.wf(),
    {
        let m = IconMap { entries: Vec::new() };
        assert(m@ =~= Seq::<(Seq<char>, char)>::empty());
        m
    }

    /// The map of `entries`, when their names are in strictly increasing
    /// order; `None` otherwise.
    pub fn from_sorted(entries: Vec<(String, char)>) -> (m: Option<IconMap>)
        ensures
            match m {
                Some(map) => map.wf() && map@ == entries@.map_values(|p: (String, char)| (p.0@, p.1)),
                None => !sorted_names(entries@.map_values(|p: (String, char)| (p.0@, p.1))),
            },
    {
        let ghost s = entries@.map_values(|p: (String, char)| (p.0@, p.1));
        let mut i: usize = 1;
        if entries.len() == 0 {
            return Some(IconMap { entries });
        }
        while i < entries.len()
            invariant
                1 <= i <= entries.len(),
                s == entries@.map_values(|p: (String, char)| (p.0@, p.1)),
                s.len() == entries.len(),
                forall|x: int, y: int| 0 <= x < y < i ==> text_less(#[trigger] s[x].0, #[trigger] s[y].0),
            decreases entries.len() - i,
        {
            assert(s[i - 1].0 == entries@[i - 1].0@);
            assert(s[i as int].0 == entries@[i as int].0@);
            match compare_text(entries[i - 1].0.as_str(), entries[i].0.as_str()) {
                TextOrder::Less => {},
                _ => {
                    return None;
                },
            }
            assert forall|x: int, y: int| 0 <= x < y < i + 1 implies text_less(#[trigger] s[x].0, #[trigger] s[y].0) by {
                if y == i && x < i - 1 {
                    lemma_text_less_transitive(s[x].0, s[i - 1].0, s[i as int].0);
                }
            }
            i = i + 1;
        }
        Some(IconMap { entries })
    }

    /// The character of icon `name`.
    pub fn icon_char(&self, name: &str) -> (c: Option<char>)
        requires
            self.wf(),
        ensures
            c == first_value(self@, name@),
    {
        let ghost s = self@;
        let mut lo: usize = 0;
        let mut hi: usize = self.entries.len();
        while lo < hi
            invariant
                s == self@,
                s.len() == self.entries.len(),
                sorted_names(s),
                lo <= hi <= s.len(),
                forall|j: int| 0 <= j < lo ==> text_less(#[trigger] s[j].0, name@),
                forall|j: int| hi <= j < s.len() ==> text_less(name@, #[trigger] s[j].0),
            decreases hi - lo,
        {
            let mid = lo + (hi - lo) / 2;
            assert(s[mid as int] == (self.entries@[mid as int].0@, self.entries@[mid as int].1));
            match compare_text(self.entries[mid].0.as_str(), name) {
                TextOrder::Less => {
                    assert forall|j: int| 0 <= j < mid + 1 implies text_less(#[trigger] s[j].0, name@) by {
                        if j < mid {
                            lemma_text_less_transitive(s[j].0, s[mid as int].0, name@);
                        }
                    }
                    lo = mid + 1;
                },
                TextOrder::Greater => {
                    assert forall|j: int| mid <= j < s.len() implies text_less(name@, #[trigger] s[j].0) by {
                        if j > mid {
                            lemma_text_less_transitive(name@, s[mid as int].0, s[j].0);
                        }
                    }
                    hi = mid;
                },
                TextOrder::Equal => {
                    proof {
                        assert forall|j: int| 0 <= j < mid implies #[trigger] s[j].0 != name@ by {
                            assert(text_less(s[j].0, s[mid as int].0));
                            lemma_text_less_irreflexive(name@);
                        }
                        crate::collections::lemma_first_value_at(s, name@, mid as int);
                    }
                    return Some(self.entries[mid].1);
                },
            }
        }
        proof {
            assert forall|j: int| 0 <= j < s.len() implies #[trigger] s[j].0 != name@ by {
                lemma_text_less_irreflexive(name@);
            }
            crate::collections::lemma_first_value_absent(s, name@);
        }
        None
    }
}

} // verus!
