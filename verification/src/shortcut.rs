//! Keyboard shortcuts of actions, written as `Cmd+Shift+K`: the key a text
//! names, the modifiers it asks for, and whether what the keyboard did in
//! one frame triggers it. The keyboard is read by the caller.

use crate::http::{lower, starts_lower};
use crate::json::text;
use crate::literal::chars_of;
use crate::manifest::{node_models, ActionV, NodeV, SemanticAction, SemanticNode};
use vstd::prelude::*;

verus! {

broadcast use crate::manifest::group_node_models;

/// A key a shortcut can end with.
#[derive(Clone, Copy, PartialEq, Eq, Structural, Debug)]
pub enum ShortcutKey {
    Enter,
    Escape,
    Tab,
    Space,
    Delete,
    Backspace,
    /// A letter key, named by its lower-case letter.
    Letter(char),
}

/// The modifier keys held down, or asked for by a shortcut.
#[derive(Clone, Copy, PartialEq, Eq, Structural, Debug)]
pub struct Modifiers {
    pub command: bool,
    pub ctrl: bool,
    pub shift: bool,
    pub alt: bool,
}

/// A parsed shortcut: its key and the modifiers that must be held, no
/// more and no fewer.
#[derive(Clone, Copy, PartialEq, Eq, Structural, Debug)]
pub struct Shortcut {
    pub key: ShortcutKey,
    pub modifiers: Modifiers,
}

/// Position of the first `+`.
pub open spec fn plus_at(s: Seq<char>) -> Option<int>
    decreases s.len(),
{
    if s.len() == 0 {
        None
    } else if s[0] == '+' {
        Some(0)
    } else {
        match plus_at(s.drop_first()) {
            Some(i) => Some(i + 1),
            None => None,
        }
    }
}

pub proof fn lemma_plus_bound(s: Seq<char>)
    ensures
        plus_at(s) matches Some(i) ==> 0 <= i < s.len(),
    decreases s.len(),
{
    if s.len() > 0 {
        lemma_plus_bound(s.drop_first());
    }
}

/// The pieces of a text between `+` signs, as `str::split('+')` gives
/// them: always at least one, empty pieces kept.
pub open spec fn plus_pieces(s: Seq<char>) -> Seq<Seq<char>>
    decreases s.len(),
{
    proof {
        lemma_plus_bound(s);
    }
    match plus_at(s) {
        Some(i) => seq![s.subrange(0, i)] + plus_pieces(s.subrange(i + 1, s.len() as int)),
        None => seq![s],
    }
}

/// The key a piece names, in any ASCII case.
pub open spec fn key_spec(name: Seq<char>) -> Option<ShortcutKey> {
    let l = lower(name);
    if l == "return"@ || l == "enter"@ {
        Some(ShortcutKey::Enter)
    } else if l == "escape"@ || l == "esc"@ {
        Some(ShortcutKey::Escape)
    } else if l == "tab"@ {
        Some(ShortcutKey::Tab)
    } else if l == "space"@ {
        Some(ShortcutKey::Space)
    } else if l == "delete"@ || l == "del"@ {
        Some(ShortcutKey::Delete)
    } else if l == "backspace"@ {
        Some(ShortcutKey::Backspace)
    } else if l.len() == 1 && 'a' <= l[0] <= 'z' {
        Some(ShortcutKey::Letter(l[0]))
    } else {
        None
    }
}

pub open spec fn names_command(m: Seq<char>) -> bool {
    lower(m) == "cmd"@ || lower(m) == "command"@ || lower(m) == "meta"@
}

pub open spec fn names_ctrl(m: Seq<char>) -> bool {
    lower(m) == "ctrl"@ || lower(m) == "control"@
}

pub open spec fn names_shift(m: Seq<char>) -> bool {
    lower(m) == "shift"@
}

pub open spec fn names_alt(m: Seq<char>) -> bool {
    lower(m) == "alt"@ || lower(m) == "option"@
}

/// The modifiers a list of pieces asks for; pieces that name none are
/// ignored.
pub open spec fn modifiers_spec(mods: Seq<Seq<char>>) -> Modifiers {
    Modifiers {
        command: exists|i: int| 0 <= i < mods.len() && names_command(#[trigger] mods[i]),
        ctrl: exists|i: int| 0 <= i < mods.len() && names_ctrl(#[trigger] mods[i]),
        shift: exists|i: int| 0 <= i < mods.len() && names_shift(#[trigger] mods[i]),
        alt: exists|i: int| 0 <= i < mods.len() && names_alt(#[trigger] mods[i]),
    }
}

/// The shortcut a text names: its last piece is the key, the pieces
/// before it the modifiers. `None` when the last piece names no key.
pub open spec fn shortcut_spec(s: Seq<char>) -> Option<Shortcut> {
    let parts = plus_pieces(s);
    match key_spec(parts.last()) {
        Some(k) => Some(Shortcut { key: k, modifiers: modifiers_spec(parts.drop_last()) }),
        None => None,
    }
}

/// What the keyboard did in one frame triggers the shortcut a text names:
/// exactly its modifiers are held and its key was pressed.
pub open spec fn pressed_spec(s: Seq<char>, held: Modifiers, pressed: Seq<ShortcutKey>) -> bool {
    match shortcut_spec(s) {
        Some(sc) => sc.modifiers == held && pressed.contains(sc.key),
        None => false,
    }
}

proof fn lemma_plus_at(s: Seq<char>, k: int)
    requires
        0 <= k <= s.len(),
        forall|j: int| 0 <= j < k ==> s[j] != '+',
        k < s.len() ==> s[k] == '+',
    ensures
        plus_at(s) == (if k < s.len() {
            Some(k)
        } else {
            None
        }),
    decreases k,
{
    if k > 0 {
        assert forall|j: int| 0 <= j < k - 1 implies s.drop_first()[j] != '+' by {
            assert(s.drop_first()[j] == s[j + 1]);
        }
        if k < s.len() {
            assert(s.drop_first()[k - 1] == s[k]);
        }
        lemma_plus_at(s.drop_first(), k - 1);
    }
}

/// A copy of `v[from..to]`.
fn piece_of(v: &Vec<char>, from: usize, to: usize) -> (r: Vec<char>)
    requires
        from <= to <= v.len(),
    ensures
        r@ == v@.subrange(from as int, to as int),
{
    let mut r: Vec<char> = Vec::new();
    let mut i = from;
    while i < to
        invariant
            from <= i <= to,
            to <= v.len(),
            r@ == v@.subrange(from as int, i as int),
        decreases to - i,
    {
        r.push(v[i]);
        assert(r@ =~= v@.subrange(from as int, i + 1));
        i = i + 1;
    }
    r
}

/// The pieces of a text between `+` signs.
pub fn split_plus(v: &Vec<char>) -> (parts: Vec<Vec<char>>)
    ensures
        parts@.map_values(|p: Vec<char>| p@) == plus_pieces(v@),
{
    let n = v.len();
    let mut parts: Vec<Vec<char>> = Vec::new();
    let mut start: usize = 0;
    let mut i: usize = 0;
    assert(v@.subrange(0, n as int) =~= v@);
    while i < n
        invariant
            n == v.len(),
            start <= i <= n,
            forall|j: int| start <= j < i ==> v@[j] != '+',
            parts@.map_values(|p: Vec<char>| p@) + plus_pieces(v@.subrange(start as int, n as int)) == plus_pieces(
                v@,
            ),
        decreases n - i,
    {
        if v[i] == '+' {
            let ghost sub = v@.subrange(start as int, n as int);
            proof {
                assert forall|j: int| 0 <= j < i - start implies sub[j] != '+' by {
                    assert(sub[j] == v@[start + j]);
                }
                assert(sub[i - start] == v@[i as int]);
                lemma_plus_at(sub, i - start);
                assert(sub.subrange(0, i - start) =~= v@.subrange(start as int, i as int));
                assert(sub.subrange(i - start + 1, sub.len() as int) =~= v@.subrange(i + 1, n as int));
            }
            let ghost before = parts@.map_values(|p: Vec<char>| p@);
            let piece = piece_of(v, start, i);
            let ghost pm = piece@;
            parts.push(piece);
            assert(parts@.map_values(|p: Vec<char>| p@) =~= before.push(pm));
            assert(before.push(pm) + plus_pieces(v@.subrange(i + 1, n as int)) =~= before + plus_pieces(sub));
            start = i + 1;
        }
        i = i + 1;
    }
    let ghost sub = v@.subrange(start as int, n as int);
    proof {
        assert forall|j: int| 0 <= j < sub.len() implies sub[j] != '+' by {
            assert(sub[j] == v@[start + j]);
        }
        lemma_plus_at(sub, sub.len() as int);
    }
    let ghost before = parts@.map_values(|p: Vec<char>| p@);
    let piece = piece_of(v, start, n);
    let ghost pm = piece@;
    parts.push(piece);
    assert(parts@.map_values(|p: Vec<char>| p@) =~= before.push(pm));
    assert(before.push(pm) =~= before + plus_pieces(sub));
    parts
}

/// `piece` read in ASCII lower case is `word`.
fn is_word(piece: &Vec<char>, word: &str) -> (b: bool)
    ensures
        b == (lower(piece@) == word@),
{
    if piece.len() != word.unicode_len() {
        return false;
    }
    let r = starts_lower(piece, word);
    if r {
        assert(lower(piece@) =~= word@);
    }
    r
}

/// The key a piece names.
pub fn key_of(name: &Vec<char>) -> (k: Option<ShortcutKey>)
    ensures
        k == key_spec(name@),
{
    if is_word(name, "return") || is_word(name, "enter") {
        Some(ShortcutKey::Enter)
    } else if is_word(name, "escape") || is_word(name, "esc") {
        Some(ShortcutKey::Escape)
    } else if is_word(name, "tab") {
        Some(ShortcutKey::Tab)
    } else if is_word(name, "space") {
        Some(ShortcutKey::Space)
    } else if is_word(name, "delete") || is_word(name, "del") {
        Some(ShortcutKey::Delete)
    } else if is_word(name, "backspace") {
        Some(ShortcutKey::Backspace)
    } else if name.len() == 1 {
        let c = name[0];
        let lc = if 'A' <= c && c <= 'Z' {
            ((c as u32) + 32) as u8 as char
        } else {
            c
        };
        assert(lc == crate::literal::ascii_lower(c)) by {
            if 'A' <= c && c <= 'Z' {
                assert(((c as u32) + 32) as u8 as char == (((c as int) + 32) as char));
            }
        }
        assert(lower(name@)[0] == lc);
        if 'a' <= lc && lc <= 'z' {
            Some(ShortcutKey::Letter(lc))
        } else {
            None
        }
    } else {
        None
    }
}

/// The shortcut a text names, or `None` when its last piece names no key.
pub fn parse_shortcut(text: &str) -> (r: Option<Shortcut>)
    ensures
        r == shortcut_spec(text@),
{
    let v = chars_of(text);
    let parts = split_plus(&v);
    let ghost pv = parts@.map_values(|p: Vec<char>| p@);
    proof {
        lemma_pieces_nonempty(v@);
    }
    let last = parts.len() - 1;
    assert(pv.last() == parts@[last as int]@);
    let key = match key_of(&parts[last]) {
        Some(k) => k,
        None => return None,
    };
    let mut m = Modifiers { command: false, ctrl: false, shift: false, alt: false };
    let mut i: usize = 0;
    while i < last
        invariant
            last + 1 == parts.len(),
            i <= last,
            pv == parts@.map_values(|p: Vec<char>| p@),
            m == modifiers_spec(pv.subrange(0, i as int)),
        decreases last - i,
    {
        let ghost done = pv.subrange(0, i as int);
        let ghost next = pv.subrange(0, i + 1);
        assert(next =~= done.push(parts@[i as int]@));
        let p = &parts[i];
        let c = is_word(p, "cmd") || is_word(p, "command") || is_word(p, "meta");
        let t = is_word(p, "ctrl") || is_word(p, "control");
        let s = is_word(p, "shift");
        let a = is_word(p, "alt") || is_word(p, "option");
        proof {
            lemma_modifiers_push(done, p@);
        }
        m = Modifiers { command: m.command || c, ctrl: m.ctrl || t, shift: m.shift || s, alt: m.alt || a };
        i = i + 1;
    }
    assert(pv.subrange(0, last as int) =~= pv.drop_last());
    Some(Shortcut { key, modifiers: m })
}

proof fn lemma_pieces_nonempty(s: Seq<char>)
    ensures
        plus_pieces(s).len() >= 1,
    decreases s.len(),
{
    lemma_plus_bound(s);
    if let Some(i) = plus_at(s) {
        lemma_pieces_nonempty(s.subrange(i + 1, s.len() as int));
    }
}

proof fn lemma_modifiers_push(done: Seq<Seq<char>>, p: Seq<char>)
    ensures
        modifiers_spec(done.push(p)) == (Modifiers {
            command: modifiers_spec(done).command || names_command(p),
            ctrl: modifiers_spec(done).ctrl || names_ctrl(p),
            shift: modifiers_spec(done).shift || names_shift(p),
            alt: modifiers_spec(done).alt || names_alt(p),
        }),
{
    let next = done.push(p);
    assert(next[done.len() as int] == p);
    assert forall|i: int| 0 <= i < done.len() implies next[i] == done[i] by {}
}

/// Whether what the keyboard did in one frame triggers the shortcut a
/// text names: exactly its modifiers are held and its key is among the
/// keys pressed. A text that names no key is never triggered.
pub fn shortcut_pressed(text: &str, held: Modifiers, pressed: &Vec<ShortcutKey>) -> (b: bool)
    ensures
        b == pressed_spec(text@, held, pressed@),
{
    match parse_shortcut(text) {
        Some(sc) => {
            if sc.modifiers != held {
                return false;
            }
            let mut i: usize = 0;
            while i < pressed.len()
                invariant
                    i <= pressed.len(),
                    shortcut_spec(text@) == Some(sc),
                    sc.modifiers == held,
                    forall|j: int| 0 <= j < i ==> pressed@[j] != sc.key,
                decreases pressed.len() - i,
            {
                if pressed[i] == sc.key {
                    assert(pressed@[i as int] == sc.key);
                    return true;
                }
                i = i + 1;
            }
            false
        },
        None => false,
    }
}

proof fn lemma_lower_char(c: char)
    ensures
        crate::literal::ascii_lower(crate::literal::ascii_lower(c)) == crate::literal::ascii_lower(c),
        (crate::literal::ascii_lower(c) == '+') == (c == '+'),
{
}

proof fn lemma_lower_idem(x: Seq<char>)
    ensures
        lower(lower(x)) == lower(x),
{
    assert forall|i: int| 0 <= i < x.len() implies lower(lower(x))[i] == lower(x)[i] by {
        lemma_lower_char(x[i]);
    }
    assert(lower(lower(x)) =~= lower(x));
}

proof fn lemma_plus_at_lower(s: Seq<char>)
    ensures
        plus_at(lower(s)) == plus_at(s),
    decreases s.len(),
{
    if s.len() > 0 {
        lemma_lower_char(s[0]);
        assert(lower(s).drop_first() =~= lower(s.drop_first()));
        lemma_plus_at_lower(s.drop_first());
    }
}

proof fn lemma_pieces_lower(s: Seq<char>)
    ensures
        plus_pieces(lower(s)) == plus_pieces(s).map_values(|p: Seq<char>| lower(p)),
    decreases s.len(),
{
    lemma_plus_bound(s);
    lemma_plus_at_lower(s);
    match plus_at(s) {
        Some(i) => {
            let rest = s.subrange(i + 1, s.len() as int);
            assert(lower(s).subrange(0, i) =~= lower(s.subrange(0, i)));
            assert(lower(s).subrange(i + 1, s.len() as int) =~= lower(rest));
            lemma_pieces_lower(rest);
            assert(plus_pieces(s).map_values(|p: Seq<char>| lower(p)) =~= seq![lower(s.subrange(0, i))] + plus_pieces(
                rest,
            ).map_values(|p: Seq<char>| lower(p)));
        },
        None => {
            assert(plus_pieces(s).map_values(|p: Seq<char>| lower(p)) =~= seq![lower(s)]);
        },
    }
}

/// A shortcut names the same key and modifiers whatever the ASCII case it
/// is written in: `Cmd+Shift+K` is `cmd+shift+k`.
pub proof fn law_shortcut_case_insensitive(s: Seq<char>)
    ensures
        shortcut_spec(lower(s)) == shortcut_spec(s),
{
    let parts = plus_pieces(s);
    let lowered = plus_pieces(lower(s));
    lemma_pieces_lower(s);
    lemma_pieces_nonempty(s);
    lemma_lower_idem(parts.last());
    assert(lowered.last() == lower(parts.last()));
    let mods = parts.drop_last();
    let lmods = lowered.drop_last();
    assert(lmods =~= mods.map_values(|p: Seq<char>| lower(p)));
    assert forall|i: int| 0 <= i < mods.len() implies lmods[i] == lower(mods[i]) && lower(lmods[i]) == lower(
        mods[i],
    ) by {
        lemma_lower_idem(mods[i]);
    }
    assert(modifiers_spec(lmods).command == modifiers_spec(mods).command) by {
        if modifiers_spec(mods).command {
            let i = choose|i: int| 0 <= i < mods.len() && names_command(#[trigger] mods[i]);
            assert(names_command(lmods[i]));
        }
        if modifiers_spec(lmods).command {
            let i = choose|i: int| 0 <= i < lmods.len() && names_command(#[trigger] lmods[i]);
            assert(names_command(mods[i]));
        }
    }
    assert(modifiers_spec(lmods).ctrl == modifiers_spec(mods).ctrl) by {
        if modifiers_spec(mods).ctrl {
            let i = choose|i: int| 0 <= i < mods.len() && names_ctrl(#[trigger] mods[i]);
            assert(names_ctrl(lmods[i]));
        }
        if modifiers_spec(lmods).ctrl {
            let i = choose|i: int| 0 <= i < lmods.len() && names_ctrl(#[trigger] lmods[i]);
            assert(names_ctrl(mods[i]));
        }
    }
    assert(modifiers_spec(lmods).shift == modifiers_spec(mods).shift) by {
        if modifiers_spec(mods).shift {
            let i = choose|i: int| 0 <= i < mods.len() && names_shift(#[trigger] mods[i]);
            assert(names_shift(lmods[i]));
        }
        if modifiers_spec(lmods).shift {
            let i = choose|i: int| 0 <= i < lmods.len() && names_shift(#[trigger] lmods[i]);
            assert(names_shift(mods[i]));
        }
    }
    assert(modifiers_spec(lmods).alt == modifiers_spec(mods).alt) by {
        if modifiers_spec(mods).alt {
            let i = choose|i: int| 0 <= i < mods.len() && names_alt(#[trigger] mods[i]);
            assert(names_alt(lmods[i]));
        }
        if modifiers_spec(lmods).alt {
            let i = choose|i: int| 0 <= i < lmods.len() && names_alt(#[trigger] lmods[i]);
            assert(names_alt(mods[i]));
        }
    }
}

/// The action fires: it has a shortcut, and the frame triggers it.
pub open spec fn fires(a: ActionV, held: Modifiers, pressed: Seq<ShortcutKey>) -> bool {
    a.shortcut matches Some(sc) && pressed_spec(sc, held, pressed)
}

/// The (node id, action id) pairs of the actions of a node that fire, in
/// their order.
pub open spec fn own_triggers(id: Seq<char>, acts: Seq<ActionV>, held: Modifiers, pressed: Seq<ShortcutKey>) -> Seq<
    (Seq<char>, Seq<char>),
>
    decreases acts.len(),
{
    if acts.len() == 0 {
        Seq::empty()
    } else {
        let rest = own_triggers(id, acts.drop_last(), held, pressed);
        if fires(acts.last(), held, pressed) {
            rest.push((id, acts.last().id))
        } else {
            rest
        }
    }
}

/// The actions that fire in a node and under it: the node's own first,
/// then those of its children in order.
pub open spec fn node_triggers(n: NodeV, held: Modifiers, pressed: Seq<ShortcutKey>) -> Seq<(Seq<char>, Seq<char>)>
    decreases n, 1int,
{
    own_triggers(n.id, n.actions, held, pressed) + forest_triggers(n.children, held, pressed)
}

/// The actions that fire in a list of nodes, in document order.
pub open spec fn forest_triggers(ns: Seq<NodeV>, held: Modifiers, pressed: Seq<ShortcutKey>) -> Seq<
    (Seq<char>, Seq<char>),
>
    decreases ns, 0int,
{
    if ns.len() == 0 {
        Seq::empty()
    } else {
        forest_triggers(ns.drop_last(), held, pressed) + node_triggers(ns[ns.len() - 1], held, pressed)
    }
}

pub open spec fn pair_views(v: Seq<(String, String)>) -> Seq<(Seq<char>, Seq<char>)> {
    v.map_values(|p: (String, String)| (p.0@, p.1@))
}

/// Appends to `out`, for each action of `node` and of the nodes under it
/// whose shortcut the frame triggers, the node's id and the action's id,
/// in document order.
pub fn collect_shortcut_triggers(
    node: &SemanticNode,
    held: Modifiers,
    pressed: &Vec<ShortcutKey>,
    out: &mut Vec<(String, String)>,
)
    ensures
        pair_views(final(out)@) == pair_views(old(out)@) + node_triggers(node@, held, pressed@),
    decreases node,
{
    let ghost start = pair_views(out@);
    let ghost acts = node@.actions;
    let mut i: usize = 0;
    assert(acts.subrange(0, 0) =~= Seq::<ActionV>::empty());
    while i < node.actions.len()
        invariant
            i <= node.actions.len(),
            acts == node.actions@.map_values(|a: SemanticAction| a@),
            acts == node@.actions,
            pair_views(out@) == start + own_triggers(node@.id, acts.subrange(0, i as int), held, pressed@),
        decreases node.actions.len() - i,
    {
        let a = &node.actions[i];
        let ghost before = out@;
        assert(acts[i as int] == a@);
        assert(acts.subrange(0, i + 1).drop_last() =~= acts.subrange(0, i as int));
        match &a.shortcut {
            Some(sc) => {
                if shortcut_pressed(sc.as_str(), held, pressed) {
                    out.push((text(node.id.as_str()), text(a.id.as_str())));
                    assert(pair_views(out@) =~= pair_views(before).push((node@.id, a@.id)));
                }
            },
            None => {},
        }
        i = i + 1;
    }
    assert(acts.subrange(0, acts.len() as int) =~= acts);
    let ghost mid = pair_views(out@);
    let ghost kids = node@.children;
    let mut j: usize = 0;
    assert(kids == node_models(node.children@));
    assert(node_models(node.children@).len() == node.children@.len());
    assert(kids.subrange(0, 0) =~= Seq::<NodeV>::empty());
    while j < node.children.len()
        invariant
            j <= node.children.len(),
            kids == node_models(node.children@),
            kids.len() == node.children.len(),
            pair_views(out@) == mid + forest_triggers(kids.subrange(0, j as int), held, pressed@),
        decreases node.children.len() - j,
    {
        assert(kids[j as int] == node.children@[j as int]@);
        let ghost sub = kids.subrange(0, j + 1);
        assert(sub.drop_last() =~= kids.subrange(0, j as int));
        assert(sub[sub.len() - 1] == kids[j as int]);
        assert(decreases_to!(node => node.children@[j as int])) by {
            assert(decreases_to!(node => node.children));
            assert(decreases_to!(node.children => node.children@));
            assert(decreases_to!(node.children@ => node.children@[j as int]));
        }
        let ghost before = pair_views(out@);
        collect_shortcut_triggers(&node.children[j], held, pressed, out);
        assert(before + node_triggers(kids[j as int], held, pressed@) =~= mid + forest_triggers(sub, held, pressed@));
        j = j + 1;
    }
    assert(kids.subrange(0, kids.len() as int) =~= kids);
}

/// The (node id, action id) pairs of the actions, anywhere in the tree,
/// whose shortcut the frame triggers, in document order.
pub fn shortcut_triggers(nodes: &Vec<SemanticNode>, held: Modifiers, pressed: &Vec<ShortcutKey>) -> (r: Vec<
    (String, String),
>)
    ensures
        pair_views(r@) == forest_triggers(node_models(nodes@), held, pressed@),
{
    let mut out: Vec<(String, String)> = Vec::new();
    let ghost ms = node_models(nodes@);
    let mut j: usize = 0;
    assert(ms.subrange(0, 0) =~= Seq::<NodeV>::empty());
    assert(pair_views(out@) =~= Seq::empty());
    while j < nodes.len()
        invariant
            j <= nodes.len(),
            ms == node_models(nodes@),
            ms.len() == nodes.len(),
            pair_views(out@) == forest_triggers(ms.subrange(0, j as int), held, pressed@),
        decreases nodes.len() - j,
    {
        assert(ms[j as int] == nodes@[j as int]@);
        let ghost sub = ms.subrange(0, j + 1);
        assert(sub.drop_last() =~= ms.subrange(0, j as int));
        assert(sub[sub.len() - 1] == ms[j as int]);
        collect_shortcut_triggers(&nodes[j], held, pressed, &mut out);
        j = j + 1;
    }
    assert(ms.subrange(0, ms.len() as int) =~= ms);
    out
}

/// `return` and `enter`, in any ASCII case, both name the Enter key, and
/// no other piece does; a shortcut that ends with either fires on Enter
/// with its modifiers held.
pub proof fn law_return_is_enter(name: Seq<char>, s: Seq<char>, held: Modifiers, pressed: Seq<ShortcutKey>)
    ensures
        (key_spec(name) == Some(ShortcutKey::Enter)) == (lower(name) == "return"@ || lower(name) == "enter"@),
        ({
            let last = plus_pieces(s).last();
            (lower(last) == "return"@ || lower(last) == "enter"@) ==> {
                &&& shortcut_spec(s) matches Some(sc)
                &&& sc.key == ShortcutKey::Enter
                &&& pressed_spec(s, held, pressed) == (sc.modifiers == held && pressed.contains(ShortcutKey::Enter))
            }
        }),
{
}

} // verus!
