//! Lookups and edits in the semantic tree. A node is found by id in
//! document order: a node before its children, its children before its
//! next sibling. The first node found is the one edited.

use crate::json::{string_eq, text};
use crate::manifest::{node_models, NodeV, SemanticAction, SemanticNode};
use vstd::prelude::*;

verus! {

broadcast use crate::manifest::group_node_models;

/// The first node with id `id` in document order.
pub open spec fn find_v(nodes: Seq<NodeV>, id: Seq<char>) -> Option<NodeV>
    decreases nodes,
{
    if nodes.len() == 0 {
        None
    } else if nodes[0].id == id {
        Some(nodes[0])
    } else {
        match find_v(nodes[0].children, id) {
            Some(n) => Some(n),
            None => find_v(nodes.drop_first(), id),
        }
    }
}

/// A change to a node: what the `manifest.*` effects ask for.
pub enum NodeEditV {
    Label(Seq<char>),
    Icon(Seq<char>),
    Options(Seq<Seq<char>>),
}

/// A change to a node.
pub enum NodeEdit {
    /// Replace the label.
    Label(String),
    /// Replace the icon.
    Icon(String),
    /// Replace the `option` children by options with these labels.
    Options(Vec<String>),
}

impl View for NodeEdit {
    type V = NodeEditV;

    open spec fn view(&self) -> NodeEditV {
        match self {
            NodeEdit::Label(l) => NodeEditV::Label(l@),
            NodeEdit::Icon(i) => NodeEditV::Icon(i@),
            NodeEdit::Options(ls) => NodeEditV::Options(ls@.map_values(|s: String| s@)),
        }
    }
}

/// The option child with label `label` of the node `parent_id`.
pub open spec fn option_v(parent_id: Seq<char>, label: Seq<char>) -> NodeV {
    NodeV {
        id: parent_id + ".option."@ + label,
        role: "option"@,
        label,
        bind: None,
        icon: None,
        placeholder: None,
        disabled: false,
        readonly: false,
        variant: None,
        aria_label: None,
        layout: None,
        gap: None,
        padding: None,
        width: None,
        min_width: None,
        min_height: None,
        max_height: None,
        columns: None,
        wrap: false,
        scroll: false,
        grow: false,
        actions: Seq::empty(),
        children: Seq::empty(),
    }
}

/// The node is not an option.
pub open spec fn not_option(n: NodeV) -> bool {
    n.role != "option"@
}

/// `n` changed by `e`.
pub open spec fn edit_node(n: NodeV, e: NodeEditV) -> NodeV {
    match e {
        NodeEditV::Label(l) => NodeV { label: l, ..n },
        NodeEditV::Icon(i) => NodeV { icon: Some(i), ..n },
        NodeEditV::Options(labels) => NodeV {
            children: n.children.filter(|c: NodeV| not_option(c)) + labels.map_values(
                |l: Seq<char>| option_v(n.id, l),
            ),
            ..n
        },
    }
}

/// `nodes` with the first node of id `id` changed by `e`; unchanged when
/// there is none.
pub open spec fn edit_forest(nodes: Seq<NodeV>, id: Seq<char>, e: NodeEditV) -> Seq<NodeV>
    decreases nodes,
{
    if nodes.len() == 0 {
        nodes
    } else if nodes[0].id == id {
        seq![edit_node(nodes[0], e)] + nodes.drop_first()
    } else if find_v(nodes[0].children, id) is Some {
        seq![NodeV { children: edit_forest(nodes[0].children, id, e), ..nodes[0] }] + nodes.drop_first()
    } else {
        seq![nodes[0]] + edit_forest(nodes.drop_first(), id, e)
    }
}

/// Nothing in the first `i` nodes, nor under them, has id `id`.
pub open spec fn none_before(nodes: Seq<NodeV>, id: Seq<char>, i: int) -> bool {
    forall|j: int| 0 <= j < i ==> (#[trigger] nodes[j]).id != id && find_v(nodes[j].children, id) is None
}

proof fn lemma_find_skip(nodes: Seq<NodeV>, id: Seq<char>, i: int)
    requires
        0 <= i <= nodes.len(),
        none_before(nodes, id, i),
    ensures
        find_v(nodes, id) == find_v(nodes.subrange(i, nodes.len() as int), id),
    decreases i,
{
    if i > 0 {
        assert(nodes[0].id != id && find_v(nodes[0].children, id) is None);
        assert forall|j: int| 0 <= j < i - 1 implies (#[trigger] nodes.drop_first()[j]).id != id && find_v(
            nodes.drop_first()[j].children,
            id,
        ) is None by {
            assert(nodes.drop_first()[j] == nodes[j + 1]);
        }
        lemma_find_skip(nodes.drop_first(), id, i - 1);
        assert(nodes.drop_first().subrange(i - 1, nodes.len() - 1) =~= nodes.subrange(i, nodes.len() as int));
    } else {
        assert(nodes.subrange(0, nodes.len() as int) =~= nodes);
    }
}

proof fn lemma_edit_skip(nodes: Seq<NodeV>, id: Seq<char>, e: NodeEditV, i: int)
    requires
        0 <= i <= nodes.len(),
        none_before(nodes, id, i),
    ensures
        edit_forest(nodes, id, e) == nodes.subrange(0, i) + edit_forest(nodes.subrange(i, nodes.len() as int), id, e),
    decreases i,
{
    if i > 0 {
        assert(nodes[0].id != id && find_v(nodes[0].children, id) is None);
        assert forall|j: int| 0 <= j < i - 1 implies (#[trigger] nodes.drop_first()[j]).id != id && find_v(
            nodes.drop_first()[j].children,
            id,
        ) is None by {
            assert(nodes.drop_first()[j] == nodes[j + 1]);
        }
        lemma_edit_skip(nodes.drop_first(), id, e, i - 1);
        assert(nodes.drop_first().subrange(i - 1, nodes.len() - 1) =~= nodes.subrange(i, nodes.len() as int));
        assert(nodes.subrange(0, i) =~= seq![nodes[0]] + nodes.drop_first().subrange(0, i - 1));
    } else {
        assert(nodes.subrange(0, nodes.len() as int) =~= nodes);
        assert(nodes.subrange(0, 0) =~= Seq::<NodeV>::empty());
    }
}

/// The first node with id `id`, in document order.
pub fn find_node<'a>(nodes: &'a Vec<SemanticNode>, wanted_id: &str) -> (r: Option<&'a SemanticNode>)
    ensures
        match r {
            Some(n) => find_v(node_models(nodes@), wanted_id@) == Some(n@),
            None => find_v(node_models(nodes@), wanted_id@) is None,
        },
    decreases nodes,
{
    let ghost ms = node_models(nodes@);
    let wanted = text(wanted_id);
    let mut i: usize = 0;
    while i < nodes.len()
        invariant
            i <= nodes.len(),
            ms == node_models(nodes@),
            ms.len() == nodes.len(),
            wanted@ == wanted_id@,
            none_before(ms, wanted_id@, i as int),
        decreases nodes.len() - i,
    {
        assert(ms[i as int] == nodes@[i as int]@);
        proof {
            lemma_find_skip(ms, wanted_id@, i as int);
            assert(ms.subrange(i as int, ms.len() as int)[0] == ms[i as int]);
            assert(ms.subrange(i as int, ms.len() as int).drop_first() =~= ms.subrange(i + 1, ms.len() as int));
        }
        if string_eq(&nodes[i].id, &wanted) {
            return Some(&nodes[i]);
        }
        assert(decreases_to!(nodes => nodes[i as int].children)) by {
            assert(decreases_to!(nodes => nodes@));
            assert(decreases_to!(nodes@ => nodes@[i as int]));
            assert(decreases_to!(nodes@[i as int] => nodes@[i as int].children));
        }
        match find_node(&nodes[i].children, wanted_id) {
            Some(n) => {
                return Some(n);
            },
            None => {},
        }
        i = i + 1;
    }
    proof {
        lemma_find_skip(ms, wanted_id@, i as int);
    }
    None
}

proof fn lemma_edit_absent(nodes: Seq<NodeV>, id: Seq<char>, e: NodeEditV)
    requires
        find_v(nodes, id) is None,
    ensures
        edit_forest(nodes, id, e) == nodes,
    decreases nodes.len(),
{
    if nodes.len() > 0 {
        lemma_edit_absent(nodes.drop_first(), id, e);
        assert(seq![nodes[0]] + nodes.drop_first() =~= nodes);
    }
}

/// The option child of `parent_id` labelled `label`.
pub fn option_node(parent_id: &str, label: String) -> (n: SemanticNode)
    ensures
        n@ == option_v(parent_id@, label@),
{
    let mut id = text(parent_id);
    id.append(".option.");
    id.append(label.as_str());
    let n = SemanticNode {
        id,
        role: text("option"),
        label,
        bind: None,
        icon: None,
        placeholder: None,
        disabled: false,
        readonly: false,
        variant: None,
        aria_label: None,
        layout: None,
        gap: None,
        padding: None,
        width: None,
        min_width: None,
        min_height: None,
        max_height: None,
        columns: None,
        wrap: false,
        scroll: false,
        grow: false,
        actions: Vec::new(),
        children: Vec::new(),
    };
    assert(n.actions@.map_values(|a: SemanticAction| a@) =~= Seq::empty());
    assert(node_models(n.children@) =~= Seq::empty());
    n
}

/// The node is an option.
fn is_option(n: &SemanticNode) -> (b: bool)
    ensures
        b == !not_option(n@),
{
    string_eq(&n.role, &text("option"))
}

/// Changes one node.
pub fn apply_edit(n: &mut SemanticNode, edit: &NodeEdit)
    ensures
        final(n)@ == edit_node(old(n)@, edit@),
{
    match edit {
        NodeEdit::Label(l) => {
            n.label = l.clone();
            assert(n.actions@ == old(n).actions@);
            assert(n.children@ == old(n).children@);
            assert(n@ == NodeV { label: l@, ..old(n)@ });
        },
        NodeEdit::Icon(i) => {
            n.icon = Some(i.clone());
            assert(n.actions@ == old(n).actions@);
            assert(n.children@ == old(n).children@);
            assert(n@ == NodeV { icon: Some(i@), ..old(n)@ });
        },
        NodeEdit::Options(labels) => {
            let ghost orig = node_models(n.children@);
            let ghost keep = |c: NodeV| not_option(c);
            let parent_id = n.id.clone();
            let mut old_children: Vec<SemanticNode> = Vec::new();
            std::mem::swap(&mut old_children, &mut n.children);
            assert(node_models(old_children@) == orig);
            let mut children: Vec<SemanticNode> = Vec::new();
            let mut k: usize = 0;
            let total = old_children.len();
            while old_children.len() > 0
                invariant
                    orig.len() == total,
                    k + old_children.len() == total,
                    node_models(old_children@) == orig.subrange(k as int, total as int),
                    node_models(children@) == orig.subrange(0, k as int).filter(keep),
                    keep == (|c: NodeV| not_option(c)),
                decreases old_children.len(),
            {
                let ghost before = node_models(children@);
                let ghost ob = old_children@;
                let c = old_children.remove(0);
                proof {
                    assert(old_children@ =~= ob.subrange(1, ob.len() as int));
                    assert(node_models(ob) == orig.subrange(k as int, total as int));
                    assert(node_models(ob)[0] == ob[0]@);
                    assert(orig.subrange(k as int, total as int)[0] == c@);
                    assert forall|j: int| 0 <= j < old_children.len() implies node_models(old_children@)[j]
                        == orig.subrange(k + 1, total as int)[j] by {
                        assert(old_children@[j] == ob[j + 1]);
                        assert(node_models(ob)[j + 1] == ob[j + 1]@);
                        assert(orig.subrange(k as int, total as int)[j + 1] == orig.subrange(k + 1, total as int)[j]);
                    }
                    assert(node_models(old_children@) =~= orig.subrange(k + 1, total as int));
                    assert(orig.subrange(0, k + 1) =~= orig.subrange(0, k as int).push(c@));
                    crate::collections::lemma_filter_push(orig.subrange(0, k as int), keep, c@);
                }
                if !is_option(&c) {
                    children.push(c);
                    assert(node_models(children@) =~= before.push(c@));
                }
                k = k + 1;
            }
            assert(orig.subrange(0, total as int) =~= orig);
            let ghost kept = node_models(children@);
            let ghost opts = labels@.map_values(|s: String| s@);
            let mut j: usize = 0;
            while j < labels.len()
                invariant
                    j <= labels.len(),
                    opts == labels@.map_values(|s: String| s@),
                    node_models(children@) == kept + opts.subrange(0, j as int).map_values(
                        |l: Seq<char>| option_v(parent_id@, l),
                    ),
                decreases labels.len() - j,
            {
                let ghost before = node_models(children@);
                let o = option_node(parent_id.as_str(), labels[j].clone());
                children.push(o);
                assert(node_models(children@) =~= before.push(option_v(parent_id@, opts[j as int])));
                assert(opts.subrange(0, j + 1).map_values(|l: Seq<char>| option_v(parent_id@, l)) =~= opts.subrange(
                    0,
                    j as int,
                ).map_values(|l: Seq<char>| option_v(parent_id@, l)).push(option_v(parent_id@, opts[j as int])));
                j = j + 1;
            }
            assert(opts.subrange(0, labels.len() as int) =~= opts);
            n.children = children;
            assert(n.actions@ == old(n).actions@);
            assert(n@ == edit_node(old(n)@, edit@));
        },
    }
}

proof fn lemma_models_update(s: Seq<SemanticNode>, i: int, x: SemanticNode)
    requires
        0 <= i < s.len(),
    ensures
        node_models(s.update(i, x)) == node_models(s).update(i, x@),
{
    assert(node_models(s.update(i, x)) =~= node_models(s).update(i, x@));
}

proof fn lemma_edit_here(ms: Seq<NodeV>, id: Seq<char>, e: NodeEditV, i: int)
    requires
        0 <= i < ms.len(),
        none_before(ms, id, i),
        ms[i].id == id,
    ensures
        edit_forest(ms, id, e) == ms.update(i, edit_node(ms[i], e)),
        find_v(ms, id) is Some,
{
    lemma_find_skip(ms, id, i);
    lemma_edit_skip(ms, id, e, i);
    let rest = ms.subrange(i, ms.len() as int);
    assert(rest[0] == ms[i]);
    assert(rest.drop_first() =~= ms.subrange(i + 1, ms.len() as int));
    assert(ms.update(i, edit_node(ms[i], e)) =~= ms.subrange(0, i) + (seq![edit_node(ms[i], e)] + rest.drop_first()));
}

proof fn lemma_edit_below(ms: Seq<NodeV>, id: Seq<char>, e: NodeEditV, i: int)
    requires
        0 <= i < ms.len(),
        none_before(ms, id, i),
        ms[i].id != id,
        find_v(ms[i].children, id) is Some,
    ensures
        edit_forest(ms, id, e) == ms.update(i, NodeV { children: edit_forest(ms[i].children, id, e), ..ms[i] }),
        find_v(ms, id) is Some,
{
    lemma_find_skip(ms, id, i);
    lemma_edit_skip(ms, id, e, i);
    let rest = ms.subrange(i, ms.len() as int);
    assert(rest[0] == ms[i]);
    assert(rest.drop_first() =~= ms.subrange(i + 1, ms.len() as int));
    let x = NodeV { children: edit_forest(ms[i].children, id, e), ..ms[i] };
    assert(ms.update(i, x) =~= ms.subrange(0, i) + (seq![x] + rest.drop_first()));
}

proof fn lemma_pass(ms: Seq<NodeV>, id: Seq<char>, i: int)
    requires
        0 <= i < ms.len(),
        none_before(ms, id, i),
        ms[i].id != id,
        find_v(ms[i].children, id) is None,
    ensures
        none_before(ms, id, i + 1),
{
}

proof fn lemma_none_found(ms: Seq<NodeV>, id: Seq<char>, e: NodeEditV)
    requires
        none_before(ms, id, ms.len() as int),
    ensures
        edit_forest(ms, id, e) == ms,
        find_v(ms, id) is None,
{
    lemma_find_skip(ms, id, ms.len() as int);
    lemma_edit_skip(ms, id, e, ms.len() as int);
    assert(ms.subrange(ms.len() as int, ms.len() as int) =~= Seq::<NodeV>::empty());
    assert(ms.subrange(0, ms.len() as int) =~= ms);
}

/// Changes the first node with id `wanted_id`, in document order, by
/// `edit`; `false` when there is none, and then nothing changes.
pub fn edit_first(nodes: &mut Vec<SemanticNode>, wanted_id: &str, edit: &NodeEdit) -> (found: bool)
    ensures
        found == (find_v(node_models(old(nodes)@), wanted_id@) is Some),
        node_models(final(nodes)@) == edit_forest(node_models(old(nodes)@), wanted_id@, edit@),
    decreases node_models(old(nodes)@),
{
    let ghost ms = node_models(nodes@);
    let wanted = text(wanted_id);
    let mut i: usize = 0;
    while i < nodes.len()
        invariant
            i <= nodes.len(),
            ms == node_models(old(nodes)@),
            node_models(nodes@) == ms,
            ms.len() == nodes.len(),
            wanted@ == wanted_id@,
            none_before(ms, wanted_id@, i as int),
        decreases nodes.len() - i,
    {
        let ghost cur = nodes@;
        assert(ms[i as int] == cur[i as int]@);
        if string_eq(&nodes[i].id, &wanted) {
            proof {
                lemma_edit_here(ms, wanted_id@, edit@, i as int);
            }
            apply_edit(&mut nodes[i], edit);
            proof {
                lemma_models_update(cur, i as int, nodes@[i as int]);
                assert(nodes@ == cur.update(i as int, nodes@[i as int]));
            }
            return true;
        }
        assert(decreases_to!(ms => ms[i as int].children)) by {
            assert(decreases_to!(ms => ms[i as int]));
        }
        let found = edit_first(&mut nodes[i].children, wanted_id, edit);
        proof {
            lemma_models_update(cur, i as int, nodes@[i as int]);
            assert(nodes@ == cur.update(i as int, nodes@[i as int]));
        }
        if found {
            proof {
                lemma_edit_below(ms, wanted_id@, edit@, i as int);
            }
            return true;
        }
        proof {
            lemma_edit_absent(ms[i as int].children, wanted_id@, edit@);
            lemma_pass(ms, wanted_id@, i as int);
            assert(ms.update(i as int, nodes@[i as int]@) =~= ms);
        }
        i = i + 1;
    }
    proof {
        lemma_none_found(ms, wanted_id@, edit@);
    }
    false
}

/// `nodes` with the first node of id `id` replaced by `x`; unchanged when
/// there is none.
pub open spec fn replace_first(nodes: Seq<NodeV>, id: Seq<char>, x: NodeV) -> Seq<NodeV>
    decreases nodes,
{
    if nodes.len() == 0 {
        nodes
    } else if nodes[0].id == id {
        seq![x] + nodes.drop_first()
    } else if find_v(nodes[0].children, id) is Some {
        seq![NodeV { children: replace_first(nodes[0].children, id, x), ..nodes[0] }] + nodes.drop_first()
    } else {
        seq![nodes[0]] + replace_first(nodes.drop_first(), id, x)
    }
}

proof fn lemma_replace_skip(nodes: Seq<NodeV>, id: Seq<char>, x: NodeV, i: int)
    requires
        0 <= i <= nodes.len(),
        none_before(nodes, id, i),
    ensures
        replace_first(nodes, id, x) == nodes.subrange(0, i) + replace_first(nodes.subrange(i, nodes.len() as int), id, x),
    decreases i,
{
    if i > 0 {
        assert(nodes[0].id != id && find_v(nodes[0].children, id) is None);
        assert forall|j: int| 0 <= j < i - 1 implies (#[trigger] nodes.drop_first()[j]).id != id && find_v(
            nodes.drop_first()[j].children,
            id,
        ) is None by {
            assert(nodes.drop_first()[j] == nodes[j + 1]);
        }
        lemma_replace_skip(nodes.drop_first(), id, x, i - 1);
        assert(nodes.drop_first().subrange(i - 1, nodes.len() - 1) =~= nodes.subrange(i, nodes.len() as int));
        assert(nodes.subrange(0, i) =~= seq![nodes[0]] + nodes.drop_first().subrange(0, i - 1));
    } else {
        assert(nodes.subrange(0, nodes.len() as int) =~= nodes);
        assert(nodes.subrange(0, 0) =~= Seq::<NodeV>::empty());
    }
}

proof fn lemma_replace_here(ms: Seq<NodeV>, id: Seq<char>, x: NodeV, i: int)
    requires
        0 <= i < ms.len(),
        none_before(ms, id, i),
        ms[i].id == id,
    ensures
        replace_first(ms, id, x) == ms.update(i, x),
        find_v(ms, id) == Some(ms[i]),
{
    lemma_find_skip(ms, id, i);
    lemma_replace_skip(ms, id, x, i);
    let rest = ms.subrange(i, ms.len() as int);
    assert(rest[0] == ms[i]);
    assert(rest.drop_first() =~= ms.subrange(i + 1, ms.len() as int));
    assert(ms.update(i, x) =~= ms.subrange(0, i) + (seq![x] + rest.drop_first()));
}

proof fn lemma_replace_below(ms: Seq<NodeV>, id: Seq<char>, x: NodeV, i: int)
    requires
        0 <= i < ms.len(),
        none_before(ms, id, i),
        ms[i].id != id,
        find_v(ms[i].children, id) is Some,
    ensures
        replace_first(ms, id, x) == ms.update(i, NodeV { children: replace_first(ms[i].children, id, x), ..ms[i] }),
        find_v(ms, id) == find_v(ms[i].children, id),
{
    lemma_find_skip(ms, id, i);
    lemma_replace_skip(ms, id, x, i);
    let rest = ms.subrange(i, ms.len() as int);
    assert(rest[0] == ms[i]);
    assert(rest.drop_first() =~= ms.subrange(i + 1, ms.len() as int));
    let y = NodeV { children: replace_first(ms[i].children, id, x), ..ms[i] };
    assert(ms.update(i, y) =~= ms.subrange(0, i) + (seq![y] + rest.drop_first()));
}

/// Where the first node of id `wanted_id` is: `(i, true)` when it is
/// `nodes[i]`, `(i, false)` when it lies under `nodes[i]`.
fn locate(nodes: &Vec<SemanticNode>, wanted_id: &str) -> (r: Option<(usize, bool)>)
    ensures
        match r {
            Some((i, here)) => {
                &&& i < nodes.len()
                &&& none_before(node_models(nodes@), wanted_id@, i as int)
                &&& here ==> node_models(nodes@)[i as int].id == wanted_id@
                &&& !here ==> node_models(nodes@)[i as int].id != wanted_id@ && find_v(
                    node_models(nodes@)[i as int].children,
                    wanted_id@,
                ) is Some
            },
            None => find_v(node_models(nodes@), wanted_id@) is None,
        },
{
    let ghost ms = node_models(nodes@);
    let wanted = text(wanted_id);
    let mut i: usize = 0;
    while i < nodes.len()
        invariant
            i <= nodes.len(),
            ms == node_models(nodes@),
            ms.len() == nodes.len(),
            wanted@ == wanted_id@,
            none_before(ms, wanted_id@, i as int),
        decreases nodes.len() - i,
    {
        assert(ms[i as int] == nodes@[i as int]@);
        if string_eq(&nodes[i].id, &wanted) {
            return Some((i, true));
        }
        if find_node(&nodes[i].children, wanted_id).is_some() {
            return Some((i, false));
        }
        i = i + 1;
    }
    proof {
        lemma_find_skip(ms, wanted_id@, i as int);
        assert(ms.subrange(i as int, ms.len() as int) =~= Seq::<NodeV>::empty());
    }
    None
}

/// The first node with id `wanted_id`, in document order, to change in
/// place: what it is changed to is what the tree holds there afterwards.
pub fn find_node_mut<'a>(nodes: &'a mut Vec<SemanticNode>, wanted_id: &str) -> (r: Option<&'a mut SemanticNode>)
    ensures
        find_v(node_models(old(nodes)@), wanted_id@) == (match r {
            Some(n) => Some((*n)@),
            None => None,
        }),
        match r {
            Some(n) => node_models(final(nodes)@) == replace_first(
                node_models(old(nodes)@),
                wanted_id@,
                (*final(n))@,
            ),
            None => final(nodes)@ == old(nodes)@,
        },
    decreases node_models(old(nodes)@),
{
    let ghost ms = node_models(nodes@);
    let ghost cur = nodes@;
    match locate(nodes, wanted_id) {
        None => None,
        Some((i, true)) => {
            let n = &mut nodes[i];
            proof {
                lemma_replace_here(ms, wanted_id@, (*final(n))@, i as int);
                lemma_models_update(cur, i as int, *final(n));
                assert(ms[i as int] == cur[i as int]@);
            }
            Some(n)
        },
        Some((i, false)) => {
            assert(decreases_to!(ms => ms[i as int].children)) by {
                assert(decreases_to!(ms => ms[i as int]));
            }
            assert(ms[i as int] == cur[i as int]@);
            proof {
                assert forall|x: SemanticNode| #[trigger] node_models(cur.update(i as int, x)) == ms.update(i as int, x@) by {
                    lemma_models_update(cur, i as int, x);
                }
                assert forall|x: NodeV| #[trigger] replace_first(ms, wanted_id@, x) == ms.update(
                    i as int,
                    NodeV { children: replace_first(ms[i as int].children, wanted_id@, x), ..ms[i as int] },
                ) by {
                    lemma_replace_below(ms, wanted_id@, x, i as int);
                }
                lemma_replace_below(ms, wanted_id@, ms[i as int], i as int);
            }
            let node = &mut nodes[i];
            find_node_mut(&mut node.children, wanted_id)
        },
    }
}

/// The labels of the options of a node (its children of role `option`),
/// in order.
pub open spec fn option_labels_v(n: NodeV) -> Seq<Seq<char>> {
    n.children.filter(|c: NodeV| c.role == "option"@).map_values(|c: NodeV| c.label)
}

/// The labels of the options a select offers, in order.
pub fn option_labels(node: &SemanticNode) -> (r: Vec<String>)
    ensures
        r@.map_values(|t: String| t@) == option_labels_v(node@),
{
    let ghost kids = node_models(node.children@);
    let ghost pred = |c: NodeV| c.role == "option"@;
    let mut r: Vec<String> = Vec::new();
    let mut i: usize = 0;
    assert(node@.children == kids);
    proof {
        reveal(Seq::filter);
        assert(kids.subrange(0, 0).filter(pred) =~= Seq::<NodeV>::empty());
        assert(r@.map_values(|t: String| t@) =~= Seq::<Seq<char>>::empty());
    }
    while i < node.children.len()
        invariant
            i <= node.children.len(),
            kids == node_models(node.children@),
            kids.len() == node.children.len(),
            pred == (|c: NodeV| c.role == "option"@),
            r@.map_values(|t: String| t@) == kids.subrange(0, i as int).filter(pred).map_values(|c: NodeV| c.label),
        decreases node.children.len() - i,
    {
        let ghost sub = kids.subrange(0, i as int);
        let ghost before = r@.map_values(|t: String| t@);
        let child = &node.children[i];
        assert(kids[i as int] == child@);
        proof {
            assert(kids.subrange(0, i + 1) =~= sub.push(kids[i as int]));
            crate::collections::lemma_filter_push(sub, pred, kids[i as int]);
        }
        if string_eq(&child.role, &text("option")) {
            r.push(text(child.label.as_str()));
            assert(r@.map_values(|t: String| t@) =~= before.push(child@.label));
            assert(sub.filter(pred).push(kids[i as int]).map_values(|c: NodeV| c.label) =~= sub.filter(pred).map_values(
                |c: NodeV| c.label,
            ).push(child@.label));
        }
        i = i + 1;
    }
    assert(kids.subrange(0, kids.len() as int) =~= kids);
    r
}

/// The node an edit targets, when the tree has one, is found again at the
/// same id, changed by the edit: a `manifest.*` change is what the next
/// lookup of that node sees.
pub proof fn law_edit_then_find(nodes: Seq<NodeV>, id: Seq<char>, e: NodeEditV)
    requires
        find_v(nodes, id) is Some,
    ensures
        find_v(edit_forest(nodes, id, e), id) == Some(edit_node(find_v(nodes, id)->Some_0, e)),
    decreases nodes,
{
    if nodes[0].id == id {
        let t = edit_forest(nodes, id, e);
        assert(t[0] == edit_node(nodes[0], e));
    } else if find_v(nodes[0].children, id) is Some {
        law_edit_then_find(nodes[0].children, id, e);
        let t = edit_forest(nodes, id, e);
        let changed = NodeV { children: edit_forest(nodes[0].children, id, e), ..nodes[0] };
        assert(t[0] == changed);
    } else {
        law_edit_then_find(nodes.drop_first(), id, e);
        let t = edit_forest(nodes, id, e);
        assert(t[0] == nodes[0]);
        assert(t.drop_first() =~= edit_forest(nodes.drop_first(), id, e));
    }
}

/// An edit of an id the tree does not hold leaves the tree as it is.
pub proof fn law_edit_absent(nodes: Seq<NodeV>, id: Seq<char>, e: NodeEditV)
    requires
        find_v(nodes, id) is None,
    ensures
        edit_forest(nodes, id, e) == nodes,
{
    lemma_edit_absent(nodes, id, e);
}

/// A node changed in place through `find_node_mut`, keeping its id, is
/// what the next lookup of that id finds.
pub proof fn law_replace_then_find(nodes: Seq<NodeV>, id: Seq<char>, x: NodeV)
    requires
        find_v(nodes, id) is Some,
        x.id == id,
    ensures
        find_v(replace_first(nodes, id, x), id) == Some(x),
    decreases nodes,
{
    if nodes[0].id == id {
        let t = replace_first(nodes, id, x);
        assert(t[0] == x);
    } else if find_v(nodes[0].children, id) is Some {
        law_replace_then_find(nodes[0].children, id, x);
        let t = replace_first(nodes, id, x);
        let changed = NodeV { children: replace_first(nodes[0].children, id, x), ..nodes[0] };
        assert(t[0] == changed);
    } else {
        law_replace_then_find(nodes.drop_first(), id, x);
        let t = replace_first(nodes, id, x);
        assert(t[0] == nodes[0]);
        assert(t.drop_first() =~= replace_first(nodes.drop_first(), id, x));
    }
}

/// A sequence whose items all pass `p` is what filtering it by `p` keeps.
proof fn lemma_filter_keeps_all(s: Seq<NodeV>, p: spec_fn(NodeV) -> bool)
    requires
        forall|i: int| 0 <= i < s.len() ==> p(#[trigger] s[i]),
    ensures
        s.filter(p) == s,
    decreases s.len(),
{
    reveal(Seq::filter);
    if s.len() > 0 {
        lemma_filter_keeps_all(s.drop_last(), p);
        assert(p(s.last()));
        assert(s.drop_last().push(s.last()) =~= s);
    }
}

/// A sequence none of whose items passes `p` keeps nothing when filtered
/// by `p`.
proof fn lemma_filter_keeps_none(s: Seq<NodeV>, p: spec_fn(NodeV) -> bool)
    requires
        forall|i: int| 0 <= i < s.len() ==> !p(#[trigger] s[i]),
    ensures
        s.filter(p) == Seq::<NodeV>::empty(),
    decreases s.len(),
{
    reveal(Seq::filter);
    if s.len() > 0 {
        lemma_filter_keeps_none(s.drop_last(), p);
        assert(!p(s.last()));
    }
    assert(s.filter(p) =~= Seq::<NodeV>::empty());
}

/// Setting the options of a node replaces them: its options are then
/// exactly the new labels, in order, each with the id `<node>.option.<label>`,
/// and its other children are kept as they were, in order.
pub proof fn law_set_options_replaces(n: NodeV, labels: Seq<Seq<char>>)
    ensures
        option_labels_v(edit_node(n, NodeEditV::Options(labels))) == labels,
        edit_node(n, NodeEditV::Options(labels)).children.filter(|c: NodeV| c.role == "option"@).map_values(
            |c: NodeV| c.id,
        ) == labels.map_values(|l: Seq<char>| n.id + ".option."@ + l),
        edit_node(n, NodeEditV::Options(labels)).children.filter(|c: NodeV| c.role != "option"@)
            == n.children.filter(|c: NodeV| c.role != "option"@),
{
    let is_opt = |c: NodeV| c.role == "option"@;
    let no_opt = |c: NodeV| c.role != "option"@;
    let kept_pred = |c: NodeV| not_option(c);
    assert(kept_pred =~= no_opt);
    let kept = n.children.filter(no_opt);
    let fresh = labels.map_values(|l: Seq<char>| option_v(n.id, l));
    let kids = edit_node(n, NodeEditV::Options(labels)).children;
    assert(kids == kept + fresh);
    Seq::filter_distributes_over_add(kept, fresh, is_opt);
    Seq::filter_distributes_over_add(kept, fresh, no_opt);
    assert forall|i: int| 0 <= i < kept.len() implies no_opt(#[trigger] kept[i]) by {
        n.children.lemma_filter_pred(no_opt, i);
    }
    lemma_filter_keeps_none(kept, is_opt);
    lemma_filter_keeps_all(kept, no_opt);
    assert forall|i: int| 0 <= i < fresh.len() implies is_opt(#[trigger] fresh[i]) by {
        reveal_strlit("option");
    }
    lemma_filter_keeps_all(fresh, is_opt);
    assert forall|i: int| 0 <= i < fresh.len() implies !no_opt(#[trigger] fresh[i]) by {
        reveal_strlit("option");
    }
    lemma_filter_keeps_none(fresh, no_opt);
    assert(kids.filter(is_opt) =~= fresh);
    assert(kids.filter(no_opt) =~= kept);
    assert(fresh.map_values(|c: NodeV| c.label) =~= labels);
    assert(fresh.map_values(|c: NodeV| c.id) =~= labels.map_values(|l: Seq<char>| n.id + ".option."@ + l));
}

} // verus!
