//! The text form of a page's accessibility tree, with element ids.
use vstd::prelude::*;
use vstd::string::*;
use crate::browser::{lemma_lookup_distinct, lemma_parse_decimal, lemma_split_uid, lemma_uid_injective, lookup_uid, resolve_uid, resolve_uid_spec, uid_text};
use crate::text::{chars_of, contains_seq, occurs_at, decimal, eq_chars, join, join_chars, lemma_chars_deep_view, push_all, push_decimal, push_str, string_of};

verus! {

/// The accessibility properties the snapshot shows.
#[derive(Debug, Clone, Copy, PartialEq, Eq, Structural)]
pub enum AxPropKind {
    Focusable,
    Focused,
    Disabled,
    Expanded,
    Selected,
    Checked,
    Other,
}

/// A property of a node; the value read as a boolean and as a string
/// (each `None` when the value is absent or of another type).
#[derive(Debug, Clone)]
pub struct AxProperty {
    pub kind: AxPropKind,
    pub as_bool: Option<bool>,
    pub as_str: Option<String>,
}

/// A node of the accessibility tree as the browser reports it.
#[derive(Debug, Clone)]
pub struct AxNode {
    pub node_id: String,
    pub parent_id: Option<String>,
    pub child_ids: Option<Vec<String>>,
    pub ignored: bool,
    /// The role's value, when it is a string.
    pub role: Option<String>,
    /// The name's value, when it is a string.
    pub name: Option<String>,
    pub backend_id: Option<i64>,
    pub properties: Vec<AxProperty>,
}

/// The index of the node with id `id` (the last one, when ids repeat).
pub open spec fn find_node(nodes: Seq<AxNode>, id: Seq<char>) -> Option<int>
    decreases nodes.len(),
{
    if nodes.len() == 0 {
        None
    } else if nodes.last().node_id@ == id {
        Some(nodes.len() - 1)
    } else {
        find_node(nodes.drop_last(), id)
    }
}

/// The child ids of a node.
pub open spec fn child_ids_of(n: AxNode) -> Seq<String> {
    match n.child_ids {
        Some(v) => v@,
        None => Seq::empty(),
    }
}

/// The tree below node `i` is at most `fuel` levels deep (no cycles).
pub open spec fn finite(nodes: Seq<AxNode>, i: int, fuel: nat) -> bool
    decreases fuel, 0nat, 0nat,
{
    if fuel == 0 {
        false
    } else {
        0 <= i < nodes.len() && finite_list(nodes, child_ids_of(nodes[i]), (fuel - 1) as nat)
    }
}

/// Every listed child that exists is `finite` with `fuel`.
pub open spec fn finite_list(nodes: Seq<AxNode>, ids: Seq<String>, fuel: nat) -> bool
    decreases fuel, 1nat, ids.len(),
{
    if ids.len() == 0 {
        true
    } else {
        finite_list(nodes, ids.drop_last(), fuel) && match find_node(nodes, ids.last()@) {
            Some(j) => finite(nodes, j, fuel),
            None => true,
        }
    }
}

/// The nodes shown below node `i`, in order, with their depth: ignored
/// nodes are skipped (unless `verbose`) but their children are shown at
/// the same depth.
pub open spec fn visits(nodes: Seq<AxNode>, i: int, depth: nat, verbose: bool, fuel: nat) -> Seq<(int, nat)>
    decreases fuel, 0nat, 0nat,
{
    if fuel == 0 || !(0 <= i < nodes.len()) {
        Seq::empty()
    } else {
        let n = nodes[i];
        if n.ignored && !verbose {
            visits_list(nodes, child_ids_of(n), depth, verbose, (fuel - 1) as nat)
        } else {
            seq![(i, depth)] + visits_list(nodes, child_ids_of(n), depth + 1, verbose, (fuel - 1) as nat)
        }
    }
}

/// The nodes shown below each listed child, in order.
pub open spec fn visits_list(nodes: Seq<AxNode>, ids: Seq<String>, depth: nat, verbose: bool, fuel: nat) -> Seq<(int, nat)>
    decreases fuel, 1nat, ids.len(),
{
    if ids.len() == 0 {
        Seq::empty()
    } else {
        visits_list(nodes, ids.drop_last(), depth, verbose, fuel) + match find_node(nodes, ids.last()@) {
            Some(j) => visits(nodes, j, depth, verbose, fuel),
            None => Seq::empty(),
        }
    }
}

/// A name with its double quotes escaped by a backslash.
pub open spec fn escape_quotes(s: Seq<char>) -> Seq<char>
    decreases s.len(),
{
    if s.len() == 0 {
        Seq::empty()
    } else {
        escape_quotes(s.drop_last()) + if s.last() == '"' {
            seq!['\\', '"']
        } else {
            seq![s.last()]
        }
    }
}

/// The attribute a property adds, if any.
pub open spec fn prop_attr(p: AxProperty) -> Option<Seq<char>> {
    match p.kind {
        AxPropKind::Focusable => if p.as_bool == Some(true) { Some("focusable"@) } else { None },
        AxPropKind::Focused => if p.as_bool == Some(true) { Some("focused"@) } else { None },
        AxPropKind::Disabled => if p.as_bool == Some(true) { Some("disabled"@) } else { None },
        AxPropKind::Expanded => if p.as_bool == Some(true) { Some("expanded"@) } else { None },
        AxPropKind::Selected => if p.as_bool == Some(true) { Some("selected"@) } else { None },
        AxPropKind::Checked => match p.as_str {
            Some(s) => Some("checked="@ + s@),
            None => None,
        },
        AxPropKind::Other => None,
    }
}

/// The attributes the properties add, in order.
pub open spec fn props_attrs(ps: Seq<AxProperty>) -> Seq<Seq<char>>
    decreases ps.len(),
{
    if ps.len() == 0 {
        Seq::empty()
    } else {
        props_attrs(ps.drop_last()) + match prop_attr(ps.last()) {
            Some(a) => seq![a],
            None => Seq::empty(),
        }
    }
}

/// The attributes of a shown node: its element id, its role (`ignored`
/// for the role `none`), its quoted name when not empty, and its set flags.
pub open spec fn attrs_of(n: AxNode, uid: Seq<char>) -> Seq<Seq<char>> {
    seq!["uid="@ + uid] + match n.role {
        Some(r) => seq![if r@ != "none"@ { r@ } else { "ignored"@ }],
        None => Seq::empty(),
    } + match n.name {
        Some(s) => if s@.len() > 0 {
            seq!["\""@ + escape_quotes(s@) + "\""@]
        } else {
            Seq::empty()
        },
        None => Seq::empty(),
    } + props_attrs(n.properties@)
}

/// Two spaces per level.
pub open spec fn indent(depth: nat) -> Seq<char> {
    Seq::new(2 * depth, |k: int| ' ')
}

/// The line of a shown node.
pub open spec fn node_line(n: AxNode, depth: nat, uid: Seq<char>) -> Seq<char> {
    indent(depth) + join(attrs_of(n, uid), " "@) + "\n"@
}

/// The lines of the shown nodes; the `k`-th gets the index `start + k`.
pub open spec fn render(nodes: Seq<AxNode>, vs: Seq<(int, nat)>, snap: nat, start: nat) -> Seq<char>
    decreases vs.len(),
{
    if vs.len() == 0 {
        Seq::empty()
    } else {
        let k = (vs.len() - 1) as nat;
        render(nodes, vs.drop_last(), snap, start) + node_line(nodes[vs.last().0], vs.last().1, uid_text(snap, start + k))
    }
}

/// The element ids of the shown nodes that have a backend node.
pub open spec fn id_entries(nodes: Seq<AxNode>, vs: Seq<(int, nat)>, snap: nat, start: nat) -> Seq<(Seq<char>, i64)>
    decreases vs.len(),
{
    if vs.len() == 0 {
        Seq::empty()
    } else {
        let k = (vs.len() - 1) as nat;
        id_entries(nodes, vs.drop_last(), snap, start) + match nodes[vs.last().0].backend_id {
            Some(b) => seq![(uid_text(snap, start + k), b)],
            None => Seq::empty(),
        }
    }
}

/// Rendering a concatenation renders its parts one after the other.
pub proof fn lemma_render_concat(nodes: Seq<AxNode>, a: Seq<(int, nat)>, b: Seq<(int, nat)>, snap: nat, start: nat)
    ensures
        render(nodes, a + b, snap, start) == render(nodes, a, snap, start) + render(nodes, b, snap, start + a.len()),
        id_entries(nodes, a + b, snap, start) == id_entries(nodes, a, snap, start) + id_entries(
            nodes,
            b,
            snap,
            start + a.len(),
        ),
    decreases b.len(),
{
    if b.len() == 0 {
        assert(a + b == a);
    } else {
        lemma_render_concat(nodes, a, b.drop_last(), snap, start);
        assert((a + b).drop_last() == a + b.drop_last());
    }
}

/// The id entries of a single shown node.
proof fn lemma_id_entries_single(nodes: Seq<AxNode>, i: int, depth: nat, snap: nat, start: nat)
    ensures
        id_entries(nodes, seq![(i, depth)], snap, start) == match nodes[i].backend_id {
            Some(b) => seq![(uid_text(snap, start), b)],
            None => Seq::<(Seq<char>, i64)>::empty(),
        },
{
    let single = seq![(i, depth)];
    assert(single.drop_last() =~= Seq::<(int, nat)>::empty());
    assert(single.last() == (i, depth));
    reveal_with_fuel(id_entries, 2);
    assert(id_entries(nodes, single, snap, start) =~= match nodes[i].backend_id {
        Some(b) => seq![(uid_text(snap, start), b)],
        None => Seq::<(Seq<char>, i64)>::empty(),
    });
}

/// The contents of the id entries.
pub open spec fn entries_view(v: Seq<(String, i64)>) -> Seq<(Seq<char>, i64)> {
    v.map_values(|e: (String, i64)| (e.0@, e.1))
}

/// An attribute that a property adds is among the attributes of the list.
proof fn lemma_props_attrs_has(ps: Seq<AxProperty>, k: int, word: Seq<char>)
    requires
        0 <= k < ps.len(),
        prop_attr(ps[k]) == Some(word),
    ensures
        exists|j: int| 0 <= j < props_attrs(ps).len() && props_attrs(ps)[j] == word,
    decreases ps.len(),
{
    if k == ps.len() - 1 {
        let pre = props_attrs(ps.drop_last());
        assert(props_attrs(ps) == pre + seq![word]);
        assert(props_attrs(ps)[pre.len() as int] == word);
    } else {
        assert(ps.drop_last()[k] == ps[k]);
        lemma_props_attrs_has(ps.drop_last(), k, word);
        let pre = props_attrs(ps.drop_last());
        let j = choose|j: int| 0 <= j < pre.len() && pre[j] == word;
        assert(props_attrs(ps)[j] == pre[j]);
    }
}

/// Every item of a joined list but the first appears after a separator.
proof fn lemma_join_has(list: Seq<Seq<char>>, sep: Seq<char>, k: int)
    requires
        0 < k < list.len(),
    ensures
        contains_seq(join(list, sep), sep + list[k]),
    decreases list.len(),
{
    let rest = list.drop_last();
    let head = join(rest, sep);
    let whole = join(list, sep);
    assert(whole == head + sep + list.last());
    if k == list.len() - 1 {
        let p = head.len() as int;
        assert(whole.subrange(p, p + (sep + list[k]).len()) =~= sep + list[k]);
        assert(occurs_at(whole, sep + list[k], p));
    } else {
        assert(rest[k] == list[k]);
        lemma_join_has(rest, sep, k);
        let i = choose|i: int| occurs_at(head, sep + list[k], i);
        let w = sep + list[k];
        assert(whole.subrange(i, i + w.len()) =~= head.subrange(i, i + w.len()));
        assert(occurs_at(whole, w, i));
    }
}

/// A property that adds a word shows it as a word of its own in the node's
/// line: after a space, among the node's attributes.
proof fn lemma_property_word_shown(n: AxNode, uid: Seq<char>, depth: nat, k: int, word: Seq<char>)
    requires
        0 <= k < n.properties@.len(),
        prop_attr(n.properties@[k]) == Some(word),
    ensures
        attrs_of(n, uid).contains(word),
        contains_seq(node_line(n, depth, uid), " "@ + word),
{
    let ps = n.properties@;
    lemma_props_attrs_has(ps, k, word);
    let j = choose|j: int| 0 <= j < props_attrs(ps).len() && props_attrs(ps)[j] == word;
    let attrs = attrs_of(n, uid);
    let before = attrs.len() - props_attrs(ps).len();
    assert(before >= 1);
    assert(attrs[before + j] == word);
    lemma_join_has(attrs, " "@, before + j);
    let line = node_line(n, depth, uid);
    let joined = join(attrs, " "@);
    let w = " "@ + word;
    let i = choose|i: int| occurs_at(joined, w, i);
    let off = indent(depth).len() as int;
    assert(line == indent(depth) + joined + "\n"@);
    assert(line.subrange(off + i, off + i + w.len()) =~= joined.subrange(i, i + w.len()));
    assert(occurs_at(line, w, off + i));
}

/// The flags of a shown node: each of its boolean properties focusable,
/// focused, disabled, expanded and selected that is true shows as that
/// word, on its own after a space, in the node's line.
pub proof fn lemma_true_flags_shown(n: AxNode, uid: Seq<char>, depth: nat)
    ensures
        forall|k: int| 0 <= k < n.properties@.len() && #[trigger] n.properties@[k].as_bool == Some(true) ==> {
            &&& n.properties@[k].kind == AxPropKind::Focusable ==> contains_seq(node_line(n, depth, uid), " focusable"@)
            &&& n.properties@[k].kind == AxPropKind::Focused ==> contains_seq(node_line(n, depth, uid), " focused"@)
            &&& n.properties@[k].kind == AxPropKind::Disabled ==> contains_seq(node_line(n, depth, uid), " disabled"@)
            &&& n.properties@[k].kind == AxPropKind::Expanded ==> contains_seq(node_line(n, depth, uid), " expanded"@)
            &&& n.properties@[k].kind == AxPropKind::Selected ==> contains_seq(node_line(n, depth, uid), " selected"@)
        },
{
    assert forall|k: int| 0 <= k < n.properties@.len() && #[trigger] n.properties@[k].as_bool == Some(true) implies {
        &&& n.properties@[k].kind == AxPropKind::Focusable ==> contains_seq(node_line(n, depth, uid), " focusable"@)
        &&& n.properties@[k].kind == AxPropKind::Focused ==> contains_seq(node_line(n, depth, uid), " focused"@)
        &&& n.properties@[k].kind == AxPropKind::Disabled ==> contains_seq(node_line(n, depth, uid), " disabled"@)
        &&& n.properties@[k].kind == AxPropKind::Expanded ==> contains_seq(node_line(n, depth, uid), " expanded"@)
        &&& n.properties@[k].kind == AxPropKind::Selected ==> contains_seq(node_line(n, depth, uid), " selected"@)
    } by {
        let p = n.properties@[k];
        broadcast use vstd::string::group_string_axioms;
        reveal_strlit(" ");
        reveal_strlit("focusable");
        reveal_strlit(" focusable");
        reveal_strlit("focused");
        reveal_strlit(" focused");
        reveal_strlit("disabled");
        reveal_strlit(" disabled");
        reveal_strlit("expanded");
        reveal_strlit(" expanded");
        reveal_strlit("selected");
        reveal_strlit(" selected");
        if p.kind == AxPropKind::Focusable {
            lemma_property_word_shown(n, uid, depth, k, "focusable"@);
            assert(" "@ + "focusable"@ =~= " focusable"@);
        } else if p.kind == AxPropKind::Focused {
            lemma_property_word_shown(n, uid, depth, k, "focused"@);
            assert(" "@ + "focused"@ =~= " focused"@);
        } else if p.kind == AxPropKind::Disabled {
            lemma_property_word_shown(n, uid, depth, k, "disabled"@);
            assert(" "@ + "disabled"@ =~= " disabled"@);
        } else if p.kind == AxPropKind::Expanded {
            lemma_property_word_shown(n, uid, depth, k, "expanded"@);
            assert(" "@ + "expanded"@ =~= " expanded"@);
        } else if p.kind == AxPropKind::Selected {
            lemma_property_word_shown(n, uid, depth, k, "selected"@);
            assert(" "@ + "selected"@ =~= " selected"@);
        }
    }
}

/// What a node's escaped name is.
fn escape_quotes_exec(s: &str) -> (r: Vec<char>)
    ensures
        r@ == escape_quotes(s@),
{
    let c = chars_of(s);
    let mut out: Vec<char> = Vec::new();
    let mut i: usize = 0;
    while i < c.len()
        invariant
            i <= c@.len(),
            c@ == s@,
            out@ == escape_quotes(c@.take(i as int)),
        decreases c@.len() - i,
    {
        assert(c@.take(i + 1).drop_last() == c@.take(i as int));
        if c[i] == '"' {
            out.push('\\');
        }
        out.push(c[i]);
        i = i + 1;
    }
    assert(c@.take(c@.len() as int) == c@);
    out
}

fn push_attr(attrs: &mut Vec<Vec<char>>, a: Vec<char>)
    ensures
        final(attrs).deep_view() == old(attrs).deep_view().push(a@),
{
    let ghost before = attrs.deep_view();
    attrs.push(a);
    proof {
        lemma_chars_deep_view(a);
        assert(attrs.deep_view() =~= before.push(a@));
    }
}

fn attrs_exec(n: &AxNode, uid: &str) -> (r: Vec<Vec<char>>)
    ensures
        r.deep_view() == attrs_of(*n, uid@),
{
    let mut attrs: Vec<Vec<char>> = Vec::new();
    let mut first = chars_of("uid=");
    push_str(&mut first, uid);
    push_attr(&mut attrs, first);
    let ghost a0 = attrs.deep_view();
    if let Some(r) = &n.role {
        let rc = chars_of(r.as_str());
        let none = chars_of("none");
        if !eq_chars(&rc, &none) {
            push_attr(&mut attrs, rc);
        } else {
            push_attr(&mut attrs, chars_of("ignored"));
        }
    }
    let ghost a1 = attrs.deep_view();
    if let Some(s) = &n.name {
        if !s.as_str().is_empty() {
            let mut q = chars_of("\"");
            let e = escape_quotes_exec(s.as_str());
            push_all(&mut q, &e);
            push_str(&mut q, "\"");
            push_attr(&mut attrs, q);
        }
    }
    let ghost a2 = attrs.deep_view();
    let mut i: usize = 0;
    while i < n.properties.len()
        invariant
            i <= n.properties@.len(),
            attrs.deep_view() == a2 + props_attrs(n.properties@.take(i as int)),
        decreases n.properties@.len() - i,
    {
        proof {
            assert(n.properties@.take(i + 1).drop_last() == n.properties@.take(i as int));
            assert(n.properties@.take(i + 1).last() == n.properties@[i as int]);
        }
        let p = &n.properties[i];
        let ghost before = attrs.deep_view();
        let attr: Option<Vec<char>> = match p.kind {
            AxPropKind::Focusable => if p.as_bool == Some(true) { Some(chars_of("focusable")) } else { None },
            AxPropKind::Focused => if p.as_bool == Some(true) { Some(chars_of("focused")) } else { None },
            AxPropKind::Disabled => if p.as_bool == Some(true) { Some(chars_of("disabled")) } else { None },
            AxPropKind::Expanded => if p.as_bool == Some(true) { Some(chars_of("expanded")) } else { None },
            AxPropKind::Selected => if p.as_bool == Some(true) { Some(chars_of("selected")) } else { None },
            AxPropKind::Checked => match &p.as_str {
                Some(s) => {
                    let mut v = chars_of("checked=");
                    push_str(&mut v, s.as_str());
                    Some(v)
                },
                None => None,
            },
            AxPropKind::Other => None,
        };
        match attr {
            Some(a) => {
                push_attr(&mut attrs, a);
                assert(attrs.deep_view() =~= a2 + props_attrs(n.properties@.take(i + 1)));
            },
            None => {
                assert(before =~= a2 + props_attrs(n.properties@.take(i + 1)));
            },
        }
        i = i + 1;
    }
    assert(n.properties@.take(n.properties@.len() as int) == n.properties@);
    assert(attrs.deep_view() =~= attrs_of(*n, uid@));
    attrs
}

fn line_exec(n: &AxNode, depth: u64, uid: &str, out: &mut Vec<char>)
    ensures
        final(out)@ == old(out)@ + node_line(*n, depth as nat, uid@),
{
    let ghost start = out@;
    let mut d: u64 = 0;
    while d < depth
        invariant
            d <= depth,
            out@ == start + indent(d as nat),
        decreases depth - d,
    {
        out.push(' ');
        out.push(' ');
        assert(indent((d + 1) as nat) =~= indent(d as nat) + seq![' ', ' ']);
        d = d + 1;
    }
    let attrs = attrs_exec(n, uid);
    let sp = chars_of(" ");
    let body = join_chars(&attrs, &sp);
    push_all(out, &body);
    push_str(out, "\n");
}

fn find_node_exec(ids: &Vec<Vec<char>>, nodes: &Vec<AxNode>, id: &[char]) -> (r: Option<usize>)
    requires
        ids@.len() == nodes@.len(),
        forall|k: int| 0 <= k < ids@.len() ==> ids@[k]@ == nodes@[k].node_id@,
    ensures
        match r {
            Some(j) => find_node(nodes@, id@) == Some(j as int),
            None => find_node(nodes@, id@) is None,
        },
{
    let mut i: usize = ids.len();
    assert(nodes@.take(i as int) == nodes@);
    while i > 0
        invariant
            i <= ids@.len() == nodes@.len(),
            forall|k: int| 0 <= k < ids@.len() ==> ids@[k]@ == nodes@[k].node_id@,
            find_node(nodes@, id@) == find_node(nodes@.take(i as int), id@),
        decreases i,
    {
        assert(nodes@.take(i as int).last() == nodes@[i - 1]);
        assert(nodes@.take(i as int).drop_last() == nodes@.take(i - 1));
        if eq_chars(&ids[i - 1], id) {
            return Some(i - 1);
        }
        i = i - 1;
    }
    None
}

/// The context a walk of the tree carries along.
struct Walk<'a> {
    nodes: &'a Vec<AxNode>,
    ids: Vec<Vec<char>>,
    snap: u64,
    verbose: bool,
}

impl<'a> Walk<'a> {
    spec fn ok(&self) -> bool {
        &&& self.ids@.len() == self.nodes@.len()
        &&& forall|k: int| 0 <= k < self.ids@.len() ==> self.ids@[k]@ == self.nodes@[k].node_id@
    }

    fn node(
        &self,
        i: usize,
        depth: u64,
        counter: &mut u64,
        out: &mut Vec<char>,
        entries: &mut Vec<(String, i64)>,
        Ghost(fuel): Ghost<nat>,
    )
        requires
            self.ok(),
            finite(self.nodes@, i as int, fuel),
            depth <= *old(counter),
            *old(counter) + visits(self.nodes@, i as int, depth as nat, self.verbose, fuel).len() <= u64::MAX,
        ensures
            *final(counter) == *old(counter) + visits(self.nodes@, i as int, depth as nat, self.verbose, fuel).len(),
            final(out)@ == old(out)@ + render(
                self.nodes@,
                visits(self.nodes@, i as int, depth as nat, self.verbose, fuel),
                self.snap as nat,
                *old(counter) as nat,
            ),
            entries_view(final(entries)@) == entries_view(old(entries)@) + id_entries(
                self.nodes@,
                visits(self.nodes@, i as int, depth as nat, self.verbose, fuel),
                self.snap as nat,
                *old(counter) as nat,
            ),
        decreases fuel, 0nat,
    {
        let n = &self.nodes[i];
        let ghost vs = visits(self.nodes@, i as int, depth as nat, self.verbose, fuel);
        let ghost kids = child_ids_of(*n);
        let ghost c0 = *counter;
        if n.ignored && !self.verbose {
            self.children(i, depth, counter, out, entries, Ghost((fuel - 1) as nat));
        } else {
            let uid = crate::browser::make_uid(self.snap, *counter);
            let ghost single = seq![(i as int, depth as nat)];
            proof {
                assert(render(self.nodes@, single, self.snap as nat, c0 as nat) =~= render(self.nodes@, Seq::<(int, nat)>::empty(), self.snap as nat, c0 as nat) + node_line(*n, depth as nat, uid@)) by {
                    assert(single.drop_last() =~= Seq::<(int, nat)>::empty());
                }
                lemma_id_entries_single(self.nodes@, i as int, depth as nat, self.snap as nat, c0 as nat);
                assert(single.drop_last() =~= Seq::<(int, nat)>::empty());
                lemma_render_concat(self.nodes@, single, visits_list(self.nodes@, kids, depth as nat + 1, self.verbose, (fuel - 1) as nat), self.snap as nat, c0 as nat);
                assert(vs == single + visits_list(self.nodes@, kids, depth as nat + 1, self.verbose, (fuel - 1) as nat));
            }
            line_exec(n, depth, uid.as_str(), out);
            let ghost eb = entries@;
            if let Some(b) = n.backend_id {
                entries.push((uid, b));
                assert(entries_view(entries@) =~= entries_view(eb).push((uid_text(self.snap as nat, c0 as nat), b)));
            }
            *counter = *counter + 1;
            self.children(i, depth + 1, counter, out, entries, Ghost((fuel - 1) as nat));
        }
    }

    fn children(
        &self,
        i: usize,
        depth: u64,
        counter: &mut u64,
        out: &mut Vec<char>,
        entries: &mut Vec<(String, i64)>,
        Ghost(fuel): Ghost<nat>,
    )
        requires
            self.ok(),
            0 <= i < self.nodes@.len(),
            finite_list(self.nodes@, child_ids_of(self.nodes@[i as int]), fuel),
            depth <= *old(counter),
            *old(counter) + visits_list(self.nodes@, child_ids_of(self.nodes@[i as int]), depth as nat, self.verbose, fuel).len() <= u64::MAX,
        ensures
            *final(counter) == *old(counter) + visits_list(self.nodes@, child_ids_of(self.nodes@[i as int]), depth as nat, self.verbose, fuel).len(),
            final(out)@ == old(out)@ + render(
                self.nodes@,
                visits_list(self.nodes@, child_ids_of(self.nodes@[i as int]), depth as nat, self.verbose, fuel),
                self.snap as nat,
                *old(counter) as nat,
            ),
            entries_view(final(entries)@) == entries_view(old(entries)@) + id_entries(
                self.nodes@,
                visits_list(self.nodes@, child_ids_of(self.nodes@[i as int]), depth as nat, self.verbose, fuel),
                self.snap as nat,
                *old(counter) as nat,
            ),
        decreases fuel, 1nat,
    {
        let n = &self.nodes[i];
        let ghost kids = child_ids_of(*n);
        let empty: Vec<String> = Vec::new();
        let list: &Vec<String> = match &n.child_ids {
            Some(v) => v,
            None => &empty,
        };
        assert(list@ == kids);
        let ghost c0 = *counter;
        let ghost o0 = out@;
        let ghost e0 = entries_view(entries@);
        let mut k: usize = 0;
        while k < list.len()
            invariant
                self.ok(),
                k <= list@.len(),
                list@ == kids,
                finite_list(self.nodes@, kids, fuel),
                depth <= c0,
                c0 + visits_list(self.nodes@, kids, depth as nat, self.verbose, fuel).len() <= u64::MAX,
                c0 <= *counter,
                *counter == c0 + visits_list(self.nodes@, kids.take(k as int), depth as nat, self.verbose, fuel).len(),
                out@ == o0 + render(self.nodes@, visits_list(self.nodes@, kids.take(k as int), depth as nat, self.verbose, fuel), self.snap as nat, c0 as nat),
                entries_view(entries@) == e0 + id_entries(self.nodes@, visits_list(self.nodes@, kids.take(k as int), depth as nat, self.verbose, fuel), self.snap as nat, c0 as nat),
            decreases list@.len() - k,
        {
            let ghost pre = visits_list(self.nodes@, kids.take(k as int), depth as nat, self.verbose, fuel);
            proof {
                assert(kids.take(k + 1).drop_last() == kids.take(k as int));
                assert(kids.take(k + 1).last() == kids[k as int]);
                lemma_finite_list_prefix(self.nodes@, kids, fuel, k + 1);
                lemma_visits_list_prefix_len(self.nodes@, kids, depth as nat, self.verbose, fuel, k + 1);
            }
            let cid = chars_of(list[k].as_str());
            match find_node_exec(&self.ids, self.nodes, &cid) {
                Some(j) => {
                    let ghost part = visits(self.nodes@, j as int, depth as nat, self.verbose, fuel);
                    proof {
                        lemma_render_concat(self.nodes@, pre, part, self.snap as nat, c0 as nat);
                    }
                    self.node(j, depth, counter, out, entries, Ghost(fuel));
                },
                None => {
                    assert(pre + Seq::<(int, nat)>::empty() == pre);
                },
            }
            k = k + 1;
        }
        assert(kids.take(list@.len() as int) == kids);
    }
}

/// Finiteness of a child list carries over to its prefixes.
proof fn lemma_finite_list_prefix(nodes: Seq<AxNode>, ids: Seq<String>, fuel: nat, k: int)
    requires
        0 <= k <= ids.len(),
        finite_list(nodes, ids, fuel),
    ensures
        finite_list(nodes, ids.take(k), fuel),
    decreases ids.len() - k,
{
    if k < ids.len() {
        lemma_finite_list_prefix(nodes, ids, fuel, k + 1);
        assert(ids.take(k + 1).drop_last() == ids.take(k));
    } else {
        assert(ids.take(k) == ids);
    }
}

/// The visits below a prefix of a child list are at most those below the
/// whole list.
proof fn lemma_visits_list_prefix_len(nodes: Seq<AxNode>, ids: Seq<String>, depth: nat, verbose: bool, fuel: nat, k: int)
    requires
        0 <= k <= ids.len(),
    ensures
        visits_list(nodes, ids.take(k), depth, verbose, fuel).len() <= visits_list(nodes, ids, depth, verbose, fuel).len(),
    decreases ids.len() - k,
{
    if k < ids.len() {
        lemma_visits_list_prefix_len(nodes, ids, depth, verbose, fuel, k + 1);
        assert(ids.take(k + 1).drop_last() == ids.take(k));
    } else {
        assert(ids.take(k) == ids);
    }
}

/// The index of the root: the last node without a parent.
pub open spec fn root_pos(nodes: Seq<AxNode>) -> Option<int>
    decreases nodes.len(),
{
    if nodes.len() == 0 {
        None
    } else if nodes.last().parent_id is None {
        Some(nodes.len() - 1)
    } else {
        root_pos(nodes.drop_last())
    }
}

/// The node the walk starts from: the node stored under the root's id.
pub open spec fn start_node(nodes: Seq<AxNode>) -> Option<int> {
    match root_pos(nodes) {
        Some(p) => find_node(nodes, nodes[p].node_id@),
        None => None,
    }
}

/// The tree can be shown: from its start node, it is finite and has fewer
/// shown nodes than a 64-bit counter holds.
pub open spec fn showable(nodes: Seq<AxNode>, verbose: bool) -> bool {
    match start_node(nodes) {
        Some(s) => exists|f: nat| finite(nodes, s, f) && visits(nodes, s, 0, verbose, f).len() <= u64::MAX,
        None => true,
    }
}

/// A depth bound for the tree (see `showable`).
pub open spec fn tree_fuel(nodes: Seq<AxNode>, verbose: bool) -> nat {
    let s = start_node(nodes).unwrap();
    choose|f: nat| finite(nodes, s, f) && visits(nodes, s, 0, verbose, f).len() <= u64::MAX
}

/// The shown nodes of the tree, in order.
pub open spec fn tree_visits(nodes: Seq<AxNode>, verbose: bool) -> Seq<(int, nat)> {
    match start_node(nodes) {
        Some(s) => visits(nodes, s, 0, verbose, tree_fuel(nodes, verbose)),
        None => Seq::empty(),
    }
}


/// The tree can be shown when its walk from the start node is given `fuel`
/// levels: it is finite within them and has at most `u64::MAX` shown nodes.
pub open spec fn showable_within(nodes: Seq<AxNode>, verbose: bool, fuel: nat) -> bool {
    match start_node(nodes) {
        Some(s) => finite(nodes, s, fuel) && visits(nodes, s, 0, verbose, fuel).len() <= u64::MAX,
        None => true,
    }
}

/// Counts the nodes shown below node `i` within `fuel` levels; `None` when
/// the tree below it is not finite within them or the count does not fit.
fn count_node(nodes: &Vec<AxNode>, ids: &Vec<Vec<char>>, verbose: bool, i: usize, Ghost(depth): Ghost<nat>, fuel: u64) -> (r: Option<u64>)
    requires
        ids@.len() == nodes@.len(),
        forall|k: int| 0 <= k < ids@.len() ==> ids@[k]@ == nodes@[k].node_id@,
    ensures
        match r {
            Some(c) => finite(nodes@, i as int, fuel as nat) && c == visits(nodes@, i as int, depth, verbose, fuel as nat).len(),
            None => !(finite(nodes@, i as int, fuel as nat) && visits(nodes@, i as int, depth, verbose, fuel as nat).len() <= u64::MAX),
        },
    decreases fuel, 0nat,
{
    if fuel == 0 || i >= nodes.len() {
        return None;
    }
    let n = &nodes[i];
    let skip = n.ignored && !verbose;
    let ghost cd: nat = if skip { depth } else { depth + 1 };
    match count_children(nodes, ids, verbose, i, Ghost(cd), fuel - 1) {
        Some(c) => {
            if skip {
                Some(c)
            } else if c < u64::MAX {
                Some(c + 1)
            } else {
                None
            }
        },
        None => None,
    }
}

/// Counts the nodes shown below the children of node `i`, as `count_node`.
fn count_children(nodes: &Vec<AxNode>, ids: &Vec<Vec<char>>, verbose: bool, i: usize, Ghost(depth): Ghost<nat>, fuel: u64) -> (r: Option<u64>)
    requires
        ids@.len() == nodes@.len(),
        forall|k: int| 0 <= k < ids@.len() ==> ids@[k]@ == nodes@[k].node_id@,
        i < nodes@.len(),
    ensures
        match r {
            Some(c) => finite_list(nodes@, child_ids_of(nodes@[i as int]), fuel as nat)
                && c == visits_list(nodes@, child_ids_of(nodes@[i as int]), depth, verbose, fuel as nat).len(),
            None => !(finite_list(nodes@, child_ids_of(nodes@[i as int]), fuel as nat)
                && visits_list(nodes@, child_ids_of(nodes@[i as int]), depth, verbose, fuel as nat).len() <= u64::MAX),
        },
    decreases fuel, 1nat,
{
    let n = &nodes[i];
    let ghost kids = child_ids_of(*n);
    let empty: Vec<String> = Vec::new();
    let list: &Vec<String> = match &n.child_ids {
        Some(v) => v,
        None => &empty,
    };
    assert(list@ == kids);
    let mut total: u64 = 0;
    let mut k: usize = 0;
    assert(kids.take(0) =~= Seq::<String>::empty());
    while k < list.len()
        invariant
            ids@.len() == nodes@.len(),
            forall|q: int| 0 <= q < ids@.len() ==> ids@[q]@ == nodes@[q].node_id@,
            k <= list@.len(),
            list@ == kids,
            i < nodes@.len(),
            kids == child_ids_of(nodes@[i as int]),
            finite_list(nodes@, kids.take(k as int), fuel as nat),
            total == visits_list(nodes@, kids.take(k as int), depth, verbose, fuel as nat).len(),
        decreases list@.len() - k,
    {
        proof {
            assert(kids.take(k + 1).drop_last() == kids.take(k as int));
            assert(kids.take(k + 1).last() == kids[k as int]);
        }
        let cid = chars_of(list[k].as_str());
        match find_node_exec(ids, nodes, &cid) {
            Some(j) => {
                let ghost pre = kids.take(k as int);
                let ghost next = kids.take(k + 1);
                assert(cid@ == next.last()@);
                assert(visits_list(nodes@, next, depth, verbose, fuel as nat)
                    == visits_list(nodes@, pre, depth, verbose, fuel as nat) + visits(nodes@, j as int, depth, verbose, fuel as nat));
                assert(finite_list(nodes@, next, fuel as nat) == (finite_list(nodes@, pre, fuel as nat) && finite(nodes@, j as int, fuel as nat)));
                match count_node(nodes, ids, verbose, j, Ghost(depth), fuel) {
                    Some(c) => {
                        if total > u64::MAX - c {
                            proof {
                                lemma_visits_list_prefix_len(nodes@, kids, depth, verbose, fuel as nat, k + 1);
                            }
                            return None;
                        }
                        total = total + c;
                    },
                    None => {
                        proof {
                            if finite_list(nodes@, kids, fuel as nat) {
                                lemma_finite_list_prefix(nodes@, kids, fuel as nat, k + 1);
                                lemma_visits_list_prefix_len(nodes@, kids, depth, verbose, fuel as nat, k + 1);
                            }
                        }
                        return None;
                    },
                }
            },
            None => {},
        }
        k = k + 1;
    }
    assert(kids.take(list@.len() as int) == kids);
    Some(total)
}

/// The number of levels `can_show` gives the walk: one more than there are
/// nodes.
pub open spec fn walk_levels(len: nat) -> nat {
    if len < u64::MAX { len + 1 } else { u64::MAX as nat }
}

/// The ids of the nodes, as characters, and the index of the start node.
fn ids_and_start(nodes: &Vec<AxNode>) -> (r: (Vec<Vec<char>>, Option<usize>))
    ensures
        r.0@.len() == nodes@.len(),
        forall|k: int| 0 <= k < r.0@.len() ==> r.0@[k]@ == nodes@[k].node_id@,
        match r.1 {
            Some(s) => start_node(nodes@) == Some(s as int),
            None => start_node(nodes@) is None,
        },
{
    let mut ids: Vec<Vec<char>> = Vec::new();
    let mut i: usize = 0;
    while i < nodes.len()
        invariant
            i <= nodes@.len(),
            ids@.len() == i,
            forall|k: int| 0 <= k < i ==> ids@[k]@ == nodes@[k].node_id@,
        decreases nodes@.len() - i,
    {
        ids.push(chars_of(nodes[i].node_id.as_str()));
        i = i + 1;
    }
    let mut root: Option<usize> = None;
    let mut p: usize = nodes.len();
    assert(nodes@.take(p as int) == nodes@);
    while p > 0 && root.is_none()
        invariant
            p <= nodes@.len(),
            root is None ==> root_pos(nodes@) == root_pos(nodes@.take(p as int)),
            root matches Some(r) ==> (r < nodes@.len() && root_pos(nodes@) == Some(r as int)),
        decreases p,
    {
        assert(nodes@.take(p as int).last() == nodes@[p - 1]);
        assert(nodes@.take(p as int).drop_last() == nodes@.take(p - 1));
        if nodes[p - 1].parent_id.is_none() {
            root = Some(p - 1);
        }
        p = p - 1;
    }
    assert(root is None ==> root_pos(nodes@) is None);
    let start = match root {
        Some(rp) => find_node_exec(&ids, nodes, &ids[rp]),
        None => None,
    };
    (ids, start)
}

/// Whether `format_ax_tree` can show the tree within `walk_levels` of its
/// size: the walk from the start node must end within them and show at most
/// `u64::MAX` nodes. A tree for which this holds meets `showable`.
pub fn can_show(nodes: &Vec<AxNode>, verbose: bool) -> (b: bool)
    ensures
        b == showable_within(nodes@, verbose, walk_levels(nodes@.len())),
        b ==> showable(nodes@, verbose),
{
    let (ids, start) = ids_and_start(nodes);
    let n = nodes.len() as u64;
    let levels: u64 = if n < u64::MAX { n + 1 } else { u64::MAX };
    assert(levels as nat == walk_levels(nodes@.len()));
    match start {
        Some(s) => {
            let r = count_node(nodes, &ids, verbose, s, Ghost(0nat), levels);
            proof {
                if r is Some {
                    let f = levels as nat;
                    assert(finite(nodes@, s as int, f) && visits(nodes@, s as int, 0, verbose, f).len() <= u64::MAX);
                }
            }
            r.is_some()
        },
        None => true,
    }
}

/// Writes the accessibility tree as indented lines, one per shown node,
/// numbering the shown nodes `<snapshot>_0`, `<snapshot>_1`, ...; returns
/// the text and the element ids that have a backend node.
pub fn format_ax_tree(nodes: &Vec<AxNode>, snapshot_id: u64, verbose: bool) -> (r: (String, Vec<(String, i64)>))
    requires
        showable(nodes@, verbose),
    ensures
        r.0@ == render(nodes@, tree_visits(nodes@, verbose), snapshot_id as nat, 0),
        entries_view(r.1@) == id_entries(nodes@, tree_visits(nodes@, verbose), snapshot_id as nat, 0),
{
    let (ids, start) = ids_and_start(nodes);
    let mut out: Vec<char> = Vec::new();
    let mut entries: Vec<(String, i64)> = Vec::new();
    let ghost v0 = tree_visits(nodes@, verbose);
    if let Some(s) = start {
        let walk = Walk { nodes, ids, snap: snapshot_id, verbose };
        let ghost f = tree_fuel(nodes@, verbose);
        let mut counter: u64 = 0;
        walk.node(s, 0, &mut counter, &mut out, &mut entries, Ghost(f));
        assert(entries_view(Seq::<(String, i64)>::empty()) =~= Seq::<(Seq<char>, i64)>::empty());
    }
    (string_of(&out), entries)
}

/// The positions, among the shown nodes, of those with a backend node.
pub open spec fn entry_positions(nodes: Seq<AxNode>, vs: Seq<(int, nat)>) -> Seq<nat>
    decreases vs.len(),
{
    if vs.len() == 0 {
        Seq::empty()
    } else {
        entry_positions(nodes, vs.drop_last()) + match nodes[vs.last().0].backend_id {
            Some(b) => seq![(vs.len() - 1) as nat],
            None => Seq::<nat>::empty(),
        }
    }
}

/// Each id entry is numbered by its position, and positions increase.
proof fn lemma_entry_positions(nodes: Seq<AxNode>, vs: Seq<(int, nat)>, snap: nat, start: nat)
    ensures
        entry_positions(nodes, vs).len() == id_entries(nodes, vs, snap, start).len(),
        forall|k: int|
            0 <= k < entry_positions(nodes, vs).len() ==> id_entries(nodes, vs, snap, start)[k].0 == uid_text(
                snap,
                start + #[trigger] entry_positions(nodes, vs)[k],
            ) && entry_positions(nodes, vs)[k] < vs.len(),
        forall|a: int, b: int|
            0 <= a < b < entry_positions(nodes, vs).len() ==> #[trigger] entry_positions(nodes, vs)[a]
                < #[trigger] entry_positions(nodes, vs)[b],
    decreases vs.len(),
{
    if vs.len() > 0 {
        let rest = vs.drop_last();
        lemma_entry_positions(nodes, rest, snap, start);
        let p0 = entry_positions(nodes, rest);
        let e0 = id_entries(nodes, rest, snap, start);
        let p = entry_positions(nodes, vs);
        let e = id_entries(nodes, vs, snap, start);
        match nodes[vs.last().0].backend_id {
            Some(b) => {
                assert(p == p0.push((vs.len() - 1) as nat));
                assert(e == e0.push((uid_text(snap, start + (vs.len() - 1) as nat), b)));
                assert forall|k: int| 0 <= k < p.len() implies e[k].0 == uid_text(snap, start + #[trigger] p[k])
                    && p[k] < vs.len() by {
                    if k < p0.len() {
                        assert(p[k] == p0[k] && e[k] == e0[k]);
                    }
                }
                assert forall|a: int, b2: int| 0 <= a < b2 < p.len() implies #[trigger] p[a] < #[trigger] p[b2] by {
                    if b2 < p0.len() {
                        assert(p[a] == p0[a] && p[b2] == p0[b2]);
                    } else {
                        assert(p[a] == p0[a]);
                    }
                }
            },
            None => {
                assert(p == p0);
                assert(e == e0);
            },
        }
    }
}

/// Every element id that a snapshot writes resolves, while that snapshot is
/// the current one, to the backend node it was written for: `map` is the
/// id list `format_ax_tree` returns for the snapshot number `snap`.
pub proof fn lemma_snapshot_ids_resolve(nodes: Seq<AxNode>, verbose: bool, snap: u64, map: Seq<(String, i64)>, k: int)
    requires
        entries_view(map) == id_entries(nodes, tree_visits(nodes, verbose), snap as nat, 0),
        0 <= k < map.len(),
    ensures
        resolve_uid_spec(map[k].0@, snap, map) == Ok::<i64, Seq<char>>(map[k].1),
{
    let vs = tree_visits(nodes, verbose);
    let e = id_entries(nodes, vs, snap as nat, 0);
    lemma_entry_positions(nodes, vs, snap as nat, 0);
    let pos = entry_positions(nodes, vs);
    assert(entries_view(map)[k] == (map[k].0@, map[k].1));
    assert(map[k].0@ == uid_text(snap as nat, pos[k]));
    assert forall|a: int, b: int| 0 <= a < b < map.len() implies map[a].0@ != map[b].0@ by {
        assert(entries_view(map)[a] == (map[a].0@, map[a].1));
        assert(entries_view(map)[b] == (map[b].0@, map[b].1));
        assert(pos[a] < pos[b]);
        if map[a].0@ == map[b].0@ {
            lemma_uid_injective(snap as nat, pos[a], pos[b]);
        }
    }
    lemma_lookup_distinct(map, k);
    lemma_split_uid(snap as nat, pos[k]);
    lemma_parse_decimal(snap);
}


/// The element ids a browser session hands out: the number of the latest
/// snapshot and the backend node of each id it wrote.
pub struct SnapshotIds {
    snapshot_id: u64,
    map: Vec<(String, i64)>,
}

impl SnapshotIds {
    /// The number of the latest snapshot (0 before the first).
    pub closed spec fn current(&self) -> nat {
        self.snapshot_id as nat
    }

    /// The ids of the latest snapshot with their backend nodes.
    pub closed spec fn id_map(&self) -> Seq<(String, i64)> {
        self.map@
    }

    /// No snapshot taken yet.
    pub fn new() -> (r: Self)
        ensures
            r.current() == 0,
            r.id_map() == Seq::<(String, i64)>::empty(),
    {
        SnapshotIds { snapshot_id: 0, map: Vec::new() }
    }

    /// The number of the latest snapshot.
    pub fn current_id(&self) -> (r: u64)
        ensures
            r == self.current(),
    {
        self.snapshot_id
    }

    /// Takes a snapshot of the tree. When `can_show` refuses the tree,
    /// nothing changes and the result is `None`. Otherwise the snapshot gets
    /// the next number, its ids replace the old ones, and its text is
    /// returned.
    pub fn take(&mut self, nodes: &Vec<AxNode>, verbose: bool) -> (r: Option<String>)
        requires
            old(self).current() < u64::MAX,
        ensures
            match r {
                Some(text) => {
                    &&& showable_within(nodes@, verbose, walk_levels(nodes@.len()))
                    &&& final(self).current() == old(self).current() + 1
                    &&& text@ == render(nodes@, tree_visits(nodes@, verbose), final(self).current(), 0)
                    &&& entries_view(final(self).id_map()) == id_entries(
                        nodes@,
                        tree_visits(nodes@, verbose),
                        final(self).current(),
                        0,
                    )
                },
                None => !showable_within(nodes@, verbose, walk_levels(nodes@.len()))
                    && final(self).current() == old(self).current()
                    && final(self).id_map() == old(self).id_map(),
            },
    {
        if !can_show(nodes, verbose) {
            return None;
        }
        let next = self.snapshot_id + 1;
        let (text, ids) = format_ax_tree(nodes, next, verbose);
        self.snapshot_id = next;
        self.map = ids;
        Some(text)
    }

    /// The backend node of an element id of the latest snapshot, or why it
    /// cannot be had.
    pub fn backend_id(&self, uid: &str) -> (r: Result<i64, String>)
        ensures
            match r {
                Ok(b) => resolve_uid_spec(uid@, self.current() as u64, self.id_map()) == Ok::<i64, Seq<char>>(b),
                Err(e) => resolve_uid_spec(uid@, self.current() as u64, self.id_map()) == Err::<i64, Seq<char>>(e@),
            },
    {
        resolve_uid(uid, self.snapshot_id, &self.map)
    }
}

/// An element id written by an earlier snapshot than the current one is
/// refused as stale, whatever ids the current snapshot holds.
pub proof fn lemma_stale_uid_refused(snap: nat, index: nat, current: u64, map: Seq<(String, i64)>)
    requires
        snap < current,
    ensures
        resolve_uid_spec(uid_text(snap, index), current, map) == Err::<i64, Seq<char>>(
            "stale uid from snapshot "@ + decimal(snap) + ", current is "@ + decimal(current as nat)
                + ". take a new snapshot first."@,
        ),
{
    lemma_split_uid(snap, index);
    lemma_parse_decimal(snap as u64);
}

/// Once a snapshot is taken, the element ids of every earlier snapshot are
/// refused as stale: `ids` is the state after the snapshot, and `snap` the
/// number of an earlier one.
pub proof fn lemma_earlier_snapshot_ids_refused(ids: &SnapshotIds, snap: nat, index: nat)
    requires
        snap < ids.current(),
    ensures
        resolve_uid_spec(uid_text(snap, index), ids.current() as u64, ids.id_map()) is Err,
{
    lemma_stale_uid_refused(snap, index, ids.current() as u64, ids.id_map());
}

/// The element ids that the latest snapshot wrote resolve to their backend
/// nodes while it is the latest.
pub proof fn lemma_latest_snapshot_ids_resolve(ids: &SnapshotIds, nodes: Seq<AxNode>, verbose: bool, k: int)
    requires
        entries_view(ids.id_map()) == id_entries(nodes, tree_visits(nodes, verbose), ids.current(), 0),
        0 <= k < ids.id_map().len(),
    ensures
        resolve_uid_spec(ids.id_map()[k].0@, ids.current() as u64, ids.id_map())
            == Ok::<i64, Seq<char>>(ids.id_map()[k].1),
{
    lemma_snapshot_ids_resolve(nodes, verbose, ids.current() as u64, ids.id_map(), k);
}

} // verus!
