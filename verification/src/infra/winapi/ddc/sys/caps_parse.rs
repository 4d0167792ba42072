//! Parser for DDC/CI (MCCS) capability strings such as
//! `(prot(monitor)type(lcd)cmds(01 02 03)vcp(10 12 14(05 08 0B) 60(0F 11)))`.
//!
//! The string is cut down to the text between its first `(` and its last
//! `)`, split into tokens (`(`, `)` and runs of other non-space
//! characters), and read as one parenthesised group of atoms and nested
//! groups.  At the top level an atom followed by a group is a section
//! (`vcp(...)`); the `cmds`, `vcp` and remaining sections are then decoded.

use vstd::prelude::*;
use std::collections::{HashMap, HashSet};

use crate::assoc::{group_pairs, group_step, key_index, keys_unique, lemma_group_pairs_keys, lemma_key_index, lemma_key_index_push, lemma_key_index_absent, lemma_key_index_at, lookup};
use crate::text::{
    ascii_lowercase, hex_byte, is_white_space, is_white_space_char, join, lowercase_from_chars,
    parse_hex_byte, push_decimal, str_chars, string_from_chars, trim, trim_bounds,
    decimal, join_with_space, strings_view, trim_start, trim_end, is_trimmed, lemma_trim_start_shape,
    lemma_trim_end_shape, lemma_trim_start_keeps, lemma_trim_end_keeps, lemma_trimmed_is_fixed,
    lemma_ascii_lowercase_shape,
};
use super::error::CapabilitiesParseError;

verus! {

broadcast use vstd::std_specs::hash::group_hash_axioms;

// ---------------------------------------------------------------------------
// Nodes
// ---------------------------------------------------------------------------

/// An element of a parenthesised capability group: an atom or a nested
/// group.
#[derive(Debug, PartialEq, Eq)]
pub enum Node {
    Atom(String),
    List(Vec<Node>),
}

/// The mathematical value of a [`Node`].
pub enum NodeModel {
    Atom(Seq<char>),
    List(Seq<NodeModel>),
}

/// The value of a node.
pub open spec fn node_view(n: Node) -> NodeModel
    decreases n,
{
    match n {
        Node::Atom(s) => NodeModel::Atom(s@),
        Node::List(v) => NodeModel::List(nodes_view(v@)),
    }
}

/// The values of a sequence of nodes.
pub open spec fn nodes_view(s: Seq<Node>) -> Seq<NodeModel>
    decreases s,
{
    if s.len() == 0 {
        Seq::empty()
    } else {
        nodes_view(s.drop_last()).push(node_view(s.last()))
    }
}

impl View for Node {
    type V = NodeModel;

    open spec fn view(&self) -> NodeModel {
        node_view(*self)
    }
}

/// `nodes_view` maps each node to its value.
pub proof fn lemma_nodes_view(s: Seq<Node>)
    ensures
        nodes_view(s).len() == s.len(),
        forall|i: int| 0 <= i < s.len() ==> #[trigger] nodes_view(s)[i] == node_view(s[i]),
    decreases s.len(),
{
    if s.len() > 0 {
        lemma_nodes_view(s.drop_last());
    }
}

proof fn lemma_nodes_view_push(s: Seq<Node>, n: Node)
    ensures
        nodes_view(s.push(n)) == nodes_view(s).push(node_view(n)),
{
    assert(s.push(n).drop_last() =~= s);
}

/// An exact copy of a node.
pub fn copy_node(n: &Node) -> (r: Node)
    ensures
        node_view(r) == node_view(*n),
    decreases n,
{
    match n {
        Node::Atom(s) => Node::Atom(s.clone()),
        Node::List(xs) => Node::List(copy_nodes(xs)),
    }
}

/// An exact copy of a sequence of nodes.
pub fn copy_nodes(xs: &Vec<Node>) -> (r: Vec<Node>)
    ensures
        nodes_view(r@) == nodes_view(xs@),
    decreases xs,
{
    let mut r: Vec<Node> = Vec::new();
    let mut i: usize = 0;
    while i < xs.len()
        invariant
            i <= xs@.len(),
            nodes_view(r@) == nodes_view(xs@.take(i as int)),
        decreases xs.len() - i,
    {
        let c = copy_node(&xs[i]);
        proof {
            lemma_nodes_view_push(r@, c);
            lemma_nodes_view_push(xs@.take(i as int), xs@[i as int]);
            assert(xs@.take(i as int).push(xs@[i as int]) =~= xs@.take(i + 1));
        }
        r.push(c);
        i += 1;
    }
    assert(xs@.take(xs.len() as int) =~= xs@);
    r
}

impl Clone for Node {
    /// An exact copy, atoms and nested groups included.
    fn clone(&self) -> (r: Self)
        ensures
            node_view(r) == node_view(*self),
    {
        copy_node(self)
    }
}

// ---------------------------------------------------------------------------
// Tokens
// ---------------------------------------------------------------------------

/// A character that is neither white space nor a parenthesis, and so
/// belongs to an atom.
pub open spec fn is_atom_char(c: char) -> bool {
    !is_white_space(c) && c != '(' && c != ')'
}

/// The end of the run of atom characters that starts at `i`.
pub open spec fn atom_end(s: Seq<char>, i: int) -> int
    decreases s.len() - i,
{
    if 0 <= i < s.len() && is_atom_char(s[i]) {
        atom_end(s, i + 1)
    } else {
        i
    }
}

/// The tokens of `s` from position `i` on: white space separates tokens,
/// each parenthesis is a token of its own, and every maximal run of other
/// characters is one token.
pub open spec fn tokens_from(s: Seq<char>, i: int) -> Seq<Seq<char>>
    decreases s.len() - i,
{
    if i < 0 || i >= s.len() {
        Seq::empty()
    } else if is_white_space(s[i]) {
        tokens_from(s, i + 1)
    } else if s[i] == '(' || s[i] == ')' {
        seq![seq![s[i]]] + tokens_from(s, i + 1)
    } else {
        let j = atom_end(s, i);
        if j <= i || j > s.len() {
            Seq::empty()
        } else {
            seq![s.subrange(i, j)] + tokens_from(s, j)
        }
    }
}

/// The tokens of a capability string.
pub open spec fn tokenize_spec(s: Seq<char>) -> Seq<Seq<char>> {
    tokens_from(trim(s), 0)
}

/// The views of a sequence of character vectors.
pub open spec fn char_vecs_view(v: Seq<Vec<char>>) -> Seq<Seq<char>> {
    v.map_values(|t: Vec<char>| t@)
}

proof fn lemma_atom_end_bounds(s: Seq<char>, i: int)
    requires
        0 <= i <= s.len(),
    ensures
        i <= atom_end(s, i) <= s.len(),
        i < s.len() && is_atom_char(s[i]) ==> atom_end(s, i) > i,
    decreases s.len() - i,
{
    if i < s.len() && is_atom_char(s[i]) {
        lemma_atom_end_bounds(s, i + 1);
    }
}

/// A new vector holding `v[lo..hi]`.
pub fn sub_chars(v: &Vec<char>, lo: usize, hi: usize) -> (r: Vec<char>)
    requires
        lo <= hi <= v@.len(),
    ensures
        r@ == v@.subrange(lo as int, hi as int),
{
    let mut r: Vec<char> = Vec::new();
    let mut i = lo;
    while i < hi
        invariant
            lo <= i <= hi,
            hi <= v@.len(),
            r@ == v@.subrange(lo as int, i as int),
        decreases hi - i,
    {
        r.push(v[i]);
        i += 1;
        assert(r@ =~= v@.subrange(lo as int, i as int));
    }
    r
}

/// Splits a capability string into tokens.
pub fn tokenize(s: &Vec<char>) -> (r: Vec<Vec<char>>)
    ensures
        char_vecs_view(r@) == tokenize_spec(s@),
{
    let (lo, hi) = trim_bounds(s);
    let t = sub_chars(s, lo, hi);
    let n = t.len();
    let mut out: Vec<Vec<char>> = Vec::new();
    let mut i: usize = 0;
    while i < n
        invariant
            i <= n,
            n == t@.len(),
            t@ == trim(s@),
            char_vecs_view(out@) + tokens_from(t@, i as int) == tokens_from(t@, 0),
        decreases n - i,
    {
        let c = t[i];
        let ghost before = char_vecs_view(out@);
        if is_white_space_char(c) {
            i += 1;
        } else if c == '(' || c == ')' {
            let mut tok: Vec<char> = Vec::new();
            tok.push(c);
            proof {
                assert(tok@ =~= seq![t@[i as int]]);
                assert(char_vecs_view(out@.push(tok)) =~= before.push(tok@));
                assert(before.push(tok@) + tokens_from(t@, i + 1) =~= before + (seq![tok@]
                    + tokens_from(t@, i + 1)));
            }
            out.push(tok);
            i += 1;
        } else {
            let start = i;
            proof {
                lemma_atom_end_bounds(t@, i as int);
            }
            i += 1;
            while i < n && !is_white_space_char(t[i]) && t[i] != '(' && t[i] != ')'
                invariant
                    start < i <= n,
                    n == t@.len(),
                    atom_end(t@, i as int) == atom_end(t@, start as int),
                decreases n - i,
            {
                i += 1;
            }
            let tok = sub_chars(&t, start, i);
            proof {
                assert(char_vecs_view(out@.push(tok)) =~= before.push(tok@));
                assert(before.push(tok@) + tokens_from(t@, i as int) =~= before + (seq![tok@]
                    + tokens_from(t@, i as int)));
            }
            out.push(tok);
        }
    }
    assert(tokens_from(t@, n as int) =~= Seq::<Seq<char>>::empty());
    assert(char_vecs_view(out@) =~= char_vecs_view(out@) + tokens_from(t@, n as int));
    out
}

// ---------------------------------------------------------------------------
// Groups
// ---------------------------------------------------------------------------

/// Why reading a group failed.
pub enum GroupFailure {
    /// The token at this index is not `(`.
    ExpectedOpen(int),
    /// The tokens ran out before the group was closed.
    UnexpectedEnd,
}

/// The message of a group failure.
pub open spec fn group_failure_message(f: GroupFailure) -> Seq<char> {
    match f {
        GroupFailure::ExpectedOpen(i) => "Expected '(' at token index "@ + decimal(i as nat),
        GroupFailure::UnexpectedEnd => "Unexpected end while parsing group"@,
    }
}

/// The group that opens at token `i`: its items and the index just past
/// its closing `)`.
pub open spec fn group_spec(t: Seq<Seq<char>>, i: int) -> Result<(Seq<NodeModel>, int), GroupFailure>
    decreases t.len() - i, 0int,
{
    if 0 <= i < t.len() && t[i] == seq!['('] {
        items_spec(t, i + 1)
    } else {
        Err(GroupFailure::ExpectedOpen(i))
    }
}

/// The items of a group from token `i` up to and including its closing
/// `)`: the items and the index just past the `)`.
pub open spec fn items_spec(t: Seq<Seq<char>>, i: int) -> Result<(Seq<NodeModel>, int), GroupFailure>
    decreases t.len() - i, 1int,
{
    if i < 0 || i >= t.len() {
        Err(GroupFailure::UnexpectedEnd)
    } else if t[i] == seq![')'] {
        Ok((Seq::empty(), i + 1))
    } else if t[i] == seq!['('] {
        match group_spec(t, i) {
            Err(f) => Err(f),
            Ok((sub, next)) => if next <= i || next > t.len() {
                Err(GroupFailure::UnexpectedEnd)
            } else {
                match items_spec(t, next) {
                    Err(f) => Err(f),
                    Ok((rest, end)) => Ok((seq![NodeModel::List(sub)] + rest, end)),
                }
            },
        }
    } else {
        match items_spec(t, i + 1) {
            Err(f) => Err(f),
            Ok((rest, end)) => Ok((seq![NodeModel::Atom(t[i])] + rest, end)),
        }
    }
}

/// `r` with `pre` put in front of the items it carries.
pub open spec fn prepend_items(
    pre: Seq<NodeModel>,
    r: Result<(Seq<NodeModel>, int), GroupFailure>,
) -> Result<(Seq<NodeModel>, int), GroupFailure> {
    match r {
        Ok((rest, end)) => Ok((pre + rest, end)),
        Err(f) => Err(f),
    }
}

/// Whether the token is the single character `c`.
fn is_token(tok: &Vec<char>, c: char) -> (r: bool)
    ensures
        r == (tok@ == seq![c]),
{
    if tok.len() == 1 && tok[0] == c {
        assert(tok@ =~= seq![c]);
        true
    } else {
        assert(tok@.len() != 1 || tok@[0] != c);
        false
    }
}

fn group_error(f: Ghost<GroupFailure>, idx: usize, open: bool) -> (e: CapabilitiesParseError)
    requires
        open ==> f@ == GroupFailure::ExpectedOpen(idx as int),
        !open ==> f@ == GroupFailure::UnexpectedEnd,
    ensures
        e.message@ == group_failure_message(f@),
{
    if open {
        let mut m = String::from_str("Expected '(' at token index ");
        push_decimal(&mut m, idx as u64);
        CapabilitiesParseError::new(m)
    } else {
        CapabilitiesParseError::new(String::from_str("Unexpected end while parsing group"))
    }
}

/// Reads the group that opens at token `idx`: its items and the index just
/// past its closing `)`.
pub fn parse_group(tokens: &Vec<Vec<char>>, idx: usize) -> (r: Result<
    (Vec<Node>, usize),
    CapabilitiesParseError,
>)
    ensures
        match (r, group_spec(char_vecs_view(tokens@), idx as int)) {
            (Ok((items, next)), Ok((m, e))) => nodes_view(items@) == m && next == e && idx < next
                <= tokens@.len(),
            (Err(err), Err(f)) => err.message@ == group_failure_message(f),
            _ => false,
        },
    decreases tokens.len() - idx,
{
    let ghost t = char_vecs_view(tokens@);
    if idx >= tokens.len() || !is_token(&tokens[idx], '(') {
        return Err(group_error(Ghost(GroupFailure::ExpectedOpen(idx as int)), idx, true));
    }
    let mut i = idx + 1;
    let mut items: Vec<Node> = Vec::new();
    assert(items_spec(t, (idx + 1) as int) == prepend_items(nodes_view(items@), items_spec(t, (idx + 1) as int))) by {
        assert(nodes_view(items@) =~= Seq::<NodeModel>::empty());
        match items_spec(t, (idx + 1) as int) {
            Ok((rest, end)) => { assert(Seq::<NodeModel>::empty() + rest =~= rest); },
            Err(_) => {},
        }
    }
    loop
        invariant
            idx < i <= tokens@.len(),
            t == char_vecs_view(tokens@),
            group_spec(t, idx as int) == items_spec(t, (idx + 1) as int),
            items_spec(t, (idx + 1) as int) == prepend_items(nodes_view(items@), items_spec(t, i as int)),
        decreases tokens.len() - i,
    {
        if i >= tokens.len() {
            return Err(group_error(Ghost(GroupFailure::UnexpectedEnd), idx, false));
        }
        if is_token(&tokens[i], ')') {
            let ghost m = nodes_view(items@);
            assert(m + Seq::<NodeModel>::empty() =~= m);
            return Ok((items, i + 1));
        } else if is_token(&tokens[i], '(') {
            let sub = parse_group(tokens, i);
            match sub {
                Err(e) => {
                    return Err(e);
                },
                Ok((sub_items, next)) => {
                    let ghost pre = nodes_view(items@);
                    let node = Node::List(sub_items);
                    proof {
                        lemma_nodes_view_push(items@, node);
                        match items_spec(t, next as int) {
                            Ok((rest, end)) => {
                                assert(pre + (seq![node_view(node)] + rest) =~= pre.push(node_view(node)) + rest);
                            },
                            Err(_) => {},
                        }
                    }
                    items.push(node);
                    i = next;
                },
            }
        } else {
            let tok = &tokens[i];
            let atom = string_from_chars(tok, 0, tok.len());
            let node = Node::Atom(atom);
            let ghost pre = nodes_view(items@);
            proof {
                assert(tok@.subrange(0, tok@.len() as int) =~= tok@);
                assert(t[i as int] == tok@);
                lemma_nodes_view_push(items@, node);
                match items_spec(t, i + 1) {
                    Ok((rest, end)) => {
                        assert(pre + (seq![node_view(node)] + rest) =~= pre.push(node_view(node)) + rest);
                    },
                    Err(_) => {},
                }
            }
            items.push(node);
            i += 1;
        }
    }
}

// ---------------------------------------------------------------------------
// Sections
// ---------------------------------------------------------------------------

/// The values recorded under one section name: for each occurrence of the
/// name, the group that followed it, if any.
pub type SectionValues = Vec<Option<Vec<Node>>>;

/// The top-level sections, one entry per (lower-cased) name, in order of
/// first appearance.
pub type Sections = Vec<(String, SectionValues)>;

/// The value of an optional group.
pub open spec fn opt_nodes_view(o: Option<Vec<Node>>) -> Option<Seq<NodeModel>> {
    match o {
        Some(v) => Some(nodes_view(v@)),
        None => None,
    }
}

/// The values of the groups recorded under a section name.
pub open spec fn section_values_view(v: Seq<Option<Vec<Node>>>) -> Seq<Option<Seq<NodeModel>>> {
    v.map_values(|o: Option<Vec<Node>>| opt_nodes_view(o))
}

/// The value of the sections.
pub open spec fn sections_view(s: Seq<(String, SectionValues)>) -> Seq<(Seq<char>, Seq<Option<Seq<NodeModel>>>)> {
    s.map_values(|e: (String, SectionValues)| (e.0@, section_values_view(e.1@)))
}

/// The section name that an atom denotes: trimmed and lower-cased.
pub open spec fn section_key(a: Seq<char>) -> Seq<char> {
    ascii_lowercase(trim(a))
}

/// The `(name, group)` pairs of the top-level items from index `i` on: each
/// atom names a section, and takes the group right after it as its value
/// when there is one.  Groups that follow no atom are skipped.
pub open spec fn section_pairs(items: Seq<NodeModel>, i: int) -> Seq<(Seq<char>, Option<Seq<NodeModel>>)>
    decreases items.len() - i,
{
    if i < 0 || i >= items.len() {
        Seq::empty()
    } else {
        match items[i] {
            NodeModel::List(_) => section_pairs(items, i + 1),
            NodeModel::Atom(a) => if i + 1 < items.len() {
                match items[i + 1] {
                    NodeModel::List(xs) => seq![(section_key(a), Some(xs))] + section_pairs(items, i + 2),
                    NodeModel::Atom(_) => seq![(section_key(a), None)] + section_pairs(items, i + 1),
                }
            } else {
                seq![(section_key(a), None)] + section_pairs(items, i + 1)
            },
        }
    }
}

/// The sections of the top-level items.
pub open spec fn sections_spec(items: Seq<NodeModel>) -> Seq<(Seq<char>, Seq<Option<Seq<NodeModel>>>)> {
    group_pairs(section_pairs(items, 0))
}

/// The position of the section named `key`, if there is one.
pub fn find_section(sec: &Sections, key: &String) -> (r: Option<usize>)
    ensures
        match r {
            Some(j) => j == key_index(sections_view(sec@), key@) && j < sec@.len() && sec@[j as int].0@
                == key@,
            None => key_index(sections_view(sec@), key@) == -1,
        },
{
    let ghost v = sections_view(sec@);
    let mut j: usize = 0;
    while j < sec.len()
        invariant
            j <= sec@.len(),
            v == sections_view(sec@),
            forall|jj: int| 0 <= jj < j ==> v[jj].0 != key@,
        decreases sec.len() - j,
    {
        if sec[j].0 == *key {
            proof {
                lemma_key_index_at(v, key@, j as int);
            }
            return Some(j);
        }
        j += 1;
    }
    proof {
        lemma_key_index_absent(v, key@);
    }
    None
}

/// Records `val` under the section `key`, creating the section if needed.
fn push_section_value(sec: &mut Sections, key: String, val: Option<Vec<Node>>)
    ensures
        sections_view(final(sec)@) == group_step(sections_view(old(sec)@), key@, opt_nodes_view(val)),
{
    let ghost g = sections_view(sec@);
    match find_section(sec, &key) {
        Some(j) => {
            let mut e = sec.remove(j);
            let ghost old_vals = e.1@;
            e.1.push(val);
            assert(section_values_view(e.1@) =~= section_values_view(old_vals).push(opt_nodes_view(val)));
            sec.insert(j, e);
            assert(sections_view(sec@) =~= g.update(j as int, (key@, g[j as int].1.push(opt_nodes_view(val)))));
        },
        None => {
            let mut vals: SectionValues = Vec::new();
            vals.push(val);
            assert(section_values_view(vals@) =~= seq![opt_nodes_view(val)]);
            sec.push((key, vals));
            assert(sections_view(sec@) =~= g.push((key@, seq![opt_nodes_view(val)])));
        },
    }
}

/// The section name that an atom denotes, trimmed and lower-cased.
fn section_key_of(a: &String) -> (r: String)
    ensures
        r@ == section_key(a@),
{
    let v = str_chars(a.as_str());
    let (lo, hi) = trim_bounds(&v);
    lowercase_from_chars(&v, lo, hi)
}

/// Groups the top-level items into sections.
pub fn to_top_sections(root_items: &Vec<Node>) -> (r: Sections)
    ensures
        sections_view(r@) == sections_spec(nodes_view(root_items@)),
{
    let ghost items = nodes_view(root_items@);
    proof {
        lemma_nodes_view(root_items@);
    }
    let mut sec: Sections = Vec::new();
    let ghost mut done: Seq<(Seq<char>, Option<Seq<NodeModel>>)> = Seq::empty();
    let n = root_items.len();
    let mut i: usize = 0;
    assert(done + section_pairs(items, 0) =~= section_pairs(items, 0));
    assert(sections_view(sec@) =~= group_pairs(done));
    while i < n
        invariant
            i <= n,
            n == root_items@.len(),
            items == nodes_view(root_items@),
            items.len() == n,
            forall|k: int| 0 <= k < n ==> #[trigger] items[k] == node_view(root_items@[k]),
            done + section_pairs(items, i as int) == section_pairs(items, 0),
            sections_view(sec@) == group_pairs(done),
        decreases n - i,
    {
        match &root_items[i] {
            Node::List(_) => {
                i += 1;
            },
            Node::Atom(a) => {
                let key = section_key_of(a);
                let mut val: Option<Vec<Node>> = None;
                let mut next = i + 1;
                if i + 1 < n {
                    match &root_items[i + 1] {
                        Node::List(xs) => {
                            val = Some(copy_nodes(xs));
                            next = i + 2;
                        },
                        Node::Atom(_) => {},
                    }
                }
                let ghost pair = (key@, opt_nodes_view(val));
                proof {
                    assert(seq![pair] + section_pairs(items, next as int) == section_pairs(items, i as int));
                    assert(done.push(pair) + section_pairs(items, next as int) =~= done + (seq![pair]
                        + section_pairs(items, next as int)));
                    assert(done.push(pair).drop_last() =~= done);
                }
                push_section_value(&mut sec, key, val);
                proof {
                    done = done.push(pair);
                }
                i = next;
            },
        }
    }
    assert(done =~= section_pairs(items, 0));
    sec
}

// ---------------------------------------------------------------------------
// Atoms and codes
// ---------------------------------------------------------------------------

/// The atoms of a node, depth first, left to right.
pub open spec fn flatten_node(n: NodeModel) -> Seq<Seq<char>>
    decreases n,
{
    match n {
        NodeModel::Atom(s) => seq![s],
        NodeModel::List(xs) => flatten_nodes(xs),
    }
}

/// The atoms of a sequence of nodes, depth first, left to right.
pub open spec fn flatten_nodes(ns: Seq<NodeModel>) -> Seq<Seq<char>>
    decreases ns,
{
    if ns.len() == 0 {
        Seq::empty()
    } else {
        flatten_nodes(ns.drop_last()) + flatten_node(ns.last())
    }
}

/// The atoms of all the groups recorded under a section name.
pub open spec fn flatten_values(vals: Seq<Option<Seq<NodeModel>>>) -> Seq<Seq<char>>
    decreases vals.len(),
{
    if vals.len() == 0 {
        Seq::empty()
    } else {
        flatten_values(vals.drop_last()) + match vals.last() {
            Some(ns) => flatten_nodes(ns),
            None => Seq::empty(),
        }
    }
}

/// The bytes denoted by the tokens that are one or two hexadecimal digits,
/// in order; other tokens are skipped.
pub open spec fn hex_bytes(toks: Seq<Seq<char>>) -> Seq<u8>
    decreases toks.len(),
{
    if toks.len() == 0 {
        Seq::empty()
    } else {
        hex_bytes(toks.drop_last()) + match hex_byte(toks.last()) {
            Some(b) => seq![b],
            None => Seq::empty(),
        }
    }
}

/// `s` with every repeated element dropped after its first occurrence.
pub open spec fn unique(s: Seq<u8>) -> Seq<u8>
    decreases s.len(),
{
    if s.len() == 0 {
        Seq::empty()
    } else {
        let p = unique(s.drop_last());
        if p.contains(s.last()) {
            p
        } else {
            p.push(s.last())
        }
    }
}

/// No element occurs twice.
pub open spec fn no_duplicates(s: Seq<u8>) -> bool {
    forall|i: int, j: int| 0 <= i < j < s.len() ==> s[i] != s[j]
}

/// The codes that a section's groups list: their hexadecimal atoms, each
/// code once, in order of first appearance.
pub open spec fn section_codes(vals: Seq<Option<Seq<NodeModel>>>) -> Seq<u8> {
    unique(hex_bytes(flatten_values(vals)))
}

proof fn lemma_flatten_nodes_push(ns: Seq<NodeModel>, n: NodeModel)
    ensures
        flatten_nodes(ns.push(n)) == flatten_nodes(ns) + flatten_node(n),
{
    assert(ns.push(n).drop_last() =~= ns);
}

/// Appends the atoms of `nodes` to `out`, depth first, left to right.
pub fn flatten_atoms(nodes: &Vec<Node>, out: &mut Vec<String>)
    ensures
        strings_view(final(out)@) == strings_view(old(out)@) + flatten_nodes(nodes_view(nodes@)),
    decreases nodes,
{
    let ghost start = strings_view(out@);
    let mut i: usize = 0;
    assert(nodes_view(nodes@.take(0)) =~= Seq::<NodeModel>::empty());
    assert(start + flatten_nodes(Seq::<NodeModel>::empty()) =~= start);
    while i < nodes.len()
        invariant
            i <= nodes@.len(),
            strings_view(out@) == start + flatten_nodes(nodes_view(nodes@.take(i as int))),
        decreases nodes.len() - i,
    {
        let ghost before = strings_view(out@);
        proof {
            lemma_nodes_view_push(nodes@.take(i as int), nodes@[i as int]);
            assert(nodes@.take(i as int).push(nodes@[i as int]) =~= nodes@.take(i + 1));
            lemma_flatten_nodes_push(nodes_view(nodes@.take(i as int)), node_view(nodes@[i as int]));
        }
        match &nodes[i] {
            Node::Atom(s) => {
                out.push(s.clone());
                assert(strings_view(out@) =~= before + seq![s@]);
            },
            Node::List(xs) => {
                flatten_atoms(xs, out);
            },
        }
        i += 1;
        assert(strings_view(out@) =~= start + flatten_nodes(nodes_view(nodes@.take(i as int))));
    }
    assert(nodes@.take(nodes@.len() as int) =~= nodes@);
}

/// The atoms of all the groups recorded under a section name.
fn flatten_section_values(vals: &SectionValues) -> (r: Vec<String>)
    ensures
        strings_view(r@) == flatten_values(section_values_view(vals@)),
{
    let ghost sv = section_values_view(vals@);
    let mut out: Vec<String> = Vec::new();
    let mut i: usize = 0;
    assert(strings_view(out@) =~= flatten_values(sv.take(0)));
    while i < vals.len()
        invariant
            i <= vals@.len(),
            sv == section_values_view(vals@),
            strings_view(out@) == flatten_values(sv.take(i as int)),
        decreases vals.len() - i,
    {
        assert(sv.take(i + 1).drop_last() =~= sv.take(i as int));
        match &vals[i] {
            Some(nodes) => {
                flatten_atoms(nodes, &mut out);
            },
            None => {
                assert(strings_view(out@) =~= strings_view(out@) + Seq::<Seq<char>>::empty());
            },
        }
        i += 1;
    }
    assert(sv.take(vals.len() as int) =~= sv);
    out
}

/// The bytes denoted by the hexadecimal tokens among `toks`, in order.
fn hex_codes(toks: &Vec<String>) -> (r: Vec<u8>)
    ensures
        r@ == hex_bytes(strings_view(toks@)),
{
    let ghost tv = strings_view(toks@);
    let mut out: Vec<u8> = Vec::new();
    let mut i: usize = 0;
    assert(out@ =~= hex_bytes(tv.take(0)));
    while i < toks.len()
        invariant
            i <= toks@.len(),
            tv == strings_view(toks@),
            out@ == hex_bytes(tv.take(i as int)),
        decreases toks.len() - i,
    {
        assert(tv.take(i + 1).drop_last() =~= tv.take(i as int));
        let chars = str_chars(toks[i].as_str());
        match parse_hex_byte(&chars) {
            Some(b) => {
                out.push(b);
            },
            None => {},
        }
        i += 1;
        assert(out@ =~= hex_bytes(tv.take(i as int)));
    }
    assert(tv.take(toks.len() as int) =~= tv);
    out
}

/// The elements of `items`, each once, in order of first appearance.
pub fn unique_keep_order(items: &Vec<u8>) -> (r: Vec<u8>)
    ensures
        r@ == unique(items@),
{
    let mut out: Vec<u8> = Vec::new();
    let mut seen: HashSet<u8> = HashSet::new();
    let mut i: usize = 0;
    assert(out@ =~= unique(items@.take(0)));
    while i < items.len()
        invariant
            i <= items@.len(),
            out@ == unique(items@.take(i as int)),
            forall|x: u8| #[trigger] seen@.contains(x) <==> out@.contains(x),
        decreases items.len() - i,
    {
        assert(items@.take(i + 1).drop_last() =~= items@.take(i as int));
        let x = items[i];
        let ghost before = out@;
        if seen.insert(x) {
            out.push(x);
            assert forall|y: u8| #[trigger] out@.contains(y) <==> before.contains(y) || y == x by {
                if before.contains(y) {
                    let k = choose|k: int| 0 <= k < before.len() && before[k] == y;
                    assert(out@[k] == y);
                }
                if out@.contains(y) && y != x {
                    let k = choose|k: int| 0 <= k < out@.len() && out@[k] == y;
                    assert(k < before.len());
                    assert(before[k] == y);
                }
                if y == x {
                    assert(out@[before.len() as int] == x);
                }
            }
        }
        i += 1;
    }
    assert(items@.take(items.len() as int) =~= items@);
    out
}

/// The codes listed by a section's groups.
fn codes_of_section(vals: &SectionValues) -> (r: Vec<u8>)
    ensures
        r@ == section_codes(section_values_view(vals@)),
{
    let atoms = flatten_section_values(vals);
    let codes = hex_codes(&atoms);
    unique_keep_order(&codes)
}

/// The command codes: those of the first of the sections `cmds`, `cmdlist`
/// and `cmd` that is present, or none.
pub open spec fn cmds_spec(secs: Seq<(Seq<char>, Seq<Option<Seq<NodeModel>>>)>) -> Seq<u8> {
    match lookup(secs, "cmds"@) {
        Some(vals) => section_codes(vals),
        None => match lookup(secs, "cmdlist"@) {
            Some(vals) => section_codes(vals),
            None => match lookup(secs, "cmd"@) {
                Some(vals) => section_codes(vals),
                None => Seq::empty(),
            },
        },
    }
}

/// The command codes that the capability sections list.
pub fn extract_cmds(sections: &Sections) -> (r: Vec<u8>)
    ensures
        r@ == cmds_spec(sections_view(sections@)),
{
    let ghost sv = sections_view(sections@);
    let k1 = String::from_str("cmds");
    let k2 = String::from_str("cmdlist");
    let k3 = String::from_str("cmd");
    if let Some(j) = find_section(sections, &k1) {
        return codes_of_section(&sections[j].1);
    }
    if let Some(j) = find_section(sections, &k2) {
        return codes_of_section(&sections[j].1);
    }
    if let Some(j) = find_section(sections, &k3) {
        return codes_of_section(&sections[j].1);
    }
    Vec::new()
}

// ---------------------------------------------------------------------------
// VCP codes
// ---------------------------------------------------------------------------

/// What a `vcp` group lists from item `i` on: one entry per hexadecimal atom
/// (a VCP code), paired with the codes of the group right after it when
/// that group lists at least one code.  A group that follows a code is
/// consumed with it; other atoms and groups are skipped.
pub open spec fn vcp_entries(items: Seq<NodeModel>, i: int) -> Seq<(u8, Option<Seq<u8>>)>
    decreases items.len() - i,
{
    if i < 0 || i >= items.len() {
        Seq::empty()
    } else {
        match items[i] {
            NodeModel::List(_) => vcp_entries(items, i + 1),
            NodeModel::Atom(a) => match hex_byte(a) {
                None => vcp_entries(items, i + 1),
                Some(p) => if i + 1 < items.len() {
                    match items[i + 1] {
                        NodeModel::List(child) => {
                            let codes = unique(hex_bytes(flatten_nodes(child)));
                            seq![(p, if codes.len() > 0 { Some(codes) } else { None })]
                                + vcp_entries(items, i + 2)
                        },
                        NodeModel::Atom(_) => seq![(p, None)] + vcp_entries(items, i + 1),
                    }
                } else {
                    seq![(p, None)] + vcp_entries(items, i + 1)
                },
            },
        }
    }
}

/// The entries of all the groups recorded under `vcp`, in order.
pub open spec fn vcp_value_entries(vals: Seq<Option<Seq<NodeModel>>>) -> Seq<(u8, Option<Seq<u8>>)>
    decreases vals.len(),
{
    if vals.len() == 0 {
        Seq::empty()
    } else {
        vcp_value_entries(vals.drop_last()) + match vals.last() {
            Some(items) => vcp_entries(items, 0),
            None => Seq::empty(),
        }
    }
}

/// The codes of a sequence of entries.
pub open spec fn entry_codes(es: Seq<(u8, Option<Seq<u8>>)>) -> Seq<u8> {
    es.map_values(|e: (u8, Option<Seq<u8>>)| e.0)
}

/// `m` updated by the entries in turn: an entry with sub-codes maps its
/// code to them, replacing what the code mapped to before.
pub open spec fn apply_subs(m: Map<u8, Seq<u8>>, es: Seq<(u8, Option<Seq<u8>>)>) -> Map<u8, Seq<u8>>
    decreases es.len(),
{
    if es.len() == 0 {
        m
    } else {
        let prev = apply_subs(m, es.drop_last());
        match es.last().1 {
            Some(c) => prev.insert(es.last().0, c),
            None => prev,
        }
    }
}

/// The VCP codes: those of the `vcp` section, each once, in order of first
/// appearance.
pub open spec fn vcp_codes_spec(secs: Seq<(Seq<char>, Seq<Option<Seq<NodeModel>>>)>) -> Seq<u8> {
    match lookup(secs, "vcp"@) {
        Some(vals) => unique(entry_codes(vcp_value_entries(vals))),
        None => Seq::empty(),
    }
}

/// The sub-codes of the VCP codes that list any; a code listed twice keeps
/// its last list.
pub open spec fn vcp_subs_spec(secs: Seq<(Seq<char>, Seq<Option<Seq<NodeModel>>>)>) -> Map<u8, Seq<u8>> {
    match lookup(secs, "vcp"@) {
        Some(vals) => apply_subs(Map::empty(), vcp_value_entries(vals)),
        None => Map::empty(),
    }
}

/// The value of a map from codes to code lists.
pub open spec fn subs_view(m: Map<u8, Vec<u8>>) -> Map<u8, Seq<u8>> {
    m.map_values(|v: Vec<u8>| v@)
}

proof fn lemma_apply_subs_append(m: Map<u8, Seq<u8>>, a: Seq<(u8, Option<Seq<u8>>)>, b: Seq<(u8, Option<Seq<u8>>)>)
    ensures
        apply_subs(m, a + b) == apply_subs(apply_subs(m, a), b),
    decreases b.len(),
{
    if b.len() == 0 {
        assert(a + b =~= a);
    } else {
        assert((a + b).drop_last() =~= a + b.drop_last());
        lemma_apply_subs_append(m, a, b.drop_last());
    }
}

/// The codes listed by the group `child` that follows a VCP code.
fn child_codes(child: &Vec<Node>) -> (r: Vec<u8>)
    ensures
        r@ == unique(hex_bytes(flatten_nodes(nodes_view(child@)))),
{
    let mut atoms: Vec<String> = Vec::new();
    flatten_atoms(child, &mut atoms);
    assert(strings_view(atoms@) =~= flatten_nodes(nodes_view(child@)));
    let codes = hex_codes(&atoms);
    unique_keep_order(&codes)
}

/// Reads one group recorded under `vcp`, adding its codes to `parents` and
/// its sub-code lists to `subs`.
fn scan_vcp_items(items: &Vec<Node>, parents: &mut Vec<u8>, subs: &mut HashMap<u8, Vec<u8>>)
    ensures
        final(parents)@ == old(parents)@ + entry_codes(vcp_entries(nodes_view(items@), 0)),
        subs_view(final(subs)@) == apply_subs(subs_view(old(subs)@), vcp_entries(nodes_view(items@), 0)),
{
    let ghost model = nodes_view(items@);
    proof {
        lemma_nodes_view(items@);
    }
    let ghost p0 = parents@;
    let ghost s0 = subs_view(subs@);
    let ghost mut done: Seq<(u8, Option<Seq<u8>>)> = Seq::empty();
    let n = items.len();
    let mut i: usize = 0;
    assert(done + vcp_entries(model, 0) =~= vcp_entries(model, 0));
    assert(parents@ =~= p0 + entry_codes(done));
    while i < n
        invariant
            i <= n,
            n == items@.len(),
            model == nodes_view(items@),
            model.len() == n,
            forall|k: int| 0 <= k < n ==> #[trigger] model[k] == node_view(items@[k]),
            done + vcp_entries(model, i as int) == vcp_entries(model, 0),
            parents@ == p0 + entry_codes(done),
            subs_view(subs@) == apply_subs(s0, done),
        decreases n - i,
    {
        match &items[i] {
            Node::List(_) => {
                i += 1;
            },
            Node::Atom(a) => {
                let chars = str_chars(a.as_str());
                match parse_hex_byte(&chars) {
                    None => {
                        i += 1;
                    },
                    Some(p) => {
                        let ghost mut sub: Option<Seq<u8>> = None;
                        let mut next = i + 1;
                        let ghost prev_subs = subs_view(subs@);
                        if i + 1 < n {
                            match &items[i + 1] {
                                Node::List(child) => {
                                    let codes = child_codes(child);
                                    if codes.len() > 0 {
                                        proof {
                                            sub = Some(codes@);
                                        }
                                        let ghost cv = codes@;
                                        subs.insert(p, codes);
                                        assert(subs_view(subs@) =~= prev_subs.insert(p, cv));
                                    }
                                    next = i + 2;
                                },
                                Node::Atom(_) => {},
                            }
                        }
                        parents.push(p);
                        let ghost e = (p, sub);
                        proof {
                            assert(seq![e] + vcp_entries(model, next as int) == vcp_entries(model, i as int));
                            assert(done.push(e) + vcp_entries(model, next as int) =~= done + (seq![e]
                                + vcp_entries(model, next as int)));
                            assert(done.push(e).drop_last() =~= done);
                            assert(entry_codes(done.push(e)) =~= entry_codes(done).push(p));
                            assert(parents@ =~= p0 + entry_codes(done.push(e)));
                            done = done.push(e);
                        }
                        i = next;
                    },
                }
            },
        }
    }
    assert(done =~= vcp_entries(model, 0));
}

/// The VCP codes and their sub-code lists that the capability sections list.
pub fn extract_vcp(sections: &Sections) -> (r: (Vec<u8>, HashMap<u8, Vec<u8>>))
    ensures
        r.0@ == vcp_codes_spec(sections_view(sections@)),
        subs_view(r.1@) == vcp_subs_spec(sections_view(sections@)),
{
    let key = String::from_str("vcp");
    let j = match find_section(sections, &key) {
        Some(j) => j,
        None => {
            let m: HashMap<u8, Vec<u8>> = HashMap::new();
            assert(subs_view(m@) =~= Map::<u8, Seq<u8>>::empty());
            return (Vec::new(), m);
        },
    };
    let values = &sections[j].1;
    let ghost sv = section_values_view(values@);
    let mut parents: Vec<u8> = Vec::new();
    let mut subs: HashMap<u8, Vec<u8>> = HashMap::new();
    let mut vi: usize = 0;
    assert(vcp_value_entries(sv.take(0)) =~= Seq::<(u8, Option<Seq<u8>>)>::empty());
    assert(parents@ =~= entry_codes(vcp_value_entries(sv.take(0))));
    assert(subs_view(subs@) =~= Map::<u8, Seq<u8>>::empty());
    while vi < values.len()
        invariant
            vi <= values@.len(),
            sv == section_values_view(values@),
            parents@ == entry_codes(vcp_value_entries(sv.take(vi as int))),
            subs_view(subs@) == apply_subs(Map::empty(), vcp_value_entries(sv.take(vi as int))),
        decreases values.len() - vi,
    {
        let ghost before = vcp_value_entries(sv.take(vi as int));
        assert(sv.take(vi + 1).drop_last() =~= sv.take(vi as int));
        match &values[vi] {
            Some(items) => {
                let ghost added = vcp_entries(nodes_view(items@), 0);
                scan_vcp_items(items, &mut parents, &mut subs);
                proof {
                    lemma_apply_subs_append(Map::empty(), before, added);
                    assert(entry_codes(before + added) =~= entry_codes(before) + entry_codes(added));
                }
            },
            None => {
                assert(before + Seq::<(u8, Option<Seq<u8>>)>::empty() =~= before);
            },
        }
        vi += 1;
    }
    assert(sv.take(values.len() as int) =~= sv);
    (unique_keep_order(&parents), subs)
}

// ---------------------------------------------------------------------------
// Other sections
// ---------------------------------------------------------------------------

/// The tokens that are not empty, in order.
pub open spec fn nonempty_atoms(toks: Seq<Seq<char>>) -> Seq<Seq<char>>
    decreases toks.len(),
{
    if toks.len() == 0 {
        Seq::empty()
    } else {
        nonempty_atoms(toks.drop_last()) + if toks.last().len() > 0 {
            seq![toks.last()]
        } else {
            Seq::empty()
        }
    }
}

/// The text of a descriptive section: the atoms of its first group that
/// has any, joined with single spaces.
pub open spec fn meta_value(vals: Seq<Option<Seq<NodeModel>>>) -> Option<Seq<char>>
    decreases vals.len(),
{
    if vals.len() == 0 {
        None
    } else {
        match vals[0] {
            Some(ns) => {
                let a = nonempty_atoms(flatten_nodes(ns));
                if a.len() > 0 {
                    Some(join(a, seq![' ']))
                } else {
                    meta_value(vals.drop_first())
                }
            },
            None => meta_value(vals.drop_first()),
        }
    }
}

/// The sections that hold codes rather than descriptive text.
pub open spec fn is_code_section(k: Seq<char>) -> bool {
    k == "cmds"@ || k == "cmdlist"@ || k == "cmd"@ || k == "vcp"@
}

/// The descriptive sections (`prot`, `type`, `model`, `mccs_ver`, ...) and
/// their text, in section order; sections without text are left out.
pub open spec fn meta_spec(secs: Seq<(Seq<char>, Seq<Option<Seq<NodeModel>>>)>) -> Seq<(Seq<char>, Seq<char>)>
    decreases secs.len(),
{
    if secs.len() == 0 {
        Seq::empty()
    } else {
        let m = meta_spec(secs.drop_last());
        let k = secs.last().0;
        if is_code_section(k) {
            m
        } else {
            match meta_value(secs.last().1) {
                Some(v) => m.push((k, v)),
                None => m,
            }
        }
    }
}

/// The value of a list of `(name, text)` pairs.
pub open spec fn meta_view(v: Seq<(String, String)>) -> Seq<(Seq<char>, Seq<char>)> {
    v.map_values(|e: (String, String)| (e.0@, e.1@))
}

fn nonempty_strings(v: &Vec<String>) -> (r: Vec<String>)
    ensures
        strings_view(r@) == nonempty_atoms(strings_view(v@)),
{
    let ghost sv = strings_view(v@);
    let mut out: Vec<String> = Vec::new();
    let mut i: usize = 0;
    assert(strings_view(out@) =~= nonempty_atoms(sv.take(0)));
    while i < v.len()
        invariant
            i <= v@.len(),
            sv == strings_view(v@),
            strings_view(out@) == nonempty_atoms(sv.take(i as int)),
        decreases v.len() - i,
    {
        assert(sv.take(i + 1).drop_last() =~= sv.take(i as int));
        if !v[i].as_str().is_empty() {
            out.push(v[i].clone());
        }
        i += 1;
        assert(strings_view(out@) =~= nonempty_atoms(sv.take(i as int)));
    }
    assert(sv.take(v.len() as int) =~= sv);
    out
}

fn meta_value_of(vals: &SectionValues) -> (r: Option<String>)
    ensures
        match (r, meta_value(section_values_view(vals@))) {
            (Some(s), Some(t)) => s@ == t,
            (None, None) => true,
            _ => false,
        },
{
    let ghost sv = section_values_view(vals@);
    let mut j: usize = 0;
    assert(sv.skip(0) =~= sv);
    while j < vals.len()
        invariant
            j <= vals@.len(),
            sv == section_values_view(vals@),
            meta_value(sv) == meta_value(sv.skip(j as int)),
        decreases vals.len() - j,
    {
        assert(sv.skip(j as int)[0] == sv[j as int]);
        assert(sv.skip(j as int).drop_first() =~= sv.skip(j + 1));
        if let Some(nodes) = &vals[j] {
            let mut atoms: Vec<String> = Vec::new();
            flatten_atoms(nodes, &mut atoms);
            assert(strings_view(atoms@) =~= flatten_nodes(nodes_view(nodes@)));
            let kept = nonempty_strings(&atoms);
            if kept.len() > 0 {
                return Some(join_with_space(&kept));
            }
        }
        j += 1;
    }
    assert(sv.skip(vals.len() as int) =~= Seq::<Option<Seq<NodeModel>>>::empty());
    None
}

fn is_code_section_name(k: &String) -> (r: bool)
    ensures
        r == is_code_section(k@),
{
    *k == String::from_str("cmds") || *k == String::from_str("cmdlist") || *k
        == String::from_str("cmd") || *k == String::from_str("vcp")
}

/// The descriptive sections and their text.
pub fn extract_meta(sections: &Sections) -> (r: Vec<(String, String)>)
    ensures
        meta_view(r@) == meta_spec(sections_view(sections@)),
{
    let ghost sv = sections_view(sections@);
    let mut meta: Vec<(String, String)> = Vec::new();
    let mut i: usize = 0;
    assert(meta_view(meta@) =~= meta_spec(sv.take(0)));
    while i < sections.len()
        invariant
            i <= sections@.len(),
            sv == sections_view(sections@),
            meta_view(meta@) == meta_spec(sv.take(i as int)),
        decreases sections.len() - i,
    {
        assert(sv.take(i + 1).drop_last() =~= sv.take(i as int));
        assert(sv.take(i + 1).last() == sv[i as int]);
        let key = &sections[i].0;
        if !is_code_section_name(key) {
            if let Some(text) = meta_value_of(&sections[i].1) {
                let ghost before = meta_view(meta@);
                meta.push((key.clone(), text));
                assert(meta_view(meta@) =~= before.push((key@, meta@.last().1@)));
            }
        }
        i += 1;
    }
    assert(sv.take(sections.len() as int) =~= sv);
    meta
}

// ---------------------------------------------------------------------------
// The whole string
// ---------------------------------------------------------------------------

/// A parsed capability string.
#[derive(Debug, PartialEq, Eq)]
pub struct CapabilitiesParsed {
    /// Descriptive sections and their text.
    pub meta: Vec<(String, String)>,
    /// Supported command codes.
    pub cmds: Vec<u8>,
    /// Supported VCP codes.
    pub vcp_codes: Vec<u8>,
    /// The values that VCP codes list, for the codes that list any.
    pub vcp_subs: HashMap<u8, Vec<u8>>,
    /// Every top-level section.
    pub sections: Sections,
}

/// The mathematical value of a parsed capability string.
pub struct CapabilitiesModel {
    pub meta: Seq<(Seq<char>, Seq<char>)>,
    pub cmds: Seq<u8>,
    pub vcp_codes: Seq<u8>,
    pub vcp_subs: Map<u8, Seq<u8>>,
    pub sections: Seq<(Seq<char>, Seq<Option<Seq<NodeModel>>>)>,
}

impl View for CapabilitiesParsed {
    type V = CapabilitiesModel;

    open spec fn view(&self) -> CapabilitiesModel {
        CapabilitiesModel {
            meta: meta_view(self.meta@),
            cmds: self.cmds@,
            vcp_codes: self.vcp_codes@,
            vcp_subs: subs_view(self.vcp_subs@),
            sections: sections_view(self.sections@),
        }
    }
}

/// What a capability string with nothing in it parses to.
pub open spec fn empty_capabilities() -> CapabilitiesModel {
    CapabilitiesModel {
        meta: Seq::empty(),
        cmds: Seq::empty(),
        vcp_codes: Seq::empty(),
        vcp_subs: Map::empty(),
        sections: Seq::empty(),
    }
}

/// Everything decoded from the top-level sections.
pub open spec fn capabilities_from_sections(secs: Seq<(Seq<char>, Seq<Option<Seq<NodeModel>>>)>) -> CapabilitiesModel {
    CapabilitiesModel {
        meta: meta_spec(secs),
        cmds: cmds_spec(secs),
        vcp_codes: vcp_codes_spec(secs),
        vcp_subs: vcp_subs_spec(secs),
        sections: secs,
    }
}

/// The position of the first `c` in `s`, or `-1`.
pub open spec fn first_index_of(s: Seq<char>, c: char) -> int
    decreases s.len(),
{
    if s.len() == 0 {
        -1
    } else if s[0] == c {
        0
    } else {
        let r = first_index_of(s.drop_first(), c);
        if r < 0 {
            -1
        } else {
            r + 1
        }
    }
}

/// The position of the last `c` in `s`, or `-1`.
pub open spec fn last_index_of(s: Seq<char>, c: char) -> int
    decreases s.len(),
{
    if s.len() == 0 {
        -1
    } else if s.last() == c {
        s.len() - 1
    } else {
        last_index_of(s.drop_last(), c)
    }
}

/// `s` cut down to start at its first `(`, then to end at its last `)`,
/// where those exist.
pub open spec fn cut_to_parens(s: Seq<char>) -> Seq<char> {
    let f = first_index_of(s, '(');
    let a = if f >= 0 {
        s.subrange(f, s.len() as int)
    } else {
        s
    };
    let l = last_index_of(a, ')');
    if l >= 0 {
        a.subrange(0, l + 1)
    } else {
        a
    }
}

/// The message for tokens left over after the outermost group.
pub open spec fn trailing_message(idx: nat, len: nat) -> Seq<char> {
    "Trailing tokens remain: idx="@ + decimal(idx) + " len="@ + decimal(len)
}

/// The message for a string whose first token is not `(`.
pub open spec fn no_open_message() -> Seq<char> {
    "Capabilities string does not start with '(' after normalization"@
}

/// What a capability string parses to, or the message of the error that
/// rejects it.
pub open spec fn parse_capabilities_spec(raw: Seq<char>) -> Result<CapabilitiesModel, Seq<char>> {
    let s = trim(raw);
    if s.len() == 0 {
        Ok(empty_capabilities())
    } else {
        let toks = tokenize_spec(cut_to_parens(s));
        if toks.len() == 0 {
            Ok(empty_capabilities())
        } else if toks[0] != seq!['('] {
            Err(no_open_message())
        } else {
            match group_spec(toks, 0) {
                Err(f) => Err(group_failure_message(f)),
                Ok((root, idx)) => if idx != toks.len() {
                    Err(trailing_message(idx as nat, toks.len()))
                } else {
                    Ok(capabilities_from_sections(sections_spec(root)))
                },
            }
        }
    }
}

proof fn lemma_first_index_of(s: Seq<char>, c: char, i: int)
    requires
        0 <= i <= s.len(),
        forall|k: int| 0 <= k < i ==> s[k] != c,
    ensures
        i < s.len() && s[i] == c ==> first_index_of(s, c) == i,
        i == s.len() ==> first_index_of(s, c) == -1,
    decreases i,
{
    if i > 0 && s.len() > 0 {
        assert forall|k: int| 0 <= k < i - 1 implies s.drop_first()[k] != c by {
            assert(s.drop_first()[k] == s[k + 1]);
        }
        lemma_first_index_of(s.drop_first(), c, i - 1);
    }
}

proof fn lemma_last_index_of(s: Seq<char>, c: char, i: int)
    requires
        0 <= i <= s.len(),
        forall|k: int| i <= k < s.len() ==> s[k] != c,
    ensures
        i > 0 && s[i - 1] == c ==> last_index_of(s, c) == i - 1,
        i == 0 ==> last_index_of(s, c) == -1,
    decreases s.len() - i,
{
    if i < s.len() {
        assert forall|k: int| i <= k < s.len() - 1 implies s.drop_last()[k] != c by {
            assert(s.drop_last()[k] == s[k]);
        }
        lemma_last_index_of(s.drop_last(), c, i);
    }
}

fn empty_parsed() -> (r: CapabilitiesParsed)
    ensures
        r@ == empty_capabilities(),
{
    let r = CapabilitiesParsed {
        meta: Vec::new(),
        cmds: Vec::new(),
        vcp_codes: Vec::new(),
        vcp_subs: HashMap::new(),
        sections: Vec::new(),
    };
    assert(meta_view(r.meta@) =~= Seq::<(Seq<char>, Seq<char>)>::empty());
    assert(subs_view(r.vcp_subs@) =~= Map::<u8, Seq<u8>>::empty());
    assert(sections_view(r.sections@) =~= Seq::<(Seq<char>, Seq<Option<Seq<NodeModel>>>)>::empty());
    r
}

/// Cuts the characters down to start at the first `(` and end at the last
/// `)`.
fn cut_chars(s: &Vec<char>) -> (r: Vec<char>)
    ensures
        r@ == cut_to_parens(s@),
{
    let n = s.len();
    let mut f: usize = 0;
    while f < n && s[f] != '('
        invariant
            f <= n,
            n == s@.len(),
            forall|k: int| 0 <= k < f ==> s@[k] != '(',
        decreases n - f,
    {
        f += 1;
    }
    proof {
        lemma_first_index_of(s@, '(', f as int);
    }
    let a = if f < n {
        sub_chars(s, f, n)
    } else {
        sub_chars(s, 0, n)
    };
    assert(s@.subrange(0, n as int) =~= s@);
    let m = a.len();
    let mut l: usize = m;
    while l > 0 && a[l - 1] != ')'
        invariant
            l <= m,
            m == a@.len(),
            forall|k: int| l <= k < m ==> a@[k] != ')',
        decreases l,
    {
        l -= 1;
    }
    proof {
        lemma_last_index_of(a@, ')', l as int);
    }
    if l > 0 {
        sub_chars(&a, 0, l)
    } else {
        assert(a@.subrange(0, m as int) =~= a@);
        sub_chars(&a, 0, m)
    }
}

fn trailing_error(idx: usize, len: usize) -> (e: CapabilitiesParseError)
    ensures
        e.message@ == trailing_message(idx as nat, len as nat),
{
    let mut m = String::from_str("Trailing tokens remain: idx=");
    push_decimal(&mut m, idx as u64);
    m.append(" len=");
    push_decimal(&mut m, len as u64);
    CapabilitiesParseError::new(m)
}

/// Parses a DDC/CI capability string.
///
/// Leading and trailing white space is ignored, and so is anything before
/// the first `(` and after the last `)`.  A string with nothing left parses
/// to an empty result.  Otherwise the tokens must form exactly one group.
pub fn parse_capabilities(raw: &str) -> (r: Result<CapabilitiesParsed, CapabilitiesParseError>)
    ensures
        match (r, parse_capabilities_spec(raw@)) {
            (Ok(p), Ok(m)) => p@ == m,
            (Err(e), Err(msg)) => e.message@ == msg,
            _ => false,
        },
{
    let chars = str_chars(raw);
    let (lo, hi) = trim_bounds(&chars);
    if lo == hi {
        return Ok(empty_parsed());
    }
    let s = sub_chars(&chars, lo, hi);
    let cut = cut_chars(&s);
    let tokens = tokenize(&cut);
    let ghost toks = char_vecs_view(tokens@);
    if tokens.len() == 0 {
        return Ok(empty_parsed());
    }
    assert(toks[0] == tokens@[0]@);
    if !is_token(&tokens[0], '(') {
        return Err(CapabilitiesParseError::new(
            String::from_str("Capabilities string does not start with '(' after normalization"),
        ));
    }
    let (root_items, idx) = match parse_group(&tokens, 0) {
        Ok(v) => v,
        Err(e) => {
            return Err(e);
        },
    };
    if idx != tokens.len() {
        return Err(trailing_error(idx, tokens.len()));
    }
    let sections = to_top_sections(&root_items);
    let cmds = extract_cmds(&sections);
    let (vcp_codes, vcp_subs) = extract_vcp(&sections);
    let meta = extract_meta(&sections);
    Ok(CapabilitiesParsed { meta, cmds, vcp_codes, vcp_subs, sections })
}

// ---------------------------------------------------------------------------
// Laws
// ---------------------------------------------------------------------------

/// `unique` keeps every element once and invents none.
pub proof fn lemma_unique(s: Seq<u8>)
    ensures
        no_duplicates(unique(s)),
        forall|x: u8| unique(s).contains(x) <==> s.contains(x),
    decreases s.len(),
{
    if s.len() > 0 {
        let p = s.drop_last();
        let l = s.last();
        lemma_unique(p);
        let u = unique(p);
        assert(s =~= p.push(l));
        assert forall|x: u8| s.contains(x) <==> (p.contains(x) || x == l) by {
            if s.contains(x) {
                let i = choose|i: int| 0 <= i < s.len() && s[i] == x;
                if i < p.len() {
                    assert(p[i] == x);
                }
            }
            if p.contains(x) {
                let i = choose|i: int| 0 <= i < p.len() && p[i] == x;
                assert(s[i] == x);
            }
            if x == l {
                assert(s[s.len() - 1] == x);
            }
        }
        if !u.contains(l) {
            let w = u.push(l);
            assert forall|x: u8| w.contains(x) <==> (u.contains(x) || x == l) by {
                if w.contains(x) {
                    let i = choose|i: int| 0 <= i < w.len() && w[i] == x;
                    if i < u.len() {
                        assert(u[i] == x);
                    }
                }
                if u.contains(x) {
                    let i = choose|i: int| 0 <= i < u.len() && u[i] == x;
                    assert(w[i] == x);
                }
                if x == l {
                    assert(w[w.len() - 1] == x);
                }
            }
            assert forall|i: int, j: int| 0 <= i < j < w.len() implies w[i] != w[j] by {
                if j == w.len() - 1 {
                    assert(w[i] == u[i]);
                    assert(u.contains(w[i]));
                }
            }
        }
    }
}

/// A sub-code list, if there is one, is non-empty and lists each code once.
pub open spec fn sub_list_ok(o: Option<Seq<u8>>) -> bool {
    match o {
        Some(c) => c.len() > 0 && no_duplicates(c),
        None => true,
    }
}

proof fn lemma_cons_entries_ok(
    head: (u8, Option<Seq<u8>>),
    rest: Seq<(u8, Option<Seq<u8>>)>,
)
    requires
        sub_list_ok(head.1),
        forall|k: int| 0 <= k < rest.len() ==> sub_list_ok((#[trigger] rest[k]).1),
    ensures
        forall|k: int| 0 <= k < (seq![head] + rest).len() ==> sub_list_ok(
            (#[trigger] (seq![head] + rest)[k]).1,
        ),
{
    let es = seq![head] + rest;
    assert forall|k: int| 0 <= k < es.len() implies sub_list_ok((#[trigger] es[k]).1) by {
        if k > 0 {
            assert(es[k] == rest[k - 1]);
        }
    }
}

/// Each sub-code list that `vcp_entries` records is non-empty and lists
/// each code once.
proof fn lemma_vcp_entries_lists(items: Seq<NodeModel>, i: int)
    ensures
        forall|k: int| 0 <= k < vcp_entries(items, i).len() ==>
            sub_list_ok((#[trigger] vcp_entries(items, i)[k]).1),
    decreases items.len() - i,
{
    if 0 <= i < items.len() {
        lemma_vcp_entries_lists(items, i + 1);
        match items[i] {
            NodeModel::Atom(a) => match hex_byte(a) {
                Some(p) => if i + 1 < items.len() {
                    match items[i + 1] {
                        NodeModel::List(child) => {
                            lemma_vcp_entries_lists(items, i + 2);
                            let codes = unique(hex_bytes(flatten_nodes(child)));
                            lemma_unique(hex_bytes(flatten_nodes(child)));
                            lemma_cons_entries_ok(
                                (p, if codes.len() > 0 { Some(codes) } else { None }),
                                vcp_entries(items, i + 2),
                            );
                        },
                        NodeModel::Atom(_) => {
                            lemma_cons_entries_ok((p, None), vcp_entries(items, i + 1));
                        },
                    }
                } else {
                    lemma_cons_entries_ok((p, None), vcp_entries(items, i + 1));
                },
                None => {},
            },
            NodeModel::List(_) => {},
        }
    }
}

proof fn lemma_vcp_value_entries_lists(vals: Seq<Option<Seq<NodeModel>>>)
    ensures
        forall|k: int| 0 <= k < vcp_value_entries(vals).len() ==>
            sub_list_ok((#[trigger] vcp_value_entries(vals)[k]).1),
    decreases vals.len(),
{
    if vals.len() > 0 {
        lemma_vcp_value_entries_lists(vals.drop_last());
        let pre = vcp_value_entries(vals.drop_last());
        let es = vcp_value_entries(vals);
        match vals.last() {
            Some(items) => {
                lemma_vcp_entries_lists(items, 0);
                assert forall|k: int| 0 <= k < es.len() implies sub_list_ok((#[trigger] es[k]).1) by {
                    if k < pre.len() {
                        assert(es[k] == pre[k]);
                    } else {
                        assert(es[k] == vcp_entries(items, 0)[k - pre.len()]);
                    }
                }
            },
            None => {
                assert(es =~= pre);
            },
        }
    }
}

/// Every code that `apply_subs` adds is the code of an entry with a
/// sub-code list, and maps to that list.
proof fn lemma_apply_subs(es: Seq<(u8, Option<Seq<u8>>)>)
    ensures
        forall|x: u8| #[trigger] apply_subs(Map::empty(), es).contains_key(x) ==> exists|k: int|
            0 <= k < es.len() && es[k].0 == x && es[k].1 == Some(apply_subs(Map::empty(), es)[x]),
    decreases es.len(),
{
    if es.len() > 0 {
        let p = es.drop_last();
        lemma_apply_subs(p);
        assert forall|x: u8| #[trigger] apply_subs(Map::empty(), es).contains_key(x) implies exists|k: int|
            0 <= k < es.len() && es[k].0 == x && es[k].1 == Some(apply_subs(Map::empty(), es)[x]) by {
            let m = apply_subs(Map::empty(), es);
            match es.last().1 {
                Some(c) => {
                    if x == es.last().0 {
                        assert(es[es.len() - 1].0 == x);
                    } else {
                        let k = choose|k: int| 0 <= k < p.len() && p[k].0 == x && p[k].1 == Some(
                            apply_subs(Map::empty(), p)[x],
                        );
                        assert(es[k] == p[k]);
                    }
                },
                None => {
                    let k = choose|k: int| 0 <= k < p.len() && p[k].0 == x && p[k].1 == Some(
                        apply_subs(Map::empty(), p)[x],
                    );
                    assert(es[k] == p[k]);
                },
            }
        }
    }
}

/// The command codes and the VCP codes of a parsed capability string each
/// list every code once.
pub proof fn law_codes_listed_once(raw: Seq<char>)
    ensures
        parse_capabilities_spec(raw) matches Ok(c) ==> no_duplicates(c.cmds) && no_duplicates(c.vcp_codes),
{
    if let Ok(c) = parse_capabilities_spec(raw) {
        let secs = c.sections;
        match lookup(secs, "cmds"@) {
            Some(vals) => lemma_unique(hex_bytes(flatten_values(vals))),
            None => match lookup(secs, "cmdlist"@) {
                Some(vals) => lemma_unique(hex_bytes(flatten_values(vals))),
                None => match lookup(secs, "cmd"@) {
                    Some(vals) => lemma_unique(hex_bytes(flatten_values(vals))),
                    None => {},
                },
            },
        }
        match lookup(secs, "vcp"@) {
            Some(vals) => lemma_unique(entry_codes(vcp_value_entries(vals))),
            None => {},
        }
    }
}

/// Every VCP code that lists values is itself one of the VCP codes, and
/// the values it lists are non-empty and each listed once.
pub proof fn law_vcp_values_belong_to_codes(raw: Seq<char>)
    ensures
        parse_capabilities_spec(raw) matches Ok(c) ==> forall|x: u8| #[trigger]
            c.vcp_subs.contains_key(x) ==> c.vcp_codes.contains(x) && c.vcp_subs[x].len() > 0
                && no_duplicates(c.vcp_subs[x]),
{
    if let Ok(c) = parse_capabilities_spec(raw) {
        match lookup(c.sections, "vcp"@) {
            Some(vals) => {
                let es = vcp_value_entries(vals);
                lemma_apply_subs(es);
                lemma_vcp_value_entries_lists(vals);
                lemma_unique(entry_codes(es));
                assert forall|x: u8| #[trigger] c.vcp_subs.contains_key(x) implies c.vcp_codes.contains(x)
                    && c.vcp_subs[x].len() > 0 && no_duplicates(c.vcp_subs[x]) by {
                    let k = choose|k: int| 0 <= k < es.len() && es[k].0 == x && es[k].1 == Some(
                        apply_subs(Map::empty(), es)[x],
                    );
                    assert(entry_codes(es)[k] == x);
                    assert(entry_codes(es).contains(x));
                }
            },
            None => {},
        }
    }
}

/// Each section name is listed once.
pub proof fn law_sections_distinct(raw: Seq<char>)
    ensures
        parse_capabilities_spec(raw) matches Ok(c) ==> keys_unique(c.sections),
{
    if let Ok(c) = parse_capabilities_spec(raw) {
        let s = trim(raw);
        if s.len() > 0 {
            let toks = tokenize_spec(cut_to_parens(s));
            if toks.len() > 0 {
                if let Ok((root, idx)) = group_spec(toks, 0) {
                    lemma_group_pairs_keys(section_pairs(root, 0));
                }
            }
        }
    }
}


/// Cutting to the parentheses keeps exactly `x[lo..hi]` when `lo` holds
/// the first `(` and `hi - 1` the last `)`.
proof fn lemma_cut_to_parens_between(x: Seq<char>, lo: int, hi: int)
    requires
        0 <= lo < hi <= x.len(),
        x[lo] == '(',
        x[hi - 1] == ')',
        forall|k: int| 0 <= k < lo ==> x[k] != '(',
        forall|k: int| hi <= k < x.len() ==> x[k] != ')',
    ensures
        cut_to_parens(x) == x.subrange(lo, hi),
{
    lemma_first_index_of(x, '(', lo);
    let a = x.subrange(lo, x.len() as int);
    assert forall|k: int| hi - lo <= k < a.len() implies a[k] != ')' by {
        assert(a[k] == x[lo + k]);
    }
    assert(a[hi - lo - 1] == x[hi - 1]);
    lemma_last_index_of(a, ')', hi - lo);
    assert(a.subrange(0, hi - lo) =~= x.subrange(lo, hi));
}

/// Text before the first `(` and after the last `)` of a capability
/// string, such as a vendor prefix or a trailing NUL, is ignored: the
/// string parses as its parenthesised part alone.
pub proof fn law_text_outside_parens_ignored(p: Seq<char>, s: Seq<char>, q: Seq<char>)
    requires
        s.len() > 0,
        s[0] == '(',
        s.last() == ')',
        !p.contains('('),
        !q.contains(')'),
    ensures
        parse_capabilities_spec(p + s + q) == parse_capabilities_spec(s),
{
    let x = p + s + q;
    let n = x.len();
    assert(x[p.len() as int] == '(');
    assert(x[p.len() + s.len() - 1] == ')');
    assert(!is_white_space('(')) by {
        assert('(' as u32 == 0x28);
    }
    assert(!is_white_space(')')) by {
        assert(')' as u32 == 0x29);
    }
    // The string alone is its own trimmed, cut form.
    lemma_trimmed_is_fixed(s);
    lemma_cut_to_parens_between(s, 0, s.len() as int);
    assert(s.subrange(0, s.len() as int) =~= s);
    // Trimming the whole string leaves the parenthesised part in place.
    lemma_trim_start_shape(x);
    lemma_trim_start_keeps(x, p.len() as int);
    let ts = trim_start(x);
    let a = n - ts.len();
    assert(a <= p.len());
    assert(ts[p.len() - a + s.len() - 1] == x[p.len() + s.len() - 1]);
    lemma_trim_end_shape(ts);
    lemma_trim_end_keeps(ts, p.len() - a + s.len() - 1);
    let y = trim_end(ts);
    assert(y == trim(x));
    assert(y.len() >= p.len() - a + s.len());
    assert forall|k: int| 0 <= k < y.len() implies y[k] == x[a + k] by {
        assert(y[k] == ts[k]);
    }
    let lo = p.len() - a;
    let hi = lo + s.len();
    assert forall|k: int| 0 <= k < lo implies y[k] != '(' by {
        assert(y[k] == x[a + k]);
        assert(x[a + k] == p[a + k]);
        assert(p.contains(p[a + k]));
    }
    assert forall|k: int| hi <= k < y.len() implies y[k] != ')' by {
        assert(y[k] == x[a + k]);
        assert(x[a + k] == q[a + k - p.len() - s.len()]);
        assert(q.contains(q[a + k - p.len() - s.len()]));
    }
    assert(y[lo] == x[p.len() as int]);
    assert(y[hi - 1] == x[p.len() + s.len() - 1]);
    lemma_cut_to_parens_between(y, lo, hi);
    assert(y.subrange(lo, hi) =~= s) by {
        assert forall|k: int| 0 <= k < s.len() implies y.subrange(lo, hi)[k] == s[k] by {
            assert(y[lo + k] == x[a + lo + k]);
        }
    }
    assert(y.len() > 0);
}


/// A token as the tokenizer makes them: not empty, and free of white space.
pub open spec fn solid_token(t: Seq<char>) -> bool {
    t.len() > 0 && forall|k: int| 0 <= k < t.len() ==> !is_white_space(#[trigger] t[k])
}

/// A section name as sections are keyed: not empty, trimmed and in lower
/// case.
pub open spec fn clean_section_name(k: Seq<char>) -> bool {
    k.len() > 0 && trim(k) == k && ascii_lowercase(k) == k
}

proof fn lemma_atom_end_chars(s: Seq<char>, i: int)
    requires
        0 <= i <= s.len(),
    ensures
        forall|m: int| i <= m < atom_end(s, i) ==> is_atom_char(#[trigger] s[m]),
    decreases s.len() - i,
{
    if i < s.len() && is_atom_char(s[i]) {
        lemma_atom_end_chars(s, i + 1);
    }
}

proof fn lemma_tokens_solid(s: Seq<char>, i: int)
    ensures
        forall|k: int| 0 <= k < tokens_from(s, i).len() ==> solid_token(#[trigger] tokens_from(s, i)[k]),
    decreases s.len() - i,
{
    if !(i < 0 || i >= s.len()) {
        if is_white_space(s[i]) {
            lemma_tokens_solid(s, i + 1);
            assert(tokens_from(s, i) == tokens_from(s, i + 1));
        } else if s[i] == '(' || s[i] == ')' {
            lemma_tokens_solid(s, i + 1);
            let t = tokens_from(s, i);
            assert forall|k: int| 0 <= k < t.len() implies solid_token(#[trigger] t[k]) by {
                if k > 0 {
                    assert(t[k] == tokens_from(s, i + 1)[k - 1]);
                } else {
                    assert(t[0] == seq![s[i]]);
                }
            }
        } else {
            let j = atom_end(s, i);
            lemma_atom_end_bounds(s, i);
            if !(j <= i || j > s.len()) {
                lemma_tokens_solid(s, j);
                lemma_atom_end_chars(s, i);
                let t = tokens_from(s, i);
                assert forall|k: int| 0 <= k < t.len() implies solid_token(#[trigger] t[k]) by {
                    if k > 0 {
                        assert(t[k] == tokens_from(s, j)[k - 1]);
                    } else {
                        assert(t[0] == s.subrange(i, j));
                        assert forall|m: int| 0 <= m < t[0].len() implies !is_white_space(#[trigger] t[0][m]) by {
                            assert(t[0][m] == s[i + m]);
                        }
                    }
                }
            }
        }
    }
}

proof fn lemma_items_atoms_solid(t: Seq<Seq<char>>, i: int)
    requires
        forall|k: int| 0 <= k < t.len() ==> solid_token(#[trigger] t[k]),
    ensures
        items_spec(t, i) matches Ok((items, _)) ==> forall|m: int|
            0 <= m < items.len() ==> (#[trigger] items[m] matches NodeModel::Atom(a) ==> solid_token(a)),
    decreases t.len() - i,
{
    if !(i < 0 || i >= t.len()) && t[i] != seq![')'] {
        if t[i] == seq!['('] {
            if let Ok((sub, next)) = group_spec(t, i) {
                if !(next <= i || next > t.len()) {
                    lemma_items_atoms_solid(t, next);
                    if let Ok((rest, end)) = items_spec(t, next) {
                        let items = seq![NodeModel::List(sub)] + rest;
                        assert forall|m: int| 0 <= m < items.len() implies (#[trigger] items[m] matches NodeModel::Atom(a) ==> solid_token(a)) by {
                            if m > 0 {
                                assert(items[m] == rest[m - 1]);
                            }
                        }
                    }
                }
            }
        } else {
            lemma_items_atoms_solid(t, i + 1);
            if let Ok((rest, end)) = items_spec(t, i + 1) {
                let items = seq![NodeModel::Atom(t[i])] + rest;
                assert forall|m: int| 0 <= m < items.len() implies (#[trigger] items[m] matches NodeModel::Atom(a) ==> solid_token(a)) by {
                    if m > 0 {
                        assert(items[m] == rest[m - 1]);
                    }
                }
            }
        }
    }
}

proof fn lemma_section_key_clean(a: Seq<char>)
    requires
        solid_token(a),
    ensures
        clean_section_name(section_key(a)),
{
    assert(is_trimmed(a));
    lemma_trimmed_is_fixed(a);
    let k = ascii_lowercase(a);
    lemma_ascii_lowercase_shape(a);
    assert(!is_white_space(k[0]));
    assert(!is_white_space(k[k.len() - 1]));
    assert(is_trimmed(k));
    lemma_trimmed_is_fixed(k);
}

proof fn lemma_section_pairs_clean(items: Seq<NodeModel>, i: int)
    requires
        forall|m: int| 0 <= m < items.len() ==> (#[trigger] items[m] matches NodeModel::Atom(a) ==> solid_token(a)),
    ensures
        forall|m: int| 0 <= m < section_pairs(items, i).len() ==> clean_section_name(#[trigger] section_pairs(items, i)[m].0),
    decreases items.len() - i,
{
    if !(i < 0 || i >= items.len()) {
        lemma_section_pairs_clean(items, i + 1);
        if i + 2 <= items.len() {
            lemma_section_pairs_clean(items, i + 2);
        }
        if let NodeModel::Atom(a) = items[i] {
            lemma_section_key_clean(a);
            let ps = section_pairs(items, i);
            let rest = if i + 1 < items.len() && items[i + 1] is List {
                section_pairs(items, i + 2)
            } else {
                section_pairs(items, i + 1)
            };
            assert(ps == seq![ps[0]] + rest);
            assert forall|m: int| 0 <= m < ps.len() implies clean_section_name(#[trigger] ps[m].0) by {
                if m > 0 {
                    assert(ps[m] == rest[m - 1]);
                }
            }
        } else {
            assert(section_pairs(items, i) == section_pairs(items, i + 1));
        }
    }
}

/// Every section name is a clean name: not empty, trimmed and in lower
/// case, however the capability string spelled it.
pub proof fn law_section_names_clean(raw: Seq<char>)
    ensures
        parse_capabilities_spec(raw) matches Ok(c) ==> forall|m: int|
            0 <= m < c.sections.len() ==> clean_section_name(#[trigger] c.sections[m].0),
{
    if let Ok(c) = parse_capabilities_spec(raw) {
        let s = trim(raw);
        if s.len() > 0 {
            let toks = tokenize_spec(cut_to_parens(s));
            if toks.len() > 0 {
                if let Ok((root, idx)) = group_spec(toks, 0) {
                    lemma_tokens_solid(trim(cut_to_parens(s)), 0);
                    lemma_items_atoms_solid(toks, 1);
                    let pairs = section_pairs(root, 0);
                    lemma_section_pairs_clean(root, 0);
                    lemma_group_pairs_keys(pairs);
                    let g = group_pairs(pairs);
                    assert forall|m: int| 0 <= m < g.len() implies clean_section_name(#[trigger] g[m].0) by {
                        lemma_key_index(g, g[m].0);
                        let w = choose|w: int| 0 <= w < pairs.len() && #[trigger] pairs[w].0 == g[m].0;
                        assert(clean_section_name(pairs[w].0));
                    }
                }
            }
        }
    }
}


/// The descriptive text recorded for the name `k`, given the groups
/// `vals` recorded under that name, if any: none for a code section or a
/// section without text, else the section's text.
pub open spec fn meta_for_section(k: Seq<char>, vals: Option<Seq<Option<Seq<NodeModel>>>>) -> Option<Seq<char>> {
    match vals {
        Some(v) => if is_code_section(k) {
            None
        } else {
            meta_value(v)
        },
        None => None,
    }
}

proof fn lemma_meta_spec_lookup(secs: Seq<(Seq<char>, Seq<Option<Seq<NodeModel>>>)>)
    requires
        keys_unique(secs),
    ensures
        forall|k: Seq<char>| #[trigger] lookup(meta_spec(secs), k) == meta_for_section(k, lookup(secs, k)),
    decreases secs.len(),
{
    if secs.len() > 0 {
        let d = secs.drop_last();
        let last = secs.last();
        assert(secs =~= d.push(last));
        lemma_meta_spec_lookup(d);
        let m = meta_spec(d);
        assert forall|i: int| 0 <= i < d.len() implies d[i].0 != last.0 by {
            assert(secs[i].0 != secs[secs.len() - 1].0);
        }
        lemma_key_index_absent(d, last.0);
        assert forall|k: Seq<char>| #[trigger] lookup(meta_spec(secs), k) == meta_for_section(k, lookup(secs, k)) by {
            lemma_key_index_push(d, last, k);
            assert(lookup(m, k) == meta_for_section(k, lookup(d, k)));
            lemma_key_index(m, k);
            lemma_key_index(d, k);
            if k == last.0 {
                assert(key_index(d, k) == -1);
                assert(lookup(secs, k) == Some(last.1));
                assert(lookup(m, k) is None);
                assert(key_index(m, k) == -1);
            } else {
                assert(lookup(secs, k) == lookup(d, k));
            }
            if !is_code_section(last.0) && meta_value(last.1) is Some {
                let v = meta_value(last.1).unwrap();
                assert(meta_spec(secs) == m.push((last.0, v)));
                lemma_key_index_push(m, (last.0, v), k);
            } else {
                assert(meta_spec(secs) == m);
            }
        }
    }
}

/// The descriptive text is read off the sections: a name has text exactly
/// when a section of that name exists, is not one of the code sections
/// (`cmds`, `cmdlist`, `cmd`, `vcp`), and has a group with any atom; the
/// text is then the atoms of its first such group, nested groups flattened
/// in order, joined with single spaces.
pub proof fn law_meta_from_sections(raw: Seq<char>)
    ensures
        parse_capabilities_spec(raw) matches Ok(c) ==> forall|k: Seq<char>|
            #[trigger] lookup(c.meta, k) == meta_for_section(k, lookup(c.sections, k)),
{
    law_sections_distinct(raw);
    if let Ok(c) = parse_capabilities_spec(raw) {
        lemma_meta_spec_lookup(c.sections);
    }
}


/// The non-empty atoms of a recorded group, nested groups flattened in
/// order; none for a name recorded without a group.
pub open spec fn group_atoms(o: Option<Seq<NodeModel>>) -> Seq<Seq<char>> {
    match o {
        Some(ns) => nonempty_atoms(flatten_nodes(ns)),
        None => Seq::empty(),
    }
}

proof fn lemma_meta_value_first(vals: Seq<Option<Seq<NodeModel>>>, j: int)
    requires
        0 <= j <= vals.len(),
        forall|i: int| 0 <= i < j ==> (#[trigger] group_atoms(vals[i])).len() == 0,
        j < vals.len() ==> group_atoms(vals[j]).len() > 0,
    ensures
        j < vals.len() ==> meta_value(vals) == Some(join(group_atoms(vals[j]), seq![' '])),
        j == vals.len() ==> meta_value(vals) is None,
    decreases j,
{
    if vals.len() > 0 {
        if j == 0 {
        } else {
            assert(group_atoms(vals[0]).len() == 0);
            let rest = vals.drop_first();
            assert forall|i: int| 0 <= i < j - 1 implies (#[trigger] group_atoms(rest[i])).len() == 0 by {
                assert(rest[i] == vals[i + 1]);
                assert(group_atoms(vals[i + 1]).len() == 0);
            }
            if j < vals.len() {
                assert(rest[j - 1] == vals[j]);
            }
            lemma_meta_value_first(rest, j - 1);
        }
    }
}

/// The text of a descriptive section comes from the first of its groups
/// that holds any atom: those atoms, nested groups flattened in order,
/// joined with single spaces, whatever later groups hold.  A descriptive
/// section none of whose groups holds an atom has no text.
pub proof fn law_meta_first_group_with_atoms(raw: Seq<char>, k: Seq<char>, j: int)
    ensures
        match parse_capabilities_spec(raw) {
            Ok(c) => match lookup(c.sections, k) {
                Some(vals) => !is_code_section(k) ==> {
                    &&& (0 <= j < vals.len() && group_atoms(vals[j]).len() > 0 && forall|i: int|
                        0 <= i < j ==> (#[trigger] group_atoms(vals[i])).len() == 0) ==> lookup(c.meta, k)
                        == Some(join(group_atoms(vals[j]), seq![' ']))
                    &&& (forall|i: int| 0 <= i < vals.len() ==> (#[trigger] group_atoms(vals[i])).len() == 0)
                        ==> lookup(c.meta, k) is None
                },
                None => true,
            },
            Err(_) => true,
        },
{
    law_meta_from_sections(raw);
    if let Ok(c) = parse_capabilities_spec(raw) {
        assert(lookup(c.meta, k) == meta_for_section(k, lookup(c.sections, k)));
        if let Some(vals) = lookup(c.sections, k) {
            if !is_code_section(k) {
                if 0 <= j < vals.len() && group_atoms(vals[j]).len() > 0 && forall|i: int|
                    0 <= i < j ==> (#[trigger] group_atoms(vals[i])).len() == 0 {
                    lemma_meta_value_first(vals, j);
                }
                if forall|i: int| 0 <= i < vals.len() ==> (#[trigger] group_atoms(vals[i])).len() == 0 {
                    lemma_meta_value_first(vals, vals.len() as int);
                }
            }
        }
    }
}

} // verus!
