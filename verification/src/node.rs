use vstd::prelude::*;

use crate::paths::{spec_segments, split_segments, str_eq, valid_path};

verus! {

/// Access mode of a node in the discovery namespace, as published by the
/// OSCQuery protocol (its wire value is given by [`OscAccess::to_byte`]).
#[derive(Clone, Copy, Debug, PartialEq, Eq, Structural)]
pub enum OscAccess {
    NoAccess,
    Read,
    Write,
    ReadWrite,
}

impl OscAccess {
    /// The numeric value used for this access mode on the wire.
    pub fn to_byte(&self) -> (r: u8)
        ensures
            r == self.spec_byte(),
    {
        match self {
            OscAccess::NoAccess => 0,
            OscAccess::Read => 1,
            OscAccess::Write => 2,
            OscAccess::ReadWrite => 3,
        }
    }

    pub open spec fn spec_byte(self) -> u8 {
        match self {
            OscAccess::NoAccess => 0,
            OscAccess::Read => 1,
            OscAccess::Write => 2,
            OscAccess::ReadWrite => 3,
        }
    }
}

/// One node of the discovery address tree.  Children are keyed by their
/// path segment; the key order in `contents` is insertion order and carries
/// no meaning.
pub struct OscQueryNode {
    pub full_path: String,
    pub osc_type: Option<String>,
    pub access: OscAccess,
    pub description: String,
    pub contents: Vec<(String, OscQueryNode)>,
}

/// The mathematical shape of a tree node: every string replaced by its
/// character sequence.
#[verifier::ext_equal]
pub struct NodeModel {
    pub full_path: Seq<char>,
    pub osc_type: Option<Seq<char>>,
    pub access: OscAccess,
    pub description: Seq<char>,
    pub contents: Seq<(Seq<char>, NodeModel)>,
}

/// The metadata placed at the final segment of an insertion.
#[verifier::ext_equal]
pub struct NodeMeta {
    pub full_path: Seq<char>,
    pub osc_type: Option<Seq<char>>,
    pub access: OscAccess,
    pub description: Seq<char>,
}

pub open spec fn node_model(n: OscQueryNode) -> NodeModel
    decreases n,
{
    NodeModel {
        full_path: n.full_path@,
        osc_type: match n.osc_type {
            Some(t) => Some(t@),
            None => None,
        },
        access: n.access,
        description: n.description@,
        contents: children_model(n.contents@),
    }
}

pub open spec fn children_model(cs: Seq<(String, OscQueryNode)>) -> Seq<(Seq<char>, NodeModel)>
    decreases cs,
{
    if cs.len() == 0 {
        Seq::empty()
    } else {
        seq![(cs[0].0@, node_model(cs[0].1))] + children_model(cs.subrange(1, cs.len() as int))
    }
}

impl View for OscQueryNode {
    type V = NodeModel;

    open spec fn view(&self) -> NodeModel {
        node_model(*self)
    }
}

impl NodeModel {
    /// The metadata fields of this node, without its children.
    pub open spec fn meta(self) -> NodeMeta {
        NodeMeta {
            full_path: self.full_path,
            osc_type: self.osc_type,
            access: self.access,
            description: self.description,
        }
    }
}

/// Index of the first child keyed by `key`, or `-1` if there is none.
pub open spec fn model_child_index(cs: Seq<(Seq<char>, NodeModel)>, key: Seq<char>) -> int
    decreases cs.len(),
{
    if cs.len() == 0 {
        -1
    } else if cs[0].0 == key {
        0
    } else {
        let r = model_child_index(cs.subrange(1, cs.len() as int), key);
        if r < 0 {
            -1
        } else {
            r + 1
        }
    }
}

pub proof fn lemma_model_child_index(cs: Seq<(Seq<char>, NodeModel)>, key: Seq<char>)
    ensures
        -1 <= model_child_index(cs, key) < cs.len(),
        model_child_index(cs, key) >= 0 ==> cs[model_child_index(cs, key)].0 == key,
        model_child_index(cs, key) < 0 ==> forall|i: int| 0 <= i < cs.len() ==> cs[i].0 != key,
        forall|i: int| 0 <= i < model_child_index(cs, key) ==> cs[i].0 != key,
    decreases cs.len(),
{
    if cs.len() > 0 && cs[0].0 != key {
        let sub = cs.subrange(1, cs.len() as int);
        lemma_model_child_index(sub, key);
        assert forall|i: int| 1 <= i < cs.len() implies cs[i] == sub[i - 1] by {}
    }
}

/// The full path of a child one segment below `parent`.
pub open spec fn child_path(parent: Seq<char>, seg: Seq<char>) -> Seq<char> {
    if parent == seq!['/'] {
        parent + seg
    } else {
        parent + seq!['/'] + seg
    }
}

/// An empty placeholder node, as created for intermediate segments whose
/// metadata has not been supplied yet.
pub open spec fn placeholder_model(full_path: Seq<char>) -> NodeModel {
    NodeModel {
        full_path: full_path,
        osc_type: None,
        access: OscAccess::NoAccess,
        description: Seq::empty(),
        contents: Seq::empty(),
    }
}

/// Walking `segs` down from `n`: the addressed node, if every segment exists.
pub open spec fn model_get(n: NodeModel, segs: Seq<Seq<char>>) -> Option<NodeModel>
    decreases segs.len(),
{
    if segs.len() == 0 {
        Some(n)
    } else {
        let j = model_child_index(n.contents, segs[0]);
        if j < 0 {
            None
        } else {
            model_get(n.contents[j].1, segs.subrange(1, segs.len() as int))
        }
    }
}

/// Inserting `meta` at the node addressed by `segs` below `n`: placeholder
/// nodes are created for missing intermediate segments, and at the final
/// segment the metadata is merged into the existing node (children are
/// kept), or a fresh leaf is created.
pub open spec fn model_add(n: NodeModel, segs: Seq<Seq<char>>, meta: NodeMeta) -> NodeModel
    decreases segs.len(),
{
    if segs.len() == 0 {
        NodeModel {
            full_path: meta.full_path,
            osc_type: meta.osc_type,
            access: meta.access,
            description: meta.description,
            contents: n.contents,
        }
    } else {
        let j = model_child_index(n.contents, segs[0]);
        let rest = segs.subrange(1, segs.len() as int);
        if j < 0 {
            let ph = placeholder_model(child_path(n.full_path, segs[0]));
            NodeModel {
                contents: n.contents + seq![(segs[0], model_add(ph, rest, meta))],
                ..n
            }
        } else {
            NodeModel {
                contents: n.contents.update(j, (segs[0], model_add(n.contents[j].1, rest, meta))),
                ..n
            }
        }
    }
}

pub proof fn lemma_children_model(cs: Seq<(String, OscQueryNode)>)
    ensures
        children_model(cs).len() == cs.len(),
        forall|i: int|
            0 <= i < cs.len() ==> #[trigger] children_model(cs)[i] == (
                cs[i].0@,
                node_model(cs[i].1),
            ),
    decreases cs.len(),
{
    if cs.len() > 0 {
        let sub = cs.subrange(1, cs.len() as int);
        lemma_children_model(sub);
        assert forall|i: int| 1 <= i < cs.len() implies cs[i] == sub[i - 1] by {}
    }
}

/// The first match is the one `model_child_index` names.
pub proof fn lemma_child_index_of_first(cs: Seq<(Seq<char>, NodeModel)>, key: Seq<char>, j: int)
    requires
        0 <= j < cs.len(),
        cs[j].0 == key,
        forall|i: int| 0 <= i < j ==> cs[i].0 != key,
    ensures
        model_child_index(cs, key) == j,
    decreases cs.len(),
{
    if j > 0 {
        let sub = cs.subrange(1, cs.len() as int);
        assert forall|i: int| 1 <= i < cs.len() implies cs[i] == sub[i - 1] by {}
        lemma_child_index_of_first(sub, key, j - 1);
    }
}

/// The view of the metadata of an insertion, taken from a leaf node value.
pub open spec fn segs_suffix(segs: Seq<String>, i: int) -> Seq<Seq<char>> {
    segs.map_values(|s: String| s@).subrange(i, segs.len() as int)
}

/// The model of a fresh root node.
pub open spec fn root_model() -> NodeModel {
    NodeModel {
        full_path: seq!['/'],
        osc_type: None,
        access: OscAccess::NoAccess,
        description: "Root Node"@,
        contents: Seq::empty(),
    }
}

impl OscQueryNode {
    /// The root node of a fresh namespace, with path `/`.
    pub fn root() -> (r: Self)
        ensures
            r@ == root_model(),
    {
        proof {
            reveal_strlit("/");
        }
        let r = Self {
            full_path: String::from_str("/"),
            osc_type: None,
            access: OscAccess::NoAccess,
            description: String::from_str("Root Node"),
            contents: Vec::new(),
        };
        proof {
            assert(r@.full_path =~= seq!['/']);
            lemma_children_model(r.contents@);
            assert(r@ =~~= root_model());
        }
        r
    }

    /// A fresh leaf carrying the given metadata.
    pub fn new(full_path: String, osc_type: String, access: OscAccess, description: String) -> (r:
        Self)
        ensures
            r@ == (NodeModel {
                full_path: full_path@,
                osc_type: Some(osc_type@),
                access: access,
                description: description@,
                contents: Seq::empty(),
            }),
    {
        let r = Self {
            full_path: full_path,
            osc_type: Some(osc_type),
            access: access,
            description: description,
            contents: Vec::new(),
        };
        proof {
            lemma_children_model(r.contents@);
            assert(r@.contents =~= Seq::<(Seq<char>, NodeModel)>::empty());
        }
        r
    }

    /// Index of the child keyed by `key`, if any.
    fn find_child(&self, key: &str) -> (r: Option<usize>)
        ensures
            match r {
                Some(j) => j < self.contents@.len() && model_child_index(self@.contents, key@)
                    == j as int,
                None => model_child_index(self@.contents, key@) == -1,
            },
    {
        proof {
            lemma_children_model(self.contents@);
        }
        let n = self.contents.len();
        let mut j: usize = 0;
        while j < n
            invariant
                0 <= j <= n,
                n == self.contents@.len(),
                forall|i: int| 0 <= i < j ==> children_model(self.contents@)[i].0 != key@,
            decreases n - j,
        {
            proof {
                lemma_children_model(self.contents@);
            }
            if str_eq(self.contents[j].0.as_str(), key) {
                proof {
                    lemma_child_index_of_first(self@.contents, key@, j as int);
                }
                return Some(j);
            }
            j = j + 1;
        }
        proof {
            lemma_model_child_index(self@.contents, key@);
        }
        None
    }

    /// The full path of a child of `parent_path` one segment further down.
    fn make_child_path(parent_path: &String, seg: &String) -> (r: String)
        ensures
            r@ == child_path(parent_path@, seg@),
    {
        proof {
            reveal_strlit("/");
            assert("/"@ =~= seq!['/']);
        }
        if str_eq(parent_path.as_str(), "/") {
            parent_path.clone().concat(seg.as_str())
        } else {
            parent_path.clone().concat("/").concat(seg.as_str())
        }
    }

    /// Places the metadata of `node` at the end of the remaining segments
    /// `segs[i..]`, creating placeholder children on the way.
    fn add_rec(&mut self, node: OscQueryNode, segs: &Vec<String>, i: usize)
        requires
            i <= segs@.len(),
        ensures
            final(self)@ == model_add(old(self)@, segs_suffix(segs@, i as int), node@.meta()),
        decreases segs@.len() - i,
    {
        let ghost meta = node@.meta();
        proof {
            lemma_children_model(self.contents@);
        }
        if i == segs.len() {
            proof {
                assert(segs_suffix(segs@, i as int) =~= Seq::<Seq<char>>::empty());
            }
            self.full_path = node.full_path;
            self.osc_type = node.osc_type;
            self.access = node.access;
            self.description = node.description;
            proof {
                assert(self@ =~~= model_add(old(self)@, segs_suffix(segs@, i as int), meta));
            }
        } else {
            let ghost sfx = segs_suffix(segs@, i as int);
            let ghost rest = segs_suffix(segs@, i + 1);
            proof {
                assert(sfx[0] == segs@[i as int]@);
                assert(sfx.subrange(1, sfx.len() as int) =~= rest);
            }
            match self.find_child(segs[i].as_str()) {
                None => {
                    let mut ph = OscQueryNode {
                        full_path: Self::make_child_path(&self.full_path, &segs[i]),
                        osc_type: None,
                        access: OscAccess::NoAccess,
                        description: String::new(),
                        contents: Vec::new(),
                    };
                    proof {
                        lemma_children_model(ph.contents@);
                        assert(ph@ =~~= placeholder_model(child_path(self@.full_path, sfx[0])));
                    }
                    ph.add_rec(node, segs, i + 1);
                    let ghost old_contents = self.contents@;
                    self.contents.push((segs[i].clone(), ph));
                    proof {
                        lemma_children_model(self.contents@);
                        lemma_children_model(old_contents);
                        assert(children_model(self.contents@) =~= children_model(old_contents)
                            + seq![(segs@[i as int]@, ph@)]);
                        assert(self@ =~~= model_add(old(self)@, sfx, meta));
                    }
                },
                Some(j) => {
                    let (key, mut child) = self.contents.remove(j);
                    let ghost removed = self.contents@;
                    let ghost old_child = child;
                    child.add_rec(node, segs, i + 1);
                    self.contents.insert(j, (key, child));
                    proof {
                        let oc = old(self).contents@;
                        lemma_model_child_index(old(self)@.contents, sfx[0]);
                        assert(self.contents@ =~= oc.update(
                            j as int,
                            (oc[j as int].0, child),
                        ));
                        lemma_children_model(self.contents@);
                        lemma_children_model(oc);
                        assert(children_model(self.contents@) =~= children_model(oc).update(
                            j as int,
                            (oc[j as int].0@, child@),
                        ));
                        assert(old(self)@.contents[j as int].1 == old_child@);
                        assert(self@ =~~= model_add(old(self)@, sfx, meta));
                    }
                },
            }
        }
    }

    /// Inserts the metadata of `node` at its full path, creating any missing
    /// intermediate nodes as empty placeholders and merging the metadata
    /// into an existing node without touching that node's children.
    pub fn add_node(&mut self, node: OscQueryNode)
        requires
            valid_path(node.full_path@),
        ensures
            final(self)@ == model_add(
                old(self)@,
                spec_segments(node.full_path@),
                node@.meta(),
            ),
    {
        let segs = split_segments(node.full_path.as_str());
        proof {
            assert(segs_suffix(segs@, 0) =~= spec_segments(node.full_path@));
        }
        self.add_rec(node, &segs, 0);
    }

    /// Walks the remaining segments `segs[i..]` down from this node.
    fn get_rec<'a>(&'a self, segs: &Vec<String>, i: usize) -> (r: Option<&'a OscQueryNode>)
        requires
            i <= segs@.len(),
        ensures
            match r {
                Some(node) => model_get(self@, segs_suffix(segs@, i as int)) == Some(node@),
                None => model_get(self@, segs_suffix(segs@, i as int)) is None,
            },
        decreases segs@.len() - i,
    {
        if i == segs.len() {
            proof {
                assert(segs_suffix(segs@, i as int) =~= Seq::<Seq<char>>::empty());
            }
            Some(self)
        } else {
            let ghost sfx = segs_suffix(segs@, i as int);
            proof {
                assert(sfx[0] == segs@[i as int]@);
                assert(sfx.subrange(1, sfx.len() as int) =~= segs_suffix(segs@, i + 1));
                lemma_children_model(self.contents@);
            }
            match self.find_child(segs[i].as_str()) {
                None => None,
                Some(j) => {
                    let child = &self.contents[j].1;
                    child.get_rec(segs, i + 1)
                },
            }
        }
    }

    /// Law: looking up the path that was just inserted finds a node carrying
    /// exactly the inserted metadata, whatever the tree held before.  In
    /// particular, inserting a path `p` into an empty tree and looking `p` up
    /// returns a node whose full path is `p`.
    pub proof fn lemma_insert_then_lookup(t: NodeModel, segs: Seq<Seq<char>>, meta: NodeMeta)
        ensures
            model_get(model_add(t, segs, meta), segs) is Some,
            model_get(model_add(t, segs, meta), segs)->Some_0.meta() == meta,
        decreases segs.len(),
    {
        let newt = model_add(t, segs, meta);
        if segs.len() == 0 {
            assert(newt.meta() =~~= meta);
        } else {
            let j = model_child_index(t.contents, segs[0]);
            let rest = segs.subrange(1, segs.len() as int);
            lemma_model_child_index(t.contents, segs[0]);
            if j < 0 {
                let ph = placeholder_model(child_path(t.full_path, segs[0]));
                lemma_child_index_of_first(newt.contents, segs[0], t.contents.len() as int);
                Self::lemma_insert_then_lookup(ph, rest, meta);
            } else {
                lemma_child_index_of_first(newt.contents, segs[0], j);
                Self::lemma_insert_then_lookup(t.contents[j].1, rest, meta);
            }
        }
    }

    /// Law: inserting metadata at a proper prefix of a path does not change
    /// what a lookup of the longer path returns.  Inserting `/a` after
    /// `/a/b` merges metadata into the existing `/a` node and leaves the
    /// `/a/b` subtree in place.
    pub proof fn lemma_prefix_insert_preserves_lookup(
        t: NodeModel,
        s1: Seq<Seq<char>>,
        s2: Seq<Seq<char>>,
        meta: NodeMeta,
    )
        requires
            s1.len() < s2.len(),
            s1 == s2.subrange(0, s1.len() as int),
        ensures
            model_get(model_add(t, s1, meta), s2) == model_get(t, s2),
        decreases s1.len(),
    {
        let newt = model_add(t, s1, meta);
        assert forall|i: int| 0 <= i < s1.len() implies s1[i] == s2[i] by {
            assert(s1[i] == s2.subrange(0, s1.len() as int)[i]);
        }
        if s1.len() == 0 {
            assert(newt.contents == t.contents);
        } else {
            let j = model_child_index(t.contents, s1[0]);
            let rest1 = s1.subrange(1, s1.len() as int);
            let rest2 = s2.subrange(1, s2.len() as int);
            assert(rest1 =~= rest2.subrange(0, rest1.len() as int));
            lemma_model_child_index(t.contents, s1[0]);
            if j < 0 {
                let ph = placeholder_model(child_path(t.full_path, s1[0]));
                lemma_child_index_of_first(newt.contents, s1[0], t.contents.len() as int);
                Self::lemma_prefix_insert_preserves_lookup(ph, rest1, rest2, meta);
                assert(model_get(ph, rest2) is None);
            } else {
                lemma_child_index_of_first(newt.contents, s1[0], j);
                Self::lemma_prefix_insert_preserves_lookup(t.contents[j].1, rest1, rest2, meta);
            }
        }
    }

    /// Looks the path up, segment by segment; empty segments are skipped, so
    /// an empty or all-separator path names this node itself.
    pub fn get(&self, path: String) -> (r: Option<&OscQueryNode>)
        ensures
            match r {
                Some(node) => model_get(self@, spec_segments(path@)) == Some(node@),
                None => model_get(self@, spec_segments(path@)) is None,
            },
    {
        let segs = split_segments(path.as_str());
        proof {
            assert(segs_suffix(segs@, 0) =~= spec_segments(path@));
        }
        self.get_rec(&segs, 0)
    }
}

} // verus!
