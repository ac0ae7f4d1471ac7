//! The nodes of a document as roxmltree builds them.

use vstd::prelude::*;
use crate::text::{str_eq, views};

verus! {

/// One node of a document tree.
#[derive(Debug)]
pub struct TreeNode {
    /// The number of the node in its document.
    pub id: usize,
    /// The number of the node that this one is a child of.
    pub parent: Option<usize>,
    /// Whether the node is an element.
    pub element: bool,
    /// The local name of an element; empty for any other node.
    pub name: String,
}

pub struct TreeNodeModel {
    pub id: usize,
    pub parent: Option<usize>,
    pub element: bool,
    pub name: Seq<char>,
}

impl View for TreeNode {
    type V = TreeNodeModel;

    open spec fn view(&self) -> TreeNodeModel {
        TreeNodeModel { id: self.id, parent: self.parent, element: self.element, name: self.name@ }
    }
}

/// The views of a list of nodes.
pub open spec fn node_views(nodes: Seq<TreeNode>) -> Seq<TreeNodeModel> {
    nodes.map_values(|n: TreeNode| n@)
}

/// The nodes of the tree of a document, the root node first and every node
/// before its children and its later siblings; `None` where roxmltree
/// does not take the text as a document.
pub uninterp spec fn xml_nodes(text: Seq<char>) -> Option<Seq<TreeNodeModel>>;

/// `roxmltree::Document::parse` and `Document::descendants`: the nodes of
/// the tree in document order, each with its `id`, the `id` of its
/// `parent`, whether it `is_element`, and the `name` of its `tag_name`.
#[verifier::external_body]
fn parse_nodes(text: &str) -> (nodes: Option<Vec<TreeNode>>)
    ensures
        match xml_nodes(text@) {
            Some(list) => nodes matches Some(v) && node_views(v@) == list,
            None => nodes is None,
        },
{
    let doc = roxmltree::Document::parse(text).ok()?;
    Some(doc.descendants().map(|n| TreeNode {
        id: n.id().get_usize(),
        parent: n.parent().map(|p| p.id().get_usize()),
        element: n.is_element(),
        name: n.tag_name().name().to_owned(),
    }).collect())
}

/// Whether a node is an element child of the node numbered `parent`.
pub open spec fn is_element_of(node: TreeNodeModel, parent: usize) -> bool {
    node.element && node.parent == Some(parent)
}

/// The place of the first of the first `n` nodes that is an element child
/// of `parent` and, where a name is asked for, has that name.
pub open spec fn first_child(
    nodes: Seq<TreeNodeModel>,
    parent: usize,
    name: Option<Seq<char>>,
    n: nat,
) -> Option<int>
    decreases n,
{
    if n == 0 {
        None
    } else {
        match first_child(nodes, parent, name, (n - 1) as nat) {
            Some(i) => Some(i),
            None => if is_element_of(nodes[n - 1], parent) && (name is None || name == Some(
                nodes[n - 1].name,
            )) {
                Some(n - 1)
            } else {
                None
            },
        }
    }
}

/// The place of the root element: the first element child of the root
/// node, which is the first node.
pub open spec fn root_element(nodes: Seq<TreeNodeModel>) -> Option<int> {
    if nodes.len() == 0 {
        None
    } else {
        first_child(nodes, nodes[0].id, None, nodes.len())
    }
}

/// The names of the element children among the first `n` nodes of the
/// node numbered `parent`, in document order, each name once.
pub open spec fn child_names(nodes: Seq<TreeNodeModel>, parent: usize, n: nat) -> Seq<Seq<char>>
    decreases n,
{
    if n == 0 {
        seq![]
    } else {
        let before = child_names(nodes, parent, (n - 1) as nat);
        if is_element_of(nodes[n - 1], parent) && !before.contains(nodes[n - 1].name) {
            before.push(nodes[n - 1].name)
        } else {
            before
        }
    }
}

/// No name of a child is listed twice.
pub proof fn lemma_child_names_are_distinct(nodes: Seq<TreeNodeModel>, parent: usize, n: nat)
    ensures
        child_names(nodes, parent, n).no_duplicates(),
    decreases n,
{
    if n > 0 {
        lemma_child_names_are_distinct(nodes, parent, (n - 1) as nat);
    }
}

/// A first match stays the first as more nodes are looked at.
pub proof fn lemma_first_child_stays(
    nodes: Seq<TreeNodeModel>,
    parent: usize,
    name: Option<Seq<char>>,
    n: nat,
    m: nat,
)
    requires
        n <= m,
        first_child(nodes, parent, name, n) is Some,
    ensures
        first_child(nodes, parent, name, m) == first_child(nodes, parent, name, n),
    decreases m,
{
    if n < m {
        lemma_first_child_stays(nodes, parent, name, n, (m - 1) as nat);
    }
}

/// The tree of a document.
#[derive(Debug)]
pub struct Tree {
    pub nodes: Vec<TreeNode>,
}

impl View for Tree {
    type V = Seq<TreeNodeModel>;

    open spec fn view(&self) -> Seq<TreeNodeModel> {
        node_views(self.nodes@)
    }
}

impl Tree {
    /// Builds the tree of a document.
    pub fn parse(text: &str) -> (tree: Option<Tree>)
        ensures
            match xml_nodes(text@) {
                Some(list) => tree matches Some(t) && t@ == list,
                None => tree is None,
            },
    {
        match parse_nodes(text) {
            Some(nodes) => Some(Tree { nodes }),
            None => None,
        }
    }

    /// The place of the first element child of the node numbered `parent`
    /// that, where a name is asked for, has that name.
    pub fn first_child(&self, parent: usize, name: Option<&str>) -> (place: Option<usize>)
        ensures
            match first_child(
                self@,
                parent,
                match name {
                    Some(n) => Some(n@),
                    None => None,
                },
                self@.len(),
            ) {
                Some(i) => place == Some(i as usize) && 0 <= i < self.nodes.len(),
                None => place is None,
            },
    {
        let ghost wanted = match name {
            Some(n) => Some(n@),
            None => None,
        };
        let mut i: usize = 0;
        while i < self.nodes.len()
            invariant
                i <= self.nodes.len(),
                wanted == match name {
                    Some(n) => Some(n@),
                    None => None,
                },
                first_child(self@, parent, wanted, i as nat) is None,
            decreases self.nodes.len() - i,
        {
            let node = &self.nodes[i];
            assert(self@[i as int] == node@);
            let child = node.element && match node.parent {
                Some(p) => p == parent,
                None => false,
            };
            let named = match name {
                Some(n) => str_eq(node.name.as_str(), n),
                None => true,
            };
            if child && named {
                proof {
                    lemma_first_child_stays(self@, parent, wanted, (i + 1) as nat, self@.len());
                }
                return Some(i);
            }
            i = i + 1;
        }
        None
    }

    /// The place of the root element.
    pub fn root_element(&self) -> (place: Option<usize>)
        ensures
            match root_element(self@) {
                Some(i) => place == Some(i as usize) && 0 <= i < self.nodes.len(),
                None => place is None,
            },
    {
        if self.nodes.len() == 0 {
            return None;
        }
        assert(self@[0] == self.nodes[0]@);
        self.first_child(self.nodes[0].id, None)
    }

    /// The names of the element children of the node numbered `parent`, in
    /// document order, each name once.
    pub fn child_names(&self, parent: usize) -> (names: Vec<String>)
        ensures
            views(names@) == child_names(self@, parent, self@.len()),
    {
        let mut names: Vec<String> = Vec::new();
        let mut i: usize = 0;
        assert(views(names@) =~= seq![]);
        while i < self.nodes.len()
            invariant
                i <= self.nodes.len(),
                views(names@) == child_names(self@, parent, i as nat),
            decreases self.nodes.len() - i,
        {
            let node = &self.nodes[i];
            assert(self@[i as int] == node@);
            let ghost before = views(names@);
            let child = node.element && match node.parent {
                Some(p) => p == parent,
                None => false,
            };
            if child && !holds(&names, node.name.as_str()) {
                names.push(node.name.clone());
                assert(views(names@) =~= before.push(node.name@));
            }
            i = i + 1;
        }
        names
    }
}

/// Whether a list holds a text.
fn holds(list: &Vec<String>, text: &str) -> (held: bool)
    ensures
        held == views(list@).contains(text@),
{
    let ghost all = views(list@);
    let mut i: usize = 0;
    while i < list.len()
        invariant
            i <= list.len(),
            all == views(list@),
            forall|j: int| 0 <= j < i ==> all[j] != text@,
        decreases list.len() - i,
    {
        assert(all[i as int] == list[i as int]@);
        if str_eq(list[i].as_str(), text) {
            return true;
        }
        i = i + 1;
    }
    false
}

} // verus!
