//! The filter tree as the client sends it.

use vstd::prelude::*;
use vstd::string::*;

use crate::json::{Json, JsonModel};
use crate::schema;
use crate::schema::{copy_name, FieldType};

verus! {

#[derive(Debug, Clone, Copy, PartialEq, Eq, Structural)]
pub enum Conjunction {
    And,
    Or,
    Not,
}

/// One element of the incoming filter: a group with a conjunction and children,
/// or a leaf carrying field, operator and value.
#[derive(Debug)]
pub enum Node {
    Group { conjunction: Conjunction, children: Vec<Node> },
    Leaf {
        field_type: FieldType,
        field: String,
        relation: Option<String>,
        operator: String,
        value: Json,
    },
}

/// What a [`Node`] is, with strings and lists as sequences.
pub enum NodeModel {
    Group { conjunction: Conjunction, children: Seq<NodeModel> },
    Leaf(LeafModel),
}

/// What a leaf of the filter is.
pub struct LeafModel {
    pub field_type: FieldType,
    pub field: Seq<char>,
    pub relation: Option<Seq<char>>,
    pub operator: Seq<char>,
    pub value: JsonModel,
}

impl Node {
    pub open spec fn model(self) -> NodeModel
        decreases self,
    {
        match self {
            Node::Group { conjunction, children } => NodeModel::Group {
                conjunction,
                children: Seq::new(
                    children@.len(),
                    |i: int|
                        if 0 <= i < children@.len() {
                            children@[i].model()
                        } else {
                            arbitrary()
                        },
                ),
            },
            Node::Leaf { field_type, field, relation, operator, value } => NodeModel::Leaf(
                LeafModel {
                    field_type,
                    field: field@,
                    relation: schema::optional_text(relation),
                    operator: operator@,
                    value: value@,
                },
            ),
        }
    }
}

impl View for Node {
    type V = NodeModel;

    open spec fn view(&self) -> NodeModel {
        self.model()
    }
}

/// What each node of a list is.
pub open spec fn models(nodes: Seq<Node>) -> Seq<NodeModel> {
    nodes.map_values(|node: Node| node@)
}

impl Clone for Node {
    fn clone(&self) -> (res: Self)
        ensures
            res@ == self@,
        decreases self, 1int,
    {
        match self {
            Node::Group { conjunction, children } => {
                assert(decreases_to!(*self => self->children));
                let copies = copy_all(children);
                let res = Node::Group { conjunction: *conjunction, children: copies };
                assert(res@->children =~= models(copies@));
                assert(self@->children =~= models(children@));
                res
            },
            Node::Leaf { field_type, field, relation, operator, value } => Node::Leaf {
                field_type: *field_type,
                field: field.clone(),
                relation: copy_name(relation),
                operator: operator.clone(),
                value: value.clone(),
            },
        }
    }
}

/// A copy of each node.
fn copy_all(nodes: &Vec<Node>) -> (res: Vec<Node>)
    ensures
        models(res@) == models(nodes@),
    decreases nodes, 0int,
{
    let mut copies: Vec<Node> = Vec::new();
    for i in 0..nodes.len()
        invariant
            models(copies@) == models(nodes@).take(i as int),
    {
        assert(decreases_to!(*nodes => nodes[i as int]));
        let copy = nodes[i].clone();
        assert(models(copies@.push(copy)) =~= models(copies@).push(copy@));
        assert(models(nodes@).take(i + 1) =~= models(nodes@).take(i as int).push(copy@));
        copies.push(copy);
    }
    assert(models(nodes@).take(nodes@.len() as int) =~= models(nodes@));
    copies
}

/// The three shapes the DSL allows: a single filter, an array of filters
/// (implicit `$and`) and a group.
#[derive(Debug)]
pub enum Root {
    List(Vec<Node>),
    One(Node),
}

/// What a [`Root`] is.
pub enum RootModel {
    List(Seq<NodeModel>),
    One(NodeModel),
}

impl RootModel {
    /// The filter a root stands for: a list is an implicit `$and`.
    pub open spec fn node(self) -> NodeModel {
        match self {
            RootModel::List(children) => NodeModel::Group {
                conjunction: Conjunction::And,
                children,
            },
            RootModel::One(node) => node,
        }
    }
}

impl View for Root {
    type V = RootModel;

    open spec fn view(&self) -> RootModel {
        match *self {
            Root::List(children) => RootModel::List(models(children@)),
            Root::One(node) => RootModel::One(node@),
        }
    }
}

impl Clone for Root {
    fn clone(&self) -> (res: Self)
        ensures
            res@ == self@,
    {
        match self {
            Root::List(children) => Root::List(copy_all(children)),
            Root::One(node) => Root::One(node.clone()),
        }
    }
}

impl From<Root> for Node {
    fn from(root: Root) -> (res: Node) {
        match root {
            Root::List(children) => Node::Group { conjunction: Conjunction::And, children },
            Root::One(node) => node,
        }
    }
}

impl vstd::std_specs::convert::FromSpecImpl<Root> for Node {
    open spec fn obeys_from_spec() -> bool {
        true
    }

    open spec fn from_spec(root: Root) -> Node {
        match root {
            Root::List(children) => Node::Group { conjunction: Conjunction::And, children },
            Root::One(node) => node,
        }
    }
}

} // verus!
