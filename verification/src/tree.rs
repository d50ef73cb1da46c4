//! The specification tree a filter is parsed into.

use vstd::prelude::*;
use vstd::string::*;

use crate::json::{Json, JsonModel};
use crate::schema;
use crate::schema::{copy_name, FieldType};

verus! {

/// The parsed tree. `And` and `Or` are n-ary on purpose: a group folds into
/// exactly one node holding every child, so no accumulator can be overwritten
/// while walking the list.
#[derive(Debug, PartialEq)]
pub enum Spec {
    And(Vec<Spec>),
    Or(Vec<Spec>),
    Not(Box<Spec>),
    Pred(Pred),
}

/// A leaf: one comparison against one column.
#[derive(Debug, PartialEq)]
pub struct Pred {
    pub column: String,
    pub relation: Option<String>,
    pub field_type: FieldType,
    pub operator: String,
    pub value: Option<Json>,
    pub range: Option<(String, String)>,
}

/// What a [`Spec`] is, with lists as sequences.
pub enum SpecModel {
    And(Seq<SpecModel>),
    Or(Seq<SpecModel>),
    Not(Box<SpecModel>),
    Pred(PredModel),
}

/// What a [`Pred`] is, with strings as sequences of characters.
pub struct PredModel {
    pub column: Seq<char>,
    pub relation: Option<Seq<char>>,
    pub field_type: FieldType,
    pub operator: Seq<char>,
    pub value: Option<JsonModel>,
    pub range: Option<(Seq<char>, Seq<char>)>,
}

impl View for Pred {
    type V = PredModel;

    open spec fn view(&self) -> PredModel {
        PredModel {
            column: self.column@,
            relation: schema::optional_text(self.relation),
            field_type: self.field_type,
            operator: self.operator@,
            value: match self.value {
                Some(value) => Some(value@),
                None => None,
            },
            range: match self.range {
                Some((from, to)) => Some((from@, to@)),
                None => None,
            },
        }
    }
}

impl Clone for Pred {
    fn clone(&self) -> (res: Self)
        ensures
            res@ == self@,
    {
        Pred {
            column: self.column.clone(),
            relation: copy_name(&self.relation),
            field_type: self.field_type,
            operator: self.operator.clone(),
            value: match &self.value {
                Some(value) => Some(value.clone()),
                None => None,
            },
            range: match &self.range {
                Some((from, to)) => Some((from.clone(), to.clone())),
                None => None,
            },
        }
    }
}

/// What each tree of a list is.
pub open spec fn models(specs: Seq<Spec>) -> Seq<SpecModel> {
    specs.map_values(|spec: Spec| spec@)
}

impl Spec {
    pub open spec fn model(self) -> SpecModel
        decreases self,
    {
        match self {
            Spec::And(children) => SpecModel::And(
                Seq::new(
                    children@.len(),
                    |i: int|
                        if 0 <= i < children@.len() {
                            children@[i].model()
                        } else {
                            arbitrary()
                        },
                ),
            ),
            Spec::Or(children) => SpecModel::Or(
                Seq::new(
                    children@.len(),
                    |i: int|
                        if 0 <= i < children@.len() {
                            children@[i].model()
                        } else {
                            arbitrary()
                        },
                ),
            ),
            Spec::Not(child) => SpecModel::Not(Box::new(child.model())),
            Spec::Pred(pred) => SpecModel::Pred(pred@),
        }
    }
}

impl View for Spec {
    type V = SpecModel;

    open spec fn view(&self) -> SpecModel {
        self.model()
    }
}

impl Clone for Spec {
    fn clone(&self) -> (res: Self)
        ensures
            res@ == self@,
        decreases self, 1int,
    {
        match self {
            Spec::And(children) => {
                assert(decreases_to!(*self => self->And_0));
                let res = Spec::And(copy_all(children));
                assert(res@->And_0 =~= models(res->And_0@));
                assert(self@->And_0 =~= models(children@));
                res
            },
            Spec::Or(children) => {
                assert(decreases_to!(*self => self->Or_0));
                let res = Spec::Or(copy_all(children));
                assert(res@->Or_0 =~= models(res->Or_0@));
                assert(self@->Or_0 =~= models(children@));
                res
            },
            Spec::Not(child) => Spec::Not(Box::new((**child).clone())),
            Spec::Pred(pred) => Spec::Pred(pred.clone()),
        }
    }
}

/// A copy of each tree.
fn copy_all(specs: &Vec<Spec>) -> (res: Vec<Spec>)
    ensures
        models(res@) == models(specs@),
    decreases specs, 0int,
{
    let mut copies: Vec<Spec> = Vec::new();
    for i in 0..specs.len()
        invariant
            models(copies@) == models(specs@).take(i as int),
    {
        assert(decreases_to!(*specs => specs[i as int]));
        let copy = specs[i].clone();
        assert(models(copies@.push(copy)) =~= models(copies@).push(copy@));
        assert(models(specs@).take(i + 1) =~= models(specs@).take(i as int).push(copy@));
        copies.push(copy);
    }
    assert(models(specs@).take(specs@.len() as int) =~= models(specs@));
    copies
}

/// The predicates of a tree, from left to right.
pub open spec fn leaves_of(spec: SpecModel) -> Seq<PredModel>
    decreases spec, 0nat,
{
    match spec {
        SpecModel::And(children) => leaves_of_all(children, children.len()),
        SpecModel::Or(children) => leaves_of_all(children, children.len()),
        SpecModel::Not(child) => leaves_of(*child),
        SpecModel::Pred(pred) => seq![pred],
    }
}

/// The predicates of the first `n` trees, from left to right.
pub open spec fn leaves_of_all(children: Seq<SpecModel>, n: nat) -> Seq<PredModel>
    decreases children, n,
{
    if n == 0 || n > children.len() {
        Seq::empty()
    } else {
        leaves_of_all(children, (n - 1) as nat) + leaves_of(children[n - 1])
    }
}

/// What each predicate of a list is.
pub open spec fn pred_models(preds: Seq<&Pred>) -> Seq<PredModel> {
    preds.map_values(|pred: &Pred| pred@)
}

/// Walks the tree and returns every predicate in it, from left to right: what
/// goes in must come out.
pub fn leaves(spec: &Spec) -> (res: Vec<&Pred>)
    ensures
        pred_models(res@) == leaves_of(spec@),
    decreases spec, 1int,
{
    match spec {
        Spec::Pred(pred) => {
            let mut res: Vec<&Pred> = Vec::new();
            res.push(pred);
            assert(pred_models(res@) =~= seq![pred@]);
            res
        },
        Spec::Not(child) => leaves(child),
        Spec::And(children) => {
            assert(decreases_to!(*spec => spec->And_0));
            assert(spec@->And_0 =~= models(children@));
            leaves_all(children)
        },
        Spec::Or(children) => {
            assert(decreases_to!(*spec => spec->Or_0));
            assert(spec@->Or_0 =~= models(children@));
            leaves_all(children)
        },
    }
}

/// The predicates of each tree of a list, from left to right.
fn leaves_all(specs: &Vec<Spec>) -> (res: Vec<&Pred>)
    ensures
        pred_models(res@) == leaves_of_all(models(specs@), specs@.len()),
    decreases specs, 0int,
{
    let mut res: Vec<&Pred> = Vec::new();
    for i in 0..specs.len()
        invariant
            pred_models(res@) == leaves_of_all(models(specs@), i as nat),
    {
        assert(decreases_to!(*specs => specs[i as int]));
        let mut more = leaves(&specs[i]);
        assert(pred_models(res@ + more@) =~= pred_models(res@) + pred_models(more@));
        assert(models(specs@)[i as int] == specs@[i as int]@);
        res.append(&mut more);
    }
    res
}

} // verus!
