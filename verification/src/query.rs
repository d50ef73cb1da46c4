//! What a handler asks for: the scope it controls plus what the client sent.

use vstd::prelude::*;
use vstd::string::*;

use crate::filter::{Node, NodeModel};
use crate::json::{Json, JsonModel};

verus! {

/// A condition the caller adds itself: the tenant it is allowed to see. It is
/// deliberately a separate field from the client tree: rendering always emits
/// `scope AND (client)`, so a client filter can never become a sibling of the
/// scope and push it out of the query.
#[derive(Debug)]
pub struct ScopeFilter {
    pub field: String,
    pub value: Json,
}

/// What a [`ScopeFilter`] is.
pub struct ScopeModel {
    pub field: Seq<char>,
    pub value: JsonModel,
}

impl View for ScopeFilter {
    type V = ScopeModel;

    open spec fn view(&self) -> ScopeModel {
        ScopeModel { field: self.field@, value: self.value@ }
    }
}

impl Clone for ScopeFilter {
    fn clone(&self) -> (res: Self)
        ensures
            res@ == self@,
    {
        ScopeFilter { field: self.field.clone(), value: self.value.clone() }
    }
}

/// What a handler builds: the scope it controls plus whatever the client sent.
#[derive(Debug)]
pub struct Query {
    pub scope: Vec<ScopeFilter>,
    pub filter: Option<Node>,
}

/// What a [`Query`] is.
pub struct QueryModel {
    pub scope: Seq<ScopeModel>,
    pub filter: Option<NodeModel>,
}

/// What each condition of a scope is.
pub open spec fn models(scope: Seq<ScopeFilter>) -> Seq<ScopeModel> {
    scope.map_values(|condition: ScopeFilter| condition@)
}

impl View for Query {
    type V = QueryModel;

    open spec fn view(&self) -> QueryModel {
        QueryModel {
            scope: models(self.scope@),
            filter: match self.filter {
                Some(node) => Some(node@),
                None => None,
            },
        }
    }
}

impl Clone for Query {
    fn clone(&self) -> (res: Self)
        ensures
            res@ == self@,
    {
        let mut scope: Vec<ScopeFilter> = Vec::new();
        assert(models(scope@) =~= models(self.scope@).take(0));
        for i in 0..self.scope.len()
            invariant
                models(scope@) == models(self.scope@).take(i as int),
        {
            let copy = self.scope[i].clone();
            assert(models(scope@.push(copy)) =~= models(scope@).push(copy@));
            assert(models(self.scope@).take(i + 1) =~= models(self.scope@).take(i as int).push(
                copy@,
            ));
            scope.push(copy);
        }
        assert(models(self.scope@).take(self.scope@.len() as int) =~= models(self.scope@));
        Query {
            scope,
            filter: match &self.filter {
                Some(node) => Some(node.clone()),
                None => None,
            },
        }
    }
}

impl Default for Query {
    /// A query without scope and without filter.
    fn default() -> (res: Self)
        ensures
            res@.scope == Seq::<ScopeModel>::empty(),
            res@.filter is None,
    {
        let res = Query { scope: Vec::new(), filter: None };
        assert(res@.scope =~= Seq::empty());
        res
    }
}

} // verus!
