use vstd::prelude::*;

verus! {

/// The collections of the document store.
#[derive(Debug, Clone, Copy, PartialEq, Eq, Structural)]
pub enum MongoCollections {
    Images,
    Containers,
    LoadBalancers,
    Routes,
}

impl MongoCollections {
    /// The collection's name.
    pub open spec fn name(self) -> Seq<char> {
        match self {
            MongoCollections::Images => "images"@,
            MongoCollections::Containers => "containers"@,
            MongoCollections::LoadBalancers => "load_balancers"@,
            MongoCollections::Routes => "routes"@,
        }
    }

    /// The collection's name.
    pub fn to_string(&self) -> (r: String)
        ensures
            r@ == self.name(),
    {
        match self {
            MongoCollections::Images => "images".to_owned(),
            MongoCollections::Containers => "containers".to_owned(),
            MongoCollections::LoadBalancers => "load_balancers".to_owned(),
            MongoCollections::Routes => "routes".to_owned(),
        }
    }
}

} // verus!
