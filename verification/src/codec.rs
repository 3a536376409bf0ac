//! How the store's tables are declared, and the markers that pick how
//! their values are encoded.
use std::marker::PhantomData;
use vstd::prelude::*;

verus! {

/// Values encoded as JSON in the store.
#[derive(Debug)]
pub struct SerdeJsonCodec;

/// Plain-data values stored as their bytes.
#[derive(Debug)]
pub struct PodCodec;

/// A table of the store of type `Tree`, declared by its name.
pub struct TableDecl<Tree> {
    name: &'static str,
    marker: PhantomData<Tree>,
}

impl<Tree> TableDecl<Tree> {
    /// The name the table is kept under.
    pub closed spec fn spec_name(&self) -> &'static str {
        self.name
    }

    /// The table kept under `name`.
    pub fn decl(name: &'static str) -> (r: Self)
        ensures
            r.spec_name() == name,
    {
        TableDecl { name, marker: PhantomData }
    }

    /// The name the table is kept under.
    pub fn name(&self) -> (r: &'static str)
        ensures
            r == self.spec_name(),
    {
        self.name
    }
}

} // verus!
