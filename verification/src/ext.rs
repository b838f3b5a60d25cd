//! Extension traits: attaching a bare object id to a repository, and
//! comfortable reference lookup on a repository.

use vstd::prelude::*;

use crate::hash::ObjectId;
use crate::object::{Oid, Repository};
use crate::strutil::str_eq;

verus! {

/// Seals the extension traits of this module against outside
/// implementations.
pub trait Sealed {
}

impl Sealed for ObjectId {

}

/// Attaching a bare object id to a repository.
pub trait ObjectIdExt: Sealed where Self: Sized {
    /// The bytes of the id being attached.
    spec fn id_bytes(&self) -> Seq<u8>;

    /// The id, attached to a repository so that it can be resolved there.
    fn attach<'repo>(self, access: &'repo Repository) -> (r: Oid<'repo>)
        ensures
            r.id@ == self.id_bytes(),
            r.access@ == access@,
    ;
}

impl ObjectIdExt for ObjectId {
    open spec fn id_bytes(&self) -> Seq<u8> {
        self@
    }

    fn attach<'repo>(self, access: &'repo Repository) -> (r: Oid<'repo>) {
        Oid::from_id(self, access)
    }
}

/// The target of the first reference of this name, if any.
pub open spec fn find_ref_in(refs: Seq<(Seq<char>, Seq<u8>)>, name: Seq<char>) -> Option<Seq<u8>>
    decreases refs.len(),
{
    if refs.len() == 0 {
        None
    } else if refs[0].0 == name {
        Some(refs[0].1)
    } else {
        find_ref_in(refs.skip(1), name)
    }
}

/// A named reference resolved in a repository.
#[derive(Debug)]
pub struct Reference<'repo> {
    pub name: String,
    pub target: ObjectId,
    pub access: &'repo Repository,
}

/// Why a reference lookup itself failed. The in-memory store of this
/// library cannot fail to read its references, so no lookup ever
/// produces this error; the variant stands for the faults a persistent
/// reference store could raise.
#[derive(Debug, Clone, Copy, PartialEq, Eq)]
pub enum FindReferenceError {
    Backend,
}

/// Why a reference that had to exist could not be produced.
#[derive(Debug, Clone, Copy, PartialEq, Eq)]
pub enum ExistingReferenceError {
    /// No reference of the requested name exists.
    NotFound,
}

/// Obtain references comfortably.
pub trait ReferenceExt {
    /// The references that lookups of this store consult.
    spec fn refs_model(&self) -> Seq<(Seq<char>, Seq<u8>)>;

    /// The first reference of this name, if the store holds one. The
    /// in-memory store cannot fail, so the result is always `Ok`.
    fn find_reference<'repo>(&'repo self, name: &str) -> (r: Result<
        Option<Reference<'repo>>,
        FindReferenceError,
    >)
        ensures
            r matches Ok(opt) && (match opt {
                Some(reference) => find_ref_in(self.refs_model(), name@) == Some(reference.target@)
                    && reference.name@ == name@,
                None => find_ref_in(self.refs_model(), name@) is None,
            }),
    ;

    /// The first reference of this name, which must exist.
    fn find_existing_reference<'repo>(&'repo self, name: &str) -> (r: Result<
        Reference<'repo>,
        ExistingReferenceError,
    >)
        ensures
            match r {
                Ok(reference) => find_ref_in(self.refs_model(), name@) == Some(reference.target@)
                    && reference.name@ == name@,
                Err(e) => find_ref_in(self.refs_model(), name@) is None && e
                    == ExistingReferenceError::NotFound,
            },
    ;
}

impl ReferenceExt for Repository {
    open spec fn refs_model(&self) -> Seq<(Seq<char>, Seq<u8>)> {
        self.refs()
    }

    fn find_reference<'repo>(&'repo self, name: &str) -> (r: Result<
        Option<Reference<'repo>>,
        FindReferenceError,
    >) {
        match self.ref_target(name) {
            Some(target) => Ok(
                Some(Reference { name: name.to_owned(), target, access: self }),
            ),
            None => Ok(None),
        }
    }

    fn find_existing_reference<'repo>(&'repo self, name: &str) -> (r: Result<
        Reference<'repo>,
        ExistingReferenceError,
    >) {
        match self.find_reference(name) {
            Ok(Some(reference)) => Ok(reference),
            Ok(None) => Err(ExistingReferenceError::NotFound),
            Err(_) => Err(ExistingReferenceError::NotFound),
        }
    }
}

} // verus!
