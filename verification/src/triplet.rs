//! The three-part identity key naming one class of demanded runner.

use vstd::prelude::*;

verus! {

/// The mathematical view of a `Triplet`: the three parts as character
/// sequences.
pub struct TripletView {
    pub owner: Seq<char>,
    pub repository: Seq<char>,
    pub machine_name: Seq<char>,
}

/// A `(owner, repository, machine name)` key.
///
/// Pure value: immutable once constructed, compared and hashed by its three
/// parts. Unknown identities are rejected by the configuration lookup, not by
/// the key itself.
#[derive(Debug, Hash)]
pub struct Triplet {
    owner: String,
    repository: String,
    machine_name: String,
}

impl View for Triplet {
    type V = TripletView;

    closed spec fn view(&self) -> TripletView {
        TripletView {
            owner: self.owner@,
            repository: self.repository@,
            machine_name: self.machine_name@,
        }
    }
}

impl Triplet {
    /// Construct a key from three non-empty parts.
    pub fn new(owner: String, repository: String, machine_name: String) -> (r: Triplet)
        requires
            owner@.len() > 0,
            repository@.len() > 0,
            machine_name@.len() > 0,
        ensures
            r@ == (TripletView { owner: owner@, repository: repository@, machine_name: machine_name@ }),
    {
        Triplet { owner, repository, machine_name }
    }

    /// The owner of the repository the runner is demanded for.
    pub fn owner(&self) -> (r: &String)
        ensures
            r@ == self@.owner,
    {
        &self.owner
    }

    /// The repository the runner is demanded for.
    pub fn repository(&self) -> (r: &String)
        ensures
            r@ == self@.repository,
    {
        &self.repository
    }

    /// The name of the demanded machine class.
    pub fn machine_name(&self) -> (r: &String)
        ensures
            r@ == self@.machine_name,
    {
        &self.machine_name
    }

    /// The canonical display form `owner/repository/machine_name`, for logs
    /// and error reports.
    pub fn display_string(&self) -> (r: String)
        ensures
            r@ == self@.owner + "/"@ + self@.repository + "/"@ + self@.machine_name,
    {
        let mut r = self.owner.clone();
        r.append("/");
        r.append(self.repository.as_str());
        r.append("/");
        r.append(self.machine_name.as_str());
        r
    }
}

impl Clone for Triplet {
    fn clone(&self) -> (r: Self)
        ensures
            r == *self,
    {
        Triplet {
            owner: self.owner.clone(),
            repository: self.repository.clone(),
            machine_name: self.machine_name.clone(),
        }
    }
}

impl PartialEq for Triplet {
    fn eq(&self, other: &Self) -> (r: bool) {
        self.owner == other.owner && self.repository == other.repository
            && self.machine_name == other.machine_name
    }
}

impl vstd::std_specs::cmp::PartialEqSpecImpl for Triplet {
    open spec fn obeys_eq_spec() -> bool {
        true
    }

    open spec fn eq_spec(&self, other: &Self) -> bool {
        self@ == other@
    }
}

impl Eq for Triplet {

}

} // verus!
