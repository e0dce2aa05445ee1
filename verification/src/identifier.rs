//! Artifact identifiers: opaque names with an equality and a total order.

use crate::text::{compare, rank, Rank};
use std::cmp::Ordering;
use vstd::prelude::*;
use vstd::std_specs::cmp::{PartialEqSpecImpl, PartialOrdSpecImpl};

verus! {

/// The name of one buildable artifact variant, as the artifact catalog spells
/// it. The resolver only compares identifiers and looks them up.
///
/// Identifiers are equal when their names are, and stand in the order of
/// their names.
#[derive(Debug, Eq, Ord, Hash)]
pub struct ArtifactIdentifier {
    name: String,
}

impl View for ArtifactIdentifier {
    type V = Seq<char>;

    closed spec fn view(&self) -> Seq<char> {
        self.name@
    }
}

impl Clone for ArtifactIdentifier {
    fn clone(&self) -> (r: ArtifactIdentifier)
        ensures
            r@ == self@,
    {
        ArtifactIdentifier { name: self.name.clone() }
    }
}

impl PartialEq for ArtifactIdentifier {
    fn eq(&self, other: &ArtifactIdentifier) -> (r: bool) {
        self.name == other.name
    }
}

impl PartialEqSpecImpl for ArtifactIdentifier {
    open spec fn obeys_eq_spec() -> bool {
        true
    }

    open spec fn eq_spec(&self, other: &ArtifactIdentifier) -> bool {
        self@ == other@
    }
}

impl PartialOrd for ArtifactIdentifier {
    fn partial_cmp(&self, other: &ArtifactIdentifier) -> (r: Option<Ordering>) {
        match compare(self.name.as_str(), other.name.as_str()) {
            Rank::Before => Some(Ordering::Less),
            Rank::Same => Some(Ordering::Equal),
            Rank::After => Some(Ordering::Greater),
        }
    }
}

impl PartialOrdSpecImpl for ArtifactIdentifier {
    open spec fn obeys_partial_cmp_spec() -> bool {
        true
    }

    open spec fn partial_cmp_spec(&self, other: &ArtifactIdentifier) -> Option<Ordering> {
        match rank(self@, other@) {
            Rank::Before => Some(Ordering::Less),
            Rank::Same => Some(Ordering::Equal),
            Rank::After => Some(Ordering::Greater),
        }
    }
}

impl ArtifactIdentifier {
    /// The identifier that the catalog spells `name`.
    pub fn new(name: String) -> (r: ArtifactIdentifier)
        ensures
            r@ == name@,
    {
        ArtifactIdentifier { name }
    }

    /// The identifier as the catalog spells it.
    pub fn name(&self) -> (r: &str)
        ensures
            r@ == self@,
    {
        self.name.as_str()
    }

    /// The identifier's name, handed over.
    pub fn into_name(self) -> (r: String)
        ensures
            r@ == self@,
    {
        self.name
    }

    /// How this identifier stands to `other` in the order of identifiers.
    pub fn rank(&self, other: &ArtifactIdentifier) -> (r: Rank)
        ensures
            r == rank(self@, other@),
    {
        compare(self.name.as_str(), other.name.as_str())
    }
}

} // verus!
