//! The registries from which the workshop accepts transfer notifications.

use vstd::prelude::*;

use crate::error::WorkshopError;
use crate::text::same_text;

verus! {

/// The trusted registries, in the order in which they were given when the
/// workshop was set up. The list never changes afterwards.
#[derive(Debug, PartialEq, Eq)]
pub struct TrustedRegistries {
    identities: Vec<String>,
}

impl View for TrustedRegistries {
    type V = Seq<Seq<char>>;

    /// The identities, in the order given.
    closed spec fn view(&self) -> Seq<Seq<char>> {
        Seq::new(self.identities@.len(), |i: int| self.identities@[i]@)
    }
}

impl TrustedRegistries {
    /// Takes the list of trusted registries as given.
    pub fn new(identities: Vec<String>) -> (trusted: TrustedRegistries)
        ensures
            trusted@ == identities@.map_values(|identity: String| identity@),
    {
        TrustedRegistries { identities }
    }

    /// How many registries are trusted, a repeated identity counted each time.
    pub fn len(&self) -> (count: usize)
        ensures
            count == self@.len(),
    {
        self.identities.len()
    }

    /// The identity at position `index` of the list.
    pub fn get(&self, index: usize) -> (identity: Option<&String>)
        ensures
            match identity {
                Some(found) => index < self@.len() && found@ == self@[index as int],
                None => index >= self@.len(),
            },
    {
        if index < self.identities.len() {
            Some(&self.identities[index])
        } else {
            None
        }
    }

    /// Whether `identity` is one of the trusted registries. The comparison is
    /// exact and case-sensitive.
    pub fn contains(&self, identity: &str) -> (found: bool)
        ensures
            found == self@.contains(identity@),
    {
        let mut i: usize = 0;
        while i < self.identities.len()
            invariant
                i <= self.identities@.len(),
                forall|j: int| 0 <= j < i ==> self@[j] != identity@,
            decreases self.identities@.len() - i,
        {
            if same_text(self.identities[i].as_str(), identity) {
                assert(self@[i as int] == identity@);
                return true;
            }
            i += 1;
        }
        false
    }

    /// Admits a caller that is a trusted registry and rejects every other.
    pub fn authorize(&self, caller: &str) -> (verdict: Result<(), WorkshopError>)
        ensures
            verdict == authorized(self@, caller@),
    {
        if self.contains(caller) {
            Ok(())
        } else {
            Err(WorkshopError::Unauthorized)
        }
    }
}

/// The guard's verdict on a caller: admitted when its identity is in the
/// list, `Unauthorized` otherwise.
pub open spec fn authorized(trusted: Seq<Seq<char>>, caller: Seq<char>) -> Result<
    (),
    WorkshopError,
> {
    if trusted.contains(caller) {
        Ok(())
    } else {
        Err(WorkshopError::Unauthorized)
    }
}

} // verus!
