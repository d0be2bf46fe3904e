//! Provider initialization builder.
//!
//! [`Init`] pairs a provider's initial typed state with the [`ProviderInfo`]
//! metadata (name, version, optional description) reported to the host at
//! startup. It is a plain data builder: construct with [`Init::new`],
//! optionally chain [`Init::description`], and split with
//! [`Init::into_parts`].

use vstd::prelude::*;

use crate::wire::ProviderInfo;

verus! {

/// A provider's initial state bundled with its `ProviderInfo` metadata.
pub struct Init<S> {
    state: S,
    info: ProviderInfo,
}

impl<S> Init<S> {
    /// The initial state.
    pub closed spec fn held(&self) -> S {
        self.state
    }

    /// Name, version and description.
    pub closed spec fn info(&self) -> (Seq<char>, Seq<char>, Seq<char>) {
        (self.info.name@, self.info.version@, self.info.description@)
    }

    /// Bundle the initial state with a name and version; the description
    /// starts empty.
    pub fn new(state: S, name: String, version: String) -> (r: Self)
        ensures
            r.held() == state,
            r.info() == (name@, version@, ""@),
    {
        Init { state, info: ProviderInfo { name, version, description: "".to_owned() } }
    }

    /// Set the provider description.
    #[must_use]
    pub fn description(self, description: String) -> (r: Self)
        ensures
            r.held() == self.held(),
            r.info() == (self.info().0, self.info().1, description@),
    {
        Init {
            state: self.state,
            info: ProviderInfo { name: self.info.name, version: self.info.version, description },
        }
    }

    /// Split into the state and `ProviderInfo` halves.
    pub fn into_parts(self) -> (r: (S, ProviderInfo))
        ensures
            r.0 == self.held(),
            (r.1.name@, r.1.version@, r.1.description@) == self.info(),
    {
        (self.state, self.info)
    }
}

} // verus!
