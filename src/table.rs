//! The registry's storage: hash maps of the `hashbrown` crate, keyed by
//! instance id or out-call token. Each map is seen through a name for what it
//! holds; the wrappers below state what each `hashbrown` call does to it.
use crate::traits::{HttpContext, RootContext, StreamContext};
use vstd::prelude::*;

verus! {

/// The variant of a live instance.
#[derive(Clone, Copy, Debug, PartialEq, Eq, Structural)]
pub enum ContextKind {
    Root,
    Stream,
    Http,
}

/// A live instance of one of the three variants.
pub enum Instance {
    Root(Box<dyn RootContext>),
    Stream(Box<dyn StreamContext>),
    Http(Box<dyn HttpContext>),
}

impl Instance {
    pub open spec fn kind(&self) -> ContextKind {
        match self {
            Instance::Root(_) => ContextKind::Root,
            Instance::Stream(_) => ContextKind::Stream,
            Instance::Http(_) => ContextKind::Http,
        }
    }
}

/// Live instances by id.
#[verifier::external_body]
pub struct InstanceTable {
    map: hashbrown::HashMap<u32, Instance>,
}

/// The ids an instance table holds, each with the variant stored under it.
pub uninterp spec fn instance_kinds(t: InstanceTable) -> Map<u32, ContextKind>;

impl View for InstanceTable {
    type V = Map<u32, ContextKind>;

    open spec fn view(&self) -> Map<u32, ContextKind> {
        instance_kinds(*self)
    }
}

impl InstanceTable {
    /// Relies on hashbrown::HashMap::new: the map starts empty.
    #[verifier::external_body]
    pub(crate) fn new() -> (r: InstanceTable)
        ensures
            forall|id: u32| !instance_kinds(r).contains_key(id),
    {
        InstanceTable { map: hashbrown::HashMap::new() }
    }

    /// Relies on hashbrown::HashMap::get: the entry under `id`, if any.
    #[verifier::external_body]
    pub(crate) fn get(&self, id: u32) -> (r: Option<&Instance>)
        ensures
            r is Some <==> instance_kinds(*self).contains_key(id),
            r matches Some(i) ==> i.kind() == instance_kinds(*self)[id],
    {
        self.map.get(&id)
    }

    /// Relies on hashbrown::HashMap::insert: `id` now holds `inst`, whatever
    /// it held before.
    #[verifier::external_body]
    pub(crate) fn insert(&mut self, id: u32, inst: Instance)
        ensures
            instance_kinds(*final(self)) == instance_kinds(*old(self)).insert(id, inst.kind()),
    {
        self.map.insert(id, inst);
    }

    /// Relies on hashbrown::HashMap::remove: takes the entry under `id` out.
    #[verifier::external_body]
    pub(crate) fn remove(&mut self, id: u32) -> (r: Option<Instance>)
        ensures
            instance_kinds(*final(self)) == instance_kinds(*old(self)).remove(id),
            r is Some <==> instance_kinds(*old(self)).contains_key(id),
            r matches Some(i) ==> i.kind() == instance_kinds(*old(self))[id],
    {
        self.map.remove(&id)
    }
}

/// Out-call tokens, each with the id of the instance that issued it.
#[verifier::external_body]
pub struct TokenTable {
    map: hashbrown::HashMap<u32, u32>,
}

/// The token-to-instance entries a token table holds.
pub uninterp spec fn token_entries(t: TokenTable) -> Map<u32, u32>;

impl View for TokenTable {
    type V = Map<u32, u32>;

    open spec fn view(&self) -> Map<u32, u32> {
        token_entries(*self)
    }
}

impl TokenTable {
    /// Relies on hashbrown::HashMap::new: the map starts empty.
    #[verifier::external_body]
    pub(crate) fn new() -> (r: TokenTable)
        ensures
            forall|token: u32| !token_entries(r).contains_key(token),
    {
        TokenTable { map: hashbrown::HashMap::new() }
    }

    /// Relies on hashbrown::HashMap::get: the id stored under `token`, if any.
    #[verifier::external_body]
    pub(crate) fn get(&self, token: u32) -> (r: Option<u32>)
        ensures
            r is Some <==> token_entries(*self).contains_key(token),
            r matches Some(id) ==> id == token_entries(*self)[token],
    {
        self.map.get(&token).copied()
    }

    /// Relies on hashbrown::HashMap::insert: `token` now maps to `id`; the
    /// result is the id it mapped to before, if any.
    #[verifier::external_body]
    pub(crate) fn insert(&mut self, token: u32, id: u32) -> (r: Option<u32>)
        ensures
            token_entries(*final(self)) == token_entries(*old(self)).insert(token, id),
            r is Some <==> token_entries(*old(self)).contains_key(token),
            r matches Some(prev) ==> prev == token_entries(*old(self))[token],
    {
        self.map.insert(token, id)
    }

    /// Relies on hashbrown::HashMap::remove: takes the entry under `token` out.
    #[verifier::external_body]
    pub(crate) fn remove(&mut self, token: u32) -> (r: Option<u32>)
        ensures
            token_entries(*final(self)) == token_entries(*old(self)).remove(token),
            r is Some <==> token_entries(*old(self)).contains_key(token),
            r matches Some(id) ==> id == token_entries(*old(self))[token],
    {
        self.map.remove(&token)
    }
}

} // verus!
