use vstd::prelude::*;

use crate::error::FatalError;

verus! {

/// Holds the raw hashbrown table behind the correlator.  Declaring
/// hashbrown's map type directly is refused (its allocator parameter has no
/// public name), so the collection lives in this opaque holder and every
/// access goes through the trusted accessors below.
#[verifier::external_body]
pub struct TokenTable {
    inner: hashbrown::HashMap<u32, u32>,
}

/// The token-to-context entries a correlation table currently holds.
pub uninterp spec fn token_entries(m: TokenTable) -> Map<u32, u32>;

/// The table state with no outstanding callout.
pub open spec fn no_tokens() -> Map<u32, u32> {
    Map::empty()
}

impl TokenTable {
    /// Relies on hashbrown::HashMap::new: the new table is empty.
    #[verifier::external_body]
    fn new() -> (m: TokenTable)
        ensures
            token_entries(m) == no_tokens(),
    {
        TokenTable { inner: hashbrown::HashMap::new() }
    }

    /// Relies on hashbrown::HashMap::contains_key: true exactly when the
    /// key is present.
    #[verifier::external_body]
    fn contains(&self, token_id: u32) -> (b: bool)
        ensures
            b == token_entries(*self).contains_key(token_id),
    {
        self.inner.contains_key(&token_id)
    }

    /// Relies on hashbrown::HashMap::insert: the entry is added, and the
    /// value previously under the key comes back.
    #[verifier::external_body]
    fn insert(&mut self, token_id: u32, context_id: u32) -> (prev: Option<u32>)
        ensures
            token_entries(*final(self)) == token_entries(*old(self)).insert(token_id, context_id),
            match prev {
                Some(v) => token_entries(*old(self)).contains_key(token_id) && v == token_entries(
                    *old(self),
                )[token_id],
                None => !token_entries(*old(self)).contains_key(token_id),
            },
    {
        self.inner.insert(token_id, context_id)
    }

    /// Relies on hashbrown::HashMap::remove: the entry under the key leaves
    /// the table and its value comes back.
    #[verifier::external_body]
    fn remove(&mut self, token_id: u32) -> (removed: Option<u32>)
        ensures
            token_entries(*final(self)) == token_entries(*old(self)).remove(token_id),
            match removed {
                Some(v) => token_entries(*old(self)).contains_key(token_id) && v == token_entries(
                    *old(self),
                )[token_id],
                None => !token_entries(*old(self)).contains_key(token_id),
            },
    {
        self.inner.remove(&token_id)
    }
}

/// Correlates asynchronous callout tokens with the context that issued the
/// call.  A token is registered when the call is dispatched and consumed
/// exactly once, when its single response event arrives.
pub struct CalloutCorrelator {
    table: TokenTable,
}

impl View for CalloutCorrelator {
    type V = Map<u32, u32>;

    closed spec fn view(&self) -> Map<u32, u32> {
        token_entries(self.table)
    }
}

impl CalloutCorrelator {
    /// An empty correlation table.
    pub fn new() -> (c: Self)
        ensures
            c@ == no_tokens(),
    {
        CalloutCorrelator { table: TokenTable::new() }
    }

    /// Whether `token_id` is still outstanding: registered, with its
    /// response not yet consumed.
    pub fn is_outstanding(&self, token_id: u32) -> (b: bool)
        ensures
            b == self@.contains_key(token_id),
    {
        self.table.contains(token_id)
    }

    /// Records that context `context_id` issued the outbound call the host
    /// answered with `token_id`.  Registering a token that is still
    /// outstanding is a host-contract violation and fatal.
    pub fn register(&mut self, token_id: u32, context_id: u32) -> (r: Result<(), FatalError>)
        ensures
            r is Ok <==> !old(self)@.contains_key(token_id),
            r is Ok ==> final(self)@ == old(self)@.insert(token_id, context_id),
            r is Err ==> final(self)@ == old(self)@ && r == Err::<(), FatalError>(
                FatalError::DuplicateToken { token_id },
            ),
    {
        if self.table.contains(token_id) {
            Err(FatalError::DuplicateToken { token_id })
        } else {
            let prev = self.table.insert(token_id, context_id);
            Ok(())
        }
    }

    /// Removes and returns the context id that issued the call `token_id`
    /// answers.  A token that was never registered, or was already
    /// consumed, is a host-contract violation and fatal.
    pub fn resolve_and_consume(&mut self, token_id: u32) -> (r: Result<u32, FatalError>)
        ensures
            r is Ok <==> old(self)@.contains_key(token_id),
            r matches Ok(context_id) ==> context_id == old(self)@[token_id] && final(self)@
                == old(self)@.remove(token_id),
            r is Err ==> final(self)@ == old(self)@ && r == Err::<u32, FatalError>(
                FatalError::UnknownToken { token_id },
            ),
    {
        match self.table.remove(token_id) {
            Some(context_id) => Ok(context_id),
            None => {
                proof {
                    assert(self@ =~= old(self)@);
                }
                Err(FatalError::UnknownToken { token_id })
            },
        }
    }
}


/// A callout token resolves exactly once.  After registering a token that
/// was not outstanding, resolving finds exactly the registered context id;
/// once consumed, the token is no longer outstanding, so a second
/// resolution of the same token must fail, and the table is back to where
/// it started.
pub proof fn lemma_token_resolves_exactly_once(m: Map<u32, u32>, token_id: u32, context_id: u32)
    requires
        !m.contains_key(token_id),
    ensures
        m.insert(token_id, context_id).contains_key(token_id),
        m.insert(token_id, context_id)[token_id] == context_id,
        !m.insert(token_id, context_id).remove(token_id).contains_key(token_id),
        m.insert(token_id, context_id).remove(token_id) == m,
{
    assert(m.insert(token_id, context_id).remove(token_id) =~= m);
}

} // verus!
