//! The username-to-identifier table: a grow-only cache of derived identifiers.

use vstd::prelude::*;
use vstd::string::*;

use crate::crypto::{uuid_v5, uuid_v5_of, ClaimMap};
use crate::strmap::StrMap;

verus! {

/// The table after a lookup of `username`: unchanged when it holds the name,
/// else with the name's derived identifier added.
pub open spec fn after_lookup(table: ClaimMap, username: Seq<char>) -> ClaimMap {
    if table.contains_key(username) {
        table
    } else {
        table.insert(username, uuid_v5_of(username))
    }
}

/// The table after `n` lookups of the same name, one after another.
pub open spec fn repeated_lookups(table: ClaimMap, username: Seq<char>, n: nat) -> ClaimMap
    decreases n,
{
    if n == 0 {
        table
    } else {
        after_lookup(repeated_lookups(table, username, (n - 1) as nat), username)
    }
}

/// Every name in the table maps to the identifier derived from it, which is
/// 36 characters long.
pub open spec fn consistent(table: ClaimMap) -> bool {
    forall|k: Seq<char>| #[trigger]
        table.contains_key(k) ==> table[k] == uuid_v5_of(k) && table[k].len() == 36
}

/// Usernames mapped to the identifiers derived from them.
pub struct IdentityTable {
    names: StrMap,
}

impl View for IdentityTable {
    type V = ClaimMap;

    closed spec fn view(&self) -> ClaimMap {
        self.names@
    }
}

impl IdentityTable {
    pub closed spec fn wf(&self) -> bool {
        self.names.wf() && consistent(self.names@)
    }

    pub closed spec fn spec_len(&self) -> nat {
        self.names.spec_len()
    }

    pub fn new() -> (r: IdentityTable)
        ensures
            r.wf(),
            r@ == Map::<Seq<char>, Seq<char>>::empty(),
            r.spec_len() == 0,
    {
        IdentityTable { names: StrMap::new() }
    }

    /// Number of names held.
    pub fn len(&self) -> (r: usize)
        requires
            self.wf(),
        ensures
            r == self.spec_len(),
            r == self@.dom().len(),
    {
        proof {
            self.names.lemma_len();
        }
        self.names.len()
    }

    /// The identifier held for `username`, if any.
    pub fn get(&self, username: &str) -> (r: Option<&String>)
        requires
            self.wf(),
        ensures
            r matches Some(v) ==> self@.contains_key(username@) && v@ == self@[username@],
            r is None ==> !self@.contains_key(username@),
    {
        self.names.get(username)
    }

    /// The identifier for `username`: the one held, or else a freshly derived
    /// one, which is then held.
    pub fn get_or_create(&mut self, username: &str) -> (r: String)
        requires
            old(self).wf(),
        ensures
            final(self).wf(),
            final(self)@ == after_lookup(old(self)@, username@),
            r@ == uuid_v5_of(username@),
            r@.len() == 36,
            final(self).spec_len() == old(self).spec_len() + (if old(self)@.contains_key(
                username@,
            ) {
                0int
            } else {
                1int
            }),
    {
        match self.names.get(username) {
            Some(id) => id.clone(),
            None => {
                let id = uuid_v5(username);
                self.names.insert(String::from_str(username), id.clone());
                id
            },
        }
    }
}

/// Looking up one name any positive number of times in a row leaves the
/// table as one lookup does: the name held once, mapped to its derived
/// identifier, and nothing else added.
pub proof fn lemma_repeated_lookups(table: ClaimMap, username: Seq<char>, n: nat)
    requires
        consistent(table),
        n >= 1,
    ensures
        repeated_lookups(table, username, n) == after_lookup(table, username),
        after_lookup(table, username).contains_key(username),
        after_lookup(table, username)[username] == uuid_v5_of(username),
        after_lookup(table, username).dom() == table.dom().insert(username),
    decreases n,
{
    let once = after_lookup(table, username);
    assert(once.contains_key(username));
    assert(after_lookup(once, username) == once);
    if n > 1 {
        lemma_repeated_lookups(table, username, (n - 1) as nat);
    } else {
        assert(repeated_lookups(table, username, 0) == table);
    }
    assert(after_lookup(table, username).dom() =~= table.dom().insert(username));
}

} // verus!
