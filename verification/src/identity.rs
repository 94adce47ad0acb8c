//! Identity resolution: maps an inbound identifier (canonical account id,
//! secondary-platform numeric id, or secondary-platform handle) to the single
//! canonical account id that owns conversation state.

use vstd::prelude::*;
use crate::store::{
    Store, StoreView, find_account_by_id, find_account_by_handle, find_secondary,
    find_secondary_by_handle,
};
use crate::text::{parse_i64, spec_parse_i64, i64_to_dec, spec_i64_dec, str_eq};

verus! {

/// The canonical account id an inbound identifier resolves to, checked in
/// order with the first match winning:
/// 1. an existing account id is returned unchanged;
/// 2. a numeric id is resolved through the secondary-identity record: its
///    direct account link first, else an account carrying the record's handle;
/// 3. a non-numeric identifier is treated as a handle and resolved to the
///    account carrying it;
/// 4. otherwise the identifier is returned unchanged.
pub open spec fn spec_resolve(s: StoreView, raw: Seq<char>) -> Seq<char> {
    if find_account_by_id(s.accounts, raw) is Some {
        raw
    } else {
        match spec_parse_i64(raw) {
            Some(n) => match find_secondary(s.secondary, n) {
                Some(i) => {
                    let sec = s.secondary[i];
                    if sec.user_id is Some {
                        sec.user_id->0
                    } else {
                        match sec.telegram_username {
                            Some(h) => match find_account_by_handle(s.accounts, h) {
                                Some(a) => s.accounts[a].id,
                                None => raw,
                            },
                            None => raw,
                        }
                    }
                },
                None => raw,
            },
            None => match find_account_by_handle(s.accounts, raw) {
                Some(a) => s.accounts[a].id,
                None => raw,
            },
        }
    }
}

impl Store {
    /// Resolves an inbound identifier to the canonical account id under which
    /// all conversations are stored. A pure lookup: the store is never
    /// written, and resolution never fails — an unknown identifier is
    /// returned unchanged.
    pub fn resolve_identity(&self, user_id: &str) -> (r: String)
        ensures
            r@ == spec_resolve(self@, user_id@),
    {
        if self.account_index_by_id(user_id).is_some() {
            return user_id.to_owned();
        }
        match parse_i64(user_id) {
            Some(n) => {
                if let Some(si) = self.secondary_index(n) {
                    proof {
                        crate::store::lemma_find_secondary_props(self@.secondary, n);
                    }
                    if let Some(uid) = &self.secondary[si].user_id {
                        return uid.clone();
                    }
                    let handle = match &self.secondary[si].telegram_username {
                        Some(h) => Some(h.clone()),
                        None => None,
                    };
                    if let Some(h) = handle {
                        if let Some(ai) = self.account_index_by_handle(h.as_str()) {
                            proof {
                                crate::store::lemma_find_account_by_handle_props(
                                    self@.accounts,
                                    h@,
                                );
                            }
                            return self.accounts[ai].id.clone();
                        }
                    }
                }
                user_id.to_owned()
            },
            None => {
                if let Some(ai) = self.account_index_by_handle(user_id) {
                    proof {
                        crate::store::lemma_find_account_by_handle_props(self@.accounts, user_id@);
                    }
                    return self.accounts[ai].id.clone();
                }
                user_id.to_owned()
            },
        }
    }

    /// All identifiers that should see the same conversations as the given
    /// one: the identifier itself, the numeric id of a secondary identity
    /// carrying the account's handle, and the account a numeric identifier is
    /// directly linked to (when not already present).
    pub fn get_synced_user_ids(&self, user_id: &str) -> (r: Vec<String>)
        ensures
            r@.map_values(|x: String| x@) == spec_synced_ids(self@, user_id@),
    {
        let mut user_ids: Vec<String> = Vec::new();
        user_ids.push(user_id.to_owned());
        proof {
            assert(user_ids@.map_values(|x: String| x@) =~= seq![user_id@]);
        }

        let handle = match self.account_index_by_id(user_id) {
            Some(ai) => {
                proof {
                    crate::store::lemma_find_account_by_id_props(self@.accounts, user_id@);
                }
                match &self.accounts[ai].telegram_username {
                    Some(h) => Some(h.clone()),
                    None => None,
                }
            },
            None => None,
        };
        if let Some(h) = handle {
            if let Some(si) = self.secondary_index_by_handle(h.as_str()) {
                let ghost prev = user_ids@.map_values(|x: String| x@);
                user_ids.push(i64_to_dec(self.secondary[si].telegram_user_id));
                proof {
                    assert(user_ids@.map_values(|x: String| x@) =~= prev.push(
                        spec_i64_dec(self@.secondary[si as int].telegram_user_id as int),
                    ));
                }
            }
        }
        let ghost mid = user_ids@.map_values(|x: String| x@);
        proof {
            assert(mid == spec_handle_linked_ids(self@, user_id@));
        }

        if let Some(n) = parse_i64(user_id) {
            if let Some(si) = self.secondary_index(n) {
                proof {
                    crate::store::lemma_find_secondary_props(self@.secondary, n);
                }
                let linked = match &self.secondary[si].user_id {
                    Some(uid) => Some(uid.clone()),
                    None => None,
                };
                if let Some(main_id) = linked {
                    if !contains_string(&user_ids, main_id.as_str()) {
                        let ghost prev = user_ids@.map_values(|x: String| x@);
                        proof {
                            assert(!prev.contains(main_id@)) by {
                                if prev.contains(main_id@) {
                                    let j = choose|j: int|
                                        0 <= j < prev.len() && prev[j] == main_id@;
                                    assert(user_ids@[j]@ == main_id@);
                                }
                            }
                        }
                        user_ids.push(main_id);
                        proof {
                            assert(user_ids@.map_values(|x: String| x@) =~= prev.push(
                                spec_synced_ids(self@, user_id@).last(),
                            ));
                        }
                    } else {
                        proof {
                            assert(mid.contains(main_id@)) by {
                                let j = choose|j: int|
                                    0 <= j < user_ids@.len() && user_ids@[j]@ == main_id@;
                                assert(mid[j] == main_id@);
                            }
                        }
                    }
                }
            }
        }

        user_ids
    }

    /// Index of the first secondary identity carrying the given handle.
    fn secondary_index_by_handle(&self, handle: &str) -> (r: Option<usize>)
        ensures
            match r {
                Some(i) => find_secondary_by_handle(self@.secondary, handle@) == Some(i as int)
                    && i < self.secondary.len(),
                None => find_secondary_by_handle(self@.secondary, handle@) is None,
            },
    {
        let ghost sv = self@.secondary;
        let mut i: usize = 0;
        proof {
            assert(sv.skip(0) =~= sv);
        }
        while i < self.secondary.len()
            invariant
                0 <= i <= self.secondary.len(),
                sv == self@.secondary,
                sv.len() == self.secondary.len(),
                find_secondary_by_handle(sv.skip(i as int), handle@) matches Some(j)
                    ==> find_secondary_by_handle(sv, handle@) == Some(j + i),
                find_secondary_by_handle(sv.skip(i as int), handle@) is None
                    ==> find_secondary_by_handle(sv, handle@) is None,
            decreases self.secondary.len() - i,
        {
            let matched = match &self.secondary[i].telegram_username {
                Some(u) => str_eq(u.as_str(), handle),
                None => false,
            };
            proof {
                assert(sv.skip(i as int)[0] == sv[i as int]);
            }
            if matched {
                return Some(i);
            }
            proof {
                assert(sv.skip(i as int).drop_first() =~= sv.skip(i as int + 1));
            }
            i = i + 1;
        }
        proof {
            assert(sv.skip(i as int).len() == 0);
        }
        None
    }
}

/// The identifier itself, plus the decimal numeric id of the secondary
/// identity that carries the account's handle, when both exist.
pub open spec fn spec_handle_linked_ids(s: StoreView, uid: Seq<char>) -> Seq<Seq<char>> {
    let base = seq![uid];
    match find_account_by_id(s.accounts, uid) {
        Some(ai) => match s.accounts[ai].telegram_username {
            Some(h) => match find_secondary_by_handle(s.secondary, h) {
                Some(si) => base.push(spec_i64_dec(s.secondary[si].telegram_user_id as int)),
                None => base,
            },
            None => base,
        },
        None => base,
    }
}

/// All identifiers synced with the given one: the handle-linked ids, plus
/// the account a numeric identifier is directly linked to when it is not
/// already listed.
pub open spec fn spec_synced_ids(s: StoreView, uid: Seq<char>) -> Seq<Seq<char>> {
    let base = spec_handle_linked_ids(s, uid);
    match spec_parse_i64(uid) {
        Some(n) => match find_secondary(s.secondary, n) {
            Some(si) => match s.secondary[si].user_id {
                Some(main) => if base.contains(main) {
                    base
                } else {
                    base.push(main)
                },
                None => base,
            },
            None => base,
        },
        None => base,
    }
}

/// Whether some string in the vector equals the given one.
fn contains_string(v: &Vec<String>, s: &str) -> (r: bool)
    ensures
        r == exists|i: int| 0 <= i < v@.len() && (#[trigger] v@[i])@ == s@,
{
    let mut i: usize = 0;
    while i < v.len()
        invariant
            0 <= i <= v.len(),
            forall|j: int| 0 <= j < i ==> (#[trigger] v@[j])@ != s@,
        decreases v.len() - i,
    {
        if str_eq(v[i].as_str(), s) {
            return true;
        }
        i = i + 1;
    }
    false
}

/// Law: an inbound id equal to an existing account's own id resolves to
/// itself, unchanged, whatever else the store holds.
pub proof fn lemma_resolve_own_id(s: StoreView, raw: Seq<char>, i: int)
    requires
        0 <= i < s.accounts.len(),
        s.accounts[i].id == raw,
    ensures
        spec_resolve(s, raw) == raw,
{
    crate::store::lemma_find_account_by_id_props(s.accounts, raw);
}

/// Law: a secondary-platform numeric id whose record is directly linked to an
/// account resolves to that account, regardless of any handle match — the
/// direct link takes precedence. The numeric rendering must not itself be
/// an existing account id, since rule 1 would then win.
pub proof fn lemma_resolve_direct_link(s: StoreView, raw: Seq<char>, n: i64, i: int, account_id: Seq<char>)
    requires
        find_account_by_id(s.accounts, raw) is None,
        spec_parse_i64(raw) == Some(n),
        find_secondary(s.secondary, n) == Some(i),
        0 <= i < s.secondary.len(),
        s.secondary[i].user_id == Some(account_id),
    ensures
        spec_resolve(s, raw) == account_id,
{
}

/// Law: resolution never leaves the identity space. Under the store's
/// referential invariant, the resolved id is either the inbound identifier
/// unchanged or the id of an existing account.
pub proof fn lemma_resolve_in_range(s: StoreView, raw: Seq<char>)
    requires
        crate::store::store_wf(s),
    ensures
        spec_resolve(s, raw) == raw || find_account_by_id(s.accounts, spec_resolve(s, raw))
            is Some,
{
    if find_account_by_id(s.accounts, raw) is None {
        match spec_parse_i64(raw) {
            Some(n) => {
                crate::store::lemma_find_secondary_props(s.secondary, n);
                match find_secondary(s.secondary, n) {
                    Some(i) => {
                        if s.secondary[i].user_id is Some {
                            assert(find_account_by_id(s.accounts, s.secondary[i].user_id->0)
                                is Some);
                        } else {
                            match s.secondary[i].telegram_username {
                                Some(h) => {
                                    lemma_handle_hit_is_account(s, h);
                                },
                                None => {},
                            }
                        }
                    },
                    None => {},
                }
            },
            None => {
                lemma_handle_hit_is_account(s, raw);
            },
        }
    }
}

/// An account found by handle is findable by its own id.
proof fn lemma_handle_hit_is_account(s: StoreView, h: Seq<char>)
    ensures
        find_account_by_handle(s.accounts, h) matches Some(a) ==> find_account_by_id(
            s.accounts,
            s.accounts[a].id,
        ) is Some,
{
    crate::store::lemma_find_account_by_handle_props(s.accounts, h);
    match find_account_by_handle(s.accounts, h) {
        Some(a) => {
            crate::store::lemma_find_account_by_id_props(s.accounts, s.accounts[a].id);
            if find_account_by_id(s.accounts, s.accounts[a].id) is None {
                assert(s.accounts[a].id != s.accounts[a].id);
            }
        },
        None => {},
    }
}

/// Law: an identifier that matches no account id, no secondary record (for a
/// numeric id) and no handle resolves to itself unchanged.
pub proof fn lemma_resolve_fallback(s: StoreView, raw: Seq<char>)
    requires
        find_account_by_id(s.accounts, raw) is None,
        find_account_by_handle(s.accounts, raw) is None,
        spec_parse_i64(raw) matches Some(n) ==> find_secondary(s.secondary, n) is None,
    ensures
        spec_resolve(s, raw) == raw,
{
}

} // verus!
