//! The in-memory model of the backing store: accounts, secondary-platform
//! identities, conversations, messages, per-conversation context rows and
//! file attachments, with first-match lookup and a uniqueness invariant.

use vstd::prelude::*;
use crate::models::{ContextView, ConversationContext};
use crate::text::str_eq;

verus! {

/// Spec-level image of a canonical account: its id, optional
/// secondary-platform handle, and profile-level default context.
pub ghost struct AccountView {
    pub id: Seq<char>,
    pub telegram_username: Option<Seq<char>>,
    pub base_context: ContextView,
}

/// A canonical account: the single identity conversations are stored under.
pub struct Account {
    pub id: String,
    pub telegram_username: Option<String>,
    pub base_context: ConversationContext,
}

impl View for Account {
    type V = AccountView;

    open spec fn view(&self) -> AccountView {
        AccountView {
            id: self.id@,
            telegram_username: crate::models::opt_view(self.telegram_username),
            base_context: self.base_context@,
        }
    }
}

/// Spec-level image of a secondary-platform identity record.
pub ghost struct SecondaryView {
    pub telegram_user_id: i64,
    pub telegram_username: Option<Seq<char>>,
    pub user_id: Option<Seq<char>>,
}

/// A record from the secondary chat platform: its numeric id, optional
/// handle, and optional link to a canonical account.
pub struct SecondaryIdentity {
    pub telegram_user_id: i64,
    pub telegram_username: Option<String>,
    pub user_id: Option<String>,
}

impl View for SecondaryIdentity {
    type V = SecondaryView;

    open spec fn view(&self) -> SecondaryView {
        SecondaryView {
            telegram_user_id: self.telegram_user_id,
            telegram_username: crate::models::opt_view(self.telegram_username),
            user_id: crate::models::opt_view(self.user_id),
        }
    }
}

/// Spec-level image of a conversation row.
pub ghost struct ConversationView {
    pub id: Seq<char>,
    pub user_id: Seq<char>,
    pub title: Option<Seq<char>>,
    pub created_at: Seq<char>,
}

/// A conversation: a thread of messages owned by exactly one account.
pub struct Conversation {
    pub id: String,
    pub user_id: String,
    pub title: Option<String>,
    pub created_at: String,
}

impl View for Conversation {
    type V = ConversationView;

    open spec fn view(&self) -> ConversationView {
        ConversationView {
            id: self.id@,
            user_id: self.user_id@,
            title: crate::models::opt_view(self.title),
            created_at: self.created_at@,
        }
    }
}

/// Spec-level image of one stored message.
pub ghost struct MessageView {
    pub id: Seq<char>,
    pub conversation_id: Seq<char>,
    pub user_id: Seq<char>,
    pub role: Seq<char>,
    pub content: Seq<char>,
    pub timestamp: Seq<char>,
}

/// One stored turn half: a `user` or `assistant` message in a conversation.
pub struct StoredMessage {
    pub id: String,
    pub conversation_id: String,
    pub user_id: String,
    pub role: String,
    pub content: String,
    pub timestamp: String,
}

impl View for StoredMessage {
    type V = MessageView;

    open spec fn view(&self) -> MessageView {
        MessageView {
            id: self.id@,
            conversation_id: self.conversation_id@,
            user_id: self.user_id@,
            role: self.role@,
            content: self.content@,
            timestamp: self.timestamp@,
        }
    }
}

impl Clone for Conversation {
    fn clone(&self) -> (r: Self)
        ensures
            r == *self,
    {
        Conversation {
            id: self.id.clone(),
            user_id: self.user_id.clone(),
            title: crate::models::clone_opt_string(&self.title),
            created_at: self.created_at.clone(),
        }
    }
}

impl Clone for StoredMessage {
    fn clone(&self) -> (r: Self)
        ensures
            r == *self,
    {
        StoredMessage {
            id: self.id.clone(),
            conversation_id: self.conversation_id.clone(),
            user_id: self.user_id.clone(),
            role: self.role.clone(),
            content: self.content.clone(),
            timestamp: self.timestamp.clone(),
        }
    }
}

/// Spec-level image of a persisted per-conversation context row.
pub ghost struct ContextRowView {
    pub conversation_id: Seq<char>,
    pub context: ContextView,
}

/// The persisted business context of one conversation.
pub struct ContextRow {
    pub conversation_id: String,
    pub context: ConversationContext,
}

impl View for ContextRow {
    type V = ContextRowView;

    open spec fn view(&self) -> ContextRowView {
        ContextRowView {
            conversation_id: self.conversation_id@,
            context: self.context@,
        }
    }
}

/// Spec-level image of a stored file attachment.
pub ghost struct FileRowView {
    pub id: Seq<char>,
    pub filename: Seq<char>,
    pub mime: Seq<char>,
    pub size: nat,
    pub bytes: Seq<u8>,
    pub message_id: Option<Seq<char>>,
}

/// A stored file derived from an assistant message.
pub struct FileRow {
    pub id: String,
    pub filename: String,
    pub mime: String,
    pub size: usize,
    pub bytes: Vec<u8>,
    pub message_id: Option<String>,
}

impl View for FileRow {
    type V = FileRowView;

    open spec fn view(&self) -> FileRowView {
        FileRowView {
            id: self.id@,
            filename: self.filename@,
            mime: self.mime@,
            size: self.size as nat,
            bytes: self.bytes@,
            message_id: crate::models::opt_view(self.message_id),
        }
    }
}

/// Spec-level image of the whole store.
pub ghost struct StoreView {
    pub accounts: Seq<AccountView>,
    pub secondary: Seq<SecondaryView>,
    pub conversations: Seq<ConversationView>,
    pub messages: Seq<MessageView>,
    pub contexts: Seq<ContextRowView>,
    pub files: Seq<FileRowView>,
}

/// The visible state of the backing store, modeled in memory. Rows keep
/// insertion order; conversations are inserted at creation time, so stored
/// order is creation order.
pub struct Store {
    pub accounts: Vec<Account>,
    pub secondary: Vec<SecondaryIdentity>,
    pub conversations: Vec<Conversation>,
    pub messages: Vec<StoredMessage>,
    pub contexts: Vec<ContextRow>,
    pub files: Vec<FileRow>,
}

impl View for Store {
    type V = StoreView;

    open spec fn view(&self) -> StoreView {
        StoreView {
            accounts: self.accounts@.map_values(|a: Account| a@),
            secondary: self.secondary@.map_values(|s: SecondaryIdentity| s@),
            conversations: self.conversations@.map_values(|c: Conversation| c@),
            messages: self.messages@.map_values(|m: StoredMessage| m@),
            contexts: self.contexts@.map_values(|c: ContextRow| c@),
            files: self.files@.map_values(|f: FileRow| f@),
        }
    }
}

/// Well-formedness of the store: account ids, secondary numeric ids and
/// conversation ids are unique, there is at most one context row per
/// conversation, and a secondary identity's account link always names an
/// existing account.
pub open spec fn store_wf(s: StoreView) -> bool {
    &&& forall|i: int, j: int|
        0 <= i < j < s.accounts.len() ==> (#[trigger] s.accounts[i]).id != (#[trigger] s.accounts[j]).id
    &&& forall|i: int, j: int|
        0 <= i < j < s.secondary.len()
            ==> (#[trigger] s.secondary[i]).telegram_user_id != (#[trigger] s.secondary[j]).telegram_user_id
    &&& forall|i: int, j: int|
        0 <= i < j < s.conversations.len()
            ==> (#[trigger] s.conversations[i]).id != (#[trigger] s.conversations[j]).id
    &&& forall|i: int, j: int|
        0 <= i < j < s.contexts.len()
            ==> (#[trigger] s.contexts[i]).conversation_id != (#[trigger] s.contexts[j]).conversation_id
    &&& forall|i: int|
        0 <= i < s.secondary.len() && (#[trigger] s.secondary[i]).user_id is Some
            ==> find_account_by_id(s.accounts, s.secondary[i].user_id->0) is Some
}

/// Index of the first account with the given id.
pub open spec fn find_account_by_id(accs: Seq<AccountView>, id: Seq<char>) -> Option<int>
    decreases accs.len(),
{
    if accs.len() == 0 {
        None
    } else if accs[0].id == id {
        Some(0)
    } else {
        match find_account_by_id(accs.drop_first(), id) {
            Some(j) => Some(j + 1),
            None => None,
        }
    }
}

/// Index of the first account whose handle is the given one.
pub open spec fn find_account_by_handle(accs: Seq<AccountView>, handle: Seq<char>) -> Option<int>
    decreases accs.len(),
{
    if accs.len() == 0 {
        None
    } else if accs[0].telegram_username == Some(handle) {
        Some(0)
    } else {
        match find_account_by_handle(accs.drop_first(), handle) {
            Some(j) => Some(j + 1),
            None => None,
        }
    }
}

/// Index of the first secondary identity with the given numeric id.
pub open spec fn find_secondary(secs: Seq<SecondaryView>, n: i64) -> Option<int>
    decreases secs.len(),
{
    if secs.len() == 0 {
        None
    } else if secs[0].telegram_user_id == n {
        Some(0)
    } else {
        match find_secondary(secs.drop_first(), n) {
            Some(j) => Some(j + 1),
            None => None,
        }
    }
}

/// Index of the first secondary identity carrying the given handle.
pub open spec fn find_secondary_by_handle(secs: Seq<SecondaryView>, handle: Seq<char>) -> Option<
    int,
>
    decreases secs.len(),
{
    if secs.len() == 0 {
        None
    } else if secs[0].telegram_username == Some(handle) {
        Some(0)
    } else {
        match find_secondary_by_handle(secs.drop_first(), handle) {
            Some(j) => Some(j + 1),
            None => None,
        }
    }
}

/// Index of the first conversation with the given id.
pub open spec fn find_conversation(convs: Seq<ConversationView>, id: Seq<char>) -> Option<int>
    decreases convs.len(),
{
    if convs.len() == 0 {
        None
    } else if convs[0].id == id {
        Some(0)
    } else {
        match find_conversation(convs.drop_first(), id) {
            Some(j) => Some(j + 1),
            None => None,
        }
    }
}

/// Index of the first context row for the given conversation.
pub open spec fn find_context(ctxs: Seq<ContextRowView>, cid: Seq<char>) -> Option<int>
    decreases ctxs.len(),
{
    if ctxs.len() == 0 {
        None
    } else if ctxs[0].conversation_id == cid {
        Some(0)
    } else {
        match find_context(ctxs.drop_first(), cid) {
            Some(j) => Some(j + 1),
            None => None,
        }
    }
}

/// A found index is in range and hits a matching account id, with no match
/// before it; absence means no account matches.
pub proof fn lemma_find_account_by_id_props(accs: Seq<AccountView>, id: Seq<char>)
    ensures
        match find_account_by_id(accs, id) {
            Some(i) => 0 <= i < accs.len() && accs[i].id == id && (forall|j: int|
                0 <= j < i ==> (#[trigger] accs[j]).id != id),
            None => forall|j: int| 0 <= j < accs.len() ==> (#[trigger] accs[j]).id != id,
        },
    decreases accs.len(),
{
    if accs.len() > 0 && accs[0].id != id {
        lemma_find_account_by_id_props(accs.drop_first(), id);
        let rest = accs.drop_first();
        match find_account_by_id(rest, id) {
            Some(j) => {
                assert(accs[j + 1] == rest[j]);
                assert forall|k: int| 0 <= k < j + 1 implies (#[trigger] accs[k]).id != id by {
                    if k > 0 {
                        assert(rest[k - 1] == accs[k]);
                    }
                }
            },
            None => {
                assert forall|k: int| 0 <= k < accs.len() implies (#[trigger] accs[k]).id
                    != id by {
                    if k > 0 {
                        assert(rest[k - 1] == accs[k]);
                    }
                }
            },
        }
    }
}

/// A found index is in range and hits a matching secondary id; absence means
/// no record matches.
pub proof fn lemma_find_secondary_props(secs: Seq<SecondaryView>, n: i64)
    ensures
        match find_secondary(secs, n) {
            Some(i) => 0 <= i < secs.len() && secs[i].telegram_user_id == n,
            None => forall|j: int|
                0 <= j < secs.len() ==> (#[trigger] secs[j]).telegram_user_id != n,
        },
    decreases secs.len(),
{
    if secs.len() > 0 && secs[0].telegram_user_id != n {
        lemma_find_secondary_props(secs.drop_first(), n);
        let rest = secs.drop_first();
        match find_secondary(rest, n) {
            Some(j) => {
                assert(secs[j + 1] == rest[j]);
            },
            None => {
                assert forall|k: int| 0 <= k < secs.len() implies (#[trigger] secs[k]).telegram_user_id
                    != n by {
                    if k > 0 {
                        assert(rest[k - 1] == secs[k]);
                    }
                }
            },
        }
    }
}

/// A found index is in range and hits a matching conversation id, with no
/// match before it; absence means no conversation matches.
pub proof fn lemma_find_conversation_props(convs: Seq<ConversationView>, id: Seq<char>)
    ensures
        match find_conversation(convs, id) {
            Some(i) => 0 <= i < convs.len() && convs[i].id == id && (forall|j: int|
                0 <= j < i ==> (#[trigger] convs[j]).id != id),
            None => forall|j: int| 0 <= j < convs.len() ==> (#[trigger] convs[j]).id != id,
        },
    decreases convs.len(),
{
    if convs.len() > 0 && convs[0].id != id {
        lemma_find_conversation_props(convs.drop_first(), id);
        let rest = convs.drop_first();
        match find_conversation(rest, id) {
            Some(j) => {
                assert(convs[j + 1] == rest[j]);
                assert forall|k: int| 0 <= k < j + 1 implies (#[trigger] convs[k]).id != id by {
                    if k > 0 {
                        assert(rest[k - 1] == convs[k]);
                    }
                }
            },
            None => {
                assert forall|k: int| 0 <= k < convs.len() implies (#[trigger] convs[k]).id
                    != id by {
                    if k > 0 {
                        assert(rest[k - 1] == convs[k]);
                    }
                }
            },
        }
    }
}

/// A found index is in range and hits a matching context row; absence means
/// no row matches.
pub proof fn lemma_find_context_props(ctxs: Seq<ContextRowView>, cid: Seq<char>)
    ensures
        match find_context(ctxs, cid) {
            Some(i) => 0 <= i < ctxs.len() && ctxs[i].conversation_id == cid,
            None => forall|j: int|
                0 <= j < ctxs.len() ==> (#[trigger] ctxs[j]).conversation_id != cid,
        },
    decreases ctxs.len(),
{
    if ctxs.len() > 0 && ctxs[0].conversation_id != cid {
        lemma_find_context_props(ctxs.drop_first(), cid);
        let rest = ctxs.drop_first();
        match find_context(rest, cid) {
            Some(j) => {
                assert(ctxs[j + 1] == rest[j]);
            },
            None => {
                assert forall|k: int| 0 <= k < ctxs.len() implies (#[trigger] ctxs[k]).conversation_id
                    != cid by {
                    if k > 0 {
                        assert(rest[k - 1] == ctxs[k]);
                    }
                }
            },
        }
    }
}

/// A found index is in range and hits a matching handle; absence means no
/// account carries it.
pub proof fn lemma_find_account_by_handle_props(accs: Seq<AccountView>, handle: Seq<char>)
    ensures
        match find_account_by_handle(accs, handle) {
            Some(i) => 0 <= i < accs.len() && accs[i].telegram_username == Some(handle),
            None => forall|j: int|
                0 <= j < accs.len() ==> (#[trigger] accs[j]).telegram_username != Some(handle),
        },
    decreases accs.len(),
{
    if accs.len() > 0 && accs[0].telegram_username != Some(handle) {
        lemma_find_account_by_handle_props(accs.drop_first(), handle);
        let rest = accs.drop_first();
        match find_account_by_handle(rest, handle) {
            Some(j) => {
                assert(accs[j + 1] == rest[j]);
            },
            None => {
                assert forall|k: int| 0 <= k < accs.len() implies (#[trigger] accs[k]).telegram_username
                    != Some(handle) by {
                    if k > 0 {
                        assert(rest[k - 1] == accs[k]);
                    }
                }
            },
        }
    }
}

impl Store {
    /// An empty store; trivially well formed.
    pub fn new() -> (r: Store)
        ensures
            r@.accounts.len() == 0,
            r@.secondary.len() == 0,
            r@.conversations.len() == 0,
            r@.messages.len() == 0,
            r@.contexts.len() == 0,
            r@.files.len() == 0,
            store_wf(r@),
    {
        Store {
            accounts: Vec::new(),
            secondary: Vec::new(),
            conversations: Vec::new(),
            messages: Vec::new(),
            contexts: Vec::new(),
            files: Vec::new(),
        }
    }

    /// Index of the first account with the given id, if any.
    pub fn account_index_by_id(&self, id: &str) -> (r: Option<usize>)
        ensures
            match r {
                Some(i) => find_account_by_id(self@.accounts, id@) == Some(i as int),
                None => find_account_by_id(self@.accounts, id@) is None,
            },
    {
        let ghost av = self@.accounts;
        proof {
            assert(av.skip(0) =~= av);
        }
        let mut i: usize = 0;
        while i < self.accounts.len()
            invariant
                0 <= i <= self.accounts.len(),
                av == self@.accounts,
                av.len() == self.accounts.len(),
                find_account_by_id(av.skip(i as int), id@) matches Some(j)
                    ==> find_account_by_id(av, id@) == Some(j + i),
                find_account_by_id(av.skip(i as int), id@) is None
                    ==> find_account_by_id(av, id@) is None,
            decreases self.accounts.len() - i,
        {
            if str_eq(self.accounts[i].id.as_str(), id) {
                proof {
                    assert(av.skip(i as int)[0] == av[i as int]);
                }
                return Some(i);
            }
            proof {
                assert(av.skip(i as int)[0] == av[i as int]);
                assert(av.skip(i as int).drop_first() =~= av.skip(i as int + 1));
            }
            i = i + 1;
        }
        proof {
            assert(av.skip(i as int).len() == 0);
        }
        None
    }

    /// Index of the first account carrying the given handle, if any.
    pub fn account_index_by_handle(&self, handle: &str) -> (r: Option<usize>)
        ensures
            match r {
                Some(i) => find_account_by_handle(self@.accounts, handle@) == Some(i as int),
                None => find_account_by_handle(self@.accounts, handle@) is None,
            },
    {
        let ghost av = self@.accounts;
        proof {
            assert(av.skip(0) =~= av);
        }
        let mut i: usize = 0;
        while i < self.accounts.len()
            invariant
                0 <= i <= self.accounts.len(),
                av == self@.accounts,
                av.len() == self.accounts.len(),
                find_account_by_handle(av.skip(i as int), handle@) matches Some(j)
                    ==> find_account_by_handle(av, handle@) == Some(j + i),
                find_account_by_handle(av.skip(i as int), handle@) is None
                    ==> find_account_by_handle(av, handle@) is None,
            decreases self.accounts.len() - i,
        {
            let matched = match &self.accounts[i].telegram_username {
                Some(u) => str_eq(u.as_str(), handle),
                None => false,
            };
            proof {
                assert(av.skip(i as int)[0] == av[i as int]);
            }
            if matched {
                return Some(i);
            }
            proof {
                assert(av.skip(i as int).drop_first() =~= av.skip(i as int + 1));
            }
            i = i + 1;
        }
        proof {
            assert(av.skip(i as int).len() == 0);
        }
        None
    }

    /// Index of the first secondary identity with the given numeric id.
    pub fn secondary_index(&self, n: i64) -> (r: Option<usize>)
        ensures
            match r {
                Some(i) => find_secondary(self@.secondary, n) == Some(i as int),
                None => find_secondary(self@.secondary, n) is None,
            },
    {
        let ghost sv = self@.secondary;
        proof {
            assert(sv.skip(0) =~= sv);
        }
        let mut i: usize = 0;
        while i < self.secondary.len()
            invariant
                0 <= i <= self.secondary.len(),
                sv == self@.secondary,
                sv.len() == self.secondary.len(),
                find_secondary(sv.skip(i as int), n) matches Some(j)
                    ==> find_secondary(sv, n) == Some(j + i),
                find_secondary(sv.skip(i as int), n) is None ==> find_secondary(sv, n) is None,
            decreases self.secondary.len() - i,
        {
            proof {
                assert(sv.skip(i as int)[0] == sv[i as int]);
            }
            if self.secondary[i].telegram_user_id == n {
                return Some(i);
            }
            proof {
                assert(sv.skip(i as int).drop_first() =~= sv.skip(i as int + 1));
            }
            i = i + 1;
        }
        proof {
            assert(sv.skip(i as int).len() == 0);
        }
        None
    }

    /// Index of the first conversation with the given id, if any.
    pub fn conversation_index(&self, id: &str) -> (r: Option<usize>)
        ensures
            match r {
                Some(i) => find_conversation(self@.conversations, id@) == Some(i as int),
                None => find_conversation(self@.conversations, id@) is None,
            },
    {
        let ghost cv = self@.conversations;
        proof {
            assert(cv.skip(0) =~= cv);
        }
        let mut i: usize = 0;
        while i < self.conversations.len()
            invariant
                0 <= i <= self.conversations.len(),
                cv == self@.conversations,
                cv.len() == self.conversations.len(),
                find_conversation(cv.skip(i as int), id@) matches Some(j)
                    ==> find_conversation(cv, id@) == Some(j + i),
                find_conversation(cv.skip(i as int), id@) is None
                    ==> find_conversation(cv, id@) is None,
            decreases self.conversations.len() - i,
        {
            proof {
                assert(cv.skip(i as int)[0] == cv[i as int]);
            }
            if str_eq(self.conversations[i].id.as_str(), id) {
                return Some(i);
            }
            proof {
                assert(cv.skip(i as int).drop_first() =~= cv.skip(i as int + 1));
            }
            i = i + 1;
        }
        proof {
            assert(cv.skip(i as int).len() == 0);
        }
        None
    }

    /// Index of the first context row for the given conversation, if any.
    pub fn context_index(&self, conversation_id: &str) -> (r: Option<usize>)
        ensures
            match r {
                Some(i) => find_context(self@.contexts, conversation_id@) == Some(i as int),
                None => find_context(self@.contexts, conversation_id@) is None,
            },
    {
        let ghost xv = self@.contexts;
        proof {
            assert(xv.skip(0) =~= xv);
        }
        let mut i: usize = 0;
        while i < self.contexts.len()
            invariant
                0 <= i <= self.contexts.len(),
                xv == self@.contexts,
                xv.len() == self.contexts.len(),
                find_context(xv.skip(i as int), conversation_id@) matches Some(j)
                    ==> find_context(xv, conversation_id@) == Some(j + i),
                find_context(xv.skip(i as int), conversation_id@) is None
                    ==> find_context(xv, conversation_id@) is None,
            decreases self.contexts.len() - i,
        {
            proof {
                assert(xv.skip(i as int)[0] == xv[i as int]);
            }
            if str_eq(self.contexts[i].conversation_id.as_str(), conversation_id) {
                return Some(i);
            }
            proof {
                assert(xv.skip(i as int).drop_first() =~= xv.skip(i as int + 1));
            }
            i = i + 1;
        }
        proof {
            assert(xv.skip(i as int).len() == 0);
        }
        None
    }
}

} // verus!
