//! Conversation management: resolve-or-create, appending turns, titles,
//! listing, deletion and renaming, over the store model.

use vstd::prelude::*;
use crate::models::{
    ContextView, ContextFilters, ConversationContext, ConversationSummary, SummaryView,
    MessageRecord, MessageRecordView,
};
use crate::context::{apply_context_update, spec_apply_update};
use crate::store::{
    Store, StoreView, Conversation, ConversationView, StoredMessage, MessageView, ContextRow,
    ContextRowView, find_conversation, find_context, lemma_find_conversation_props,
    lemma_find_context_props, store_wf,
};
use crate::text::str_eq;

verus! {

/// The error taxonomy of the chat subsystem.
#[derive(Clone, Copy, Debug, PartialEq, Eq, Structural)]
pub enum ChatError {
    /// Conversation id missing or owned by a different account.
    NotFoundOrNotOwned,
    /// Empty required field or malformed directive.
    ValidationError,
    /// Advisor service failure or timeout.
    UpstreamUnavailable,
    /// Store write failure.
    PersistenceFailure,
}

/// Relies on uuid's `Uuid::new_v4` and its `Display` impl: a fresh random
/// version-4 UUID rendered in the 36-character hyphenated form.
#[verifier::external_body]
pub(crate) fn fresh_uuid() -> (r: String)
    ensures
        r@.len() == 36,
{
    uuid::Uuid::new_v4().to_string()
}

/// Relies on chrono's `Utc::now` and `DateTime::to_rfc3339`: the current UTC
/// time rendered as a (non-empty) RFC 3339 timestamp.
#[verifier::external_body]
pub(crate) fn now_rfc3339() -> (r: String)
    ensures
        r@.len() > 0,
{
    chrono::Utc::now().to_rfc3339()
}

/// The view of an optional borrowed string.
pub open spec fn opt_ref_view(o: Option<&String>) -> Option<Seq<char>> {
    match o {
        Some(s) => Some(s@),
        None => None,
    }
}

/// The view of optional borrowed filters.
pub open spec fn opt_ref_filters_view(o: Option<&ContextFilters>) -> Option<ContextView> {
    match o {
        Some(f) => Some(f@),
        None => None,
    }
}

/// Whether a conversation with this id exists and is owned by the account.
pub open spec fn spec_conv_owned(s: StoreView, cid: Seq<char>, account: Seq<char>) -> bool {
    match find_conversation(s.conversations, cid) {
        Some(i) => s.conversations[i].user_id == account,
        None => false,
    }
}

/// The context table after a "set if provided" upsert: the row for the
/// conversation is updated field by field where the update provides a value,
/// or inserted with exactly the provided fields when absent.
pub open spec fn spec_upsert_context(
    ctxs: Seq<ContextRowView>,
    cid: Seq<char>,
    f: ContextView,
) -> Seq<ContextRowView> {
    match find_context(ctxs, cid) {
        Some(i) => ctxs.update(
            i,
            ContextRowView { conversation_id: cid, context: spec_apply_update(ctxs[i].context, f) },
        ),
        None => ctxs.push(ContextRowView { conversation_id: cid, context: f }),
    }
}

/// The store after creating a conversation with the given fresh id: the new
/// row is appended untitled, and the initial context, when given, is
/// upserted for it. A clash of the fresh id with an existing conversation is
/// swallowed, leaving the store unchanged.
pub open spec fn spec_create_conversation(
    s: StoreView,
    account: Seq<char>,
    new_id: Seq<char>,
    now: Seq<char>,
    f: Option<ContextView>,
) -> StoreView {
    if find_conversation(s.conversations, new_id) is Some {
        s
    } else {
        let s1 = StoreView {
            conversations: s.conversations.push(
                ConversationView { id: new_id, user_id: account, title: None, created_at: now },
            ),
            ..s
        };
        match f {
            Some(fv) => StoreView { contexts: spec_upsert_context(s1.contexts, new_id, fv), ..s1 },
            None => s1,
        }
    }
}

/// The result and store of resolve-or-create: an existing conversation owned
/// by the account is reused unchanged; otherwise a new one is created under
/// the fresh id.
pub open spec fn spec_get_or_create(
    s: StoreView,
    account: Seq<char>,
    cid: Option<Seq<char>>,
    f: Option<ContextView>,
    new_id: Seq<char>,
    now: Seq<char>,
) -> (Seq<char>, StoreView) {
    if cid is Some && spec_conv_owned(s, cid->0, account) {
        (cid->0, s)
    } else {
        (new_id, spec_create_conversation(s, account, new_id, now, f))
    }
}

/// Whether a title counts as unset: absent or empty.
pub open spec fn spec_title_unset(t: Option<Seq<char>>) -> bool {
    match t {
        None => true,
        Some(x) => x.len() == 0,
    }
}

/// The conversations after the automatic first-write-wins title update: the
/// row gets the title only while its current title is null or empty.
pub open spec fn spec_set_title_if_unset(
    convs: Seq<ConversationView>,
    cid: Seq<char>,
    title: Seq<char>,
) -> Seq<ConversationView> {
    match find_conversation(convs, cid) {
        Some(i) => if spec_title_unset(convs[i].title) {
            convs.update(i, ConversationView { title: Some(title), ..convs[i] })
        } else {
            convs
        },
        None => convs,
    }
}

/// The messages of one appended turn: exactly one `user` message followed by
/// exactly one `assistant` message, both tagged with the account.
pub open spec fn spec_turn_messages(
    cid: Seq<char>,
    account: Seq<char>,
    user_text: Seq<char>,
    assistant_text: Seq<char>,
    user_id: Seq<char>,
    asst_id: Seq<char>,
    t1: Seq<char>,
    t2: Seq<char>,
) -> (Seq<MessageView>, Seq<MessageView>) {
    (
        seq![
            MessageView {
                id: user_id,
                conversation_id: cid,
                user_id: account,
                role: "user"@,
                content: user_text,
                timestamp: t1,
            },
        ],
        seq![
            MessageView {
                id: asst_id,
                conversation_id: cid,
                user_id: account,
                role: "assistant"@,
                content: assistant_text,
                timestamp: t2,
            },
        ],
    )
}

/// The store's messages with every message of one conversation removed.
pub open spec fn msgs_without(msgs: Seq<MessageView>, cid: Seq<char>) -> Seq<MessageView> {
    msgs.filter(|m: MessageView| m.conversation_id != cid)
}

/// The store after a successful delete: all messages of the conversation go
/// first, then the conversation row itself; its context row is not touched.
pub open spec fn spec_deleted_store(s: StoreView, cid: Seq<char>, i: int) -> StoreView {
    StoreView {
        messages: msgs_without(s.messages, cid),
        conversations: s.conversations.remove(i),
        ..s
    }
}

/// The history of one conversation: its messages in stored (append) order.
pub open spec fn spec_history(msgs: Seq<MessageView>, cid: Seq<char>) -> Seq<MessageRecordView> {
    msgs.filter(|m: MessageView| m.conversation_id == cid).map_values(
        |m: MessageView| MessageRecordView {
            id: m.id,
            role: m.role,
            content: m.content,
            timestamp: m.timestamp,
        },
    )
}

/// One conversation summary, joined with its context row if one exists.
pub open spec fn spec_summary_of(c: ConversationView, ctxs: Seq<ContextRowView>) -> SummaryView {
    SummaryView {
        id: c.id,
        user_id: c.user_id,
        title: c.title,
        created_at: c.created_at,
        context: match find_context(ctxs, c.id) {
            Some(i) => Some(ctxs[i].context),
            None => None,
        },
    }
}

/// The summaries of the conversations at indices `i..` owned by the account,
/// newest (last inserted) first. Stored order is creation order, so this is
/// creation time descending.
pub open spec fn spec_summaries_from(
    convs: Seq<ConversationView>,
    ctxs: Seq<ContextRowView>,
    account: Seq<char>,
    i: int,
) -> Seq<SummaryView>
    decreases convs.len() - i,
{
    if i < 0 || i >= convs.len() {
        Seq::empty()
    } else {
        spec_summaries_from(convs, ctxs, account, i + 1) + (if convs[i].user_id == account {
            seq![spec_summary_of(convs[i], ctxs)]
        } else {
            Seq::empty()
        })
    }
}

impl Store {
    /// Persists per-message filters into the conversation's stored context by
    /// the per-field "overwrite if provided" upsert.
    pub fn save_conversation_context(&mut self, conversation_id: &str, context: &ContextFilters)
        ensures
            final(self)@ == (StoreView {
                contexts: spec_upsert_context(old(self)@.contexts, conversation_id@, context@),
                ..old(self)@
            }),
            store_wf(old(self)@) ==> store_wf(final(self)@),
    {
        proof {
            lemma_find_context_props(self@.contexts, conversation_id@);
        }
        match self.context_index(conversation_id) {
            Some(i) => {
                let updated = apply_context_update(&self.contexts[i].context, context);
                let row = ContextRow {
                    conversation_id: self.contexts[i].conversation_id.clone(),
                    context: updated,
                };
                self.contexts[i] = row;
                proof {
                    let oldc = old(self)@.contexts;
                    let newc = spec_upsert_context(oldc, conversation_id@, context@);
                    assert(self@.contexts =~= newc);
                    assert(final(self)@ == (StoreView { contexts: newc, ..old(self)@ }));
                    if store_wf(old(self)@) {
                        assert forall|a: int, b: int|
                            0 <= a < b < self@.contexts.len() implies (
                        #[trigger] self@.contexts[a]).conversation_id != (
                        #[trigger] self@.contexts[b]).conversation_id by {
                            assert(oldc[a].conversation_id == self@.contexts[a].conversation_id);
                            assert(oldc[b].conversation_id == self@.contexts[b].conversation_id);
                        }
                    }
                }
            },
            None => {
                let row = ContextRow {
                    conversation_id: conversation_id.to_owned(),
                    context: filters_to_context(context),
                };
                self.contexts.push(row);
                proof {
                    let oldc = old(self)@.contexts;
                    let newc = spec_upsert_context(oldc, conversation_id@, context@);
                    assert(self@.contexts =~= newc);
                    if store_wf(old(self)@) {
                        assert forall|a: int, b: int|
                            0 <= a < b < self@.contexts.len() implies (
                        #[trigger] self@.contexts[a]).conversation_id != (
                        #[trigger] self@.contexts[b]).conversation_id by {
                            if b == self@.contexts.len() - 1 {
                                assert(oldc[a].conversation_id != conversation_id@);
                            }
                        }
                    }
                }
            },
        }
    }

    /// Resolve-or-create with the fresh id and timestamp given by the caller:
    /// reuses the conversation when it exists and is owned by the account,
    /// else creates a new untitled one under `new_id` and persists the
    /// initial context if given. The check and the insert are two separate
    /// steps, as in the backing store.
    pub fn get_or_create_conversation_at(
        &mut self,
        account_id: &str,
        conversation_id: Option<&String>,
        initial_context: Option<&ContextFilters>,
        new_id: String,
        now: String,
    ) -> (r: String)
        ensures
            (r@, final(self)@) == spec_get_or_create(
                old(self)@,
                account_id@,
                opt_ref_view(conversation_id),
                opt_ref_filters_view(initial_context),
                new_id@,
                now@,
            ),
            store_wf(old(self)@) ==> store_wf(final(self)@),
    {
        if let Some(cid) = conversation_id {
            proof {
                lemma_find_conversation_props(self@.conversations, cid@);
            }
            if let Some(i) = self.conversation_index(cid.as_str()) {
                if str_eq(self.conversations[i].user_id.as_str(), account_id) {
                    return cid.clone();
                }
            }
        }
        proof {
            lemma_find_conversation_props(self@.conversations, new_id@);
        }
        if self.conversation_index(new_id.as_str()).is_some() {
            return new_id;
        }
        let conv = Conversation {
            id: new_id.clone(),
            user_id: account_id.to_owned(),
            title: None,
            created_at: now,
        };
        self.conversations.push(conv);
        proof {
            let oldv = old(self)@;
            assert(self@.conversations =~= oldv.conversations.push(
                ConversationView {
                    id: new_id@,
                    user_id: account_id@,
                    title: None,
                    created_at: now@,
                },
            ));
            if store_wf(oldv) {
                assert forall|a: int, b: int|
                    0 <= a < b < self@.conversations.len() implies (
                #[trigger] self@.conversations[a]).id != (#[trigger] self@.conversations[b]).id by {
                    if b == self@.conversations.len() - 1 {
                        assert(oldv.conversations[a].id != new_id@);
                    }
                }
            }
        }
        if let Some(f) = initial_context {
            self.save_conversation_context(new_id.as_str(), f);
        }
        new_id
    }

    /// Resolve-or-create: as `get_or_create_conversation_at`, with the fresh
    /// id and timestamp drawn from the UUID generator and the clock.
    pub fn get_or_create_conversation(
        &mut self,
        account_id: &str,
        conversation_id: Option<&String>,
        initial_context: Option<&ContextFilters>,
    ) -> (r: String)
        ensures
            exists|now: Seq<char>|
                (r@, final(self)@) == spec_get_or_create(
                    old(self)@,
                    account_id@,
                    opt_ref_view(conversation_id),
                    opt_ref_filters_view(initial_context),
                    r@,
                    now,
                ),
            store_wf(old(self)@) ==> store_wf(final(self)@),
    {
        let new_id = fresh_uuid();
        let now = now_rfc3339();
        let ghost now_v = now@;
        let ghost nid_v = new_id@;
        let r = self.get_or_create_conversation_at(
            account_id,
            conversation_id,
            initial_context,
            new_id,
            now,
        );
        proof {
            if opt_ref_view(conversation_id) is Some && spec_conv_owned(
                old(self)@,
                opt_ref_view(conversation_id)->0,
                account_id@,
            ) {
                assert((r@, self@) == spec_get_or_create(
                    old(self)@,
                    account_id@,
                    opt_ref_view(conversation_id),
                    opt_ref_filters_view(initial_context),
                    r@,
                    now_v,
                ));
            } else {
                assert(r@ == nid_v);
            }
        }
        r
    }

    /// Appends one turn with the given ids and timestamps: exactly one `user`
    /// message then one `assistant` message, both tagged with the account.
    pub fn append_turn_at(
        &mut self,
        conversation_id: &str,
        account_id: &str,
        user_text: &str,
        assistant_text: &str,
        user_msg_id: String,
        asst_msg_id: String,
        t1: String,
        t2: String,
    ) -> (r: (String, String))
        ensures
            ({
                let (um, am) = spec_turn_messages(
                    conversation_id@,
                    account_id@,
                    user_text@,
                    assistant_text@,
                    r.0@,
                    r.1@,
                    t1@,
                    t2@,
                );
                final(self)@ == (StoreView {
                    messages: old(self)@.messages + um + am,
                    ..old(self)@
                })
            }),
            r.0@ == user_msg_id@,
            r.1@ == asst_msg_id@,
            store_wf(old(self)@) ==> store_wf(final(self)@),
    {
        let m1 = StoredMessage {
            id: user_msg_id.clone(),
            conversation_id: conversation_id.to_owned(),
            user_id: account_id.to_owned(),
            role: user_role_label(),
            content: user_text.to_owned(),
            timestamp: t1,
        };
        let m2 = StoredMessage {
            id: asst_msg_id.clone(),
            conversation_id: conversation_id.to_owned(),
            user_id: account_id.to_owned(),
            role: assistant_role_label(),
            content: assistant_text.to_owned(),
            timestamp: t2,
        };
        self.messages.push(m1);
        self.messages.push(m2);
        proof {
            let (um, am) = spec_turn_messages(
                conversation_id@,
                account_id@,
                user_text@,
                assistant_text@,
                user_msg_id@,
                asst_msg_id@,
                t1@,
                t2@,
            );
            assert(self@.messages =~= old(self)@.messages + um + am);
        }
        (user_msg_id, asst_msg_id)
    }

    /// Appends one turn, drawing the two message ids and the two timestamps
    /// from the UUID generator and the clock; the `user` message is
    /// timestamped first.
    pub fn append_turn(
        &mut self,
        conversation_id: &str,
        account_id: &str,
        user_text: &str,
        assistant_text: &str,
    ) -> (r: (String, String))
        ensures
            exists|t1: Seq<char>, t2: Seq<char>|
                #![trigger spec_turn_messages(
                    conversation_id@,
                    account_id@,
                    user_text@,
                    assistant_text@,
                    r.0@,
                    r.1@,
                    t1,
                    t2,
                )]
                final(self)@ == (StoreView {
                    messages: old(self)@.messages + spec_turn_messages(
                        conversation_id@,
                        account_id@,
                        user_text@,
                        assistant_text@,
                        r.0@,
                        r.1@,
                        t1,
                        t2,
                    ).0 + spec_turn_messages(
                        conversation_id@,
                        account_id@,
                        user_text@,
                        assistant_text@,
                        r.0@,
                        r.1@,
                        t1,
                        t2,
                    ).1,
                    ..old(self)@
                }),
            store_wf(old(self)@) ==> store_wf(final(self)@),
    {
        let user_msg_id = fresh_uuid();
        let t1 = now_rfc3339();
        let asst_msg_id = fresh_uuid();
        let t2 = now_rfc3339();
        let ghost g1 = t1@;
        let ghost g2 = t2@;
        let r = self.append_turn_at(
            conversation_id,
            account_id,
            user_text,
            assistant_text,
            user_msg_id,
            asst_msg_id,
            t1,
            t2,
        );
        proof {
            assert(final(self)@ == (StoreView {
                messages: old(self)@.messages + spec_turn_messages(
                    conversation_id@,
                    account_id@,
                    user_text@,
                    assistant_text@,
                    r.0@,
                    r.1@,
                    g1,
                    g2,
                ).0 + spec_turn_messages(
                    conversation_id@,
                    account_id@,
                    user_text@,
                    assistant_text@,
                    r.0@,
                    r.1@,
                    g1,
                    g2,
                ).1,
                ..old(self)@
            }));
        }
        r
    }

    /// Sets a conversation's title only while it is currently null or empty:
    /// the automatic first-write-wins path. A missing conversation is left
    /// alone; this never fails.
    pub fn set_title_if_unset(&mut self, conversation_id: &str, title: &str)
        ensures
            final(self)@ == (StoreView {
                conversations: spec_set_title_if_unset(
                    old(self)@.conversations,
                    conversation_id@,
                    title@,
                ),
                ..old(self)@
            }),
            store_wf(old(self)@) ==> store_wf(final(self)@),
    {
        proof {
            lemma_find_conversation_props(self@.conversations, conversation_id@);
        }
        if let Some(i) = self.conversation_index(conversation_id) {
            let unset = match &self.conversations[i].title {
                None => true,
                Some(t) => t.as_str().is_empty(),
            };
            if unset {
                let row = Conversation {
                    id: self.conversations[i].id.clone(),
                    user_id: self.conversations[i].user_id.clone(),
                    title: Some(title.to_owned()),
                    created_at: self.conversations[i].created_at.clone(),
                };
                self.conversations[i] = row;
                proof {
                    assert(self@.conversations =~= spec_set_title_if_unset(
                        old(self)@.conversations,
                        conversation_id@,
                        title@,
                    ));
                    if store_wf(old(self)@) {
                        let oldc = old(self)@.conversations;
                        assert forall|a: int, b: int|
                            0 <= a < b < self@.conversations.len() implies (
                        #[trigger] self@.conversations[a]).id != (
                        #[trigger] self@.conversations[b]).id by {
                            assert(oldc[a].id == self@.conversations[a].id);
                            assert(oldc[b].id == self@.conversations[b].id);
                        }
                    }
                }
            }
        }
    }

    /// Unconditionally renames a conversation owned by the account, including
    /// clearing its title with `None`; fails with `NotFoundOrNotOwned` when no
    /// conversation matches both id and owner.
    pub fn rename_conversation(
        &mut self,
        conversation_id: &str,
        account_id: &str,
        title: Option<&String>,
    ) -> (r: Result<(), ChatError>)
        requires
            store_wf(old(self)@),
        ensures
            store_wf(final(self)@),
            match find_conversation(old(self)@.conversations, conversation_id@) {
                Some(i) => if old(self)@.conversations[i].user_id == account_id@ {
                    r is Ok && final(self)@ == (StoreView {
                        conversations: old(self)@.conversations.update(
                            i,
                            ConversationView {
                                title: opt_ref_view(title),
                                ..old(self)@.conversations[i]
                            },
                        ),
                        ..old(self)@
                    })
                } else {
                    r == Err::<(), ChatError>(ChatError::NotFoundOrNotOwned) && final(self)@ == old(
                        self,
                    )@
                },
                None => r == Err::<(), ChatError>(ChatError::NotFoundOrNotOwned) && final(self)@
                    == old(self)@,
            },
    {
        proof {
            lemma_find_conversation_props(self@.conversations, conversation_id@);
        }
        if let Some(i) = self.conversation_index(conversation_id) {
            if str_eq(self.conversations[i].user_id.as_str(), account_id) {
                let new_title = match title {
                    Some(t) => Some(t.clone()),
                    None => None,
                };
                let row = Conversation {
                    id: self.conversations[i].id.clone(),
                    user_id: self.conversations[i].user_id.clone(),
                    title: new_title,
                    created_at: self.conversations[i].created_at.clone(),
                };
                self.conversations[i] = row;
                proof {
                    assert(self@.conversations =~= old(self)@.conversations.update(
                        i as int,
                        ConversationView {
                            title: opt_ref_view(title),
                            ..old(self)@.conversations[i as int]
                        },
                    ));
                    let oldc = old(self)@.conversations;
                    assert forall|a: int, b: int|
                        0 <= a < b < self@.conversations.len() implies (
                    #[trigger] self@.conversations[a]).id != (
                    #[trigger] self@.conversations[b]).id by {
                        assert(oldc[a].id == self@.conversations[a].id);
                        assert(oldc[b].id == self@.conversations[b].id);
                    }
                }
                return Ok(());
            }
        }
        Err(ChatError::NotFoundOrNotOwned)
    }

    /// Deletes a conversation owned by the account: its messages first, then
    /// the conversation row; the context row stays. Fails with
    /// `NotFoundOrNotOwned` when no conversation matches both id and owner.
    pub fn delete_conversation(&mut self, conversation_id: &str, account_id: &str) -> (r: Result<
        (),
        ChatError,
    >)
        requires
            store_wf(old(self)@),
        ensures
            store_wf(final(self)@),
            match find_conversation(old(self)@.conversations, conversation_id@) {
                Some(i) => if old(self)@.conversations[i].user_id == account_id@ {
                    r is Ok && final(self)@ == spec_deleted_store(old(self)@, conversation_id@, i)
                } else {
                    r == Err::<(), ChatError>(ChatError::NotFoundOrNotOwned) && final(self)@ == old(
                        self,
                    )@
                },
                None => r == Err::<(), ChatError>(ChatError::NotFoundOrNotOwned) && final(self)@
                    == old(self)@,
            },
    {
        proof {
            lemma_find_conversation_props(self@.conversations, conversation_id@);
        }
        if let Some(i) = self.conversation_index(conversation_id) {
            if str_eq(self.conversations[i].user_id.as_str(), account_id) {
                self.remove_messages_of(conversation_id);
                self.conversations.remove(i);
                proof {
                    let oldc = old(self)@.conversations;
                    assert(self@.conversations =~= oldc.remove(i as int));
                    assert forall|a: int, b: int|
                        0 <= a < b < self@.conversations.len() implies (
                    #[trigger] self@.conversations[a]).id != (
                    #[trigger] self@.conversations[b]).id by {
                        let a0 = if a < i { a } else { a + 1 };
                        let b0 = if b < i { b } else { b + 1 };
                        assert(self@.conversations[a] == oldc[a0]);
                        assert(self@.conversations[b] == oldc[b0]);
                    }
                }
                return Ok(());
            }
        }
        Err(ChatError::NotFoundOrNotOwned)
    }

    /// Removes every message of one conversation, keeping the others in
    /// order.
    fn remove_messages_of(&mut self, conversation_id: &str)
        ensures
            final(self)@ == (StoreView {
                messages: msgs_without(old(self)@.messages, conversation_id@),
                ..old(self)@
            }),
    {
        let ghost mv = self@.messages;
        let ghost pred = |m: MessageView| m.conversation_id != conversation_id@;
        let mut kept: Vec<StoredMessage> = Vec::new();
        let mut i: usize = 0;
        proof {
            reveal(Seq::filter);
            assert(mv.take(0) =~= Seq::<MessageView>::empty());
        }
        while i < self.messages.len()
            invariant
                0 <= i <= self.messages.len(),
                mv == self@.messages,
                mv.len() == self.messages.len(),
                pred == (|m: MessageView| m.conversation_id != conversation_id@),
                kept@.map_values(|m: StoredMessage| m@) == mv.take(i as int).filter(pred),
            decreases self.messages.len() - i,
        {
            let ghost prev = kept@.map_values(|m: StoredMessage| m@);
            let keep = !str_eq(self.messages[i].conversation_id.as_str(), conversation_id);
            if keep {
                let m = self.messages[i].clone();
                kept.push(m);
            }
            proof {
                reveal(Seq::filter);
                assert(mv.take(i + 1).drop_last() =~= mv.take(i as int));
                assert(mv.take(i + 1).last() == mv[i as int]);
                if keep {
                    assert(kept@.map_values(|m: StoredMessage| m@) =~= prev.push(mv[i as int]));
                } else {
                    assert(kept@.map_values(|m: StoredMessage| m@) =~= prev);
                }
            }
            i = i + 1;
        }
        proof {
            assert(mv.take(mv.len() as int) =~= mv);
        }
        self.messages = kept;
    }

    /// The history of one conversation: its messages in stored (append)
    /// order, as plain records.
    pub fn get_conversation_history(&self, conversation_id: &str) -> (r: Vec<MessageRecord>)
        ensures
            r@.map_values(|m: MessageRecord| m@) == spec_history(self@.messages, conversation_id@),
    {
        let ghost mv = self@.messages;
        let ghost pred = |m: MessageView| m.conversation_id == conversation_id@;
        let ghost tor = |m: MessageView| MessageRecordView {
            id: m.id,
            role: m.role,
            content: m.content,
            timestamp: m.timestamp,
        };
        let mut out: Vec<MessageRecord> = Vec::new();
        let mut i: usize = 0;
        proof {
            reveal(Seq::filter);
            assert(mv.take(0) =~= Seq::<MessageView>::empty());
            assert(out@.map_values(|m: MessageRecord| m@) =~= mv.take(0).filter(pred).map_values(
                tor,
            ));
        }
        while i < self.messages.len()
            invariant
                0 <= i <= self.messages.len(),
                mv == self@.messages,
                mv.len() == self.messages.len(),
                pred == (|m: MessageView| m.conversation_id == conversation_id@),
                tor == (|m: MessageView| MessageRecordView {
                    id: m.id,
                    role: m.role,
                    content: m.content,
                    timestamp: m.timestamp,
                }),
                out@.map_values(|m: MessageRecord| m@) == mv.take(i as int).filter(pred).map_values(
                    tor,
                ),
            decreases self.messages.len() - i,
        {
            let ghost prev = out@.map_values(|m: MessageRecord| m@);
            let matched = str_eq(self.messages[i].conversation_id.as_str(), conversation_id);
            if matched {
                let m = &self.messages[i];
                out.push(
                    MessageRecord {
                        id: m.id.clone(),
                        role: m.role.clone(),
                        content: m.content.clone(),
                        timestamp: m.timestamp.clone(),
                    },
                );
            }
            proof {
                reveal(Seq::filter);
                assert(mv.take(i + 1).drop_last() =~= mv.take(i as int));
                assert(mv.take(i + 1).last() == mv[i as int]);
                if matched {
                    assert(mv.take(i + 1).filter(pred) =~= mv.take(i as int).filter(pred).push(
                        mv[i as int],
                    ));
                    assert(out@.map_values(|m: MessageRecord| m@) =~= prev.push(tor(mv[i as int])));
                    assert(mv.take(i + 1).filter(pred).map_values(tor) =~= mv.take(
                        i as int,
                    ).filter(pred).map_values(tor).push(tor(mv[i as int])));
                } else {
                    assert(mv.take(i + 1).filter(pred) =~= mv.take(i as int).filter(pred));
                    assert(out@.map_values(|m: MessageRecord| m@) =~= prev);
                }
            }
            i = i + 1;
        }
        proof {
            assert(mv.take(mv.len() as int) =~= mv);
        }
        out
    }

    /// Lists the account's conversations newest first, each joined with its
    /// stored context if present.
    pub fn list_conversations(&self, account_id: &str) -> (r: Vec<ConversationSummary>)
        ensures
            r@.map_values(|s: ConversationSummary| s@) == spec_summaries_from(
                self@.conversations,
                self@.contexts,
                account_id@,
                0,
            ),
    {
        let ghost cv = self@.conversations;
        let ghost xv = self@.contexts;
        let mut out: Vec<ConversationSummary> = Vec::new();
        let mut i: usize = self.conversations.len();
        while i > 0
            invariant
                0 <= i <= self.conversations.len(),
                cv == self@.conversations,
                xv == self@.contexts,
                cv.len() == self.conversations.len(),
                out@.map_values(|s: ConversationSummary| s@) == spec_summaries_from(
                    cv,
                    xv,
                    account_id@,
                    i as int,
                ),
            decreases i,
        {
            i = i - 1;
            let ghost prev = out@.map_values(|s: ConversationSummary| s@);
            if str_eq(self.conversations[i].user_id.as_str(), account_id) {
                let c = &self.conversations[i];
                let context = match self.context_index(c.id.as_str()) {
                    Some(ci) => {
                        proof {
                            lemma_find_context_props(xv, cv[i as int].id);
                        }
                        Some(self.contexts[ci].context.clone())
                    },
                    None => None,
                };
                out.push(
                    ConversationSummary {
                        id: c.id.clone(),
                        user_id: c.user_id.clone(),
                        title: crate::models::clone_opt_string(&c.title),
                        created_at: c.created_at.clone(),
                        context,
                    },
                );
                proof {
                    assert(out@.map_values(|s: ConversationSummary| s@) =~= prev.push(
                        spec_summary_of(cv[i as int], xv),
                    ));
                    assert(spec_summaries_from(cv, xv, account_id@, i as int) =~= prev.push(
                        spec_summary_of(cv[i as int], xv),
                    ));
                }
            } else {
                proof {
                    assert(spec_summaries_from(cv, xv, account_id@, i as int) =~= prev);
                }
            }
        }
        out
    }
}

/// The stored role label of the user half of a turn.
fn user_role_label() -> (r: String)
    ensures
        r@ == "user"@,
{
    let r: &str = "user";
    r.to_owned()
}

/// The stored role label of the assistant half of a turn.
fn assistant_role_label() -> (r: String)
    ensures
        r@ == "assistant"@,
{
    let r: &str = "assistant";
    r.to_owned()
}

/// Converts per-message filters into a stored context row value, field for
/// field.
fn filters_to_context(f: &ContextFilters) -> (r: ConversationContext)
    ensures
        r@ == f@,
{
    ConversationContext {
        user_role: crate::models::clone_opt_string(&f.user_role),
        business_stage: crate::models::clone_opt_string(&f.business_stage),
        goal: crate::models::clone_opt_string(&f.goal),
        urgency: crate::models::clone_opt_string(&f.urgency),
        region: crate::models::clone_opt_string(&f.region),
        business_niche: crate::models::clone_opt_string(&f.business_niche),
    }
}

/// Law: deletion is not idempotent. Once a conversation is deleted, no
/// conversation with its id remains, so a second delete of the same id (by
/// any account) reports `NotFoundOrNotOwned` rather than succeeding again.
pub proof fn lemma_delete_twice(s: StoreView, cid: Seq<char>, account: Seq<char>, i: int)
    requires
        store_wf(s),
        find_conversation(s.conversations, cid) == Some(i),
        s.conversations[i].user_id == account,
    ensures
        find_conversation(spec_deleted_store(s, cid, i).conversations, cid) is None,
        !spec_conv_owned(spec_deleted_store(s, cid, i), cid, account),
{
    lemma_find_conversation_props(s.conversations, cid);
    let newc = spec_deleted_store(s, cid, i).conversations;
    assert forall|k: int| 0 <= k < newc.len() implies (#[trigger] newc[k]).id != cid by {
        let k0 = if k < i {
            k
        } else {
            k + 1
        };
        assert(newc[k] == s.conversations[k0]);
        if k0 != i {
            assert(s.conversations[k0].id != s.conversations[i].id || !store_wf(s) || true);
            if k0 < i {
                assert(s.conversations[k0].id != s.conversations[i].id);
            } else {
                assert(s.conversations[i].id != s.conversations[k0].id);
            }
        }
    }
    lemma_find_conversation_props(newc, cid);
    if find_conversation(newc, cid) is Some {
        let j = find_conversation(newc, cid)->0;
        assert(newc[j].id == cid);
    }
}

/// Law: an explicit rename with no title clears an existing title, while the
/// automatic first-write-wins path never changes a non-empty title.
pub proof fn lemma_rename_clears_but_auto_keeps(
    convs: Seq<ConversationView>,
    cid: Seq<char>,
    i: int,
    t: Seq<char>,
)
    requires
        find_conversation(convs, cid) == Some(i),
        convs[i].title matches Some(x) && x.len() > 0,
    ensures
        convs.update(i, ConversationView { title: None, ..convs[i] })[i].title is None,
        spec_set_title_if_unset(convs, cid, t) == convs,
{
    lemma_find_conversation_props(convs, cid);
}

} // verus!
