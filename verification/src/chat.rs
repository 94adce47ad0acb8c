//! The chat turn pipeline: validate the request, resolve the identity,
//! resolve or create the conversation, merge the context layers and build
//! the advisor call (the prepare half); then take the advisor's raw reply,
//! extract title and directive, persist the turn and generate any file (the
//! complete half). The advisor call itself happens between the two halves,
//! outside the library.

use vstd::prelude::*;
use vstd::string::StrSliceExecFns;
use vstd::string::StringExecFns;
use crate::models::{
    ChatRequest, ContextFilters, ConversationContext, ContextView, TableSpec, TableView,
    FileAttachment, MessageRecordView, empty_context, opt_view, clone_opt_string,
};
use crate::context::{merge_contexts, spec_merge};
use crate::store::{
    Store, StoreView, find_account_by_id, find_context, store_wf, lemma_find_account_by_id_props,
    lemma_find_context_props,
};
use crate::manager::{
    ChatError, spec_get_or_create, spec_set_title_if_unset, spec_turn_messages, opt_ref_view,
};
use crate::identity::spec_resolve;
use crate::i18n::{Locale, locale_of_tag, spec_locale_of_tag};
use crate::prompt::{get_system_prompt_with_context, build_chat_messages, spec_prompt, spec_chat_messages};
use crate::extract::{
    extract_title, derive_title, extract_file_intent, parse_markdown_table,
    detect_format_from_message, spec_extract_title, spec_derive_title, spec_extract_file_intent,
    spec_markdown_table, spec_detect_format,
};
use crate::files::{spec_csv_bytes};
use crate::text::{str_eq, spec_lower};

verus! {

/// The locale a request selects: its explicit language tag when given, else
/// the locale detected from the transport.
pub open spec fn spec_request_locale(language: Option<Seq<char>>, fallback: Locale) -> Locale {
    match language {
        Some(t) => spec_locale_of_tag(t),
        None => fallback,
    }
}

/// The advisor category, defaulting to general.
pub open spec fn spec_category(c: Option<Seq<char>>) -> Seq<char> {
    match c {
        Some(x) => x,
        None => "general"@,
    }
}

/// The business type, defaulting to the locale's phrase for a general
/// business.
pub open spec fn spec_business_type(b: Option<Seq<char>>, locale: Locale) -> Seq<char> {
    match b {
        Some(x) => x,
        None => match locale {
            Locale::Ru => "общий бизнес"@,
            Locale::En => "general business"@,
        },
    }
}

/// The account's profile-level base context: its stored role, stage, region
/// and niche; the per-request goal and urgency fields are never profile
/// defaults. An unknown account contributes no field.
pub open spec fn spec_base_context(s: StoreView, account: Seq<char>) -> ContextView {
    match find_account_by_id(s.accounts, account) {
        Some(i) => ContextView {
            user_role: s.accounts[i].base_context.user_role,
            business_stage: s.accounts[i].base_context.business_stage,
            goal: None,
            urgency: None,
            region: s.accounts[i].base_context.region,
            business_niche: s.accounts[i].base_context.business_niche,
        },
        None => empty_context(),
    }
}

/// The conversation's persisted context, if a row exists.
pub open spec fn spec_conversation_context(s: StoreView, cid: Seq<char>) -> Option<ContextView> {
    match find_context(s.contexts, cid) {
        Some(i) => Some(s.contexts[i].context),
        None => None,
    }
}

/// The view of an optional spec-level context layer.
pub open spec fn opt_ctx_layer(o: Option<ContextView>) -> ContextView {
    match o {
        Some(c) => c,
        None => empty_context(),
    }
}

/// The view of the optional filters field.
pub open spec fn filters_field_view(f: Option<ContextFilters>) -> ContextView {
    match f {
        Some(x) => x@,
        None => empty_context(),
    }
}

/// The optional view of the optional filters field.
pub open spec fn filters_field_opt(f: Option<ContextFilters>) -> Option<ContextView> {
    match f {
        Some(x) => Some(x@),
        None => None,
    }
}

/// The (role, content) pairs of a conversation's history, in stored order.
pub open spec fn spec_history_pairs(msgs: Seq<crate::store::MessageView>, cid: Seq<char>) -> Seq<
    (Seq<char>, Seq<char>),
> {
    crate::manager::spec_history(msgs, cid).map_values(
        |m: MessageRecordView| (m.role, m.content),
    )
}

/// Everything the advisor call needs for one turn.
pub struct PreparedTurn {
    pub locale: Locale,
    pub account_id: String,
    pub conversation_id: String,
    pub messages: Vec<(String, String)>,
}

/// The outcome of completing one turn.
pub struct TurnOutcome {
    pub response: String,
    pub title: Option<String>,
    pub user_message_id: String,
    pub assistant_message_id: String,
    pub output_format: Option<String>,
    pub table: Option<TableSpec>,
    pub files: Vec<FileAttachment>,
}

/// The title a turn settles on: the explicit directive when present, else
/// the first non-blank line of the body.
pub open spec fn spec_effective_title(raw: Seq<char>) -> Option<Seq<char>> {
    match spec_extract_title(raw).0 {
        Some(t) => Some(t),
        None => spec_derive_title(spec_extract_title(raw).1),
    }
}

/// The effective file directive of a turn: the request's explicit format and
/// table first; where either is missing, a directive extracted from the
/// body replaces both; a table still missing is recovered from a markdown
/// table, its format keyword-scanned from the user's message when none is
/// set.
pub open spec fn spec_effective_directive(
    body: Seq<char>,
    user_msg: Seq<char>,
    over_fmt: Option<Seq<char>>,
    over_table: Option<TableView>,
) -> (Option<Seq<char>>, Option<TableView>) {
    let p1 = if over_fmt is None || over_table is None {
        match spec_extract_file_intent(body) {
            Some(d) => (Some(d.0), Some(d.1)),
            None => (over_fmt, over_table),
        }
    } else {
        (over_fmt, over_table)
    };
    if p1.1 is None {
        match spec_markdown_table(body) {
            Some(t) => (
                if p1.0 is None {
                    Some(spec_detect_format(user_msg))
                } else {
                    p1.0
                },
                Some(t),
            ),
            None => p1,
        }
    } else {
        p1
    }
}

/// The store after the automatic title update of a turn, when one happens.
pub open spec fn spec_after_title(s: StoreView, cid: Seq<char>, title: Option<Seq<char>>) -> StoreView {
    match title {
        Some(t) => StoreView { conversations: spec_set_title_if_unset(s.conversations, cid, t), ..s },
        None => s,
    }
}

/// The view of an optional borrowed table.
pub open spec fn opt_table_view(t: Option<&TableSpec>) -> Option<TableView> {
    match t {
        Some(x) => Some(x@),
        None => None,
    }
}

/// The view of an owned optional table.
pub open spec fn opt_table_field_view(t: Option<TableSpec>) -> Option<TableView> {
    match t {
        Some(x) => Some(x@),
        None => None,
    }
}

/// What a successful prepare step guarantees, for the fresh id and timestamp
/// drawn inside it: the conversation id and store come from resolve-or-create
/// on the resolved account, and the assembled messages are the system prompt
/// over the merged context, the history, and the user's message.
pub open spec fn spec_turn_prepared(
    s0: StoreView,
    s1: StoreView,
    req: ChatRequest,
    fallback: Locale,
    account: Seq<char>,
    cid: Seq<char>,
    msgs: Vec<(String, String)>,
    now: Seq<char>,
) -> bool {
    let locale = spec_request_locale(opt_view(req.language), fallback);
    let created = spec_get_or_create(
        s0,
        account,
        opt_view(req.conversation_id),
        filters_field_opt(req.context_filters),
        cid,
        now,
    );
    &&& created.0 == cid
    &&& s1 == created.1
    &&& msgs@.map_values(|m: (String, String)| (m.0@, m.1@)) == spec_chat_messages(
        spec_prompt(
            locale,
            spec_category(opt_view(req.category)),
            spec_business_type(opt_view(req.business_type), locale),
            spec_merge(
                spec_base_context(s1, account),
                opt_ctx_layer(spec_conversation_context(s1, cid)),
                filters_field_view(req.context_filters),
            ),
        ),
        spec_history_pairs(s1.messages, cid),
        req.message@,
    )
}

/// What a completed turn guarantees, for the message timestamps drawn inside
/// it: the title is set only while unset, exactly one `user` then one
/// `assistant` message are appended with the stripped body, and a file is
/// stored exactly when a format and table were settled and encoding
/// succeeded — with CSV bytes pinned exactly, and encoding failures leaving
/// the store as the turn left it.
pub open spec fn spec_turn_completed(
    s0: StoreView,
    s1: StoreView,
    cid: Seq<char>,
    account: Seq<char>,
    user_text: Seq<char>,
    raw: Seq<char>,
    user_msg_id: Seq<char>,
    asst_msg_id: Seq<char>,
    fmt: Option<Seq<char>>,
    tbl: Option<TableView>,
    files_len: int,
    t1: Seq<char>,
    t2: Seq<char>,
) -> bool {
    let title = spec_effective_title(raw);
    let body = spec_extract_title(raw).1;
    let st1 = spec_after_title(s0, cid, title);
    let tm = spec_turn_messages(cid, account, user_text, body, user_msg_id, asst_msg_id, t1, t2);
    let s2 = StoreView { messages: st1.messages + tm.0 + tm.1, ..st1 };
    if fmt is Some && tbl is Some {
        ||| (s1 == s2 && files_len == 0 && spec_lower(fmt->0) != "csv"@)
        ||| (files_len == 1 && s1 == (StoreView { files: s2.files.push(s1.files.last()), ..s2 })
            && s1.files.last().message_id == Some(asst_msg_id) && (spec_lower(fmt->0) == "csv"@
            ==> s1.files.last().bytes == spec_csv_bytes(tbl->0)))
    } else {
        s1 == s2 && files_len == 0
    }
}

impl Store {
    /// Reads the conversation's persisted context, if any.
    pub fn get_conversation_context(&self, conversation_id: &str) -> (r: Option<
        ConversationContext,
    >)
        ensures
            match r {
                Some(c) => spec_conversation_context(self@, conversation_id@) == Some(c@),
                None => spec_conversation_context(self@, conversation_id@) is None,
            },
    {
        proof {
            lemma_find_context_props(self@.contexts, conversation_id@);
        }
        match self.context_index(conversation_id) {
            Some(i) => Some(self.contexts[i].context.clone()),
            None => None,
        }
    }

    /// Reads the account's profile-level base context; goal and urgency are
    /// never profile defaults, and an unknown account contributes nothing.
    pub fn get_user_base_context(&self, account_id: &str) -> (r: ConversationContext)
        ensures
            r@ == spec_base_context(self@, account_id@),
    {
        proof {
            lemma_find_account_by_id_props(self@.accounts, account_id@);
        }
        match self.account_index_by_id(account_id) {
            Some(i) => {
                let b = &self.accounts[i].base_context;
                ConversationContext {
                    user_role: clone_opt_string(&b.user_role),
                    business_stage: clone_opt_string(&b.business_stage),
                    goal: None,
                    urgency: None,
                    region: clone_opt_string(&b.region),
                    business_niche: clone_opt_string(&b.business_niche),
                }
            },
            None => ConversationContext {
                user_role: None,
                business_stage: None,
                goal: None,
                urgency: None,
                region: None,
                business_niche: None,
            },
        }
    }

    /// The prepare half of one chat turn: validates the request, resolves the
    /// inbound identity to the canonical account, reuses or creates the
    /// conversation (persisting initial filters on creation), merges the
    /// three context layers and assembles the advisor messages. An empty
    /// message or sender is rejected as a validation error, leaving the
    /// store unchanged.
    #[verifier::rlimit(100)]
    pub fn prepare_turn(&mut self, req: &ChatRequest, fallback_locale: Locale) -> (r: Result<
        PreparedTurn,
        ChatError,
    >)
        ensures
            r is Err <==> (req.message@.len() == 0 || req.user_id@.len() == 0),
            r is Err ==> r == Err::<PreparedTurn, ChatError>(ChatError::ValidationError)
                && final(self)@ == old(self)@,
            r matches Ok(p) ==> {
                &&& p.locale == spec_request_locale(opt_view(req.language), fallback_locale)
                &&& p.account_id@ == spec_resolve(old(self)@, req.user_id@)
                &&& exists|now: Seq<char>|
                    spec_turn_prepared(
                        old(self)@,
                        final(self)@,
                        *req,
                        fallback_locale,
                        spec_resolve(old(self)@, req.user_id@),
                        p.conversation_id@,
                        p.messages,
                        now,
                    )
            },
            store_wf(old(self)@) ==> store_wf(final(self)@),
    {
        let locale = match &req.language {
            Some(t) => locale_of_tag(t.as_str()),
            None => fallback_locale,
        };
        if req.message.as_str().is_empty() || req.user_id.as_str().is_empty() {
            return Err(ChatError::ValidationError);
        }
        let account_id = self.resolve_identity(req.user_id.as_str());
        let filt_ref: Option<&ContextFilters> = match &req.context_filters {
            Some(f) => Some(f),
            None => None,
        };
        let cid_ref: Option<&String> = match &req.conversation_id {
            Some(c) => Some(c),
            None => None,
        };
        let conversation_id = self.get_or_create_conversation(
            account_id.as_str(),
            cid_ref,
            filt_ref,
        );
        let ghost s_after = self@;
        let conv_ctx = self.get_conversation_context(conversation_id.as_str());
        let base_ctx = self.get_user_base_context(account_id.as_str());
        let filt_clone: Option<ContextFilters> = match &req.context_filters {
            Some(f) => Some(f.clone()),
            None => None,
        };
        let effective = merge_contexts(base_ctx, conv_ctx, filt_clone);
        let history = self.get_conversation_history(conversation_id.as_str());
        let ghost hist_recs = crate::manager::spec_history(self@.messages, conversation_id@);
        let mut pairs: Vec<(String, String)> = Vec::new();
        let mut i: usize = 0;
        proof {
            assert(pairs@.map_values(|m: (String, String)| (m.0@, m.1@)) =~= hist_recs.map_values(
                |m: MessageRecordView| (m.role, m.content),
            ).take(0));
        }
        while i < history.len()
            invariant
                0 <= i <= history@.len(),
                hist_recs == history@.map_values(|m: crate::models::MessageRecord| m@),
                hist_recs.len() == history@.len(),
                pairs@.map_values(|m: (String, String)| (m.0@, m.1@)) == hist_recs.map_values(
                    |m: MessageRecordView| (m.role, m.content),
                ).take(i as int),
            decreases history@.len() - i,
        {
            pairs.push((history[i].role.clone(), history[i].content.clone()));
            proof {
                let hp = hist_recs.map_values(|m: MessageRecordView| (m.role, m.content));
                assert(hp.take(i + 1) =~= hp.take(i as int).push(hp[i as int]));
                assert(pairs@.map_values(|m: (String, String)| (m.0@, m.1@)) =~= hp.take(i + 1));
            }
            i = i + 1;
        }
        proof {
            let hp = hist_recs.map_values(|m: MessageRecordView| (m.role, m.content));
            assert(hp.take(hp.len() as int) =~= hp);
        }
        let category = match &req.category {
            Some(c) => c.clone(),
            None => {
                let g: &str = "general";
                g.to_owned()
            },
        };
        let business_type = match &req.business_type {
            Some(b) => b.clone(),
            None => default_business_type(locale),
        };
        let prompt = get_system_prompt_with_context(
            category.as_str(),
            business_type.as_str(),
            &effective,
            locale,
        );
        let messages = build_chat_messages(prompt, Some(pairs), req.message.as_str());
        let p = PreparedTurn { locale, account_id, conversation_id, messages };
        proof {
            let account_v = spec_resolve(old(self)@, req.user_id@);
            assert(p.account_id@ == account_v);
            assert(opt_ref_view(cid_ref) == opt_view(req.conversation_id));
            assert(crate::manager::opt_ref_filters_view(filt_ref) == filters_field_opt(
                req.context_filters,
            ));
            let now = choose|now: Seq<char>|
                (p.conversation_id@, s_after) == #[trigger] spec_get_or_create(
                    old(self)@,
                    account_v,
                    opt_view(req.conversation_id),
                    filters_field_opt(req.context_filters),
                    p.conversation_id@,
                    now,
                );
            assert(final(self)@ == s_after);
            let locale_v = spec_request_locale(opt_view(req.language), fallback_locale);
            assert(locale == locale_v);
            assert(category@ == spec_category(opt_view(req.category)));
            assert(business_type@ == spec_business_type(opt_view(req.business_type), locale_v));
            assert(crate::context::opt_ctx_view(conv_ctx) == opt_ctx_layer(
                spec_conversation_context(s_after, p.conversation_id@),
            ));
            assert(crate::context::opt_filters_view(filt_clone) == filters_field_view(
                req.context_filters,
            ));
            assert(effective@ == spec_merge(
                spec_base_context(s_after, account_v),
                opt_ctx_layer(spec_conversation_context(s_after, p.conversation_id@)),
                filters_field_view(req.context_filters),
            ));
            assert(p.messages@.map_values(|m: (String, String)| (m.0@, m.1@)) == spec_chat_messages(
                spec_prompt(
                    locale_v,
                    spec_category(opt_view(req.category)),
                    spec_business_type(opt_view(req.business_type), locale_v),
                    spec_merge(
                        spec_base_context(s_after, account_v),
                        opt_ctx_layer(spec_conversation_context(s_after, p.conversation_id@)),
                        filters_field_view(req.context_filters),
                    ),
                ),
                spec_history_pairs(s_after.messages, p.conversation_id@),
                req.message@,
            ));
            assert(spec_turn_prepared(
                old(self)@,
                s_after,
                *req,
                fallback_locale,
                account_v,
                p.conversation_id@,
                p.messages,
                now,
            ));
        }
        Ok(p)
    }

    /// The complete half of one chat turn: strips or derives the title from
    /// the advisor's reply (setting it only while the conversation is still
    /// untitled), appends the `user` and `assistant` messages, settles the
    /// file directive (request overrides first, then the body's JSON
    /// directive, then a markdown table), and generates and stores the file
    /// when a format and a table are both present — a file failure never
    /// fails the turn.
    #[verifier::rlimit(100)]
    pub fn complete_turn(
        &mut self,
        conversation_id: &str,
        account_id: &str,
        user_text: &str,
        raw_advisor_text: &str,
        output_format: Option<&String>,
        table: Option<&TableSpec>,
    ) -> (r: TurnOutcome)
        ensures
            r.response@ == spec_extract_title(raw_advisor_text@).1,
            opt_view(r.title) == spec_effective_title(raw_advisor_text@),
            (opt_view(r.output_format), opt_table_field_view(r.table)) == spec_effective_directive(
                spec_extract_title(raw_advisor_text@).1,
                user_text@,
                opt_ref_view(output_format),
                opt_table_view(table),
            ),
            exists|t1: Seq<char>, t2: Seq<char>|
                spec_turn_completed(
                    old(self)@,
                    final(self)@,
                    conversation_id@,
                    account_id@,
                    user_text@,
                    raw_advisor_text@,
                    r.user_message_id@,
                    r.assistant_message_id@,
                    opt_view(r.output_format),
                    opt_table_field_view(r.table),
                    r.files@.len() as int,
                    t1,
                    t2,
                ),
            store_wf(old(self)@) ==> store_wf(final(self)@),
    {
        let (title0, body) = extract_title(raw_advisor_text);
        let title = match title0 {
            Some(t) => Some(t),
            None => derive_title(body.as_str()),
        };
        if let Some(t) = &title {
            self.set_title_if_unset(conversation_id, t.as_str());
        }
        let ghost s1v = self@;
        proof {
            assert(opt_view(title) == spec_effective_title(raw_advisor_text@));
            assert(s1v == spec_after_title(
                old(self)@,
                conversation_id@,
                spec_effective_title(raw_advisor_text@),
            ));
        }
        let ids = self.append_turn(conversation_id, account_id, user_text, body.as_str());
        let user_message_id = ids.0;
        let assistant_message_id = ids.1;
        let ghost s2v = self@;
        let ghost witness: (Seq<char>, Seq<char>) = choose|t1: Seq<char>, t2: Seq<char>|
            #![trigger spec_turn_messages(
                conversation_id@,
                account_id@,
                user_text@,
                body@,
                user_message_id@,
                assistant_message_id@,
                t1,
                t2,
            )]
            s2v == (StoreView {
                messages: s1v.messages + spec_turn_messages(
                    conversation_id@,
                    account_id@,
                    user_text@,
                    body@,
                    user_message_id@,
                    assistant_message_id@,
                    t1,
                    t2,
                ).0 + spec_turn_messages(
                    conversation_id@,
                    account_id@,
                    user_text@,
                    body@,
                    user_message_id@,
                    assistant_message_id@,
                    t1,
                    t2,
                ).1,
                ..s1v
            });

        let mut fmt_opt: Option<String> = match output_format {
            Some(f) => Some(f.clone()),
            None => None,
        };
        let mut table_opt: Option<TableSpec> = match table {
            Some(t) => Some(clone_table(t)),
            None => None,
        };
        if fmt_opt.is_none() || table_opt.is_none() {
            if let Some(d) = extract_file_intent(body.as_str()) {
                fmt_opt = Some(d.0);
                table_opt = Some(d.1);
            }
        }
        if table_opt.is_none() {
            if let Some(t) = parse_markdown_table(body.as_str()) {
                table_opt = Some(t);
                if fmt_opt.is_none() {
                    fmt_opt = Some(detect_format_from_message(user_text));
                }
            }
        }

        let mut files: Vec<FileAttachment> = Vec::new();
        if fmt_opt.is_some() && table_opt.is_some() {
            let fmt_ref = match &fmt_opt {
                Some(f) => f.as_str(),
                None => "",
            };
            let mut generated: Option<FileAttachment> = None;
            match &table_opt {
                Some(t) => {
                    match self.generate_file_and_store(fmt_ref, t, Some(&assistant_message_id)) {
                        Ok(att) => {
                            generated = Some(att);
                        },
                        Err(_) => {},
                    }
                },
                None => {},
            }
            if let Some(att) = generated {
                files.push(att);
            }
        }
        proof {
            if files@.len() == 1 {
                assert(files@ =~= seq![files@[0]]);
            }
            let g1 = witness.0;
            let g2 = witness.1;
            let tm = spec_turn_messages(
                conversation_id@,
                account_id@,
                user_text@,
                body@,
                user_message_id@,
                assistant_message_id@,
                g1,
                g2,
            );
            assert(s2v == (StoreView { messages: s1v.messages + tm.0 + tm.1, ..s1v }));
        }
        let r = TurnOutcome {
            response: body,
            title,
            user_message_id,
            assistant_message_id,
            output_format: fmt_opt,
            table: table_opt,
            files,
        };
        proof {
            let g1 = witness.0;
            let g2 = witness.1;
            assert(spec_turn_completed(
                old(self)@,
                final(self)@,
                conversation_id@,
                account_id@,
                user_text@,
                raw_advisor_text@,
                r.user_message_id@,
                r.assistant_message_id@,
                opt_view(r.output_format),
                opt_table_field_view(r.table),
                r.files@.len() as int,
                g1,
                g2,
            ));
        }
        r
    }
}

/// The locale's phrase for an unspecified kind of business.
pub fn default_business_type(locale: Locale) -> (r: String)
    ensures
        r@ == spec_business_type(None, locale),
{
    match locale {
        Locale::Ru => {
            let s: &str = "общий бизнес";
            s.to_owned()
        },
        Locale::En => {
            let s: &str = "general business";
            s.to_owned()
        },
    }
}

/// Copies a table, keeping its cells.
pub fn clone_table(t: &TableSpec) -> (r: TableSpec)
    ensures
        r@ == t@,
{
    let mut headers: Vec<String> = Vec::new();
    let mut i: usize = 0;
    proof {
        assert(headers@.map_values(|h: String| h@) =~= t@.headers.take(0));
    }
    while i < t.headers.len()
        invariant
            0 <= i <= t.headers@.len(),
            t@.headers.len() == t.headers@.len(),
            headers@.map_values(|h: String| h@) == t@.headers.take(i as int),
        decreases t.headers@.len() - i,
    {
        headers.push(t.headers[i].clone());
        proof {
            assert(t@.headers.take(i + 1) =~= t@.headers.take(i as int).push(
                t@.headers[i as int],
            ));
            assert(headers@.map_values(|h: String| h@) =~= t@.headers.take(i + 1));
        }
        i = i + 1;
    }
    proof {
        assert(t@.headers.take(t@.headers.len() as int) =~= t@.headers);
    }
    let mut rows: Vec<Vec<String>> = Vec::new();
    let mut k: usize = 0;
    proof {
        assert(rows@.map_values(|rw: Vec<String>| rw@.map_values(|c: String| c@)) =~= t@.rows.take(
            0,
        ));
    }
    while k < t.rows.len()
        invariant
            0 <= k <= t.rows@.len(),
            t@.rows.len() == t.rows@.len(),
            t@.rows == t.rows@.map_values(|r2: Vec<String>| r2@.map_values(|c: String| c@)),
            rows@.map_values(|rw: Vec<String>| rw@.map_values(|c: String| c@)) == t@.rows.take(
                k as int,
            ),
        decreases t.rows@.len() - k,
    {
        let src_row = &t.rows[k];
        let mut row: Vec<String> = Vec::new();
        let mut j: usize = 0;
        proof {
            assert(row@.map_values(|c: String| c@) =~= t@.rows[k as int].take(0));
        }
        while j < src_row.len()
            invariant
                0 <= j <= src_row@.len(),
                0 <= k < t.rows@.len(),
                t@.rows.len() == t.rows@.len(),
                t@.rows == t.rows@.map_values(|r2: Vec<String>| r2@.map_values(|c: String| c@)),
                src_row == &t.rows[k as int],
                t@.rows[k as int].len() == src_row@.len(),
                t@.rows[k as int] == src_row@.map_values(|c: String| c@),
                row@.map_values(|c: String| c@) == t@.rows[k as int].take(j as int),
            decreases src_row@.len() - j,
        {
            row.push(src_row[j].clone());
            proof {
                assert(t@.rows[k as int].take(j + 1) =~= t@.rows[k as int].take(j as int).push(
                    t@.rows[k as int][j as int],
                ));
                assert(row@.map_values(|c: String| c@) =~= t@.rows[k as int].take(j + 1));
            }
            j = j + 1;
        }
        proof {
            assert(t@.rows[k as int].take(t@.rows[k as int].len() as int) =~= t@.rows[k as int]);
        }
        rows.push(row);
        proof {
            assert(t@.rows.take(k + 1) =~= t@.rows.take(k as int).push(t@.rows[k as int]));
            assert(rows@.map_values(|rw: Vec<String>| rw@.map_values(|c: String| c@)) =~= t@.rows.take(
                k + 1,
            ));
        }
        k = k + 1;
    }
    proof {
        assert(t@.rows.take(t@.rows.len() as int) =~= t@.rows);
    }
    let r = TableSpec { headers, rows };
    proof {
        assert(r@.headers =~= t@.headers);
        assert(r@.rows =~= t@.rows);
    }
    r
}

} // verus!
