use advisor_core::store::{Store, Account};
use advisor_core::models::{ConversationContext, ContextFilters, ChatRequest};
use advisor_core::manager::ChatError;
use advisor_core::i18n::Locale;

fn empty_ctx() -> ConversationContext {
    ConversationContext {
        user_role: None,
        business_stage: None,
        goal: None,
        urgency: None,
        region: None,
        business_niche: None,
    }
}

fn account(id: &str) -> Account {
    Account { id: id.to_string(), telegram_username: None, base_context: empty_ctx() }
}

fn filters_goal(goal: &str) -> ContextFilters {
    ContextFilters {
        user_role: None,
        business_stage: None,
        goal: Some(goal.to_string()),
        urgency: None,
        region: None,
        business_niche: None,
    }
}

#[test]
fn get_or_create_reuses_owned_conversation() {
    let mut store = Store::new();
    let cid = store.get_or_create_conversation_at(
        "u1",
        None,
        None,
        "conv-1".to_string(),
        "2024-01-01T00:00:00+00:00".to_string(),
    );
    assert_eq!(cid, "conv-1");
    let reused = store.get_or_create_conversation_at(
        "u1",
        Some(&"conv-1".to_string()),
        None,
        "conv-2".to_string(),
        "2024-01-02T00:00:00+00:00".to_string(),
    );
    assert_eq!(reused, "conv-1");
    assert_eq!(store.conversations.len(), 1);
}

#[test]
fn get_or_create_rejects_foreign_conversation() {
    let mut store = Store::new();
    store.get_or_create_conversation_at(
        "owner-a",
        None,
        None,
        "conv-1".to_string(),
        "t0".to_string(),
    );
    let cid = store.get_or_create_conversation_at(
        "intruder-b",
        Some(&"conv-1".to_string()),
        None,
        "conv-2".to_string(),
        "t1".to_string(),
    );
    assert_eq!(cid, "conv-2");
    assert_eq!(store.conversations.len(), 2);
    assert_eq!(store.conversations[1].user_id, "intruder-b");
}

#[test]
fn initial_context_is_persisted_on_creation() {
    let mut store = Store::new();
    let f = filters_goal("increase_revenue");
    store.get_or_create_conversation_at("u1", None, Some(&f), "c1".to_string(), "t".to_string());
    assert_eq!(store.contexts.len(), 1);
    assert_eq!(store.contexts[0].conversation_id, "c1");
    assert_eq!(store.contexts[0].context.goal.as_deref(), Some("increase_revenue"));
}

#[test]
fn context_upsert_merges_per_field() {
    let mut store = Store::new();
    store.get_or_create_conversation_at("u1", None, None, "c1".to_string(), "t".to_string());
    store.save_conversation_context("c1", &filters_goal("hire_staff"));
    let mut urgency_only = filters_goal("hire_staff");
    urgency_only.goal = None;
    urgency_only.urgency = Some("urgent".to_string());
    store.save_conversation_context("c1", &urgency_only);
    assert_eq!(store.contexts.len(), 1);
    assert_eq!(store.contexts[0].context.goal.as_deref(), Some("hire_staff"));
    assert_eq!(store.contexts[0].context.urgency.as_deref(), Some("urgent"));
}

#[test]
fn delete_succeeds_once_then_reports_not_found() {
    let mut store = Store::new();
    store.get_or_create_conversation_at("u1", None, None, "c1".to_string(), "t".to_string());
    store.append_turn_at(
        "c1",
        "u1",
        "hi",
        "hello",
        "m1".to_string(),
        "m2".to_string(),
        "t1".to_string(),
        "t2".to_string(),
    );
    assert!(store.delete_conversation("c1", "u1").is_ok());
    assert_eq!(store.conversations.len(), 0);
    assert_eq!(store.messages.len(), 0);
    // the second call must report the specific ownership error
    assert_eq!(store.delete_conversation("c1", "u1"), Err(ChatError::NotFoundOrNotOwned));
}

#[test]
fn delete_rejects_wrong_owner() {
    let mut store = Store::new();
    store.get_or_create_conversation_at("u1", None, None, "c1".to_string(), "t".to_string());
    assert_eq!(store.delete_conversation("c1", "someone-else"), Err(ChatError::NotFoundOrNotOwned));
    assert_eq!(store.conversations.len(), 1);
}

#[test]
fn rename_with_none_clears_an_existing_title() {
    let mut store = Store::new();
    store.get_or_create_conversation_at("u1", None, None, "c1".to_string(), "t".to_string());
    store.set_title_if_unset("c1", "First title");
    assert_eq!(store.conversations[0].title.as_deref(), Some("First title"));
    assert!(store.rename_conversation("c1", "u1", None).is_ok());
    assert_eq!(store.conversations[0].title, None);
}

#[test]
fn rename_overwrites_and_fails_for_strangers() {
    let mut store = Store::new();
    store.get_or_create_conversation_at("u1", None, None, "c1".to_string(), "t".to_string());
    let new_title = "Renamed".to_string();
    assert!(store.rename_conversation("c1", "u1", Some(&new_title)).is_ok());
    assert_eq!(store.conversations[0].title.as_deref(), Some("Renamed"));
    assert_eq!(
        store.rename_conversation("c1", "someone-else", Some(&new_title)),
        Err(ChatError::NotFoundOrNotOwned),
    );
    assert_eq!(
        store.rename_conversation("missing", "u1", Some(&new_title)),
        Err(ChatError::NotFoundOrNotOwned),
    );
}

#[test]
fn automatic_title_fires_only_once() {
    let mut store = Store::new();
    store.get_or_create_conversation_at("u1", None, None, "c1".to_string(), "t".to_string());
    store.set_title_if_unset("c1", "First");
    store.set_title_if_unset("c1", "Second");
    assert_eq!(store.conversations[0].title.as_deref(), Some("First"));
}

#[test]
fn history_keeps_conversation_messages_in_order() {
    let mut store = Store::new();
    store.get_or_create_conversation_at("u1", None, None, "c1".to_string(), "t".to_string());
    store.get_or_create_conversation_at("u1", None, None, "c2".to_string(), "t".to_string());
    store.append_turn_at(
        "c1", "u1", "one", "two", "m1".to_string(), "m2".to_string(), "t1".to_string(),
        "t2".to_string(),
    );
    store.append_turn_at(
        "c2", "u1", "x", "y", "m3".to_string(), "m4".to_string(), "t3".to_string(),
        "t4".to_string(),
    );
    let h = store.get_conversation_history("c1");
    assert_eq!(h.len(), 2);
    assert_eq!(h[0].role, "user");
    assert_eq!(h[0].content, "one");
    assert_eq!(h[1].role, "assistant");
    assert_eq!(h[1].content, "two");
}

#[test]
fn list_returns_owned_conversations_newest_first_with_context() {
    let mut store = Store::new();
    store.get_or_create_conversation_at("u1", None, None, "c1".to_string(), "t1".to_string());
    store.get_or_create_conversation_at(
        "u1",
        None,
        Some(&filters_goal("launch_ads")),
        "c2".to_string(),
        "t2".to_string(),
    );
    store.get_or_create_conversation_at("u9", None, None, "c3".to_string(), "t3".to_string());
    let list = store.list_conversations("u1");
    assert_eq!(list.len(), 2);
    assert_eq!(list[0].id, "c2");
    assert_eq!(list[1].id, "c1");
    assert_eq!(list[0].context.as_ref().unwrap().goal.as_deref(), Some("launch_ads"));
    assert!(list[1].context.is_none());
}

#[test]
fn chat_turn_scenario_creates_conversation_with_two_messages_and_title() {
    let mut store = Store::new();
    store.accounts.push(account("u1"));
    let req = ChatRequest {
        message: "Hello".to_string(),
        category: None,
        user_id: "u1".to_string(),
        business_type: None,
        conversation_id: None,
        output_format: None,
        table: None,
        language: None,
        context_filters: None,
    };
    let prepared = store.prepare_turn(&req, Locale::En).unwrap();
    assert_eq!(prepared.account_id, "u1");
    assert_eq!(prepared.messages[0].0, "system");
    assert_eq!(prepared.messages.last().unwrap().0, "user");
    assert_eq!(prepared.messages.last().unwrap().1, "Hello");

    let advisor_reply = "Sorry, an error occurred while processing your request";
    let outcome = store.complete_turn(
        &prepared.conversation_id,
        &prepared.account_id,
        "Hello",
        advisor_reply,
        None,
        None,
    );
    assert_eq!(outcome.response, advisor_reply);

    // exactly one conversation, owned by u1, with a non-empty title of at
    // most 80 characters
    assert_eq!(store.conversations.len(), 1);
    assert_eq!(store.conversations[0].user_id, "u1");
    let title = store.conversations[0].title.clone().unwrap();
    assert!(!title.is_empty());
    assert!(title.chars().count() <= 80);

    // exactly the user message then the assistant message
    let h = store.get_conversation_history(&prepared.conversation_id);
    assert_eq!(h.len(), 2);
    assert_eq!(h[0].role, "user");
    assert_eq!(h[0].content, "Hello");
    assert_eq!(h[1].role, "assistant");
    assert_eq!(h[1].content, advisor_reply);
    assert!(outcome.files.is_empty());
}

#[test]
fn empty_message_or_sender_is_a_validation_error() {
    let mut store = Store::new();
    let mut req = ChatRequest {
        message: "".to_string(),
        category: None,
        user_id: "u1".to_string(),
        business_type: None,
        conversation_id: None,
        output_format: None,
        table: None,
        language: None,
        context_filters: None,
    };
    assert_eq!(store.prepare_turn(&req, Locale::En).err(), Some(ChatError::ValidationError));
    req.message = "hi".to_string();
    req.user_id = "".to_string();
    assert_eq!(store.prepare_turn(&req, Locale::En).err(), Some(ChatError::ValidationError));
    assert_eq!(store.conversations.len(), 0);
}

#[test]
fn turn_with_table_reply_stores_a_file() {
    let mut store = Store::new();
    store.accounts.push(account("u1"));
    let req = ChatRequest {
        message: "table as csv please".to_string(),
        category: None,
        user_id: "u1".to_string(),
        business_type: None,
        conversation_id: None,
        output_format: None,
        table: None,
        language: None,
        context_filters: None,
    };
    let prepared = store.prepare_turn(&req, Locale::En).unwrap();
    let reply = "TITLE: Numbers\n\nHere:\n| A | B |\n|---|---|\n| 1 | 2 |";
    let outcome = store.complete_turn(
        &prepared.conversation_id,
        &prepared.account_id,
        "table as csv please",
        reply,
        None,
        None,
    );
    assert_eq!(outcome.output_format.as_deref(), Some("csv"));
    assert_eq!(outcome.files.len(), 1);
    assert_eq!(outcome.files[0].mime, "text/csv");
    assert_eq!(store.files.len(), 1);
    assert_eq!(store.files[0].bytes, b"A,B\n1,2\n".to_vec());
    assert_eq!(store.files[0].message_id.as_deref(), Some(outcome.assistant_message_id.as_str()));
}
