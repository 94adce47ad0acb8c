use advisor_core::store::{Store, Account, SecondaryIdentity};
use advisor_core::models::ConversationContext;
use advisor_core::text::{parse_i64, i64_to_dec};

fn empty_ctx() -> ConversationContext {
    ConversationContext {
        user_role: None,
        business_stage: None,
        goal: None,
        urgency: None,
        region: None,
        business_niche: None,
    }
}

fn account(id: &str, handle: Option<&str>) -> Account {
    Account {
        id: id.to_string(),
        telegram_username: handle.map(|h| h.to_string()),
        base_context: empty_ctx(),
    }
}

#[test]
fn resolve_returns_own_account_id_unchanged() {
    let mut store = Store::new();
    store.accounts.push(account("u1", None));
    store.accounts.push(account("u2", Some("bob")));
    assert_eq!(store.resolve_identity("u1"), "u1");
    assert_eq!(store.resolve_identity("u2"), "u2");
}

#[test]
fn resolve_direct_link_beats_handle_match() {
    let mut store = Store::new();
    store.accounts.push(account("main-1", None));
    // another account carries the same handle the secondary record names
    store.accounts.push(account("other-2", Some("bob")));
    store.secondary.push(SecondaryIdentity {
        telegram_user_id: 12345,
        telegram_username: Some("bob".to_string()),
        user_id: Some("main-1".to_string()),
    });
    assert_eq!(store.resolve_identity("12345"), "main-1");
}

#[test]
fn resolve_unlinked_secondary_falls_back_to_handle_match() {
    let mut store = Store::new();
    store.accounts.push(account("acc-9", Some("alice")));
    store.secondary.push(SecondaryIdentity {
        telegram_user_id: 777,
        telegram_username: Some("alice".to_string()),
        user_id: None,
    });
    assert_eq!(store.resolve_identity("777"), "acc-9");
}

#[test]
fn resolve_non_numeric_handle_finds_account() {
    let mut store = Store::new();
    store.accounts.push(account("acc-9", Some("alice")));
    assert_eq!(store.resolve_identity("alice"), "acc-9");
}

#[test]
fn resolve_unknown_numeric_id_returns_it_unchanged() {
    let store = Store::new();
    assert_eq!(store.resolve_identity("12345"), "12345");
}

#[test]
fn resolve_unknown_handle_returns_it_unchanged() {
    let mut store = Store::new();
    store.accounts.push(account("u1", Some("bob")));
    assert_eq!(store.resolve_identity("nobody"), "nobody");
}

#[test]
fn synced_ids_include_linked_directions() {
    let mut store = Store::new();
    store.accounts.push(account("main-1", Some("bob")));
    store.secondary.push(SecondaryIdentity {
        telegram_user_id: 555,
        telegram_username: Some("bob".to_string()),
        user_id: Some("main-1".to_string()),
    });
    let from_main = store.get_synced_user_ids("main-1");
    assert_eq!(from_main, vec!["main-1".to_string(), "555".to_string()]);
    let from_secondary = store.get_synced_user_ids("555");
    assert_eq!(from_secondary, vec!["555".to_string(), "main-1".to_string()]);
}

#[test]
fn parse_i64_accepts_signed_decimals() {
    assert_eq!(parse_i64("123"), Some(123));
    assert_eq!(parse_i64("+42"), Some(42));
    assert_eq!(parse_i64("-7"), Some(-7));
    assert_eq!(parse_i64("0"), Some(0));
    assert_eq!(parse_i64("9223372036854775807"), Some(i64::MAX));
    assert_eq!(parse_i64("-9223372036854775808"), Some(i64::MIN));
}

#[test]
fn parse_i64_rejects_junk_and_overflow() {
    assert_eq!(parse_i64(""), None);
    assert_eq!(parse_i64("+"), None);
    assert_eq!(parse_i64("-"), None);
    assert_eq!(parse_i64("12a"), None);
    assert_eq!(parse_i64("a12"), None);
    assert_eq!(parse_i64("9223372036854775808"), None);
    assert_eq!(parse_i64("-9223372036854775809"), None);
    assert_eq!(parse_i64("99999999999999999999999"), None);
    assert_eq!(parse_i64("1 2"), None);
}

#[test]
fn i64_to_dec_renders_decimals() {
    assert_eq!(i64_to_dec(0), "0");
    assert_eq!(i64_to_dec(9), "9");
    assert_eq!(i64_to_dec(105), "105");
    assert_eq!(i64_to_dec(-12), "-12");
    assert_eq!(i64_to_dec(i64::MAX), "9223372036854775807");
    assert_eq!(i64_to_dec(i64::MIN), "-9223372036854775808");
}

#[test]
fn synced_ids_do_not_repeat_the_inbound_id() {
    let mut store = Store::new();
    store.secondary.push(SecondaryIdentity {
        telegram_user_id: 777,
        telegram_username: None,
        user_id: Some("777".to_string()),
    });
    assert_eq!(store.get_synced_user_ids("777"), vec!["777".to_string()]);
}
