use advisor_core::models::ConversationContext;
use advisor_core::i18n::{Locale, locale_of_tag, detect_locale, direction_label};
use advisor_core::prompt::{
    get_system_prompt_with_context, get_system_prompt_en_with_context,
    get_system_prompt_ru_with_context, build_chat_messages,
};

fn ctx_with_role(role: &str) -> ConversationContext {
    ConversationContext {
        user_role: Some(role.to_string()),
        business_stage: None,
        goal: None,
        urgency: Some("urgent".to_string()),
        region: None,
        business_niche: None,
    }
}

#[test]
fn locale_of_tag_folds_case() {
    assert_eq!(locale_of_tag("ru"), Locale::Ru);
    assert_eq!(locale_of_tag("RU-ru"), Locale::Ru);
    assert_eq!(locale_of_tag("en"), Locale::En);
    assert_eq!(locale_of_tag("fr"), Locale::En);
}

#[test]
fn locale_detection_prefers_query_parameter() {
    assert_eq!(detect_locale("a=1&lang=ru", None), Locale::Ru);
    assert_eq!(detect_locale("lang=en", Some(&"ru-RU".to_string())), Locale::En);
    assert_eq!(detect_locale("a=1", Some(&"RU-ru,en;q=0.5".to_string())), Locale::Ru);
    assert_eq!(detect_locale("a=1", Some(&"en-US".to_string())), Locale::En);
    assert_eq!(detect_locale("", None), Locale::En);
}

#[test]
fn direction_labels_are_localized() {
    assert_eq!(direction_label(Locale::Ru, "growing"), "рост");
    assert_eq!(direction_label(Locale::Ru, "decreasing"), "снижение");
    assert_eq!(direction_label(Locale::En, "growing"), "growing");
    assert_eq!(direction_label(Locale::En, "decreasing"), "decreasing");
    assert_eq!(direction_label(Locale::Ru, "flat"), "flat");
}

#[test]
fn english_prompt_carries_context_and_category() {
    let p = get_system_prompt_en_with_context("legal", "bakery", &ctx_with_role("marketer"));
    assert!(p.starts_with("You are an experienced business consultant"));
    assert!(p.contains("The user is a marketer. "));
    assert!(p.contains("The user owns a business in: bakery. "));
    assert!(p.contains("This is an urgent question"));
    assert!(p.contains("Consult on legal matters"));
}

#[test]
fn russian_prompt_carries_context_and_category() {
    let p = get_system_prompt_ru_with_context("finance", "пекарня", &ctx_with_role("owner"));
    assert!(p.contains("Пользователь - владелец бизнеса. "));
    assert!(p.contains("Сфера бизнеса: пекарня. "));
    assert!(p.contains("Консультируй по финансам"));
}

#[test]
fn prompt_dispatches_on_locale() {
    let c = ctx_with_role("owner");
    let en = get_system_prompt_with_context("general", "shop", &c, Locale::En);
    let ru = get_system_prompt_with_context("general", "shop", &c, Locale::Ru);
    assert!(en.starts_with("You are an experienced"));
    assert!(ru.starts_with("Ты - опытный"));
}

#[test]
fn chat_messages_are_system_history_user() {
    let history = vec![
        ("user".to_string(), "earlier".to_string()),
        ("assistant".to_string(), "reply".to_string()),
    ];
    let msgs = build_chat_messages("PROMPT".to_string(), Some(history), "now");
    assert_eq!(msgs.len(), 4);
    assert_eq!(msgs[0], ("system".to_string(), "PROMPT".to_string()));
    assert_eq!(msgs[1], ("user".to_string(), "earlier".to_string()));
    assert_eq!(msgs[2], ("assistant".to_string(), "reply".to_string()));
    assert_eq!(msgs[3], ("user".to_string(), "now".to_string()));
}

#[test]
fn chat_messages_without_history() {
    let msgs = build_chat_messages("P".to_string(), None, "q");
    assert_eq!(msgs.len(), 2);
    assert_eq!(msgs[0].0, "system");
    assert_eq!(msgs[1], ("user".to_string(), "q".to_string()));
}
