use advisor_core::models::{ConversationContext, ContextFilters};
use advisor_core::context::{merge_contexts, apply_context_update};

fn ctx(
    role: Option<&str>,
    stage: Option<&str>,
    goal: Option<&str>,
    urgency: Option<&str>,
    region: Option<&str>,
    niche: Option<&str>,
) -> ConversationContext {
    ConversationContext {
        user_role: role.map(|s| s.to_string()),
        business_stage: stage.map(|s| s.to_string()),
        goal: goal.map(|s| s.to_string()),
        urgency: urgency.map(|s| s.to_string()),
        region: region.map(|s| s.to_string()),
        business_niche: niche.map(|s| s.to_string()),
    }
}

fn filters(
    role: Option<&str>,
    stage: Option<&str>,
    goal: Option<&str>,
    urgency: Option<&str>,
    region: Option<&str>,
    niche: Option<&str>,
) -> ContextFilters {
    ContextFilters {
        user_role: role.map(|s| s.to_string()),
        business_stage: stage.map(|s| s.to_string()),
        goal: goal.map(|s| s.to_string()),
        urgency: urgency.map(|s| s.to_string()),
        region: region.map(|s| s.to_string()),
        business_niche: niche.map(|s| s.to_string()),
    }
}

#[test]
fn merge_of_disjoint_layers_is_their_union() {
    let base = ctx(Some("owner"), None, None, None, None, None);
    let conv = ctx(None, None, Some("reduce_costs"), None, None, None);
    let f = filters(None, None, None, Some("urgent"), None, None);
    let merged = merge_contexts(base, Some(conv), Some(f));
    assert_eq!(merged.user_role.as_deref(), Some("owner"));
    assert_eq!(merged.goal.as_deref(), Some("reduce_costs"));
    assert_eq!(merged.urgency.as_deref(), Some("urgent"));
    assert_eq!(merged.business_stage, None);
    assert_eq!(merged.region, None);
    assert_eq!(merged.business_niche, None);
}

#[test]
fn merge_higher_precedence_layer_wins() {
    let base = ctx(Some("owner"), Some("startup"), None, None, None, None);
    let conv = ctx(Some("marketer"), Some("stable"), None, None, None, None);
    let f = filters(Some("accountant"), None, None, None, None, None);
    let merged = merge_contexts(base, Some(conv), Some(f));
    // filters > conversation > base, per field
    assert_eq!(merged.user_role.as_deref(), Some("accountant"));
    assert_eq!(merged.business_stage.as_deref(), Some("stable"));
}

#[test]
fn merge_absent_field_never_clears() {
    let base = ctx(None, None, None, None, Some("DE"), None);
    let conv = ctx(None, None, None, None, None, None);
    let f = filters(None, None, None, None, None, None);
    let merged = merge_contexts(base, Some(conv), Some(f));
    assert_eq!(merged.region.as_deref(), Some("DE"));
}

#[test]
fn merge_without_optional_layers_keeps_base() {
    let base = ctx(Some("owner"), None, None, None, None, Some("retail"));
    let merged = merge_contexts(base, None, None);
    assert_eq!(merged.user_role.as_deref(), Some("owner"));
    assert_eq!(merged.business_niche.as_deref(), Some("retail"));
}

#[test]
fn context_update_overwrites_only_provided_fields() {
    let current = ctx(Some("owner"), Some("startup"), None, None, None, None);
    let update = filters(Some("marketer"), None, Some("hire_staff"), None, None, None);
    let updated = apply_context_update(&current, &update);
    assert_eq!(updated.user_role.as_deref(), Some("marketer"));
    assert_eq!(updated.business_stage.as_deref(), Some("startup"));
    assert_eq!(updated.goal.as_deref(), Some("hire_staff"));
    assert_eq!(updated.urgency, None);
}
