//! Context merging: the three context layers (account profile defaults,
//! persisted per-conversation context, per-message filters) are combined
//! field by field, higher layers winning only where they set a field.

use vstd::prelude::*;
use crate::models::{ContextView, ConversationContext, ContextFilters, empty_context, clone_opt_string};

verus! {

/// Field-level merge: the higher-precedence layer wins exactly when it sets
/// the field; an absent field never clears the lower layer's value.
pub open spec fn pick_field(high: Option<Seq<char>>, low: Option<Seq<char>>) -> Option<Seq<char>> {
    if high is Some {
        high
    } else {
        low
    }
}

/// The effective context of three layers in ascending precedence
/// base -> conversation -> filters, resolved independently per field.
pub open spec fn spec_merge(base: ContextView, conv: ContextView, filt: ContextView) -> ContextView {
    ContextView {
        user_role: pick_field(filt.user_role, pick_field(conv.user_role, base.user_role)),
        business_stage: pick_field(filt.business_stage, pick_field(conv.business_stage, base.business_stage)),
        goal: pick_field(filt.goal, pick_field(conv.goal, base.goal)),
        urgency: pick_field(filt.urgency, pick_field(conv.urgency, base.urgency)),
        region: pick_field(filt.region, pick_field(conv.region, base.region)),
        business_niche: pick_field(filt.business_niche, pick_field(conv.business_niche, base.business_niche)),
    }
}

/// The view of an optional conversation-context layer; an absent layer sets
/// no field.
pub open spec fn opt_ctx_view(c: Option<ConversationContext>) -> ContextView {
    match c {
        Some(x) => x@,
        None => empty_context(),
    }
}

/// The view of optional per-message filters; absent filters set no field.
pub open spec fn opt_filters_view(f: Option<ContextFilters>) -> ContextView {
    match f {
        Some(x) => x@,
        None => empty_context(),
    }
}

/// Combines the account's base context, the conversation's persisted context
/// and the request's filters into one effective context, field by field with
/// precedence filters > conversation > base.
pub fn merge_contexts(
    base: ConversationContext,
    conversation: Option<ConversationContext>,
    filters: Option<ContextFilters>,
) -> (r: ConversationContext)
    ensures
        r@ == spec_merge(base@, opt_ctx_view(conversation), opt_filters_view(filters)),
{
    let mut result = base;

    if let Some(conv) = conversation {
        if let Some(role) = conv.user_role {
            result.user_role = Some(role);
        }
        if let Some(stage) = conv.business_stage {
            result.business_stage = Some(stage);
        }
        if let Some(goal_v) = conv.goal {
            result.goal = Some(goal_v);
        }
        if let Some(urgency_v) = conv.urgency {
            result.urgency = Some(urgency_v);
        }
        if let Some(region_v) = conv.region {
            result.region = Some(region_v);
        }
        if let Some(niche) = conv.business_niche {
            result.business_niche = Some(niche);
        }
    }

    if let Some(f) = filters {
        if let Some(role) = f.user_role {
            result.user_role = Some(role);
        }
        if let Some(stage) = f.business_stage {
            result.business_stage = Some(stage);
        }
        if let Some(goal_v) = f.goal {
            result.goal = Some(goal_v);
        }
        if let Some(urgency_v) = f.urgency {
            result.urgency = Some(urgency_v);
        }
        if let Some(region_v) = f.region {
            result.region = Some(region_v);
        }
        if let Some(niche) = f.business_niche {
            result.business_niche = Some(niche);
        }
    }

    result
}

/// The "set if provided" update rule used when persisting context: each field
/// of the stored context is overwritten exactly when the update sets it;
/// omitted fields are never cleared.
pub open spec fn spec_apply_update(current: ContextView, update: ContextView) -> ContextView {
    ContextView {
        user_role: pick_field(update.user_role, current.user_role),
        business_stage: pick_field(update.business_stage, current.business_stage),
        goal: pick_field(update.goal, current.goal),
        urgency: pick_field(update.urgency, current.urgency),
        region: pick_field(update.region, current.region),
        business_niche: pick_field(update.business_niche, current.business_niche),
    }
}

/// Applies per-field "overwrite if provided" filters to a stored context.
pub fn apply_context_update(current: &ConversationContext, update: &ContextFilters) -> (r: ConversationContext)
    ensures
        r@ == spec_apply_update(current@, update@),
{
    ConversationContext {
        user_role: pick_opt(&update.user_role, &current.user_role),
        business_stage: pick_opt(&update.business_stage, &current.business_stage),
        goal: pick_opt(&update.goal, &current.goal),
        urgency: pick_opt(&update.urgency, &current.urgency),
        region: pick_opt(&update.region, &current.region),
        business_niche: pick_opt(&update.business_niche, &current.business_niche),
    }
}

/// Picks the first optional string if set, else the second.
fn pick_opt(high: &Option<String>, low: &Option<String>) -> (r: Option<String>)
    ensures
        r == if high is Some { *high } else { *low },
{
    match high {
        Some(s) => Some(s.clone()),
        None => clone_opt_string(low),
    }
}

/// Law: merge precedence. For every field, the merged value is the filters'
/// value where the filters set it, else the conversation's value where that
/// layer sets it, else the base value; an absent field never clears a value
/// set below it.
pub proof fn lemma_merge_precedence(base: ContextView, conv: ContextView, filt: ContextView)
    ensures
        spec_merge(base, conv, filt).user_role == (if filt.user_role is Some { filt.user_role } else if conv.user_role is Some { conv.user_role } else { base.user_role }),
        spec_merge(base, conv, filt).business_stage == (if filt.business_stage is Some { filt.business_stage } else if conv.business_stage is Some { conv.business_stage } else { base.business_stage }),
        spec_merge(base, conv, filt).goal == (if filt.goal is Some { filt.goal } else if conv.goal is Some { conv.goal } else { base.goal }),
        spec_merge(base, conv, filt).urgency == (if filt.urgency is Some { filt.urgency } else if conv.urgency is Some { conv.urgency } else { base.urgency }),
        spec_merge(base, conv, filt).region == (if filt.region is Some { filt.region } else if conv.region is Some { conv.region } else { base.region }),
        spec_merge(base, conv, filt).business_niche == (if filt.business_niche is Some { filt.business_niche } else if conv.business_niche is Some { conv.business_niche } else { base.business_niche }),
{
}

/// Whether at most one of the three layers sets each field.
pub open spec fn disjoint_field(
    b: Option<Seq<char>>,
    c: Option<Seq<char>>,
    f: Option<Seq<char>>,
) -> bool {
    &&& !(b is Some && c is Some)
    &&& !(b is Some && f is Some)
    &&& !(c is Some && f is Some)
}

/// The one set value among three layers of which at most one is set, if any.
pub open spec fn the_set_one(
    b: Option<Seq<char>>,
    c: Option<Seq<char>>,
    f: Option<Seq<char>>,
) -> Option<Seq<char>> {
    if b is Some {
        b
    } else if c is Some {
        c
    } else {
        f
    }
}

/// Law: merging layers with disjoint set fields yields their union. Where at
/// most one layer sets a field, the merged context carries exactly that
/// layer's value, and a field no layer sets stays unset.
pub proof fn lemma_merge_disjoint_union(base: ContextView, conv: ContextView, filt: ContextView)
    requires
        disjoint_field(base.user_role, conv.user_role, filt.user_role),
        disjoint_field(base.business_stage, conv.business_stage, filt.business_stage),
        disjoint_field(base.goal, conv.goal, filt.goal),
        disjoint_field(base.urgency, conv.urgency, filt.urgency),
        disjoint_field(base.region, conv.region, filt.region),
        disjoint_field(base.business_niche, conv.business_niche, filt.business_niche),
    ensures
        spec_merge(base, conv, filt).user_role == the_set_one(
            base.user_role,
            conv.user_role,
            filt.user_role,
        ),
        spec_merge(base, conv, filt).business_stage == the_set_one(
            base.business_stage,
            conv.business_stage,
            filt.business_stage,
        ),
        spec_merge(base, conv, filt).goal == the_set_one(base.goal, conv.goal, filt.goal),
        spec_merge(base, conv, filt).urgency == the_set_one(
            base.urgency,
            conv.urgency,
            filt.urgency,
        ),
        spec_merge(base, conv, filt).region == the_set_one(base.region, conv.region, filt.region),
        spec_merge(base, conv, filt).business_niche == the_set_one(
            base.business_niche,
            conv.business_niche,
            filt.business_niche,
        ),
{
}

} // verus!
