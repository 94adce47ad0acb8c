//! Locale handling: the fixed set of locale tags, their detection from plain
//! request parts, and localized direction labels.

use vstd::prelude::*;
use crate::text::{
    chars_of, string_of_chars, split_on_char, subvec, str_eq, to_lower, spec_split_on, spec_lower,
    spec_starts_with, first_index_of, lemma_first_index_of_props, starts_with,
};

verus! {

/// The locales the service answers in.
#[derive(Clone, Copy, Debug, PartialEq, Eq, Structural)]
pub enum Locale {
    En,
    Ru,
}

/// The locale named by a language tag: Russian for `ru` or `ru-ru` (case
/// folded), else English.
pub open spec fn spec_locale_of_tag(t: Seq<char>) -> Locale {
    if spec_lower(t) == "ru"@ || spec_lower(t) == "ru-ru"@ {
        Locale::Ru
    } else {
        Locale::En
    }
}

/// Maps a language tag to a locale, case insensitively.
pub fn locale_of_tag(tag: &str) -> (r: Locale)
    ensures
        r == spec_locale_of_tag(tag@),
{
    let chars = chars_of(tag);
    let lower = to_lower(&chars);
    let ru: &str = "ru";
    let ruru: &str = "ru-ru";
    if crate::json::chars_eq(&lower, &chars_of(ru)) || crate::json::chars_eq(
        &lower,
        &chars_of(ruru),
    ) {
        Locale::Ru
    } else {
        Locale::En
    }
}

/// The value of the first `lang` query parameter, if one is present: the
/// query string is split on `&`, and the first pair whose key (the part
/// before the first `=`) is `lang` supplies the value (the rest of the
/// pair).
pub open spec fn spec_lang_param(parts: Seq<Seq<char>>, i: int) -> Option<Seq<char>>
    decreases parts.len() - i,
{
    if i < 0 || i >= parts.len() {
        None
    } else {
        let p = parts[i];
        let e = first_index_of(p, '=', 0);
        if 0 <= e && e < p.len() && p.take(e) == "lang"@ {
            Some(p.skip(e + 1))
        } else {
            spec_lang_param(parts, i + 1)
        }
    }
}

/// The locale of a request, from its query string and `Accept-Language`
/// header: an explicit `lang` parameter wins; else a header value that,
/// case folded, starts with `ru` selects Russian; else English.
pub open spec fn spec_detect_locale(query: Seq<char>, accept_language: Option<Seq<char>>) -> Locale {
    match spec_lang_param(spec_split_on(query, '&'), 0) {
        Some(v) => spec_locale_of_tag(v),
        None => match accept_language {
            Some(h) => if spec_starts_with(spec_lower(h), "ru"@) {
                Locale::Ru
            } else {
                Locale::En
            },
            None => Locale::En,
        },
    }
}

/// Detects the locale from the plain parts of a request: its raw query
/// string and its `Accept-Language` header value, if any.
pub fn detect_locale(query: &str, accept_language: Option<&String>) -> (r: Locale)
    ensures
        r == spec_detect_locale(query@, crate::manager::opt_ref_view(accept_language)),
{
    let qchars = chars_of(query);
    let parts = split_on_char(&qchars, '&');
    let ghost pv = parts@.map_values(|x: Vec<char>| x@);
    let lang_key: &str = "lang";
    let key = chars_of(lang_key);
    let mut i: usize = 0;
    while i < parts.len()
        invariant
            0 <= i <= pv.len(),
            pv == parts@.map_values(|x: Vec<char>| x@),
            pv == spec_split_on(query@, '&'),
            pv.len() == parts@.len(),
            key@ == "lang"@,
            spec_lang_param(pv, 0) == spec_lang_param(pv, i as int),
        decreases pv.len() - i,
    {
        let p = &parts[i];
        let mut e: usize = 0;
        while e < p.len() && p[e] != '='
            invariant
                0 <= e <= p@.len(),
                forall|m: int| 0 <= m < e ==> p@[m] != '=',
            decreases p@.len() - e,
        {
            e = e + 1;
        }
        proof {
            lemma_first_index_of_props(p@, '=', 0);
            assert(first_index_of(p@, '=', 0) == e as int) by {
                let f = first_index_of(p@, '=', 0);
                if f < e as int {
                    assert(p@[f] == '=');
                } else if f > e as int {
                    assert(e < p.len());
                    assert(p@[e as int] == '=');
                }
            }
        }
        if e < p.len() {
            let k = subvec(p, 0, e);
            proof {
                assert(k@ =~= p@.take(e as int));
            }
            if crate::json::chars_eq(&k, &key) {
                let val = subvec(p, e + 1, p.len());
                proof {
                    assert(val@ =~= p@.skip(e + 1));
                    assert(pv[i as int] == p@);
                    assert(spec_lang_param(pv, i as int) == Some(p@.skip(e + 1)));
                }
                return locale_of_tag(string_of_chars(&val).as_str());
            }
        }
        proof {
            assert(pv[i as int] == p@);
            assert(spec_lang_param(pv, i as int) == spec_lang_param(pv, i + 1));
        }
        i = i + 1;
    }
    match accept_language {
        Some(h) => {
            let hchars = chars_of(h.as_str());
            let hlower = to_lower(&hchars);
            let ru: &str = "ru";
            if starts_with(&hlower, &chars_of(ru)) {
                Locale::Ru
            } else {
                Locale::En
            }
        },
        None => Locale::En,
    }
}

/// The localized label of a trend direction: `growing` and `decreasing` are
/// translated for Russian and kept for English; any other value passes
/// through unchanged.
pub open spec fn spec_direction_label(locale: Locale, dir: Seq<char>) -> Seq<char> {
    if locale == Locale::Ru && dir == "growing"@ {
        "рост"@
    } else if locale == Locale::Ru && dir == "decreasing"@ {
        "снижение"@
    } else if dir == "growing"@ {
        "growing"@
    } else if dir == "decreasing"@ {
        "decreasing"@
    } else {
        dir
    }
}

/// Localizes a trend direction label.
pub fn direction_label(locale: Locale, dir: &str) -> (r: String)
    ensures
        r@ == spec_direction_label(locale, dir@),
{
    let growing: &str = "growing";
    let decreasing: &str = "decreasing";
    if locale == Locale::Ru && str_eq(dir, growing) {
        let s: &str = "рост";
        s.to_owned()
    } else if locale == Locale::Ru && str_eq(dir, decreasing) {
        let s: &str = "снижение";
        s.to_owned()
    } else if str_eq(dir, growing) {
        growing.to_owned()
    } else if str_eq(dir, decreasing) {
        decreasing.to_owned()
    } else {
        dir.to_owned()
    }
}

} // verus!
