//! The table-directive grammar: a JSON object with an `output_format` string
//! and a `table` object holding `headers` (an array of strings) and `rows`
//! (an array of arrays of strings), in any member order. Members under other
//! keys are tolerated and skipped; a repeated known key rejects the object.
//! Strings carry the single-character escapes and `\u` escapes of
//! non-surrogate code points. Anything outside this grammar parses to
//! nothing, which callers treat as "no directive".

use vstd::prelude::*;
use crate::models::TableView;

verus! {

/// Whether a character is JSON whitespace.
pub open spec fn is_json_ws(c: char) -> bool {
    c == ' ' || c == '\t' || c == '\n' || c == '\r'
}

/// Index of the first non-whitespace character at or after `i`.
pub open spec fn ws_end(s: Seq<char>, i: int) -> int
    decreases s.len() - i,
{
    if 0 <= i && i < s.len() && is_json_ws(s[i]) {
        ws_end(s, i + 1)
    } else {
        i
    }
}

/// The first non-whitespace index is bounded by the length.
pub proof fn lemma_ws_end(s: Seq<char>, i: int)
    requires
        0 <= i <= s.len(),
    ensures
        i <= ws_end(s, i) <= s.len(),
    decreases s.len() - i,
{
    if i < s.len() && is_json_ws(s[i]) {
        lemma_ws_end(s, i + 1);
    }
}

/// The character named by a single-character JSON escape, if the escape is
/// one the grammar accepts.
pub open spec fn unescape(c: char) -> Option<char> {
    if c == '"' {
        Some('"')
    } else if c == '\\' {
        Some('\\')
    } else if c == '/' {
        Some('/')
    } else if c == 'b' {
        Some('\u{0008}')
    } else if c == 'f' {
        Some('\u{000C}')
    } else if c == 'n' {
        Some('\n')
    } else if c == 'r' {
        Some('\r')
    } else if c == 't' {
        Some('\t')
    } else {
        None
    }
}

/// The value of a hexadecimal digit, or sixteen for any other character.
pub open spec fn hex_val(c: char) -> int {
    if 48 <= c as u32 <= 57 {
        c as u32 - 48
    } else if 97 <= c as u32 <= 102 {
        c as u32 - 87
    } else if 65 <= c as u32 <= 70 {
        c as u32 - 55
    } else {
        16
    }
}

/// Whether a character is a hexadecimal digit.
pub open spec fn is_hex_digit(c: char) -> bool {
    hex_val(c) < 16
}

/// The value of the four hexadecimal digits at `i`.
pub open spec fn hex4_val(s: Seq<char>, i: int) -> int
    recommends
        0 <= i,
        i + 4 <= s.len(),
{
    hex_val(s[i]) * 4096 + hex_val(s[i + 1]) * 256 + hex_val(s[i + 2]) * 16 + hex_val(s[i + 3])
}

/// The decoded content and end position of a JSON string body starting just
/// after the opening quote: plain characters, the single-character escapes
/// and `\u` escapes of non-surrogate code points, up to the closing quote;
/// raw control characters, surrogate escapes or an unterminated string parse
/// to nothing.
pub open spec fn parse_string_body(s: Seq<char>, i: int) -> Option<(Seq<char>, int)>
    decreases s.len() - i,
{
    if i < 0 || i >= s.len() {
        None
    } else if s[i] == '"' {
        Some((Seq::empty(), i + 1))
    } else if s[i] == '\\' {
        if i + 1 < s.len() && s[i + 1] == 'u' {
            if i + 6 <= s.len() && is_hex_digit(s[i + 2]) && is_hex_digit(s[i + 3]) && is_hex_digit(
                s[i + 4],
            ) && is_hex_digit(s[i + 5]) {
                if 0xD800 <= hex4_val(s, i + 2) < 0xE000 {
                    None
                } else {
                    match parse_string_body(s, i + 6) {
                        Some(p) => Some((seq![hex4_val(s, i + 2) as char] + p.0, p.1)),
                        None => None,
                    }
                }
            } else {
                None
            }
        } else if i + 1 < s.len() {
            match unescape(s[i + 1]) {
                Some(c) => match parse_string_body(s, i + 2) {
                    Some(p) => Some((seq![c] + p.0, p.1)),
                    None => None,
                },
                None => None,
            }
        } else {
            None
        }
    } else if (s[i] as u32) < 32 {
        None
    } else {
        match parse_string_body(s, i + 1) {
            Some(p) => Some((seq![s[i]] + p.0, p.1)),
            None => None,
        }
    }
}

/// A parsed string body ends after its start and within the text.
pub proof fn lemma_parse_string_body_range(s: Seq<char>, i: int)
    ensures
        parse_string_body(s, i) matches Some(p) ==> i < p.1 <= s.len(),
    decreases s.len() - i,
{
    if 0 <= i && i < s.len() {
        if s[i] == '\\' {
            if i + 1 < s.len() && s[i + 1] == 'u' {
                if i + 6 <= s.len() {
                    lemma_parse_string_body_range(s, i + 6);
                }
            } else if i + 1 < s.len() {
                lemma_parse_string_body_range(s, i + 2);
            }
        } else {
            lemma_parse_string_body_range(s, i + 1);
        }
    }
}

/// The decoded content and end position of a JSON string starting at `i`.
pub open spec fn parse_jstring(s: Seq<char>, i: int) -> Option<(Seq<char>, int)> {
    if 0 <= i && i < s.len() && s[i] == '"' {
        parse_string_body(s, i + 1)
    } else {
        None
    }
}

/// A parsed string ends after its start and within the text.
pub proof fn lemma_parse_jstring_range(s: Seq<char>, i: int)
    ensures
        parse_jstring(s, i) matches Some(p) ==> i + 1 < p.1 <= s.len(),
{
    if 0 <= i && i < s.len() && s[i] == '"' {
        lemma_parse_string_body_range(s, i + 1);
    }
}

/// The items and end position of a non-empty string array whose first item
/// starts at `i`: strings separated by commas, closed by `]`.
pub open spec fn parse_string_items(s: Seq<char>, i: int) -> Option<(Seq<Seq<char>>, int)>
    decreases s.len() - i,
    when 0 <= i
    via parse_string_items_dec
{
    match parse_jstring(s, i) {
        Some(p) => {
            let k = ws_end(s, p.1);
            if 0 <= k && k < s.len() && s[k] == ',' {
                let m = ws_end(s, k + 1);
                match parse_string_items(s, m) {
                    Some(q) => Some((seq![p.0] + q.0, q.1)),
                    None => None,
                }
            } else if 0 <= k && k < s.len() && s[k] == ']' {
                Some((seq![p.0], k + 1))
            } else {
                None
            }
        },
        None => None,
    }
}

#[via_fn]
proof fn parse_string_items_dec(s: Seq<char>, i: int) {
    lemma_parse_jstring_range(s, i);
    match parse_jstring(s, i) {
        Some(p) => {
            lemma_ws_end(s, p.1);
            let k = ws_end(s, p.1);
            if 0 <= k && k < s.len() && s[k] == ',' {
                lemma_ws_end(s, k + 1);
            }
        },
        None => {},
    }
}

/// Parsed string items end after their start and within the text.
pub proof fn lemma_parse_string_items_range(s: Seq<char>, i: int)
    requires
        0 <= i,
    ensures
        parse_string_items(s, i) matches Some(p) ==> i < p.1 <= s.len(),
    decreases s.len() - i,
{
    lemma_parse_jstring_range(s, i);
    match parse_jstring(s, i) {
        Some(p) => {
            lemma_ws_end(s, p.1);
            let k = ws_end(s, p.1);
            if 0 <= k && k < s.len() && s[k] == ',' {
                lemma_ws_end(s, k + 1);
                lemma_parse_string_items_range(s, ws_end(s, k + 1));
            }
        },
        None => {},
    }
}

/// The items and end position of a string array starting at `i` with `[`.
pub open spec fn parse_string_array(s: Seq<char>, i: int) -> Option<(Seq<Seq<char>>, int)> {
    if 0 <= i && i < s.len() && s[i] == '[' {
        let k = ws_end(s, i + 1);
        if 0 <= k && k < s.len() && s[k] == ']' {
            Some((Seq::empty(), k + 1))
        } else {
            parse_string_items(s, k)
        }
    } else {
        None
    }
}

/// A parsed string array ends after its start and within the text.
pub proof fn lemma_parse_string_array_range(s: Seq<char>, i: int)
    ensures
        parse_string_array(s, i) matches Some(p) ==> i < p.1 <= s.len(),
{
    if 0 <= i && i < s.len() && s[i] == '[' {
        lemma_ws_end(s, i + 1);
        let k = ws_end(s, i + 1);
        if !(0 <= k && k < s.len() && s[k] == ']') {
            lemma_parse_string_items_range(s, k);
        }
    }
}

/// The rows and end position of a non-empty array of string arrays whose
/// first row starts at `i`.
pub open spec fn parse_row_items(s: Seq<char>, i: int) -> Option<(Seq<Seq<Seq<char>>>, int)>
    decreases s.len() - i,
    when 0 <= i
    via parse_row_items_dec
{
    match parse_string_array(s, i) {
        Some(p) => {
            let k = ws_end(s, p.1);
            if 0 <= k && k < s.len() && s[k] == ',' {
                let m = ws_end(s, k + 1);
                match parse_row_items(s, m) {
                    Some(q) => Some((seq![p.0] + q.0, q.1)),
                    None => None,
                }
            } else if 0 <= k && k < s.len() && s[k] == ']' {
                Some((seq![p.0], k + 1))
            } else {
                None
            }
        },
        None => None,
    }
}

#[via_fn]
proof fn parse_row_items_dec(s: Seq<char>, i: int) {
    lemma_parse_string_array_range(s, i);
    match parse_string_array(s, i) {
        Some(p) => {
            lemma_ws_end(s, p.1);
            let k = ws_end(s, p.1);
            if 0 <= k && k < s.len() && s[k] == ',' {
                lemma_ws_end(s, k + 1);
            }
        },
        None => {},
    }
}

/// Parsed row items end after their start and within the text.
pub proof fn lemma_parse_row_items_range(s: Seq<char>, i: int)
    requires
        0 <= i,
    ensures
        parse_row_items(s, i) matches Some(p) ==> i < p.1 <= s.len(),
    decreases s.len() - i,
{
    lemma_parse_string_array_range(s, i);
    match parse_string_array(s, i) {
        Some(p) => {
            lemma_ws_end(s, p.1);
            let k = ws_end(s, p.1);
            if 0 <= k && k < s.len() && s[k] == ',' {
                lemma_ws_end(s, k + 1);
                lemma_parse_row_items_range(s, ws_end(s, k + 1));
            }
        },
        None => {},
    }
}

/// The rows and end position of an array of string arrays starting at `i`.
pub open spec fn parse_rows_array(s: Seq<char>, i: int) -> Option<(Seq<Seq<Seq<char>>>, int)> {
    if 0 <= i && i < s.len() && s[i] == '[' {
        let k = ws_end(s, i + 1);
        if 0 <= k && k < s.len() && s[k] == ']' {
            Some((Seq::empty(), k + 1))
        } else {
            parse_row_items(s, k)
        }
    } else {
        None
    }
}

/// A parsed rows array ends after its start and within the text.
pub proof fn lemma_parse_rows_array_range(s: Seq<char>, i: int)
    ensures
        parse_rows_array(s, i) matches Some(p) ==> i < p.1 <= s.len(),
{
    if 0 <= i && i < s.len() && s[i] == '[' {
        lemma_ws_end(s, i + 1);
        let k = ws_end(s, i + 1);
        if !(0 <= k && k < s.len() && s[k] == ']') {
            lemma_parse_row_items_range(s, k);
        }
    }
}

/// The value after a key: the position of the first character of the value
/// of the pair whose key ends at `j`, or nothing when no `:` follows.
pub open spec fn value_start(s: Seq<char>, j: int) -> Option<int> {
    let c = ws_end(s, j);
    if 0 <= c && c < s.len() && s[c] == ':' {
        Some(ws_end(s, c + 1))
    } else {
        None
    }
}

/// Whether a character can appear in a number being skipped: the scan is
/// tolerant, consuming digits, signs, a decimal point and exponent letters.
pub open spec fn is_number_char(c: char) -> bool {
    (48 <= c as u32 <= 57) || c == '-' || c == '+' || c == '.' || c == 'e' || c == 'E'
}

/// Index of the first character at or after `i` outside the number charset.
pub open spec fn number_end(s: Seq<char>, i: int) -> int
    decreases s.len() - i,
{
    if 0 <= i && i < s.len() && is_number_char(s[i]) {
        number_end(s, i + 1)
    } else {
        i
    }
}

/// The number scan never runs past the end.
pub proof fn lemma_number_end(s: Seq<char>, i: int)
    requires
        0 <= i <= s.len(),
    ensures
        i <= number_end(s, i) <= s.len(),
    decreases s.len() - i,
{
    if i < s.len() && is_number_char(s[i]) {
        lemma_number_end(s, i + 1);
    }
}

/// The end position of one skipped JSON value starting at `i`: strings by
/// the string grammar, objects and arrays recursively, the three literals,
/// and numbers by the tolerant charset. Members the directive does not know
/// are passed over with this scan.
pub open spec fn skip_value(s: Seq<char>, i: int) -> Option<int>
    decreases s.len() - i, 0int,
    when 0 <= i
    via skip_value_dec
{
    if i >= s.len() {
        None
    } else if s[i] == '"' {
        match parse_string_body(s, i + 1) {
            Some(p) => Some(p.1),
            None => None,
        }
    } else if s[i] == '{' {
        let k = ws_end(s, i + 1);
        if k < s.len() && s[k] == '}' {
            Some(k + 1)
        } else {
            skip_members(s, k)
        }
    } else if s[i] == '[' {
        let k = ws_end(s, i + 1);
        if k < s.len() && s[k] == ']' {
            Some(k + 1)
        } else {
            skip_items(s, k)
        }
    } else if s[i] == 't' {
        if i + 4 <= s.len() && s[i + 1] == 'r' && s[i + 2] == 'u' && s[i + 3] == 'e' {
            Some(i + 4)
        } else {
            None
        }
    } else if s[i] == 'f' {
        if i + 5 <= s.len() && s[i + 1] == 'a' && s[i + 2] == 'l' && s[i + 3] == 's' && s[i + 4]
            == 'e' {
            Some(i + 5)
        } else {
            None
        }
    } else if s[i] == 'n' {
        if i + 4 <= s.len() && s[i + 1] == 'u' && s[i + 2] == 'l' && s[i + 3] == 'l' {
            Some(i + 4)
        } else {
            None
        }
    } else if s[i] == '-' || (48 <= s[i] as u32 <= 57) {
        Some(number_end(s, i + 1))
    } else {
        None
    }
}

#[via_fn]
proof fn skip_value_dec(s: Seq<char>, i: int) {
    assert forall|x: int| 0 <= x <= s.len() implies x <= #[trigger] ws_end(s, x) <= s.len() by {
        lemma_ws_end(s, x);
    }
}

/// The end of a non-empty array being skipped, its first item at `i`.
pub open spec fn skip_items(s: Seq<char>, i: int) -> Option<int>
    decreases s.len() - i, 1int,
    when 0 <= i
    via skip_items_dec
{
    match skip_value(s, i) {
        Some(j) => if i < j <= s.len() {
            let k = ws_end(s, j);
            if k < s.len() && s[k] == ',' {
                skip_items(s, ws_end(s, k + 1))
            } else if k < s.len() && s[k] == ']' {
                Some(k + 1)
            } else {
                None
            }
        } else {
            None
        },
        None => None,
    }
}

#[via_fn]
proof fn skip_items_dec(s: Seq<char>, i: int) {
    assert forall|x: int| 0 <= x <= s.len() implies x <= #[trigger] ws_end(s, x) <= s.len() by {
        lemma_ws_end(s, x);
    }
}

/// The end of a non-empty object being skipped, its first member's key at
/// `i`.
pub open spec fn skip_members(s: Seq<char>, i: int) -> Option<int>
    decreases s.len() - i, 1int,
    when 0 <= i
    via skip_members_dec
{
    match parse_jstring(s, i) {
        Some(kp) => match value_start(s, kp.1) {
            Some(v1) => if i < v1 <= s.len() {
                match skip_value(s, v1) {
                    Some(j) => if v1 < j <= s.len() {
                        let k = ws_end(s, j);
                        if k < s.len() && s[k] == ',' {
                            skip_members(s, ws_end(s, k + 1))
                        } else if k < s.len() && s[k] == '}' {
                            Some(k + 1)
                        } else {
                            None
                        }
                    } else {
                        None
                    },
                    None => None,
                }
            } else {
                None
            },
            None => None,
        },
        None => None,
    }
}

#[via_fn]
proof fn skip_members_dec(s: Seq<char>, i: int) {
    assert forall|x: int| 0 <= x <= s.len() implies x <= #[trigger] ws_end(s, x) <= s.len() by {
        lemma_ws_end(s, x);
    }
}

/// The member run of the table object from the key at `i` on: `headers` and
/// `rows` are parsed, each at most once (a repeated key rejects the object,
/// as the original deserializer does), members under any other key are
/// skipped, and the closing brace requires both to have been seen.
pub open spec fn table_members(
    s: Seq<char>,
    i: int,
    hs: Option<Seq<Seq<char>>>,
    rs: Option<Seq<Seq<Seq<char>>>>,
) -> Option<(TableView, int)>
    decreases s.len() - i, 0int,
    when 0 <= i
    via table_members_dec
{
    match parse_jstring(s, i) {
        Some(kp) => match value_start(s, kp.1) {
            Some(v1) => if i < v1 <= s.len() {
                if kp.0 == "headers"@ {
                    if hs is Some {
                        None
                    } else {
                        match parse_string_array(s, v1) {
                            Some(hp) => if v1 < hp.1 <= s.len() {
                                table_after_member(s, hp.1, Some(hp.0), rs)
                            } else {
                                None
                            },
                            None => None,
                        }
                    }
                } else if kp.0 == "rows"@ {
                    if rs is Some {
                        None
                    } else {
                        match parse_rows_array(s, v1) {
                            Some(rp) => if v1 < rp.1 <= s.len() {
                                table_after_member(s, rp.1, hs, Some(rp.0))
                            } else {
                                None
                            },
                            None => None,
                        }
                    }
                } else {
                    match skip_value(s, v1) {
                        Some(j) => if v1 < j <= s.len() {
                            table_after_member(s, j, hs, rs)
                        } else {
                            None
                        },
                        None => None,
                    }
                }
            } else {
                None
            },
            None => None,
        },
        None => None,
    }
}

#[via_fn]
proof fn table_members_dec(
    s: Seq<char>,
    i: int,
    hs: Option<Seq<Seq<char>>>,
    rs: Option<Seq<Seq<Seq<char>>>>,
) {
    assert forall|x: int| 0 <= x <= s.len() implies x <= #[trigger] ws_end(s, x) <= s.len() by {
        lemma_ws_end(s, x);
    }
}

/// After one table member ending at `j`: a comma continues the member run, a
/// closing brace ends the object when both fields were seen.
pub open spec fn table_after_member(
    s: Seq<char>,
    j: int,
    hs: Option<Seq<Seq<char>>>,
    rs: Option<Seq<Seq<Seq<char>>>>,
) -> Option<(TableView, int)>
    decreases s.len() - j, 1int,
    when 0 <= j <= s.len()
    via table_after_member_dec
{
    let k = ws_end(s, j);
    if k < s.len() && s[k] == ',' {
        table_members(s, ws_end(s, k + 1), hs, rs)
    } else if k < s.len() && s[k] == '}' {
        match (hs, rs) {
            (Some(h), Some(r)) => Some((TableView { headers: h, rows: r }, k + 1)),
            _ => None,
        }
    } else {
        None
    }
}

#[via_fn]
proof fn table_after_member_dec(
    s: Seq<char>,
    j: int,
    hs: Option<Seq<Seq<char>>>,
    rs: Option<Seq<Seq<Seq<char>>>>,
) {
    assert forall|x: int| 0 <= x <= s.len() implies x <= #[trigger] ws_end(s, x) <= s.len() by {
        lemma_ws_end(s, x);
    }
}

/// The table object and end position starting at `i`: an object whose
/// `headers` and `rows` members may come in any order among members the
/// grammar ignores.
pub open spec fn parse_table(s: Seq<char>, i: int) -> Option<(TableView, int)> {
    if 0 <= i && i < s.len() && s[i] == '{' {
        let k = ws_end(s, i + 1);
        if k < s.len() && s[k] == '}' {
            None
        } else {
            table_members(s, k, None, None)
        }
    } else {
        None
    }
}

/// The member run of the directive object from the key at `i` on:
/// `output_format` (a string) and `table` (a table object), each at most
/// once, among members the grammar ignores; the closing brace requires both.
pub open spec fn directive_members(
    s: Seq<char>,
    i: int,
    fmt: Option<Seq<char>>,
    tbl: Option<TableView>,
) -> Option<((Seq<char>, TableView), int)>
    decreases s.len() - i, 0int,
    when 0 <= i
    via directive_members_dec
{
    match parse_jstring(s, i) {
        Some(kp) => match value_start(s, kp.1) {
            Some(v1) => if i < v1 <= s.len() {
                if kp.0 == "output_format"@ {
                    if fmt is Some {
                        None
                    } else {
                        match parse_jstring(s, v1) {
                            Some(fp) => if v1 < fp.1 <= s.len() {
                                directive_after_member(s, fp.1, Some(fp.0), tbl)
                            } else {
                                None
                            },
                            None => None,
                        }
                    }
                } else if kp.0 == "table"@ {
                    if tbl is Some {
                        None
                    } else {
                        match parse_table(s, v1) {
                            Some(tp) => if v1 < tp.1 <= s.len() {
                                directive_after_member(s, tp.1, fmt, Some(tp.0))
                            } else {
                                None
                            },
                            None => None,
                        }
                    }
                } else {
                    match skip_value(s, v1) {
                        Some(j) => if v1 < j <= s.len() {
                            directive_after_member(s, j, fmt, tbl)
                        } else {
                            None
                        },
                        None => None,
                    }
                }
            } else {
                None
            },
            None => None,
        },
        None => None,
    }
}

#[via_fn]
proof fn directive_members_dec(
    s: Seq<char>,
    i: int,
    fmt: Option<Seq<char>>,
    tbl: Option<TableView>,
) {
    assert forall|x: int| 0 <= x <= s.len() implies x <= #[trigger] ws_end(s, x) <= s.len() by {
        lemma_ws_end(s, x);
    }
}

/// After one directive member ending at `j`: a comma continues the run, a
/// closing brace ends the object when both fields were seen.
pub open spec fn directive_after_member(
    s: Seq<char>,
    j: int,
    fmt: Option<Seq<char>>,
    tbl: Option<TableView>,
) -> Option<((Seq<char>, TableView), int)>
    decreases s.len() - j, 1int,
    when 0 <= j <= s.len()
    via directive_after_member_dec
{
    let k = ws_end(s, j);
    if k < s.len() && s[k] == ',' {
        directive_members(s, ws_end(s, k + 1), fmt, tbl)
    } else if k < s.len() && s[k] == '}' {
        match (fmt, tbl) {
            (Some(f), Some(t)) => Some(((f, t), k + 1)),
            _ => None,
        }
    } else {
        None
    }
}

#[via_fn]
proof fn directive_after_member_dec(
    s: Seq<char>,
    j: int,
    fmt: Option<Seq<char>>,
    tbl: Option<TableView>,
) {
    assert forall|x: int| 0 <= x <= s.len() implies x <= #[trigger] ws_end(s, x) <= s.len() by {
        lemma_ws_end(s, x);
    }
}

/// The directive denoted by a whole text: one object with `output_format`
/// (a string) and `table` (a table object) in any member order, members
/// under other keys ignored, with only whitespace after the object.
pub open spec fn spec_parse_directive(s: Seq<char>) -> Option<(Seq<char>, TableView)> {
    let i = ws_end(s, 0);
    if 0 <= i && i < s.len() && s[i] == '{' {
        let k = ws_end(s, i + 1);
        if k < s.len() && s[k] == '}' {
            None
        } else {
            match directive_members(s, k, None, None) {
                Some(dp) => if ws_end(s, dp.1) == s.len() {
                    Some(dp.0)
                } else {
                    None
                },
                None => None,
            }
        }
    } else {
        None
    }
}


/// Executable JSON whitespace test.
fn is_json_ws_x(c: char) -> (r: bool)
    ensures
        r == is_json_ws(c),
{
    c == ' ' || c == '\t' || c == '\n' || c == '\r'
}

/// Executable scan to the first non-whitespace position.
fn ws_end_x(v: &Vec<char>, i: usize) -> (r: usize)
    requires
        i <= v@.len(),
    ensures
        r as int == ws_end(v@, i as int),
        i <= r <= v@.len(),
{
    let mut j: usize = i;
    while j < v.len() && is_json_ws_x(v[j])
        invariant
            i <= j <= v@.len(),
            ws_end(v@, i as int) == ws_end(v@, j as int),
        decreases v@.len() - j,
    {
        j = j + 1;
    }
    j
}

/// Executable escape decoding.
fn unescape_x(c: char) -> (r: Option<char>)
    ensures
        r == unescape(c),
{
    if c == '"' {
        Some('"')
    } else if c == '\\' {
        Some('\\')
    } else if c == '/' {
        Some('/')
    } else if c == 'b' {
        Some('\u{0008}')
    } else if c == 'f' {
        Some('\u{000C}')
    } else if c == 'n' {
        Some('\n')
    } else if c == 'r' {
        Some('\r')
    } else if c == 't' {
        Some('\t')
    } else {
        None
    }
}

/// Compares two character vectors.
pub fn chars_eq(a: &Vec<char>, b: &Vec<char>) -> (r: bool)
    ensures
        r == (a@ == b@),
{
    if a.len() != b.len() {
        return false;
    }
    let mut i: usize = 0;
    while i < a.len()
        invariant
            0 <= i <= a@.len(),
            a@.len() == b@.len(),
            forall|m: int| 0 <= m < i ==> a@[m] == b@[m],
        decreases a@.len() - i,
    {
        if a[i] != b[i] {
            return false;
        }
        i = i + 1;
    }
    proof {
        assert(a@ =~= b@);
    }
    true
}

/// Relies on std's `char::from_u32`: every value below the surrogate range
/// or between the surrogate range and the scalar maximum is a valid scalar
/// value and converts to its character.
#[verifier::external_body]
fn char_from_u32(v: u32) -> (r: char)
    requires
        v < 0xD800 || (0xE000 <= v && v <= 0x10FFFF),
    ensures
        r == v as char,
{
    char::from_u32(v).unwrap()
}

/// The value of one hexadecimal digit, when the character is one.
fn hex_digit_x(c: char) -> (r: Option<u32>)
    ensures
        match r {
            Some(d) => is_hex_digit(c) && d == hex_val(c) && d < 16,
            None => !is_hex_digit(c),
        },
{
    let cv = c as u32;
    if 48 <= cv && cv <= 57 {
        Some(cv - 48)
    } else if 97 <= cv && cv <= 102 {
        Some(cv - 87)
    } else if 65 <= cv && cv <= 70 {
        Some(cv - 55)
    } else {
        None
    }
}

/// Executable string-body parser.
fn parse_string_body_x(v: &Vec<char>, i: usize) -> (r: Option<(Vec<char>, usize)>)
    requires
        i <= v@.len(),
    ensures
        match r {
            Some(p) => parse_string_body(v@, i as int) == Some((p.0@, p.1 as int)) && i < p.1
                <= v@.len(),
            None => parse_string_body(v@, i as int) is None,
        },
    decreases v@.len() - i,
{
    if i >= v.len() {
        return None;
    }
    let c = v[i];
    if c == '"' {
        let e: Vec<char> = Vec::new();
        proof {
            assert(e@ =~= Seq::<char>::empty());
        }
        return Some((e, i + 1));
    }
    if c == '\\' {
        if i + 1 < v.len() && v[i + 1] == 'u' {
            if v.len() - i >= 6 {
                let h1 = hex_digit_x(v[i + 2]);
                let h2 = hex_digit_x(v[i + 3]);
                let h3 = hex_digit_x(v[i + 4]);
                let h4 = hex_digit_x(v[i + 5]);
                match (h1, h2, h3, h4) {
                    (Some(a), Some(b), Some(cc), Some(d)) => {
                        let val: u32 = a * 4096 + b * 256 + cc * 16 + d;
                        proof {
                            assert(val == hex4_val(v@, i + 2));
                        }
                        if 0xD800 <= val && val < 0xE000 {
                            None
                        } else {
                            match parse_string_body_x(v, i + 6) {
                                Some((rest, j)) => {
                                    let ghost rv = rest@;
                                    let ch = char_from_u32(val);
                                    let mut out = rest;
                                    out.insert(0, ch);
                                    proof {
                                        assert(out@ =~= seq![hex4_val(v@, i + 2) as char] + rv);
                                    }
                                    Some((out, j))
                                },
                                None => None,
                            }
                        }
                    },
                    _ => None,
                }
            } else {
                None
            }
        } else if i + 1 < v.len() {
            match unescape_x(v[i + 1]) {
                Some(d) => match parse_string_body_x(v, i + 2) {
                    Some((rest, j)) => {
                        let ghost rv = rest@;
                        let mut out = rest;
                        out.insert(0, d);
                        proof {
                            assert(out@ =~= seq![d] + rv);
                        }
                        Some((out, j))
                    },
                    None => None,
                },
                None => None,
            }
        } else {
            None
        }
    } else if (c as u32) < 32 {
        None
    } else {
        match parse_string_body_x(v, i + 1) {
            Some((rest, j)) => {
                let ghost rv = rest@;
                let mut out = rest;
                out.insert(0, c);
                proof {
                    assert(out@ =~= seq![c] + rv);
                }
                Some((out, j))
            },
            None => None,
        }
    }
}

/// Executable JSON string parser.
fn parse_jstring_x(v: &Vec<char>, i: usize) -> (r: Option<(Vec<char>, usize)>)
    requires
        i <= v@.len(),
    ensures
        match r {
            Some(p) => parse_jstring(v@, i as int) == Some((p.0@, p.1 as int)) && i < p.1
                <= v@.len(),
            None => parse_jstring(v@, i as int) is None,
        },
{
    if i < v.len() && v[i] == '"' {
        parse_string_body_x(v, i + 1)
    } else {
        None
    }
}

/// Puts one string in front of a list of strings.
fn prepend_item(v: Vec<Vec<char>>, x: Vec<char>) -> (r: Vec<Vec<char>>)
    ensures
        r@.map_values(|t: Vec<char>| t@) == seq![x@] + v@.map_values(|t: Vec<char>| t@),
{
    let ghost vm = v@.map_values(|t: Vec<char>| t@);
    let ghost xv = x@;
    let mut v = v;
    v.insert(0, x);
    proof {
        let lhs = v@.map_values(|t: Vec<char>| t@);
        let rhs = seq![xv] + vm;
        assert forall|m: int| 0 <= m < lhs.len() implies lhs[m] == rhs[m] by {
            if m > 0 {
                assert(vm[m - 1] == rhs[m]);
            }
        }
        assert(lhs =~= rhs);
    }
    v
}

/// Puts one row in front of a list of rows.
fn prepend_row(v: Vec<Vec<Vec<char>>>, x: Vec<Vec<char>>) -> (r: Vec<Vec<Vec<char>>>)
    ensures
        r@.map_values(|t: Vec<Vec<char>>| t@.map_values(|u: Vec<char>| u@)) == seq![
            x@.map_values(|u: Vec<char>| u@),
        ] + v@.map_values(|t: Vec<Vec<char>>| t@.map_values(|u: Vec<char>| u@)),
{
    let ghost vm = v@.map_values(|t: Vec<Vec<char>>| t@.map_values(|u: Vec<char>| u@));
    let ghost xv = x@.map_values(|u: Vec<char>| u@);
    let mut v = v;
    v.insert(0, x);
    proof {
        let lhs = v@.map_values(|t: Vec<Vec<char>>| t@.map_values(|u: Vec<char>| u@));
        let rhs = seq![xv] + vm;
        assert forall|m: int| 0 <= m < lhs.len() implies lhs[m] == rhs[m] by {
            if m > 0 {
                assert(vm[m - 1] == rhs[m]);
            }
        }
        assert(lhs =~= rhs);
    }
    v
}

/// Executable parser for the items of a non-empty string array.
fn parse_string_items_x(v: &Vec<char>, i: usize) -> (r: Option<(Vec<Vec<char>>, usize)>)
    requires
        i <= v@.len(),
    ensures
        match r {
            Some(p) => parse_string_items(v@, i as int) == Some(
                (p.0@.map_values(|t: Vec<char>| t@), p.1 as int),
            ) && i < p.1 <= v@.len(),
            None => parse_string_items(v@, i as int) is None,
        },
    decreases v@.len() - i,
{
    match parse_jstring_x(v, i) {
        Some((item, j)) => {
            let k = ws_end_x(v, j);
            if k < v.len() && v[k] == ',' {
                let m = ws_end_x(v, k + 1);
                match parse_string_items_x(v, m) {
                    Some((rest, e)) => {
                        let ghost iv = item@;
                        let out = prepend_item(rest, item);
                        Some((out, e))
                    },
                    None => None,
                }
            } else if k < v.len() && v[k] == ']' {
                let mut out: Vec<Vec<char>> = Vec::new();
                out.push(item);
                proof {
                    assert(out@.map_values(|t: Vec<char>| t@) =~= seq![out@[0]@]);
                }
                Some((out, k + 1))
            } else {
                None
            }
        },
        None => None,
    }
}

/// Executable string-array parser.
fn parse_string_array_x(v: &Vec<char>, i: usize) -> (r: Option<(Vec<Vec<char>>, usize)>)
    requires
        i <= v@.len(),
    ensures
        match r {
            Some(p) => parse_string_array(v@, i as int) == Some(
                (p.0@.map_values(|t: Vec<char>| t@), p.1 as int),
            ) && i < p.1 <= v@.len(),
            None => parse_string_array(v@, i as int) is None,
        },
{
    if i < v.len() && v[i] == '[' {
        let k = ws_end_x(v, i + 1);
        if k < v.len() && v[k] == ']' {
            let e: Vec<Vec<char>> = Vec::new();
            proof {
                assert(e@.map_values(|t: Vec<char>| t@) =~= Seq::<Seq<char>>::empty());
            }
            Some((e, k + 1))
        } else {
            parse_string_items_x(v, k)
        }
    } else {
        None
    }
}

/// Executable parser for the items of a non-empty rows array.
fn parse_row_items_x(v: &Vec<char>, i: usize) -> (r: Option<(Vec<Vec<Vec<char>>>, usize)>)
    requires
        i <= v@.len(),
    ensures
        match r {
            Some(p) => parse_row_items(v@, i as int) == Some(
                (p.0@.map_values(|t: Vec<Vec<char>>| t@.map_values(|u: Vec<char>| u@)), p.1 as int),
            ) && i < p.1 <= v@.len(),
            None => parse_row_items(v@, i as int) is None,
        },
    decreases v@.len() - i,
{
    match parse_string_array_x(v, i) {
        Some((row, j)) => {
            let k = ws_end_x(v, j);
            if k < v.len() && v[k] == ',' {
                let m = ws_end_x(v, k + 1);
                match parse_row_items_x(v, m) {
                    Some((rest, e)) => {
                        let out = prepend_row(rest, row);
                        Some((out, e))
                    },
                    None => None,
                }
            } else if k < v.len() && v[k] == ']' {
                let ghost rv = row@.map_values(|u: Vec<char>| u@);
                let mut out: Vec<Vec<Vec<char>>> = Vec::new();
                out.push(row);
                proof {
                    assert(out@.map_values(|t: Vec<Vec<char>>| t@.map_values(|u: Vec<char>| u@))
                        =~= seq![rv]);
                }
                Some((out, k + 1))
            } else {
                None
            }
        },
        None => None,
    }
}

/// Executable rows-array parser.
fn parse_rows_array_x(v: &Vec<char>, i: usize) -> (r: Option<(Vec<Vec<Vec<char>>>, usize)>)
    requires
        i <= v@.len(),
    ensures
        match r {
            Some(p) => parse_rows_array(v@, i as int) == Some(
                (p.0@.map_values(|t: Vec<Vec<char>>| t@.map_values(|u: Vec<char>| u@)), p.1 as int),
            ) && i < p.1 <= v@.len(),
            None => parse_rows_array(v@, i as int) is None,
        },
{
    if i < v.len() && v[i] == '[' {
        let k = ws_end_x(v, i + 1);
        if k < v.len() && v[k] == ']' {
            let e: Vec<Vec<Vec<char>>> = Vec::new();
            proof {
                assert(e@.map_values(|t: Vec<Vec<char>>| t@.map_values(|u: Vec<char>| u@))
                    =~= Seq::<Seq<Seq<char>>>::empty());
            }
            Some((e, k + 1))
        } else {
            parse_row_items_x(v, k)
        }
    } else {
        None
    }
}

/// Executable scan for a pair's value start.
fn value_start_x(v: &Vec<char>, j: usize) -> (r: Option<usize>)
    requires
        j <= v@.len(),
    ensures
        match r {
            Some(p) => value_start(v@, j as int) == Some(p as int) && j < p <= v@.len(),
            None => value_start(v@, j as int) is None,
        },
{
    let c = ws_end_x(v, j);
    if c < v.len() && v[c] == ':' {
        Some(ws_end_x(v, c + 1))
    } else {
        None
    }
}

/// Executable number scan.
fn number_end_x(v: &Vec<char>, i: usize) -> (r: usize)
    requires
        i <= v@.len(),
    ensures
        r as int == number_end(v@, i as int),
        i <= r <= v@.len(),
{
    let mut j: usize = i;
    while j < v.len() && (48 <= v[j] as u32 && v[j] as u32 <= 57 || v[j] == '-' || v[j] == '+'
        || v[j] == '.' || v[j] == 'e' || v[j] == 'E')
        invariant
            i <= j <= v@.len(),
            number_end(v@, i as int) == number_end(v@, j as int),
        decreases v@.len() - j,
    {
        j = j + 1;
    }
    j
}

/// Executable tolerant value skip.
fn skip_value_x(v: &Vec<char>, i: usize) -> (r: Option<usize>)
    requires
        i <= v@.len(),
    ensures
        match r {
            Some(j) => skip_value(v@, i as int) == Some(j as int) && i < j <= v@.len(),
            None => skip_value(v@, i as int) is None,
        },
    decreases v@.len() - i, 0int,
{
    if i >= v.len() {
        return None;
    }
    let c = v[i];
    if c == '"' {
        match parse_string_body_x(v, i + 1) {
            Some(p) => Some(p.1),
            None => None,
        }
    } else if c == '{' {
        let k = ws_end_x(v, i + 1);
        if k < v.len() && v[k] == '}' {
            Some(k + 1)
        } else {
            skip_members_x(v, k)
        }
    } else if c == '[' {
        let k = ws_end_x(v, i + 1);
        if k < v.len() && v[k] == ']' {
            Some(k + 1)
        } else {
            skip_items_x(v, k)
        }
    } else if c == 't' {
        if v.len() - i >= 4 && v[i + 1] == 'r' && v[i + 2] == 'u' && v[i + 3] == 'e' {
            Some(i + 4)
        } else {
            None
        }
    } else if c == 'f' {
        if v.len() - i >= 5 && v[i + 1] == 'a' && v[i + 2] == 'l' && v[i + 3] == 's' && v[i + 4]
            == 'e' {
            Some(i + 5)
        } else {
            None
        }
    } else if c == 'n' {
        if v.len() - i >= 4 && v[i + 1] == 'u' && v[i + 2] == 'l' && v[i + 3] == 'l' {
            Some(i + 4)
        } else {
            None
        }
    } else if c == '-' || (48 <= c as u32 && c as u32 <= 57) {
        Some(number_end_x(v, i + 1))
    } else {
        None
    }
}

/// Executable skip of a non-empty array's items.
fn skip_items_x(v: &Vec<char>, i: usize) -> (r: Option<usize>)
    requires
        i <= v@.len(),
    ensures
        match r {
            Some(j) => skip_items(v@, i as int) == Some(j as int) && i < j <= v@.len(),
            None => skip_items(v@, i as int) is None,
        },
    decreases v@.len() - i, 1int,
{
    match skip_value_x(v, i) {
        Some(j) => {
            let k = ws_end_x(v, j);
            if k < v.len() && v[k] == ',' {
                let m = ws_end_x(v, k + 1);
                skip_items_x(v, m)
            } else if k < v.len() && v[k] == ']' {
                Some(k + 1)
            } else {
                None
            }
        },
        None => None,
    }
}

/// Executable skip of a non-empty object's members.
fn skip_members_x(v: &Vec<char>, i: usize) -> (r: Option<usize>)
    requires
        i <= v@.len(),
    ensures
        match r {
            Some(j) => skip_members(v@, i as int) == Some(j as int) && i < j <= v@.len(),
            None => skip_members(v@, i as int) is None,
        },
    decreases v@.len() - i, 1int,
{
    match parse_jstring_x(v, i) {
        Some((_key, j)) => match value_start_x(v, j) {
            Some(v1) => match skip_value_x(v, v1) {
                Some(j2) => {
                    let k = ws_end_x(v, j2);
                    if k < v.len() && v[k] == ',' {
                        let m = ws_end_x(v, k + 1);
                        skip_members_x(v, m)
                    } else if k < v.len() && v[k] == '}' {
                        Some(k + 1)
                    } else {
                        None
                    }
                },
                None => None,
            },
            None => None,
        },
        None => None,
    }
}

/// The view of optional parsed header cells.
pub open spec fn opt_cells_view(o: Option<Vec<Vec<char>>>) -> Option<Seq<Seq<char>>> {
    match o {
        Some(h) => Some(h@.map_values(|t: Vec<char>| t@)),
        None => None,
    }
}

/// The view of optional parsed rows.
pub open spec fn opt_rows_view(o: Option<Vec<Vec<Vec<char>>>>) -> Option<Seq<Seq<Seq<char>>>> {
    match o {
        Some(r) => Some(r@.map_values(|t: Vec<Vec<char>>| t@.map_values(|u: Vec<char>| u@))),
        None => None,
    }
}

/// The view of an optional parsed format string.
pub open spec fn opt_chars_view(o: Option<Vec<char>>) -> Option<Seq<char>> {
    match o {
        Some(f) => Some(f@),
        None => None,
    }
}

/// The view of an optional parsed table.
pub open spec fn opt_parsed_table_view(o: Option<(Vec<Vec<char>>, Vec<Vec<Vec<char>>>)>) -> Option<
    TableView,
> {
    match o {
        Some(t) => Some(
            TableView {
                headers: t.0@.map_values(|x: Vec<char>| x@),
                rows: t.1@.map_values(|x: Vec<Vec<char>>| x@.map_values(|u: Vec<char>| u@)),
            },
        ),
        None => None,
    }
}

/// Executable member run of the table object.
fn table_members_x(
    v: &Vec<char>,
    i: usize,
    hs: Option<Vec<Vec<char>>>,
    rs: Option<Vec<Vec<Vec<char>>>>,
) -> (r: Option<((Vec<Vec<char>>, Vec<Vec<Vec<char>>>), usize)>)
    requires
        i <= v@.len(),
    ensures
        match r {
            Some(p) => table_members(v@, i as int, opt_cells_view(hs), opt_rows_view(rs)) matches Some(
                q,
            ) && q.0.headers == (p.0).0@.map_values(|t: Vec<char>| t@) && q.0.rows == (
            p.0).1@.map_values(|t: Vec<Vec<char>>| t@.map_values(|u: Vec<char>| u@)) && q.1
                == p.1 as int && i < p.1 <= v@.len(),
            None => table_members(v@, i as int, opt_cells_view(hs), opt_rows_view(rs)) is None,
        },
    decreases v@.len() - i, 0int,
{
    let headers_key = key_headers();
    let rows_key = key_rows();
    match parse_jstring_x(v, i) {
        Some((key, j)) => match value_start_x(v, j) {
            Some(v1) => {
                if chars_eq(&key, &headers_key) {
                    if hs.is_some() {
                        None
                    } else {
                        match parse_string_array_x(v, v1) {
                            Some((h, j2)) => table_after_member_x(v, j2, Some(h), rs),
                            None => None,
                        }
                    }
                } else if chars_eq(&key, &rows_key) {
                    if rs.is_some() {
                        None
                    } else {
                        match parse_rows_array_x(v, v1) {
                            Some((rws, j2)) => table_after_member_x(v, j2, hs, Some(rws)),
                            None => None,
                        }
                    }
                } else {
                    match skip_value_x(v, v1) {
                        Some(j2) => table_after_member_x(v, j2, hs, rs),
                        None => None,
                    }
                }
            },
            None => None,
        },
        None => None,
    }
}

/// Executable continuation after one table member.
fn table_after_member_x(
    v: &Vec<char>,
    j: usize,
    hs: Option<Vec<Vec<char>>>,
    rs: Option<Vec<Vec<Vec<char>>>>,
) -> (r: Option<((Vec<Vec<char>>, Vec<Vec<Vec<char>>>), usize)>)
    requires
        j <= v@.len(),
    ensures
        match r {
            Some(p) => table_after_member(v@, j as int, opt_cells_view(hs), opt_rows_view(rs)) matches Some(
                q,
            ) && q.0.headers == (p.0).0@.map_values(|t: Vec<char>| t@) && q.0.rows == (
            p.0).1@.map_values(|t: Vec<Vec<char>>| t@.map_values(|u: Vec<char>| u@)) && q.1
                == p.1 as int && j < p.1 <= v@.len(),
            None => table_after_member(v@, j as int, opt_cells_view(hs), opt_rows_view(rs))
                is None,
        },
    decreases v@.len() - j, 1int,
{
    let k = ws_end_x(v, j);
    if k < v.len() && v[k] == ',' {
        let m = ws_end_x(v, k + 1);
        table_members_x(v, m, hs, rs)
    } else if k < v.len() && v[k] == '}' {
        match (hs, rs) {
            (Some(h), Some(rws)) => Some(((h, rws), k + 1)),
            _ => None,
        }
    } else {
        None
    }
}

/// Executable table-object parser.
fn parse_table_x(v: &Vec<char>, i: usize) -> (r: Option<
    ((Vec<Vec<char>>, Vec<Vec<Vec<char>>>), usize),
>)
    requires
        i <= v@.len(),
    ensures
        match r {
            Some(p) => parse_table(v@, i as int) matches Some(q) && q.0.headers == (
            p.0).0@.map_values(|t: Vec<char>| t@) && q.0.rows == (p.0).1@.map_values(
                |t: Vec<Vec<char>>| t@.map_values(|u: Vec<char>| u@),
            ) && q.1 == p.1 as int && i < p.1 <= v@.len(),
            None => parse_table(v@, i as int) is None,
        },
{
    if !(i < v.len() && v[i] == '{') {
        return None;
    }
    let k = ws_end_x(v, i + 1);
    if k < v.len() && v[k] == '}' {
        None
    } else {
        table_members_x(v, k, None, None)
    }
}

/// The `headers` key as characters.
fn key_headers() -> (r: Vec<char>)
    ensures
        r@ == "headers"@,
{
    let s: &str = "headers";
    crate::text::chars_of(s)
}

/// The `rows` key as characters.
fn key_rows() -> (r: Vec<char>)
    ensures
        r@ == "rows"@,
{
    let s: &str = "rows";
    crate::text::chars_of(s)
}

/// The `output_format` key as characters.
fn key_output_format() -> (r: Vec<char>)
    ensures
        r@ == "output_format"@,
{
    let s: &str = "output_format";
    crate::text::chars_of(s)
}

/// The `table` key as characters.
fn key_table() -> (r: Vec<char>)
    ensures
        r@ == "table"@,
{
    let s: &str = "table";
    crate::text::chars_of(s)
}

/// Executable member run of the directive object.
fn directive_members_x(
    v: &Vec<char>,
    i: usize,
    fmt: Option<Vec<char>>,
    tbl: Option<(Vec<Vec<char>>, Vec<Vec<Vec<char>>>)>,
) -> (r: Option<((Vec<char>, (Vec<Vec<char>>, Vec<Vec<Vec<char>>>)), usize)>)
    requires
        i <= v@.len(),
    ensures
        match r {
            Some(p) => directive_members(
                v@,
                i as int,
                opt_chars_view(fmt),
                opt_parsed_table_view(tbl),
            ) matches Some(q) && q.0.0 == (p.0).0@ && q.0.1.headers == ((p.0).1).0@.map_values(
                |t: Vec<char>| t@,
            ) && q.0.1.rows == ((p.0).1).1@.map_values(
                |t: Vec<Vec<char>>| t@.map_values(|u: Vec<char>| u@),
            ) && q.1 == p.1 as int && i < p.1 <= v@.len(),
            None => directive_members(
                v@,
                i as int,
                opt_chars_view(fmt),
                opt_parsed_table_view(tbl),
            ) is None,
        },
    decreases v@.len() - i, 0int,
{
    let fmt_key = key_output_format();
    let table_key = key_table();
    match parse_jstring_x(v, i) {
        Some((key, j)) => match value_start_x(v, j) {
            Some(v1) => {
                if chars_eq(&key, &fmt_key) {
                    if fmt.is_some() {
                        None
                    } else {
                        match parse_jstring_x(v, v1) {
                            Some((f, j2)) => directive_after_member_x(v, j2, Some(f), tbl),
                            None => None,
                        }
                    }
                } else if chars_eq(&key, &table_key) {
                    if tbl.is_some() {
                        None
                    } else {
                        match parse_table_x(v, v1) {
                            Some((t, j2)) => directive_after_member_x(v, j2, fmt, Some(t)),
                            None => None,
                        }
                    }
                } else {
                    match skip_value_x(v, v1) {
                        Some(j2) => directive_after_member_x(v, j2, fmt, tbl),
                        None => None,
                    }
                }
            },
            None => None,
        },
        None => None,
    }
}

/// Executable continuation after one directive member.
fn directive_after_member_x(
    v: &Vec<char>,
    j: usize,
    fmt: Option<Vec<char>>,
    tbl: Option<(Vec<Vec<char>>, Vec<Vec<Vec<char>>>)>,
) -> (r: Option<((Vec<char>, (Vec<Vec<char>>, Vec<Vec<Vec<char>>>)), usize)>)
    requires
        j <= v@.len(),
    ensures
        match r {
            Some(p) => directive_after_member(
                v@,
                j as int,
                opt_chars_view(fmt),
                opt_parsed_table_view(tbl),
            ) matches Some(q) && q.0.0 == (p.0).0@ && q.0.1.headers == ((p.0).1).0@.map_values(
                |t: Vec<char>| t@,
            ) && q.0.1.rows == ((p.0).1).1@.map_values(
                |t: Vec<Vec<char>>| t@.map_values(|u: Vec<char>| u@),
            ) && q.1 == p.1 as int && j < p.1 <= v@.len(),
            None => directive_after_member(
                v@,
                j as int,
                opt_chars_view(fmt),
                opt_parsed_table_view(tbl),
            ) is None,
        },
    decreases v@.len() - j, 1int,
{
    let k = ws_end_x(v, j);
    if k < v.len() && v[k] == ',' {
        let m = ws_end_x(v, k + 1);
        directive_members_x(v, m, fmt, tbl)
    } else if k < v.len() && v[k] == '}' {
        match (fmt, tbl) {
            (Some(f), Some(t)) => Some(((f, t), k + 1)),
            _ => None,
        }
    } else {
        None
    }
}

/// Parses a whole text as a table directive, yielding the format name, the
/// header cells and the rows.
pub fn parse_directive_chars(v: &Vec<char>) -> (r: Option<
    (Vec<char>, (Vec<Vec<char>>, Vec<Vec<Vec<char>>>)),
>)
    ensures
        match r {
            Some(p) => spec_parse_directive(v@) matches Some(q) && q.0 == p.0@ && q.1.headers == (
            p.1).0@.map_values(|t: Vec<char>| t@) && q.1.rows == (p.1).1@.map_values(
                |t: Vec<Vec<char>>| t@.map_values(|u: Vec<char>| u@),
            ),
            None => spec_parse_directive(v@) is None,
        },
{
    let i = ws_end_x(v, 0);
    if !(i < v.len() && v[i] == '{') {
        return None;
    }
    let k = ws_end_x(v, i + 1);
    if k < v.len() && v[k] == '}' {
        return None;
    }
    match directive_members_x(v, k, None, None) {
        Some((d, e)) => {
            if ws_end_x(v, e) == v.len() {
                Some(d)
            } else {
                None
            }
        },
        None => None,
    }
}

} // verus!