//! The `[defaultboot]` grammar as specification functions.
//!
//! Every function here is a deterministic recogniser over a
//! `Seq<char>` and a start position.  A recogniser either fails
//! (`None`) or returns the parsed value together with the position of
//! the first character it did not consume.  Choices are ordered and
//! the first alternative that succeeds as a whole wins; repetition is
//! greedy and stops at the first position where no alternative
//! matches.  Whitespace (space, tab, carriage return, newline) may
//! appear around the section header, around `=`, and between options.
//!
//! ```text
//! section  := "[defaultboot]" body
//! body     := "default" "=" IDENT
//!           | "defaultmenu" "=" IDENT
//!           | "defaultauto" option*
//! option   := "target" "=" PATH
//!           | "default" ("=" INT{1,10})?
//!           | "prompt"  ("=" INT{1,2})?
//!           | "timeout" ("=" INT{1,10})?
//!           | "secure"  ("=" (INT{1,2} | "auto"))?
//! PATH     := "/"? IDENT ("/" IDENT)*
//! IDENT    := (letter | "_") (letter | digit | "_")*
//! INT{1,n} := 1 to n decimal digits, kept as raw text
//! ```

use vstd::prelude::*;

use crate::ast::SpecAutoConfig;
use crate::ast::SpecAutoOption;
use crate::ast::SpecSection;
use crate::ast::spec_auto_init;

verus! {

/// Insignificant padding: space, tab, carriage return, newline.
pub open spec fn is_ws_char(c: char) -> bool {
    c == ' ' || c == '\t' || c == '\r' || c == '\n'
}

/// An ASCII decimal digit.
pub open spec fn is_digit_char(c: char) -> bool {
    '0' as u32 <= c as u32 && c as u32 <= '9' as u32
}

/// A character that may open an identifier: ASCII letter or underscore.
pub open spec fn is_ident_start_char(c: char) -> bool {
    ('a' as u32 <= c as u32 && c as u32 <= 'z' as u32)
        || ('A' as u32 <= c as u32 && c as u32 <= 'Z' as u32)
        || c == '_'
}

/// A character that may continue an identifier: letter, digit or underscore.
pub open spec fn is_ident_continue_char(c: char) -> bool {
    is_ident_start_char(c) || is_digit_char(c)
}

/// Position of the first non-whitespace character at or after `i`.
pub open spec fn spec_skip_ws(s: Seq<char>, i: int) -> int
    recommends
        0 <= i <= s.len(),
    decreases s.len() - i,
{
    if 0 <= i && i < s.len() && is_ws_char(s[i]) {
        spec_skip_ws(s, i + 1)
    } else {
        i
    }
}

/// Exact literal match at `i`: the position just past the literal, or
/// failure.  No padding is implied.
pub open spec fn spec_match_lit(s: Seq<char>, i: int, lit: Seq<char>) -> Option<int> {
    if 0 <= i && i + lit.len() <= s.len() && s.subrange(i, i + lit.len()) == lit {
        Some(i + lit.len())
    } else {
        None
    }
}

/// End of the run of identifier-continuation characters starting at `i`.
pub open spec fn spec_ident_end(s: Seq<char>, i: int) -> int
    recommends
        0 <= i <= s.len(),
    decreases s.len() - i,
{
    if 0 <= i && i < s.len() && is_ident_continue_char(s[i]) {
        spec_ident_end(s, i + 1)
    } else {
        i
    }
}

/// IDENT: a maximal run of letters, digits and underscores opened by a
/// letter or underscore.  Returns the raw text and the end position.
pub open spec fn spec_parse_ident(s: Seq<char>, i: int) -> Option<(Seq<char>, int)> {
    if 0 <= i && i < s.len() && is_ident_start_char(s[i]) {
        Some((s.subrange(i, spec_ident_end(s, i)), spec_ident_end(s, i)))
    } else {
        None
    }
}

/// End of the run of decimal digits starting at `i`.
pub open spec fn spec_digits_end(s: Seq<char>, i: int) -> int
    recommends
        0 <= i <= s.len(),
    decreases s.len() - i,
{
    if 0 <= i && i < s.len() && is_digit_char(s[i]) {
        spec_digits_end(s, i + 1)
    } else {
        i
    }
}

/// INT{1,max_digits}: a maximal run of decimal digits, kept as raw
/// text (leading zeros preserved, no numeric conversion).  The run
/// must be non-empty and at most `max_digits` long; a longer run is a
/// failure, never a truncation.
pub open spec fn spec_parse_int(s: Seq<char>, i: int, max_digits: int) -> Option<(Seq<char>, int)> {
    if 0 <= i <= s.len() {
        if i < spec_digits_end(s, i) && spec_digits_end(s, i) - i <= max_digits {
            Some((s.subrange(i, spec_digits_end(s, i)), spec_digits_end(s, i)))
        } else {
            None
        }
    } else {
        None
    }
}

/// The `=` token with arbitrary padding on both sides: the position of
/// the first character after the padding that follows `=`.
pub open spec fn spec_parse_eq(s: Seq<char>, i: int) -> Option<int>
    recommends
        0 <= i <= s.len(),
{
    if spec_skip_ws(s, i) < s.len() && s[spec_skip_ws(s, i)] == '=' {
        Some(spec_skip_ws(s, spec_skip_ws(s, i) + 1))
    } else {
        None
    }
}

/// Greedy tail of a PATH: as many `"/" IDENT` groups as match,
/// starting at `i`.  Returns the end position.
pub open spec fn spec_path_tail(s: Seq<char>, i: int) -> int
    recommends
        0 <= i <= s.len(),
    decreases s.len() - i,
    when 0 <= i <= s.len()
    via spec_path_tail_decreases
{
    if i < s.len() && s[i] == '/' {
        match spec_parse_ident(s, i + 1) {
            Some((seg, j)) => spec_path_tail(s, j),
            None => i,
        }
    } else {
        i
    }
}

#[via_fn]
proof fn spec_path_tail_decreases(s: Seq<char>, i: int) {
    if i < s.len() && s[i] == '/' {
        if spec_parse_ident(s, i + 1) is Some {
            lemma_ident_end_bounds(s, i + 1);
        }
    }
}

/// PATH: an optional leading `/`, one IDENT, then `"/" IDENT` groups
/// while they match.  The value is the raw slice of everything
/// consumed, leading `/` included.
pub open spec fn spec_parse_path(s: Seq<char>, i: int) -> Option<(Seq<char>, int)>
    recommends
        0 <= i <= s.len(),
{
    if 0 <= i {
        let start = if i < s.len() && s[i] == '/' { i + 1 } else { i };
        match spec_parse_ident(s, start) {
            Some((seg, j)) => Some((s.subrange(i, spec_path_tail(s, j)), spec_path_tail(s, j))),
            None => None,
        }
    } else {
        None
    }
}

/// The optional `"=" INT{1,max_digits}` suffix of an option, as one
/// unit: it succeeds only if the `=` and a bounded digit run both
/// match; otherwise the whole suffix is absent.
pub open spec fn spec_parse_int_suffix(s: Seq<char>, i: int, max_digits: int) -> Option<
    (Seq<char>, int),
>
    recommends
        0 <= i <= s.len(),
{
    match spec_parse_eq(s, i) {
        Some(j) => spec_parse_int(s, j, max_digits),
        None => None,
    }
}

/// The value of a `secure` option: one or two digits, or the literal
/// word `auto`, kept as raw text.
pub open spec fn spec_parse_secure_value(s: Seq<char>, i: int) -> Option<(Seq<char>, int)>
    recommends
        0 <= i <= s.len(),
{
    match spec_parse_int(s, i, 2) {
        Some(r) => Some(r),
        None => match spec_match_lit(s, i, "auto"@) {
            Some(j) => Some((s.subrange(i, j), j)),
            None => None,
        },
    }
}

/// The optional `"=" (INT{1,2} | "auto")` suffix of `secure`, as one
/// unit.
pub open spec fn spec_parse_secure_suffix(s: Seq<char>, i: int) -> Option<(Seq<char>, int)>
    recommends
        0 <= i <= s.len(),
{
    match spec_parse_eq(s, i) {
        Some(j) => spec_parse_secure_value(s, j),
        None => None,
    }
}

/// One auto-boot option.  The five keywords are tried in order; since
/// none is a prefix of another, at most one can match at a given
/// position.  `target` demands a value; the other four may appear
/// bare, consuming only their keyword.
pub open spec fn spec_parse_option(s: Seq<char>, i: int) -> Option<(SpecAutoOption, int)>
    recommends
        0 <= i <= s.len(),
{
    if spec_match_lit(s, i, "target"@) is Some {
        let j = spec_match_lit(s, i, "target"@)->Some_0;
        match spec_parse_eq(s, j) {
            Some(k) => match spec_parse_path(s, k) {
                Some((p, m)) => Some((SpecAutoOption::Target(p), m)),
                None => None,
            },
            None => None,
        }
    } else if spec_match_lit(s, i, "default"@) is Some {
        let j = spec_match_lit(s, i, "default"@)->Some_0;
        match spec_parse_int_suffix(s, j, 10) {
            Some((v, k)) => Some((SpecAutoOption::Default(Some(v)), k)),
            None => Some((SpecAutoOption::Default(None), j)),
        }
    } else if spec_match_lit(s, i, "prompt"@) is Some {
        let j = spec_match_lit(s, i, "prompt"@)->Some_0;
        match spec_parse_int_suffix(s, j, 2) {
            Some((v, k)) => Some((SpecAutoOption::Prompt(Some(v)), k)),
            None => Some((SpecAutoOption::Prompt(None), j)),
        }
    } else if spec_match_lit(s, i, "timeout"@) is Some {
        let j = spec_match_lit(s, i, "timeout"@)->Some_0;
        match spec_parse_int_suffix(s, j, 10) {
            Some((v, k)) => Some((SpecAutoOption::Timeout(Some(v)), k)),
            None => Some((SpecAutoOption::Timeout(None), j)),
        }
    } else if spec_match_lit(s, i, "secure"@) is Some {
        let j = spec_match_lit(s, i, "secure"@)->Some_0;
        match spec_parse_secure_suffix(s, j) {
            Some((v, k)) => Some((SpecAutoOption::Secure(Some(v)), k)),
            None => Some((SpecAutoOption::Secure(None), j)),
        }
    } else {
        None
    }
}

/// Folding one option into the accumulator: `target` always
/// overwrites its field, the optional-valued keywords overwrite only
/// when they carry an explicit value, and a bare keyword changes
/// nothing.
pub open spec fn spec_fold_step(acc: SpecAutoConfig, o: SpecAutoOption) -> SpecAutoConfig {
    match o {
        SpecAutoOption::Target(v) => SpecAutoConfig { target: v, ..acc },
        SpecAutoOption::Default(Some(v)) => SpecAutoConfig { default: v, ..acc },
        SpecAutoOption::Prompt(Some(v)) => SpecAutoConfig { prompt: v, ..acc },
        SpecAutoOption::Timeout(Some(v)) => SpecAutoConfig { timeout: v, ..acc },
        SpecAutoOption::Secure(Some(v)) => SpecAutoConfig { secure: v, ..acc },
        SpecAutoOption::Default(None) => acc,
        SpecAutoOption::Prompt(None) => acc,
        SpecAutoOption::Timeout(None) => acc,
        SpecAutoOption::Secure(None) => acc,
    }
}

/// Greedy option repetition with padding before each option, folded
/// left to right into `acc`.  Stops at the first position where no
/// option matches, rewinding the padding tried there; returns the
/// folded record and the end position.
pub open spec fn spec_fold_options(acc: SpecAutoConfig, s: Seq<char>, i: int) -> (
    SpecAutoConfig,
    int,
)
    recommends
        0 <= i <= s.len(),
    decreases s.len() - i,
    when 0 <= i <= s.len()
    via spec_fold_options_decreases
{
    match spec_parse_option(s, spec_skip_ws(s, i)) {
        Some((o, k)) => spec_fold_options(spec_fold_step(acc, o), s, k),
        None => (acc, i),
    }
}

#[via_fn]
proof fn spec_fold_options_decreases(acc: SpecAutoConfig, s: Seq<char>, i: int) {
    lemma_skip_ws_bounds(s, i);
    if spec_parse_option(s, spec_skip_ws(s, i)) is Some {
        lemma_parse_option_advances(s, spec_skip_ws(s, i));
    }
}

/// The section body: the three top-level forms tried in order, with
/// full backtracking between them (`default` is a prefix of the other
/// two keywords, so a failed first alternative must not commit).
pub open spec fn spec_parse_body(s: Seq<char>, i: int) -> Option<(SpecSection, int)>
    recommends
        0 <= i <= s.len(),
{
    if spec_parse_body_default(s, i) is Some {
        spec_parse_body_default(s, i)
    } else if spec_parse_body_menu(s, i) is Some {
        spec_parse_body_menu(s, i)
    } else {
        match spec_match_lit(s, i, "defaultauto"@) {
            Some(j) => Some(
                (
                    SpecSection::Auto(spec_fold_options(spec_auto_init(), s, j).0),
                    spec_fold_options(spec_auto_init(), s, j).1,
                ),
            ),
            None => None,
        }
    }
}

/// First body alternative: `"default" "=" IDENT`.
pub open spec fn spec_parse_body_default(s: Seq<char>, i: int) -> Option<(SpecSection, int)>
    recommends
        0 <= i <= s.len(),
{
    match spec_match_lit(s, i, "default"@) {
        Some(j) => match spec_parse_eq(s, j) {
            Some(k) => match spec_parse_ident(s, k) {
                Some((label, m)) => Some((SpecSection::Default(label), m)),
                None => None,
            },
            None => None,
        },
        None => None,
    }
}

/// Second body alternative: `"defaultmenu" "=" IDENT`.
pub open spec fn spec_parse_body_menu(s: Seq<char>, i: int) -> Option<(SpecSection, int)>
    recommends
        0 <= i <= s.len(),
{
    match spec_match_lit(s, i, "defaultmenu"@) {
        Some(j) => match spec_parse_eq(s, j) {
            Some(k) => match spec_parse_ident(s, k) {
                Some((label, m)) => Some((SpecSection::Menu(label), m)),
                None => None,
            },
            None => None,
        },
        None => None,
    }
}

/// The whole input: padding, the `[defaultboot]` header, padding, one
/// body, padding, end of input.  `Err` carries the position at which
/// parsing failed: the start of the missing header, the start of an
/// unrecognisable body, or the first leftover character.
pub open spec fn spec_parse_section(s: Seq<char>) -> Result<SpecSection, int> {
    let i0 = spec_skip_ws(s, 0);
    match spec_match_lit(s, i0, "[defaultboot]"@) {
        None => Err(i0),
        Some(i1) => {
            let i2 = spec_skip_ws(s, i1);
            match spec_parse_body(s, i2) {
                None => Err(i2),
                Some((sec, i3)) => {
                    let i4 = spec_skip_ws(s, i3);
                    if i4 == s.len() {
                        Ok(sec)
                    } else {
                        Err(i4)
                    }
                },
            }
        },
    }
}

/// `spec_skip_ws` never moves backwards and never passes the end.
pub proof fn lemma_skip_ws_bounds(s: Seq<char>, i: int)
    requires
        0 <= i <= s.len(),
    ensures
        i <= spec_skip_ws(s, i) <= s.len(),
    decreases s.len() - i,
{
    if i < s.len() && is_ws_char(s[i]) {
        lemma_skip_ws_bounds(s, i + 1);
    }
}

/// `spec_ident_end` never moves backwards and never passes the end.
pub proof fn lemma_ident_end_bounds(s: Seq<char>, i: int)
    requires
        0 <= i <= s.len(),
    ensures
        i <= spec_ident_end(s, i) <= s.len(),
    decreases s.len() - i,
{
    if i < s.len() && is_ident_continue_char(s[i]) {
        lemma_ident_end_bounds(s, i + 1);
    }
}

/// `spec_digits_end` never moves backwards and never passes the end.
pub proof fn lemma_digits_end_bounds(s: Seq<char>, i: int)
    requires
        0 <= i <= s.len(),
    ensures
        i <= spec_digits_end(s, i) <= s.len(),
    decreases s.len() - i,
{
    if i < s.len() && is_digit_char(s[i]) {
        lemma_digits_end_bounds(s, i + 1);
    }
}

/// `spec_path_tail` never moves backwards and never passes the end.
pub proof fn lemma_path_tail_bounds(s: Seq<char>, i: int)
    requires
        0 <= i <= s.len(),
    ensures
        i <= spec_path_tail(s, i) <= s.len(),
    decreases s.len() - i,
{
    if i < s.len() && s[i] == '/' {
        match spec_parse_ident(s, i + 1) {
            Some((seg, j)) => {
                lemma_ident_end_bounds(s, i + 1);
                lemma_path_tail_bounds(s, j);
            },
            None => {},
        }
    }
}

/// A successful option always consumes at least its keyword: the end
/// position lies strictly after the start, and within the input.
pub proof fn lemma_parse_option_advances(s: Seq<char>, i: int)
    requires
        0 <= i <= s.len(),
        spec_parse_option(s, i) is Some,
    ensures
        i < spec_parse_option(s, i)->Some_0.1 <= s.len(),
{
    reveal_strlit("target");
    reveal_strlit("default");
    reveal_strlit("prompt");
    reveal_strlit("timeout");
    reveal_strlit("secure");
    if spec_match_lit(s, i, "target"@) is Some {
        let j = spec_match_lit(s, i, "target"@)->Some_0;
        if spec_parse_eq(s, j) is Some {
            let k = spec_parse_eq(s, j)->Some_0;
            lemma_parse_eq_bounds(s, j);
            if spec_parse_path(s, k) is Some {
                let start: int = if k < s.len() && s[k] == '/' {
                    k + 1
                } else {
                    k
                };
                lemma_ident_end_bounds(s, start);
                lemma_path_tail_bounds(s, spec_ident_end(s, start));
            }
        }
    } else if spec_match_lit(s, i, "default"@) is Some {
        let j = spec_match_lit(s, i, "default"@)->Some_0;
        if spec_parse_int_suffix(s, j, 10) is Some {
            lemma_parse_int_suffix_bounds(s, j, 10);
        }
    } else if spec_match_lit(s, i, "prompt"@) is Some {
        let j = spec_match_lit(s, i, "prompt"@)->Some_0;
        if spec_parse_int_suffix(s, j, 2) is Some {
            lemma_parse_int_suffix_bounds(s, j, 2);
        }
    } else if spec_match_lit(s, i, "timeout"@) is Some {
        let j = spec_match_lit(s, i, "timeout"@)->Some_0;
        if spec_parse_int_suffix(s, j, 10) is Some {
            lemma_parse_int_suffix_bounds(s, j, 10);
        }
    } else if spec_match_lit(s, i, "secure"@) is Some {
        let j = spec_match_lit(s, i, "secure"@)->Some_0;
        if spec_parse_secure_suffix(s, j) is Some {
            lemma_parse_eq_bounds(s, j);
            let k = spec_parse_eq(s, j)->Some_0;
            lemma_digits_end_bounds(s, k);
        }
    }
}

/// A successful `=` token ends within the input, at or after `i`.
pub proof fn lemma_parse_eq_bounds(s: Seq<char>, i: int)
    requires
        0 <= i <= s.len(),
        spec_parse_eq(s, i) is Some,
    ensures
        i <= spec_parse_eq(s, i)->Some_0 <= s.len(),
{
    lemma_skip_ws_bounds(s, i);
    lemma_skip_ws_bounds(s, spec_skip_ws(s, i) + 1);
}

/// A successful bounded-digit suffix ends within the input, at or
/// after the position it started from.
pub proof fn lemma_parse_int_suffix_bounds(s: Seq<char>, i: int, max_digits: int)
    requires
        0 <= i <= s.len(),
        spec_parse_int_suffix(s, i, max_digits) is Some,
    ensures
        i <= spec_parse_int_suffix(s, i, max_digits)->Some_0.1 <= s.len(),
{
    lemma_parse_eq_bounds(s, i);
    let j = spec_parse_eq(s, i)->Some_0;
    lemma_digits_end_bounds(s, j);
}

} // verus!
