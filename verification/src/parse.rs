//! The executable parser, proved to return exactly what the grammar
//! in [`crate::grammar`] describes.
//!
//! [`parse_section`] is the entry point.  Every helper carries an
//! `ensures` equating its result with the corresponding grammar
//! function, so the top-level contract pins the whole parse, success
//! and failure alike, to `spec_parse_section`.

use vstd::prelude::*;

use crate::ast::AutoConfig;
use crate::ast::AutoOption;
use crate::ast::ParseError;
use crate::ast::Section;
use crate::ast::SpecSection;
use crate::ast::spec_auto_init;
use crate::grammar::is_digit_char;
use crate::grammar::is_ident_continue_char;
use crate::grammar::is_ident_start_char;
use crate::grammar::is_ws_char;
use crate::grammar::lemma_ident_end_bounds;
use crate::grammar::lemma_parse_option_advances;
use crate::grammar::spec_digits_end;
use crate::grammar::spec_fold_options;
use crate::grammar::spec_fold_step;
use crate::grammar::spec_ident_end;
use crate::grammar::spec_match_lit;
use crate::grammar::spec_parse_body;
use crate::grammar::spec_parse_eq;
use crate::grammar::spec_parse_ident;
use crate::grammar::spec_parse_int;
use crate::grammar::spec_parse_int_suffix;
use crate::grammar::spec_parse_option;
use crate::grammar::spec_parse_path;
use crate::grammar::spec_parse_section;
use crate::grammar::spec_parse_secure_suffix;
use crate::grammar::spec_parse_secure_value;
use crate::grammar::spec_path_tail;
use crate::grammar::spec_skip_ws;

verus! {

/// Decides [`is_ws_char`].
fn is_ws(c: char) -> (r: bool)
    ensures
        r == is_ws_char(c),
{
    c == ' ' || c == '\t' || c == '\r' || c == '\n'
}

/// Decides [`is_digit_char`].
fn is_digit(c: char) -> (r: bool)
    ensures
        r == is_digit_char(c),
{
    let u = c as u32;
    48 <= u && u <= 57
}

/// Decides [`is_ident_start_char`].
fn is_ident_start(c: char) -> (r: bool)
    ensures
        r == is_ident_start_char(c),
{
    let u = c as u32;
    (97 <= u && u <= 122) || (65 <= u && u <= 90) || c == '_'
}

/// Decides [`is_ident_continue_char`].
fn is_ident_continue(c: char) -> (r: bool)
    ensures
        r == is_ident_continue_char(c),
{
    is_ident_start(c) || is_digit(c)
}

/// Advances past padding: returns [`spec_skip_ws`]`(s@, i)`.
fn skip_ws(s: &str, i: usize) -> (r: usize)
    requires
        i <= s@.len(),
    ensures
        r as int == spec_skip_ws(s@, i as int),
        i <= r <= s@.len(),
{
    let n = s.unicode_len();
    let mut j = i;
    while j < n && is_ws(s.get_char(j))
        invariant
            i <= j <= n,
            n == s@.len(),
            spec_skip_ws(s@, i as int) == spec_skip_ws(s@, j as int),
        decreases n - j,
    {
        j = j + 1;
    }
    j
}

/// Matches the exact literal `lit` at `i`, as [`spec_match_lit`] does.
fn match_lit(s: &str, i: usize, lit: &str) -> (r: Option<usize>)
    requires
        i <= s@.len(),
    ensures
        match r {
            Some(j) => spec_match_lit(s@, i as int, lit@) == Some(j as int) && i <= j <= s@.len(),
            None => spec_match_lit(s@, i as int, lit@) is None,
        },
{
    let n = s.unicode_len();
    let m = lit.unicode_len();
    if m > n - i {
        return None;
    }
    let mut k: usize = 0;
    while k < m
        invariant
            i + m <= n,
            n == s@.len(),
            m == lit@.len(),
            k <= m,
            forall|t: int| 0 <= t < k ==> s@[i + t] == #[trigger] lit@[t],
        decreases m - k,
    {
        if s.get_char(i + k) != lit.get_char(k) {
            proof {
                assert(s@.subrange(i as int, i + lit@.len()) != lit@) by {
                    if s@.subrange(i as int, i + lit@.len()) == lit@ {
                        assert(s@.subrange(i as int, i + lit@.len())[k as int] == lit@[k as int]);
                    }
                }
            }
            return None;
        }
        k = k + 1;
    }
    proof {
        assert(s@.subrange(i as int, i + lit@.len()) =~= lit@);
    }
    Some(i + m)
}

/// Recognises an IDENT at `i`, as [`spec_parse_ident`] does.
fn parse_ident<'a>(s: &'a str, i: usize) -> (r: Option<(&'a str, usize)>)
    requires
        i <= s@.len(),
    ensures
        match r {
            Some(p) => spec_parse_ident(s@, i as int) == Some((p.0@, p.1 as int)) && i < p.1
                <= s@.len(),
            None => spec_parse_ident(s@, i as int) is None,
        },
{
    let n = s.unicode_len();
    if i < n && is_ident_start(s.get_char(i)) {
        let mut j = i;
        while j < n && is_ident_continue(s.get_char(j))
            invariant
                i <= j <= n,
                n == s@.len(),
                spec_ident_end(s@, i as int) == spec_ident_end(s@, j as int),
            decreases n - j,
        {
            j = j + 1;
        }
        proof {
            lemma_ident_end_bounds(s@, i + 1);
        }
        let v = s.substring_char(i, j);
        Some((v, j))
    } else {
        None
    }
}

/// Recognises a bounded run of decimal digits at `i`, as
/// [`spec_parse_int`] does.
fn parse_int<'a>(s: &'a str, i: usize, max_digits: usize) -> (r: Option<(&'a str, usize)>)
    requires
        i <= s@.len(),
    ensures
        match r {
            Some(p) => spec_parse_int(s@, i as int, max_digits as int) == Some(
                (p.0@, p.1 as int),
            ) && i < p.1 <= s@.len(),
            None => spec_parse_int(s@, i as int, max_digits as int) is None,
        },
{
    let n = s.unicode_len();
    let mut j = i;
    while j < n && is_digit(s.get_char(j))
        invariant
            i <= j <= n,
            n == s@.len(),
            spec_digits_end(s@, i as int) == spec_digits_end(s@, j as int),
        decreases n - j,
    {
        j = j + 1;
    }
    if i < j && j - i <= max_digits {
        let v = s.substring_char(i, j);
        Some((v, j))
    } else {
        None
    }
}

/// Recognises the padded `=` token at `i`, as [`spec_parse_eq`] does.
fn parse_eq(s: &str, i: usize) -> (r: Option<usize>)
    requires
        i <= s@.len(),
    ensures
        match r {
            Some(j) => spec_parse_eq(s@, i as int) == Some(j as int) && i <= j <= s@.len(),
            None => spec_parse_eq(s@, i as int) is None,
        },
{
    let n = s.unicode_len();
    let j = skip_ws(s, i);
    if j < n && s.get_char(j) == '=' {
        Some(skip_ws(s, j + 1))
    } else {
        None
    }
}

/// Recognises a PATH at `i`, as [`spec_parse_path`] does.
fn parse_path<'a>(s: &'a str, i: usize) -> (r: Option<(&'a str, usize)>)
    requires
        i <= s@.len(),
    ensures
        match r {
            Some(p) => spec_parse_path(s@, i as int) == Some((p.0@, p.1 as int)) && i <= p.1
                <= s@.len(),
            None => spec_parse_path(s@, i as int) is None,
        },
{
    let n = s.unicode_len();
    let start = if i < n && s.get_char(i) == '/' {
        i + 1
    } else {
        i
    };
    match parse_ident(s, start) {
        None => None,
        Some((seg, j)) => {
            let mut e = j;
            loop
                invariant
                    i <= j <= e <= n,
                    n == s@.len(),
                    spec_path_tail(s@, j as int) == spec_path_tail(s@, e as int),
                ensures
                    i <= e <= n,
                    n == s@.len(),
                    spec_path_tail(s@, j as int) == e as int,
                decreases n - e,
            {
                if e < n && s.get_char(e) == '/' {
                    match parse_ident(s, e + 1) {
                        Some(p2) => {
                            e = p2.1;
                        },
                        None => {
                            break ;
                        },
                    }
                } else {
                    break ;
                }
            }
            let v = s.substring_char(i, e);
            Some((v, e))
        },
    }
}

/// Recognises the optional `"=" INT{1,max_digits}` suffix as one
/// unit, as [`spec_parse_int_suffix`] does.
fn parse_int_suffix<'a>(s: &'a str, i: usize, max_digits: usize) -> (r: Option<(&'a str, usize)>)
    requires
        i <= s@.len(),
    ensures
        match r {
            Some(p) => spec_parse_int_suffix(s@, i as int, max_digits as int) == Some(
                (p.0@, p.1 as int),
            ) && i <= p.1 <= s@.len(),
            None => spec_parse_int_suffix(s@, i as int, max_digits as int) is None,
        },
{
    match parse_eq(s, i) {
        Some(j) => parse_int(s, j, max_digits),
        None => None,
    }
}

/// Recognises a `secure` value (two digits at most, or `auto`), as
/// [`spec_parse_secure_value`] does.
fn parse_secure_value<'a>(s: &'a str, i: usize) -> (r: Option<(&'a str, usize)>)
    requires
        i <= s@.len(),
    ensures
        match r {
            Some(p) => spec_parse_secure_value(s@, i as int) == Some((p.0@, p.1 as int)) && i < p.1
                <= s@.len(),
            None => spec_parse_secure_value(s@, i as int) is None,
        },
{
    match parse_int(s, i, 2) {
        Some(p) => Some(p),
        None => match match_lit(s, i, "auto") {
            Some(j) => {
                proof {
                    reveal_strlit("auto");
                }
                let v = s.substring_char(i, j);
                Some((v, j))
            },
            None => None,
        },
    }
}

/// Recognises the optional `"=" (INT{1,2} | "auto")` suffix of
/// `secure` as one unit, as [`spec_parse_secure_suffix`] does.
fn parse_secure_suffix<'a>(s: &'a str, i: usize) -> (r: Option<(&'a str, usize)>)
    requires
        i <= s@.len(),
    ensures
        match r {
            Some(p) => spec_parse_secure_suffix(s@, i as int) == Some((p.0@, p.1 as int)) && i
                <= p.1 <= s@.len(),
            None => spec_parse_secure_suffix(s@, i as int) is None,
        },
{
    match parse_eq(s, i) {
        Some(j) => parse_secure_value(s, j),
        None => None,
    }
}

/// Recognises one auto-boot option at `i`, as [`spec_parse_option`]
/// does: the five keywords tried in order, `target` with a mandatory
/// path, the rest with an optional value suffix.
pub fn parse_option<'a>(s: &'a str, i: usize) -> (r: Option<(AutoOption<'a>, usize)>)
    requires
        i <= s@.len(),
    ensures
        match r {
            Some(p) => spec_parse_option(s@, i as int) == Some((p.0@, p.1 as int)) && i < p.1
                <= s@.len(),
            None => spec_parse_option(s@, i as int) is None,
        },
{
    let r: Option<(AutoOption<'a>, usize)> = match match_lit(s, i, "target") {
        Some(j) => match parse_eq(s, j) {
            Some(k) => match parse_path(s, k) {
                Some((p, m)) => Some((AutoOption::Target(p), m)),
                None => None,
            },
            None => None,
        },
        None => match match_lit(s, i, "default") {
            Some(j) => match parse_int_suffix(s, j, 10) {
                Some((v, k)) => Some((AutoOption::Default(Some(v)), k)),
                None => Some((AutoOption::Default(None), j)),
            },
            None => match match_lit(s, i, "prompt") {
                Some(j) => match parse_int_suffix(s, j, 2) {
                    Some((v, k)) => Some((AutoOption::Prompt(Some(v)), k)),
                    None => Some((AutoOption::Prompt(None), j)),
                },
                None => match match_lit(s, i, "timeout") {
                    Some(j) => match parse_int_suffix(s, j, 10) {
                        Some((v, k)) => Some((AutoOption::Timeout(Some(v)), k)),
                        None => Some((AutoOption::Timeout(None), j)),
                    },
                    None => match match_lit(s, i, "secure") {
                        Some(j) => match parse_secure_suffix(s, j) {
                            Some((v, k)) => Some((AutoOption::Secure(Some(v)), k)),
                            None => Some((AutoOption::Secure(None), j)),
                        },
                        None => None,
                    },
                },
            },
        },
    };
    proof {
        if r is Some {
            lemma_parse_option_advances(s@, i as int);
        }
    }
    r
}

/// Folds one option into the accumulator, as [`spec_fold_step`] does:
/// `target` always overwrites, the optional-valued keywords only when
/// they carry an explicit value.
pub fn fold_step<'a>(acc: AutoConfig<'a>, o: AutoOption<'a>) -> (r: AutoConfig<'a>)
    ensures
        r@ == spec_fold_step(acc@, o@),
{
    match o {
        AutoOption::Target(v) => AutoConfig { target: v, ..acc },
        AutoOption::Default(Some(v)) => AutoConfig { default: v, ..acc },
        AutoOption::Prompt(Some(v)) => AutoConfig { prompt: v, ..acc },
        AutoOption::Timeout(Some(v)) => AutoConfig { timeout: v, ..acc },
        AutoOption::Secure(Some(v)) => AutoConfig { secure: v, ..acc },
        AutoOption::Default(None) => acc,
        AutoOption::Prompt(None) => acc,
        AutoOption::Timeout(None) => acc,
        AutoOption::Secure(None) => acc,
    }
}

/// Parses and folds options greedily after `defaultauto`, starting
/// from the all-defaults record, as [`spec_fold_options`] does.
fn parse_auto_tail<'a>(s: &'a str, i: usize) -> (r: (AutoConfig<'a>, usize))
    requires
        i <= s@.len(),
    ensures
        r.0@ == spec_fold_options(spec_auto_init(), s@, i as int).0,
        r.1 as int == spec_fold_options(spec_auto_init(), s@, i as int).1,
        r.1 <= s@.len(),
{
    let n = s.unicode_len();
    let mut acc = AutoConfig::default();
    let mut cur = i;
    loop
        invariant
            cur <= n,
            n == s@.len(),
            spec_fold_options(spec_auto_init(), s@, i as int) == spec_fold_options(
                acc@,
                s@,
                cur as int,
            ),
        ensures
            cur <= n,
            n == s@.len(),
            spec_fold_options(spec_auto_init(), s@, i as int) == (acc@, cur as int),
        decreases n - cur,
    {
        let j = skip_ws(s, cur);
        match parse_option(s, j) {
            Some((o, k)) => {
                acc = fold_step(acc, o);
                cur = k;
            },
            None => {
                break ;
            },
        }
    }
    (acc, cur)
}

/// Recognises the section body, as [`spec_parse_body`] does: the
/// three top-level forms tried in order with full backtracking.
fn parse_body<'a>(s: &'a str, i: usize) -> (r: Option<(Section<'a>, usize)>)
    requires
        i <= s@.len(),
    ensures
        match r {
            Some(p) => spec_parse_body(s@, i as int) == Some((p.0@, p.1 as int)) && p.1 <= s@.len(),
            None => spec_parse_body(s@, i as int) is None,
        },
{
    match match_lit(s, i, "default") {
        Some(j) => match parse_eq(s, j) {
            Some(k) => match parse_ident(s, k) {
                Some((label, m)) => {
                    return Some((Section::Default(label), m));
                },
                None => {},
            },
            None => {},
        },
        None => {},
    }
    match match_lit(s, i, "defaultmenu") {
        Some(j) => match parse_eq(s, j) {
            Some(k) => match parse_ident(s, k) {
                Some((label, m)) => {
                    return Some((Section::Menu(label), m));
                },
                None => {},
            },
            None => {},
        },
        None => {},
    }
    match match_lit(s, i, "defaultauto") {
        Some(j) => {
            let (cfg, k) = parse_auto_tail(s, j);
            Some((Section::Auto(cfg), k))
        },
        None => None,
    }
}

/// Parses one `[defaultboot]` section out of `input`: padding, the
/// header literal, one body, padding, end of input.
///
/// The result is exactly what the grammar says: `Ok(sec)` with
/// `sec@ == spec_parse_section(input@)->Ok_0` when the grammar accepts
/// the input, and `Err` carrying the position that
/// `spec_parse_section` assigns to the failure otherwise.  All string
/// payloads of `sec` borrow from `input`.
pub fn parse_section<'a>(input: &'a str) -> (r: Result<Section<'a>, ParseError>)
    ensures
        match r {
            Ok(sec) => spec_parse_section(input@) == Ok::<SpecSection, int>(sec@),
            Err(e) => spec_parse_section(input@) == Err::<SpecSection, int>(e.pos as int),
        },
{
    let i0 = skip_ws(input, 0);
    match match_lit(input, i0, "[defaultboot]") {
        None => Err(ParseError { pos: i0 }),
        Some(i1) => {
            let i2 = skip_ws(input, i1);
            match parse_body(input, i2) {
                None => Err(ParseError { pos: i2 }),
                Some((sec, i3)) => {
                    let i4 = skip_ws(input, i3);
                    let n = input.unicode_len();
                    if i4 == n {
                        Ok(sec)
                    } else {
                        Err(ParseError { pos: i4 })
                    }
                },
            }
        },
    }
}

} // verus!
