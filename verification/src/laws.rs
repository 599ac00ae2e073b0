//! General properties of the option fold, stated and proved once and
//! for all: folding is left-to-right over the parsed option sequence,
//! the last explicit value for a field wins, a bare keyword never
//! clears a field, and when each keyword appears exactly once with an
//! explicit value the order of the options is irrelevant.

use vstd::prelude::*;

use crate::ast::SpecAutoConfig;
use crate::ast::SpecAutoOption;
use crate::grammar::lemma_parse_option_advances;
use crate::grammar::lemma_skip_ws_bounds;
use crate::grammar::spec_fold_options;
use crate::grammar::spec_fold_step;
use crate::grammar::spec_parse_option;
use crate::grammar::spec_skip_ws;

verus! {

/// An option that carries no explicit value.
pub open spec fn spec_is_bare(o: SpecAutoOption) -> bool {
    o == SpecAutoOption::Default(None::<Seq<char>>) || o == SpecAutoOption::Prompt(
        None::<Seq<char>>,
    ) || o == SpecAutoOption::Timeout(None::<Seq<char>>) || o == SpecAutoOption::Secure(
        None::<Seq<char>>,
    )
}

/// A bare keyword never clears a field: folding it in leaves the
/// accumulator exactly as it was.
pub proof fn lemma_bare_option_keeps_accumulator(acc: SpecAutoConfig, o: SpecAutoOption)
    requires
        spec_is_bare(o),
    ensures
        spec_fold_step(acc, o) == acc,
{
}

/// One of the five fields of an [`SpecAutoConfig`].
pub enum ConfigField {
    Target,
    Default,
    Prompt,
    Timeout,
    Secure,
}

/// Reads the named field of a record.
pub open spec fn spec_field(a: SpecAutoConfig, f: ConfigField) -> Seq<char> {
    match f {
        ConfigField::Target => a.target,
        ConfigField::Default => a.default,
        ConfigField::Prompt => a.prompt,
        ConfigField::Timeout => a.timeout,
        ConfigField::Secure => a.secure,
    }
}

/// Whether folding `o` overwrites the named field, that is, whether
/// `o` addresses that field and carries an explicit value.
pub open spec fn spec_sets(o: SpecAutoOption, f: ConfigField) -> bool {
    match (o, f) {
        (SpecAutoOption::Target(v), ConfigField::Target) => true,
        (SpecAutoOption::Default(Some(v)), ConfigField::Default) => true,
        (SpecAutoOption::Prompt(Some(v)), ConfigField::Prompt) => true,
        (SpecAutoOption::Timeout(Some(v)), ConfigField::Timeout) => true,
        (SpecAutoOption::Secure(Some(v)), ConfigField::Secure) => true,
        _ => false,
    }
}

/// The explicit value an option carries, where it carries one.
pub open spec fn spec_option_value(o: SpecAutoOption) -> Seq<char> {
    match o {
        SpecAutoOption::Target(v) => v,
        SpecAutoOption::Default(Some(v)) => v,
        SpecAutoOption::Prompt(Some(v)) => v,
        SpecAutoOption::Timeout(Some(v)) => v,
        SpecAutoOption::Secure(Some(v)) => v,
        _ => Seq::empty(),
    }
}

/// Left-to-right fold of a sequence of options into an accumulator.
pub open spec fn spec_fold_seq(acc: SpecAutoConfig, opts: Seq<SpecAutoOption>) -> SpecAutoConfig
    decreases opts.len(),
{
    if opts.len() == 0 {
        acc
    } else {
        spec_fold_seq(spec_fold_step(acc, opts[0]), opts.subrange(1, opts.len() as int))
    }
}

/// The value of the last option in `opts` that overwrites field `f`,
/// if any option does.
pub open spec fn spec_last_set(opts: Seq<SpecAutoOption>, f: ConfigField) -> Option<Seq<char>>
    decreases opts.len(),
{
    if opts.len() == 0 {
        None
    } else if spec_sets(opts[opts.len() - 1], f) {
        Some(spec_option_value(opts[opts.len() - 1]))
    } else {
        spec_last_set(opts.drop_last(), f)
    }
}

/// Folding distributes over appending one option at the end.
pub proof fn lemma_fold_seq_push(acc: SpecAutoConfig, opts: Seq<SpecAutoOption>, o: SpecAutoOption)
    ensures
        spec_fold_seq(acc, opts.push(o)) == spec_fold_step(spec_fold_seq(acc, opts), o),
    decreases opts.len(),
{
    if opts.len() == 0 {
        assert(opts.push(o)[0] == o);
        assert(opts.push(o).subrange(1, 1) =~= Seq::<SpecAutoOption>::empty());
        assert(spec_fold_seq(spec_fold_step(acc, o), opts.push(o).subrange(1, 1))
            == spec_fold_step(acc, o));
    } else {
        let head = opts[0];
        let tail = opts.subrange(1, opts.len() as int);
        assert(opts.push(o)[0] == head);
        assert(opts.push(o).subrange(1, opts.len() as int + 1) =~= tail.push(o));
        lemma_fold_seq_push(spec_fold_step(acc, head), tail, o);
        assert(spec_fold_seq(acc, opts.push(o)) == spec_fold_seq(
            spec_fold_step(acc, head),
            tail.push(o),
        ));
        assert(spec_fold_seq(acc, opts) == spec_fold_seq(spec_fold_step(acc, head), tail));
    }
}

/// Last explicit value wins.  For every field, the folded record
/// holds the value of the last option that overwrote the field, and
/// the accumulator's own value where no option did.  Options that
/// repeat, in any number and order, and bare keywords are all covered.
pub proof fn lemma_fold_seq_last_write_wins(
    acc: SpecAutoConfig,
    opts: Seq<SpecAutoOption>,
    f: ConfigField,
)
    ensures
        spec_field(spec_fold_seq(acc, opts), f) == match spec_last_set(opts, f) {
            Some(v) => v,
            None => spec_field(acc, f),
        },
    decreases opts.len(),
{
    if opts.len() > 0 {
        let pre = opts.drop_last();
        let last = opts[opts.len() - 1];
        assert(pre.push(last) =~= opts);
        lemma_fold_seq_push(acc, pre, last);
        lemma_fold_seq_last_write_wins(acc, pre, f);
    }
}

/// Where some option in `opts` overwrites `f` and every option that
/// overwrites `f` carries the same value `v`, the last one to do so
/// carries `v` as well.
proof fn lemma_last_set_uniform(opts: Seq<SpecAutoOption>, f: ConfigField, v: Seq<char>)
    requires
        exists|i: int| 0 <= i < opts.len() && #[trigger] spec_sets(opts[i], f),
        forall|i: int|
            0 <= i < opts.len() && #[trigger] spec_sets(opts[i], f) ==> spec_option_value(opts[i])
                == v,
    ensures
        spec_last_set(opts, f) == Some(v),
    decreases opts.len(),
{
    let last = opts[opts.len() - 1];
    if spec_sets(last, f) {
        assert(spec_option_value(opts[opts.len() - 1]) == v);
    } else {
        let pre = opts.drop_last();
        let i = choose|i: int| 0 <= i < opts.len() && #[trigger] spec_sets(opts[i], f);
        assert(pre[i] == opts[i]);
        assert(0 <= i < pre.len() && spec_sets(pre[i], f));
        assert forall|k: int|
            0 <= k < pre.len() && #[trigger] spec_sets(pre[k], f) implies spec_option_value(pre[k])
            == v by {
            assert(pre[k] == opts[k]);
        }
        lemma_last_set_uniform(pre, f, v);
    }
}

/// `opts` holds each of the five keywords exactly once, each with the
/// given explicit value.
pub open spec fn spec_one_of_each(
    opts: Seq<SpecAutoOption>,
    t: Seq<char>,
    d: Seq<char>,
    p: Seq<char>,
    ti: Seq<char>,
    se: Seq<char>,
) -> bool {
    opts.len() == 5 && opts.contains(SpecAutoOption::Target(t)) && opts.contains(
        SpecAutoOption::Default(Some(d)),
    ) && opts.contains(SpecAutoOption::Prompt(Some(p))) && opts.contains(
        SpecAutoOption::Timeout(Some(ti)),
    ) && opts.contains(SpecAutoOption::Secure(Some(se))) && (forall|i: int|
        0 <= i < opts.len() ==> (#[trigger] opts[i] == SpecAutoOption::Target(t) || opts[i]
            == SpecAutoOption::Default(Some(d)) || opts[i] == SpecAutoOption::Prompt(Some(p))
            || opts[i] == SpecAutoOption::Timeout(Some(ti)) || opts[i] == SpecAutoOption::Secure(
            Some(se),
        )))
}

/// Permutation invariance.  When each of the five keywords appears
/// exactly once, each with an explicit value, the folded record is
/// the same whatever the order of the options: every field holds the
/// one value given for it, and nothing of the accumulator survives
/// except fields no option names.
pub proof fn lemma_fold_one_of_each(
    acc: SpecAutoConfig,
    opts: Seq<SpecAutoOption>,
    t: Seq<char>,
    d: Seq<char>,
    p: Seq<char>,
    ti: Seq<char>,
    se: Seq<char>,
)
    requires
        spec_one_of_each(opts, t, d, p, ti, se),
    ensures
        spec_fold_seq(acc, opts) =~= (SpecAutoConfig {
            target: t,
            default: d,
            prompt: p,
            timeout: ti,
            secure: se,
        }),
{
    let idx_t = choose|i: int| 0 <= i < opts.len() && opts[i] == SpecAutoOption::Target(t);
    assert(spec_sets(opts[idx_t], ConfigField::Target));
    lemma_last_set_uniform(opts, ConfigField::Target, t);
    lemma_fold_seq_last_write_wins(acc, opts, ConfigField::Target);

    let idx_d = choose|i: int| 0 <= i < opts.len() && opts[i] == SpecAutoOption::Default(Some(d));
    assert(spec_sets(opts[idx_d], ConfigField::Default));
    lemma_last_set_uniform(opts, ConfigField::Default, d);
    lemma_fold_seq_last_write_wins(acc, opts, ConfigField::Default);

    let idx_p = choose|i: int| 0 <= i < opts.len() && opts[i] == SpecAutoOption::Prompt(Some(p));
    assert(spec_sets(opts[idx_p], ConfigField::Prompt));
    lemma_last_set_uniform(opts, ConfigField::Prompt, p);
    lemma_fold_seq_last_write_wins(acc, opts, ConfigField::Prompt);

    let idx_ti = choose|i: int| 0 <= i < opts.len() && opts[i] == SpecAutoOption::Timeout(Some(ti));
    assert(spec_sets(opts[idx_ti], ConfigField::Timeout));
    lemma_last_set_uniform(opts, ConfigField::Timeout, ti);
    lemma_fold_seq_last_write_wins(acc, opts, ConfigField::Timeout);

    let idx_se = choose|i: int| 0 <= i < opts.len() && opts[i] == SpecAutoOption::Secure(Some(se));
    assert(spec_sets(opts[idx_se], ConfigField::Secure));
    lemma_last_set_uniform(opts, ConfigField::Secure, se);
    lemma_fold_seq_last_write_wins(acc, opts, ConfigField::Secure);
}

/// The sequence of options that the grammar parses greedily from
/// position `i`, in input order.
pub open spec fn spec_options_seq(s: Seq<char>, i: int) -> Seq<SpecAutoOption>
    recommends
        0 <= i <= s.len(),
    decreases s.len() - i,
    when 0 <= i <= s.len()
    via spec_options_seq_decreases
{
    match spec_parse_option(s, spec_skip_ws(s, i)) {
        Some((o, k)) => seq![o] + spec_options_seq(s, k),
        None => seq![],
    }
}

#[via_fn]
proof fn spec_options_seq_decreases(s: Seq<char>, i: int) {
    lemma_skip_ws_bounds(s, i);
    if spec_parse_option(s, spec_skip_ws(s, i)) is Some {
        lemma_parse_option_advances(s, spec_skip_ws(s, i));
    }
}

/// The parser's greedy option fold is exactly the left-to-right fold
/// of the option sequence it reads: no reordering, no deduplication.
pub proof fn lemma_fold_options_is_seq_fold(acc: SpecAutoConfig, s: Seq<char>, i: int)
    requires
        0 <= i <= s.len(),
    ensures
        spec_fold_options(acc, s, i).0 == spec_fold_seq(acc, spec_options_seq(s, i)),
    decreases s.len() - i,
{
    lemma_skip_ws_bounds(s, i);
    match spec_parse_option(s, spec_skip_ws(s, i)) {
        Some((o, k)) => {
            lemma_parse_option_advances(s, spec_skip_ws(s, i));
            lemma_fold_options_is_seq_fold(spec_fold_step(acc, o), s, k);
            let rest = spec_options_seq(s, k);
            assert((seq![o] + rest)[0] == o);
            assert((seq![o] + rest).subrange(1, (seq![o] + rest).len() as int) =~= rest);
        },
        None => {},
    }
}

} // verus!
