//! General properties of the parser, stated over the model and proved once
//! for all inputs.

use crate::model::{
    all_defaults, apply_flag, apply_kv, apply_token, has_eq, is_space_char, key_of,
    lemma_eq_pos_at, lemma_parse_tokens_append, lemma_parse_tokens_singleton, lemma_token_end_at,
    lemma_tokens_concat, lemma_tokens_from_all_space, parse_spec, parse_tokens, tokens_from,
    tokens_of, value_of, KernelArgsView,
};
use crate::numbers::{parse_u32_spec, parse_usize_spec};
use vstd::prelude::*;

verus! {

/// The names in the two dispatch tables are pairwise distinct, so each token
/// reaches at most one field.
proof fn lemma_known_names_distinct()
    ensures
        "root"@ != "loglevel"@,
        "root"@ != "init"@,
        "root"@ != "mem"@,
        "root"@ != "vga"@,
        "root"@ != "ipv6.disable"@,
        "loglevel"@ != "init"@,
        "loglevel"@ != "mem"@,
        "loglevel"@ != "vga"@,
        "loglevel"@ != "ipv6.disable"@,
        "init"@ != "mem"@,
        "init"@ != "vga"@,
        "init"@ != "ipv6.disable"@,
        "mem"@ != "vga"@,
        "mem"@ != "ipv6.disable"@,
        "vga"@ != "ipv6.disable"@,
        "quiet"@ != "silent"@,
        "quiet"@ != "splash"@,
        "quiet"@ != "single"@,
        "quiet"@ != "nomodeset"@,
        "quiet"@ != "debug"@,
        "quiet"@ != "noapic"@,
        "quiet"@ != "irqpool"@,
        "quiet"@ != "nolapic"@,
        "quiet"@ != "ro"@,
        "silent"@ != "splash"@,
        "silent"@ != "single"@,
        "silent"@ != "nomodeset"@,
        "silent"@ != "debug"@,
        "silent"@ != "noapic"@,
        "silent"@ != "irqpool"@,
        "silent"@ != "nolapic"@,
        "silent"@ != "ro"@,
        "splash"@ != "single"@,
        "splash"@ != "nomodeset"@,
        "splash"@ != "debug"@,
        "splash"@ != "noapic"@,
        "splash"@ != "irqpool"@,
        "splash"@ != "nolapic"@,
        "splash"@ != "ro"@,
        "single"@ != "nomodeset"@,
        "single"@ != "debug"@,
        "single"@ != "noapic"@,
        "single"@ != "irqpool"@,
        "single"@ != "nolapic"@,
        "single"@ != "ro"@,
        "nomodeset"@ != "debug"@,
        "nomodeset"@ != "noapic"@,
        "nomodeset"@ != "irqpool"@,
        "nomodeset"@ != "nolapic"@,
        "nomodeset"@ != "ro"@,
        "debug"@ != "noapic"@,
        "debug"@ != "irqpool"@,
        "debug"@ != "nolapic"@,
        "debug"@ != "ro"@,
        "noapic"@ != "irqpool"@,
        "noapic"@ != "nolapic"@,
        "noapic"@ != "ro"@,
        "irqpool"@ != "nolapic"@,
        "irqpool"@ != "ro"@,
        "nolapic"@ != "ro"@,
{
    reveal_strlit("root");
    reveal_strlit("loglevel");
    reveal_strlit("init");
    reveal_strlit("mem");
    reveal_strlit("vga");
    reveal_strlit("ipv6.disable");
    reveal_strlit("quiet");
    reveal_strlit("silent");
    reveal_strlit("splash");
    reveal_strlit("single");
    reveal_strlit("nomodeset");
    reveal_strlit("debug");
    reveal_strlit("noapic");
    reveal_strlit("irqpool");
    reveal_strlit("nolapic");
    reveal_strlit("ro");
    assert("root"@.len() == 4 && "loglevel"@.len() == 8 && "init"@.len() == 4 && "mem"@.len() == 3
        && "vga"@.len() == 3 && "ipv6.disable"@.len() == 12);
    assert("quiet"@.len() == 5 && "silent"@.len() == 6 && "splash"@.len() == 6 && "single"@.len()
        == 6 && "nomodeset"@.len() == 9 && "debug"@.len() == 5 && "noapic"@.len() == 6
        && "irqpool"@.len() == 7 && "nolapic"@.len() == 7 && "ro"@.len() == 2);
    assert("root"@[0] == 'r' && "init"@[0] == 'i');
    assert("mem"@[0] == 'm' && "vga"@[0] == 'v');
    assert("quiet"@[0] == 'q' && "debug"@[0] == 'd');
    assert("silent"@[0] == 's' && "splash"@[0] == 's' && "single"@[0] == 's');
    assert("noapic"@[0] == 'n');
    assert("silent"@[1] == 'i' && "splash"@[1] == 'p' && "single"@[1] == 'i');
    assert("silent"@[2] == 'l' && "single"@[2] == 'n');
    assert("irqpool"@[0] == 'i' && "nolapic"@[0] == 'n');
}

/// A command line of nothing but whitespace, the empty one included, parses
/// to the all-defaults record.
pub proof fn lemma_whitespace_only_defaults(s: Seq<char>)
    requires
        forall|i: int| 0 <= i < s.len() ==> is_space_char(#[trigger] s[i]),
    ensures
        parse_spec(s) == all_defaults(),
{
    lemma_tokens_from_all_space(s, 0);
}

/// A command line that is one token, with no whitespace in it, parses to
/// that token's effect on the all-defaults record.
pub proof fn lemma_single_token(t: Seq<char>)
    requires
        t.len() > 0,
        forall|i: int| 0 <= i < t.len() ==> !is_space_char(#[trigger] t[i]),
    ensures
        tokens_of(t) == seq![t],
        parse_spec(t) == apply_token(all_defaults(), t),
{
    lemma_token_end_at(t, 0, t.len() as int);
    assert(!is_space_char(t[0]));
    assert(t.subrange(0, t.len() as int) =~= t);
    assert(tokens_from(t, t.len() as int) =~= Seq::<Seq<char>>::empty());
    assert(tokens_of(t) == seq![t.subrange(0, t.len() as int)] + tokens_from(t, t.len() as int));
    assert(tokens_of(t) =~~= seq![t]);
    lemma_parse_tokens_singleton(all_defaults(), t);
}

/// A token assembled as `key=value`, with no whitespace anywhere and no `=`
/// in the key, splits back into exactly that key and that value.
pub proof fn lemma_option_token_shape(k: Seq<char>, v: Seq<char>)
    requires
        forall|i: int| 0 <= i < k.len() ==> !is_space_char(#[trigger] k[i]) && k[i] != '=',
        forall|i: int| 0 <= i < v.len() ==> !is_space_char(#[trigger] v[i]),
    ensures
        (k + seq!['='] + v).len() == k.len() + 1 + v.len(),
        forall|i: int|
            0 <= i < (k + seq!['='] + v).len() ==> !is_space_char(#[trigger] (k + seq!['='] + v)[i]),
        has_eq(k + seq!['='] + v),
        key_of(k + seq!['='] + v) == k,
        value_of(k + seq!['='] + v) == v,
{
    let t = k + seq!['='] + v;
    assert forall|i: int| 0 <= i < t.len() implies !is_space_char(#[trigger] t[i]) by {
        if i < k.len() {
        } else if i == k.len() {
            assert(t[i] == '=');
        } else {
            assert(t[i] == v[i - k.len() - 1]);
        }
    }
    assert(t[k.len() as int] == '=');
    assert forall|i: int| 0 <= i < k.len() implies #[trigger] t[i] != '=' by {
        assert(t[i] == k[i]);
    }
    lemma_eq_pos_at(t, 0, k.len() as int);
    assert(key_of(t) =~= k);
    assert(value_of(t) =~= v);
}

/// A command line that is one well-formed `key=value` token with a known
/// value-bearing key and a convertible value yields a record with exactly
/// that field set and all others default.
pub proof fn lemma_single_option_token(k: Seq<char>, v: Seq<char>)
    requires
        forall|i: int| 0 <= i < k.len() ==> !is_space_char(#[trigger] k[i]) && k[i] != '=',
        forall|i: int| 0 <= i < v.len() ==> !is_space_char(#[trigger] v[i]),
    ensures
        parse_spec(k + seq!['='] + v) == apply_kv(all_defaults(), k, v),
        k == "root"@ ==> parse_spec(k + seq!['='] + v) == (KernelArgsView {
            root: Some(v),
            ..all_defaults()
        }),
        k == "loglevel"@ ==> (parse_u32_spec(v) matches Some(x) ==> parse_spec(k + seq!['='] + v)
            == (KernelArgsView { loglevel: Some(x), ..all_defaults() })),
        k == "init"@ ==> parse_spec(k + seq!['='] + v) == (KernelArgsView {
            init: Some(v),
            ..all_defaults()
        }),
        k == "mem"@ ==> (parse_usize_spec(v) matches Some(x) ==> parse_spec(k + seq!['='] + v)
            == (KernelArgsView { mem: Some(x), ..all_defaults() })),
        k == "vga"@ ==> (parse_u32_spec(v) matches Some(x) ==> parse_spec(k + seq!['='] + v)
            == (KernelArgsView { vga: Some(x), ..all_defaults() })),
        k == "ipv6.disable"@ && v == "1"@ ==> parse_spec(k + seq!['='] + v) == (KernelArgsView {
            ipv6_disable: true,
            ..all_defaults()
        }),
    {
    let t = k + seq!['='] + v;
    lemma_option_token_shape(k, v);
    lemma_single_token(t);
    lemma_known_names_distinct();
}

/// A command line that is one bare flag from the known set yields a record
/// with exactly that flag true and everything else default.
pub proof fn lemma_single_flag_token(t: Seq<char>)
    requires
        t.len() > 0,
        forall|i: int| 0 <= i < t.len() ==> !is_space_char(#[trigger] t[i]) && t[i] != '=',
    ensures
        parse_spec(t) == apply_flag(all_defaults(), t),
        t == "quiet"@ ==> parse_spec(t) == (KernelArgsView { quiet: true, ..all_defaults() }),
        t == "silent"@ ==> parse_spec(t) == (KernelArgsView { silent: true, ..all_defaults() }),
        t == "splash"@ ==> parse_spec(t) == (KernelArgsView { splash: true, ..all_defaults() }),
        t == "single"@ ==> parse_spec(t) == (KernelArgsView { single: true, ..all_defaults() }),
        t == "nomodeset"@ ==> parse_spec(t) == (KernelArgsView {
            nomodeset: true,
            ..all_defaults()
        }),
        t == "debug"@ ==> parse_spec(t) == (KernelArgsView { debug: true, ..all_defaults() }),
        t == "noapic"@ ==> parse_spec(t) == (KernelArgsView { noapic: true, ..all_defaults() }),
        t == "irqpool"@ ==> parse_spec(t) == (KernelArgsView { irqpool: true, ..all_defaults() }),
        t == "nolapic"@ ==> parse_spec(t) == (KernelArgsView { nolapic: true, ..all_defaults() }),
        t == "ro"@ ==> parse_spec(t) == (KernelArgsView { ro: true, ..all_defaults() }),
{
    lemma_single_token(t);
    lemma_eq_pos_at(t, 0, t.len() as int);
    lemma_known_names_distinct();
}

/// Parsing a command line made of two parts around a space parses the first
/// part and folds the second part's tokens over its outcome: for a key that
/// occurs in both parts, the later occurrence wins.
pub proof fn lemma_parse_append(s1: Seq<char>, s2: Seq<char>)
    ensures
        parse_spec(s1 + seq![' '] + s2) == parse_tokens(parse_spec(s1), tokens_of(s2)),
{
    lemma_tokens_concat(s1, s2, 0);
    lemma_parse_tokens_append(all_defaults(), tokens_of(s1), tokens_of(s2));
}

/// When the same key occurs twice, the later occurrence is applied last, so
/// its value is the one kept.
pub proof fn lemma_later_occurrence_wins(k: Seq<char>, v1: Seq<char>, v2: Seq<char>)
    requires
        forall|i: int| 0 <= i < k.len() ==> !is_space_char(#[trigger] k[i]) && k[i] != '=',
        forall|i: int| 0 <= i < v1.len() ==> !is_space_char(#[trigger] v1[i]),
        forall|i: int| 0 <= i < v2.len() ==> !is_space_char(#[trigger] v2[i]),
    ensures
        parse_spec((k + seq!['='] + v1) + seq![' '] + (k + seq!['='] + v2)) == apply_kv(
            apply_kv(all_defaults(), k, v1),
            k,
            v2,
        ),
        k == "root"@ ==> parse_spec((k + seq!['='] + v1) + seq![' '] + (k + seq!['='] + v2)).root
            == Some(v2),
        k == "loglevel"@ ==> (parse_u32_spec(v2) matches Some(x) ==> parse_spec(
            (k + seq!['='] + v1) + seq![' '] + (k + seq!['='] + v2),
        ).loglevel == Some(x)),
{
    let t1 = k + seq!['='] + v1;
    let t2 = k + seq!['='] + v2;
    lemma_option_token_shape(k, v1);
    lemma_option_token_shape(k, v2);
    lemma_single_token(t1);
    lemma_single_token(t2);
    lemma_parse_append(t1, t2);
    lemma_parse_tokens_singleton(parse_spec(t1), t2);
    lemma_known_names_distinct();
}

/// A token with an unknown key or flag name changes nothing in any record.
pub proof fn lemma_unknown_token_noop(st: KernelArgsView, t: Seq<char>)
    requires
        has_eq(t) ==> key_of(t) != "root"@ && key_of(t) != "loglevel"@ && key_of(t) != "init"@
            && key_of(t) != "mem"@ && key_of(t) != "vga"@ && key_of(t) != "ipv6.disable"@,
        !has_eq(t) ==> t != "quiet"@ && t != "silent"@ && t != "splash"@ && t != "single"@
            && t != "nomodeset"@ && t != "debug"@ && t != "noapic"@ && t != "irqpool"@
            && t != "nolapic"@ && t != "ro"@,
    ensures
        apply_token(st, t) == st,
{
}

/// A numeric option whose value does not convert is ignored: the field keeps
/// its current value, in any record.
pub proof fn lemma_bad_numeric_ignored(st: KernelArgsView, v: Seq<char>)
    ensures
        parse_u32_spec(v) is None ==> apply_kv(st, "loglevel"@, v) == st,
        parse_usize_spec(v) is None ==> apply_kv(st, "mem"@, v) == st,
        parse_u32_spec(v) is None ==> apply_kv(st, "vga"@, v) == st,
{
    lemma_known_names_distinct();
}

/// `ipv6.disable` reacts to the exact value `1` alone: that value sets the
/// flag, any other leaves the record unchanged.
pub proof fn lemma_ipv6_disable_exact(st: KernelArgsView, v: Seq<char>)
    ensures
        v == "1"@ ==> apply_kv(st, "ipv6.disable"@, v) == (KernelArgsView {
            ipv6_disable: true,
            ..st
        }),
        v != "1"@ ==> apply_kv(st, "ipv6.disable"@, v) == st,
{
    lemma_known_names_distinct();
}

} // verus!
