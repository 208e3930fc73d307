//! The mathematical model of command-line parsing.
//!
//! A command line is a `Seq<char>`. It is cut into whitespace-separated
//! tokens, and each token is folded left to right into a [`KernelArgsView`]
//! record, so that a later occurrence of a key overrides an earlier one.

use crate::numbers::{parse_u32_spec, parse_usize_spec};
use vstd::prelude::*;

verus! {

/// A character on which tokens are split: the Unicode whitespace set.
pub open spec fn is_space_char(c: char) -> bool {
    let u = c as u32;
    u == 0x09 || u == 0x0A || u == 0x0B || u == 0x0C || u == 0x0D || u == 0x20 || u == 0x85
        || u == 0xA0 || u == 0x1680 || (0x2000 <= u && u <= 0x200A) || u == 0x2028 || u == 0x2029
        || u == 0x202F || u == 0x205F || u == 0x3000
}

/// The end of the token that starts at `i`: the first position at or after
/// `i` that holds a whitespace character, or the end of the input.
pub open spec fn token_end(s: Seq<char>, i: int) -> int
    decreases s.len() - i when 0 <= i <= s.len()
{
    if i >= s.len() {
        s.len() as int
    } else if is_space_char(s[i]) {
        i
    } else {
        token_end(s, i + 1)
    }
}

pub proof fn lemma_token_end_bounds(s: Seq<char>, i: int)
    requires
        0 <= i <= s.len(),
    ensures
        i <= token_end(s, i) <= s.len(),
        i < s.len() && !is_space_char(s[i]) ==> i < token_end(s, i),
    decreases s.len() - i,
{
    if i < s.len() && !is_space_char(s[i]) {
        lemma_token_end_bounds(s, i + 1);
    }
}

/// The tokens of `s` from position `i` on: maximal runs of non-whitespace
/// characters, in order.
pub open spec fn tokens_from(s: Seq<char>, i: int) -> Seq<Seq<char>>
    decreases s.len() - i when 0 <= i <= s.len()
{
    if i >= s.len() {
        Seq::empty()
    } else if is_space_char(s[i]) {
        tokens_from(s, i + 1)
    } else {
        proof {
            lemma_token_end_bounds(s, i);
        }
        seq![s.subrange(i, token_end(s, i))] + tokens_from(s, token_end(s, i))
    }
}

/// All tokens of a command line.
pub open spec fn tokens_of(s: Seq<char>) -> Seq<Seq<char>> {
    tokens_from(s, 0)
}

/// A stretch of non-whitespace characters ends exactly at the first
/// whitespace position or at the end of the input.
pub proof fn lemma_token_end_at(s: Seq<char>, i: int, j: int)
    requires
        0 <= i <= j <= s.len(),
        forall|k: int| i <= k < j ==> !is_space_char(#[trigger] s[k]),
        j == s.len() || is_space_char(s[j]),
    ensures
        token_end(s, i) == j,
    decreases j - i,
{
    if i < j {
        lemma_token_end_at(s, i + 1, j);
    }
}

/// Input that is whitespace from `i` on has no tokens from `i` on.
pub proof fn lemma_tokens_from_all_space(s: Seq<char>, i: int)
    requires
        0 <= i <= s.len(),
        forall|k: int| i <= k < s.len() ==> is_space_char(#[trigger] s[k]),
    ensures
        tokens_from(s, i) == Seq::<Seq<char>>::empty(),
    decreases s.len() - i,
{
    if i < s.len() {
        lemma_tokens_from_all_space(s, i + 1);
    } else {
        assert(tokens_from(s, i) =~= Seq::<Seq<char>>::empty());
    }
}

/// The first position at or after `i` that holds `=`, or the end of the token.
pub open spec fn eq_pos(t: Seq<char>, i: int) -> int
    decreases t.len() - i when 0 <= i <= t.len()
{
    if i >= t.len() {
        t.len() as int
    } else if t[i] == '=' {
        i
    } else {
        eq_pos(t, i + 1)
    }
}

/// The first `=` of a token stands exactly at the first position that
/// holds one, or past the end if none does.
pub proof fn lemma_eq_pos_at(t: Seq<char>, i: int, j: int)
    requires
        0 <= i <= j <= t.len(),
        forall|k: int| i <= k < j ==> #[trigger] t[k] != '=',
        j == t.len() || t[j] == '=',
    ensures
        eq_pos(t, i) == j,
    decreases j - i,
{
    if i < j {
        lemma_eq_pos_at(t, i + 1, j);
    }
}

/// Whether a token is a `key=value` option rather than a bare flag.
pub open spec fn has_eq(t: Seq<char>) -> bool {
    eq_pos(t, 0) < t.len()
}

/// The key of a `key=value` token: everything before the first `=`.
pub open spec fn key_of(t: Seq<char>) -> Seq<char> {
    t.subrange(0, eq_pos(t, 0))
}

/// The value of a `key=value` token: everything after the first `=`,
/// verbatim, further `=` characters included.
pub open spec fn value_of(t: Seq<char>) -> Seq<char> {
    t.subrange(eq_pos(t, 0) + 1, t.len() as int)
}

/// The abstract parsed record: what a [`crate::args::KernelArgs`] looks like
/// in contracts. Paths are character sequences; every field defaults to
/// absent or false.
#[verifier::ext_equal]
pub ghost struct KernelArgsView {
    pub root: Option<Seq<char>>,
    pub loglevel: Option<u32>,
    pub init: Option<Seq<char>>,
    pub mem: Option<usize>,
    pub vga: Option<u32>,
    pub single: bool,
    pub nomodeset: bool,
    pub debug: bool,
    pub noapic: bool,
    pub irqpool: bool,
    pub nolapic: bool,
    pub ipv6_disable: bool,
    pub ro: bool,
    pub quiet: bool,
    pub silent: bool,
    pub splash: bool,
}

/// The record before any token has been applied.
pub open spec fn all_defaults() -> KernelArgsView {
    KernelArgsView {
        root: None,
        loglevel: None,
        init: None,
        mem: None,
        vga: None,
        single: false,
        nomodeset: false,
        debug: false,
        noapic: false,
        irqpool: false,
        nolapic: false,
        ipv6_disable: false,
        ro: false,
        quiet: false,
        silent: false,
        splash: false,
    }
}

/// The effect of one `key=value` token. Unknown keys change nothing; a
/// numeric value that fails to parse leaves its field at its current value;
/// `ipv6.disable` is set only by the exact value `1`.
pub open spec fn apply_kv(st: KernelArgsView, k: Seq<char>, v: Seq<char>) -> KernelArgsView {
    if k == "root"@ {
        KernelArgsView { root: Some(v), ..st }
    } else if k == "loglevel"@ {
        match parse_u32_spec(v) {
            Some(x) => KernelArgsView { loglevel: Some(x), ..st },
            None => st,
        }
    } else if k == "init"@ {
        KernelArgsView { init: Some(v), ..st }
    } else if k == "mem"@ {
        match parse_usize_spec(v) {
            Some(x) => KernelArgsView { mem: Some(x), ..st },
            None => st,
        }
    } else if k == "vga"@ {
        match parse_u32_spec(v) {
            Some(x) => KernelArgsView { vga: Some(x), ..st },
            None => st,
        }
    } else if k == "ipv6.disable"@ {
        if v == "1"@ {
            KernelArgsView { ipv6_disable: true, ..st }
        } else {
            st
        }
    } else {
        st
    }
}

/// The effect of one bare flag token: a known flag is set to true, an
/// unknown one changes nothing.
pub open spec fn apply_flag(st: KernelArgsView, t: Seq<char>) -> KernelArgsView {
    if t == "quiet"@ {
        KernelArgsView { quiet: true, ..st }
    } else if t == "silent"@ {
        KernelArgsView { silent: true, ..st }
    } else if t == "splash"@ {
        KernelArgsView { splash: true, ..st }
    } else if t == "single"@ {
        KernelArgsView { single: true, ..st }
    } else if t == "nomodeset"@ {
        KernelArgsView { nomodeset: true, ..st }
    } else if t == "debug"@ {
        KernelArgsView { debug: true, ..st }
    } else if t == "noapic"@ {
        KernelArgsView { noapic: true, ..st }
    } else if t == "irqpool"@ {
        KernelArgsView { irqpool: true, ..st }
    } else if t == "nolapic"@ {
        KernelArgsView { nolapic: true, ..st }
    } else if t == "ro"@ {
        KernelArgsView { ro: true, ..st }
    } else {
        st
    }
}

/// The effect of one token on the record.
pub open spec fn apply_token(st: KernelArgsView, t: Seq<char>) -> KernelArgsView {
    if has_eq(t) {
        apply_kv(st, key_of(t), value_of(t))
    } else {
        apply_flag(st, t)
    }
}

/// The tokens folded left to right over a starting record, so a later
/// occurrence of a key overrides an earlier one.
pub open spec fn parse_tokens(st: KernelArgsView, toks: Seq<Seq<char>>) -> KernelArgsView
    decreases toks.len(),
{
    if toks.len() == 0 {
        st
    } else {
        parse_tokens(apply_token(st, toks.first()), toks.drop_first())
    }
}

/// The meaning of a whole command line.
pub open spec fn parse_spec(s: Seq<char>) -> KernelArgsView {
    parse_tokens(all_defaults(), tokens_of(s))
}

/// Behind a space separator, a token of the first part ends where it would
/// end in the first part alone.
pub proof fn lemma_token_end_concat(s1: Seq<char>, s2: Seq<char>, i: int)
    requires
        0 <= i <= s1.len(),
    ensures
        token_end(s1 + seq![' '] + s2, i) == token_end(s1, i),
    decreases s1.len() - i,
{
    let t = s1 + seq![' '] + s2;
    if i == s1.len() {
        assert(t[i] == ' ');
    } else {
        assert(t[i] == s1[i]);
        if !is_space_char(s1[i]) {
            lemma_token_end_concat(s1, s2, i + 1);
        }
    }
}

/// In a concatenation, a token of the second part ends where it would end
/// in the second part alone, shifted by the first part's length.
pub proof fn lemma_token_end_suffix(u: Seq<char>, v: Seq<char>, j: int)
    requires
        0 <= j <= v.len(),
    ensures
        token_end(u + v, u.len() + j) == u.len() + token_end(v, j),
    decreases v.len() - j,
{
    let t = u + v;
    if j < v.len() {
        assert(t[u.len() + j] == v[j]);
        if !is_space_char(v[j]) {
            lemma_token_end_suffix(u, v, j + 1);
        }
    }
}

/// The tokens of the tail of a concatenation are the tokens of the second
/// part alone.
pub proof fn lemma_tokens_from_suffix(u: Seq<char>, v: Seq<char>, j: int)
    requires
        0 <= j <= v.len(),
    ensures
        tokens_from(u + v, u.len() + j) == tokens_from(v, j),
    decreases v.len() - j,
{
    let t = u + v;
    if j == v.len() {
        assert(tokens_from(t, u.len() + j) =~= tokens_from(v, j));
    } else if is_space_char(v[j]) {
        assert(t[u.len() + j] == v[j]);
        lemma_tokens_from_suffix(u, v, j + 1);
    } else {
        assert(t[u.len() + j] == v[j]);
        lemma_token_end_suffix(u, v, j);
        lemma_token_end_bounds(v, j);
        let e = token_end(v, j);
        assert(t.subrange(u.len() + j, u.len() + e) =~= v.subrange(j, e));
        lemma_tokens_from_suffix(u, v, e);
    }
}

/// Tokenization distributes over concatenation at a space separator.
pub proof fn lemma_tokens_concat(s1: Seq<char>, s2: Seq<char>, i: int)
    requires
        0 <= i <= s1.len(),
    ensures
        tokens_from(s1 + seq![' '] + s2, i) == tokens_from(s1, i) + tokens_of(s2),
    decreases s1.len() - i,
{
    let t = s1 + seq![' '] + s2;
    if i == s1.len() {
        assert(t[i] == ' ');
        lemma_tokens_from_suffix(s1 + seq![' '], s2, 0);
        assert(tokens_from(t, i + 1) == tokens_of(s2));
        assert(tokens_from(s1, i) + tokens_of(s2) =~~= tokens_of(s2));
    } else if is_space_char(s1[i]) {
        assert(t[i] == s1[i]);
        lemma_tokens_concat(s1, s2, i + 1);
    } else {
        assert(t[i] == s1[i]);
        lemma_token_end_concat(s1, s2, i);
        lemma_token_end_bounds(s1, i);
        let e = token_end(s1, i);
        assert(t.subrange(i, e) =~= s1.subrange(i, e));
        lemma_tokens_concat(s1, s2, e);
        assert(seq![t.subrange(i, e)] + (tokens_from(s1, e) + tokens_of(s2)) =~~= (seq![
            s1.subrange(i, e),
        ] + tokens_from(s1, e)) + tokens_of(s2));
    }
}

/// Folding a single token applies just that token.
pub proof fn lemma_parse_tokens_singleton(st: KernelArgsView, t: Seq<char>)
    ensures
        parse_tokens(st, seq![t]) == apply_token(st, t),
{
    assert(seq![t].first() == t);
    assert(seq![t].drop_first() =~~= Seq::<Seq<char>>::empty());
    assert(parse_tokens(st, seq![t]) == parse_tokens(apply_token(st, t), seq![t].drop_first()));
}

/// Folding a concatenation of token lists folds the first list, then the
/// second over its outcome: what came later wins.
pub proof fn lemma_parse_tokens_append(
    st: KernelArgsView,
    a: Seq<Seq<char>>,
    b: Seq<Seq<char>>,
)
    ensures
        parse_tokens(st, a + b) == parse_tokens(parse_tokens(st, a), b),
    decreases a.len(),
{
    if a.len() == 0 {
        assert(a + b =~~= b);
    } else {
        assert((a + b).first() == a.first());
        assert((a + b).drop_first() =~~= a.drop_first() + b);
        lemma_parse_tokens_append(apply_token(st, a.first()), a.drop_first(), b);
    }
}

} // verus!
