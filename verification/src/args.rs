//! The parsed record and the parser itself.

use crate::model::{
    all_defaults, apply_flag, apply_kv, apply_token, eq_pos, has_eq, is_space_char, key_of,
    parse_spec, parse_tokens, token_end, tokens_from, value_of, KernelArgsView,
};
use crate::numbers::{parse_u32_dec, parse_usize_dec};
use vstd::prelude::*;

verus! {

/// The options and flags of a kernel boot command line. Constructed by
/// [`KernelArgs::parse`]; every field defaults to absent or false, and a
/// token the parser does not know leaves all of them untouched.
#[derive(Debug)]
pub struct KernelArgs {
    // Args
    pub root: Option<String>,
    pub loglevel: Option<u32>,
    pub init: Option<String>,
    pub mem: Option<usize>,
    pub vga: Option<u32>,
    // Flags
    pub single: bool,
    pub nomodeset: bool,
    pub debug: bool,
    pub noapic: bool,
    pub irqpool: bool,
    pub nolapic: bool,
    pub ipv6_disable: bool,
    pub ro: bool,
    pub quiet: bool,
    pub silent: bool,
    pub splash: bool,
}

impl View for KernelArgs {
    type V = KernelArgsView;

    open spec fn view(&self) -> KernelArgsView {
        KernelArgsView {
            root: match self.root {
                Some(p) => Some(p@),
                None => None,
            },
            loglevel: self.loglevel,
            init: match self.init {
                Some(p) => Some(p@),
                None => None,
            },
            mem: self.mem,
            vga: self.vga,
            single: self.single,
            nomodeset: self.nomodeset,
            debug: self.debug,
            noapic: self.noapic,
            irqpool: self.irqpool,
            nolapic: self.nolapic,
            ipv6_disable: self.ipv6_disable,
            ro: self.ro,
            quiet: self.quiet,
            silent: self.silent,
            splash: self.splash,
        }
    }
}

impl Default for KernelArgs {
    /// The all-defaults record: every option absent, every flag false.
    fn default() -> (r: Self)
        ensures
            r@ == all_defaults(),
    {
        KernelArgs {
            root: None,
            loglevel: None,
            init: None,
            mem: None,
            vga: None,
            single: false,
            nomodeset: false,
            debug: false,
            noapic: false,
            irqpool: false,
            nolapic: false,
            ipv6_disable: false,
            ro: false,
            quiet: false,
            silent: false,
            splash: false,
        }
    }
}

/// Whether `c` is one of the whitespace characters that separate tokens.
fn is_space(c: char) -> (r: bool)
    ensures
        r == is_space_char(c),
{
    let u = c as u32;
    u == 0x09 || u == 0x0A || u == 0x0B || u == 0x0C || u == 0x0D || u == 0x20 || u == 0x85
        || u == 0xA0 || u == 0x1680 || (0x2000 <= u && u <= 0x200A) || u == 0x2028 || u == 0x2029
        || u == 0x202F || u == 0x205F || u == 0x3000
}

/// Character-for-character equality of two string slices.
fn str_eq(a: &str, b: &str) -> (r: bool)
    ensures
        r == (a@ == b@),
{
    let na = a.unicode_len();
    let nb = b.unicode_len();
    if na != nb {
        return false;
    }
    let mut k: usize = 0;
    while k < na
        invariant
            0 <= k <= na,
            na == a@.len(),
            na == b@.len(),
            forall|j: int| 0 <= j < k ==> a@[j] == b@[j],
        decreases na - k,
    {
        if a.get_char(k) != b.get_char(k) {
            return false;
        }
        k += 1;
    }
    proof {
        assert(a@ =~= b@);
    }
    true
}

/// Splits a token at its first `=` into a key and a value; a token without
/// `=` is no key/value option.
pub fn parse_key_value(arg: &str) -> (r: Option<(String, String)>)
    ensures
        match r {
            Some(kv) => has_eq(arg@) && kv.0@ == key_of(arg@) && kv.1@ == value_of(arg@),
            None => !has_eq(arg@),
        },
{
    let n = arg.unicode_len();
    let mut k: usize = 0;
    while k < n
        invariant
            0 <= k <= n,
            n == arg@.len(),
            eq_pos(arg@, 0) == eq_pos(arg@, k as int),
        decreases n - k,
    {
        if arg.get_char(k) == '=' {
            let key = arg.substring_char(0, k).to_owned();
            let value = arg.substring_char(k + 1, n).to_owned();
            return Some((key, value));
        }
        k += 1;
    }
    None
}

/// A token without `=` is a bare flag; one with `=` is not.
pub fn parse_flag(arg: &str) -> (r: Option<String>)
    ensures
        match r {
            Some(f) => !has_eq(arg@) && f@ == arg@,
            None => has_eq(arg@),
        },
{
    if contains_eq(arg) {
        None
    } else {
        Some(arg.to_owned())
    }
}

/// Whether the token holds an `=` anywhere.
fn contains_eq(arg: &str) -> (r: bool)
    ensures
        r == has_eq(arg@),
{
    let n = arg.unicode_len();
    let mut k: usize = 0;
    while k < n
        invariant
            0 <= k <= n,
            n == arg@.len(),
            eq_pos(arg@, 0) == eq_pos(arg@, k as int),
        decreases n - k,
    {
        if arg.get_char(k) == '=' {
            return true;
        }
        k += 1;
    }
    false
}

/// Dispatches one `key=value` pair into the record.
fn dispatch_key_value(st: &mut KernelArgs, key: &str, value: String)
    ensures
        final(st)@ == apply_kv(old(st)@, key@, value@),
{
    if str_eq(key, "root") {
        st.root = Some(value);
    } else if str_eq(key, "loglevel") {
        if let Some(x) = parse_u32_dec(value.as_str()) {
            st.loglevel = Some(x);
        }
    } else if str_eq(key, "init") {
        st.init = Some(value);
    } else if str_eq(key, "mem") {
        if let Some(x) = parse_usize_dec(value.as_str()) {
            st.mem = Some(x);
        }
    } else if str_eq(key, "vga") {
        if let Some(x) = parse_u32_dec(value.as_str()) {
            st.vga = Some(x);
        }
    } else if str_eq(key, "ipv6.disable") {
        if str_eq(value.as_str(), "1") {
            st.ipv6_disable = true;
        }
    }
}

/// Dispatches one bare flag into the record.
fn dispatch_flag(st: &mut KernelArgs, flag: &str)
    ensures
        final(st)@ == apply_flag(old(st)@, flag@),
{
    if str_eq(flag, "quiet") {
        st.quiet = true;
    } else if str_eq(flag, "silent") {
        st.silent = true;
    } else if str_eq(flag, "splash") {
        st.splash = true;
    } else if str_eq(flag, "single") {
        st.single = true;
    } else if str_eq(flag, "nomodeset") {
        st.nomodeset = true;
    } else if str_eq(flag, "debug") {
        st.debug = true;
    } else if str_eq(flag, "noapic") {
        st.noapic = true;
    } else if str_eq(flag, "irqpool") {
        st.irqpool = true;
    } else if str_eq(flag, "nolapic") {
        st.nolapic = true;
    } else if str_eq(flag, "ro") {
        st.ro = true;
    }
}

/// Applies one token to the record: a `key=value` pair through the key
/// table, a bare token through the flag table.
fn dispatch_token(st: &mut KernelArgs, arg: &str)
    ensures
        final(st)@ == apply_token(old(st)@, arg@),
{
    if let Some((key, value)) = parse_key_value(arg) {
        dispatch_key_value(st, key.as_str(), value);
    } else if let Some(flag) = parse_flag(arg) {
        dispatch_flag(st, flag.as_str());
    }
}

/// The end of the token that starts at `start`: the position of the next
/// whitespace character, or the end of the input.
fn scan_token_end(s: &str, start: usize, n: usize) -> (j: usize)
    requires
        n == s@.len(),
        start < n,
        !is_space_char(s@[start as int]),
    ensures
        start < j <= n,
        j == token_end(s@, start as int),
{
    let mut j = start;
    let mut stop = false;
    while !stop
        invariant
            start <= j <= n,
            n == s@.len(),
            start < n,
            !is_space_char(s@[start as int]),
            token_end(s@, start as int) == token_end(s@, j as int),
            stop ==> start < j && (j == n || is_space_char(s@[j as int])),
        decreases n - j + (if stop { 0int } else { 1int }),
    {
        if j == n {
            stop = true;
        } else if is_space(s.get_char(j)) {
            stop = true;
        } else {
            j += 1;
        }
    }
    j
}

impl KernelArgs {
    /// Parses a kernel command line. Tokens are applied left to right, so a
    /// later occurrence of a key overrides an earlier one; unknown tokens and
    /// malformed values are ignored, and the call never fails.
    pub fn parse(cmdline: &str) -> (r: Self)
        ensures
            r@ == parse_spec(cmdline@),
    {
        let ghost s = cmdline@;
        let n = cmdline.unicode_len();
        let mut args_struct = KernelArgs::default();
        let mut i: usize = 0;
        while i < n
            invariant
                0 <= i <= n,
                n == s.len(),
                s == cmdline@,
                parse_tokens(args_struct@, tokens_from(s, i as int)) == parse_spec(s),
            decreases n - i,
        {
            let c = cmdline.get_char(i);
            if is_space(c) {
                i += 1;
            } else {
                let j = scan_token_end(cmdline, i, n);
                let token = cmdline.substring_char(i, j);
                proof {
                    let toks = tokens_from(s, i as int);
                    assert(toks == seq![s.subrange(i as int, j as int)] + tokens_from(
                        s,
                        j as int,
                    ));
                    assert(toks.first() == token@);
                    assert(toks.drop_first() =~~= tokens_from(s, j as int));
                }
                dispatch_token(&mut args_struct, token);
                i = j;
            }
        }
        args_struct
    }
}

} // verus!
