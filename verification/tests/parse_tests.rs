use kernel_cmdline::{parse_flag, parse_key_value, KernelArgs};

fn assert_flags_default(args: &KernelArgs) {
    assert_eq!(args.single, false);
    assert_eq!(args.nomodeset, false);
    assert_eq!(args.debug, false);
    assert_eq!(args.noapic, false);
    assert_eq!(args.irqpool, false);
    assert_eq!(args.nolapic, false);
    assert_eq!(args.ipv6_disable, false);
    assert_eq!(args.ro, false);
    assert_eq!(args.quiet, false);
    assert_eq!(args.silent, false);
    assert_eq!(args.splash, false);
}

fn assert_options_default(args: &KernelArgs) {
    assert_eq!(args.root, None);
    assert_eq!(args.loglevel, None);
    assert_eq!(args.init, None);
    assert_eq!(args.mem, None);
    assert_eq!(args.vga, None);
}

#[test]
fn test_parse() {
    let args = KernelArgs::parse(
        "root=/dev/sda1 init=/sbin/init loglevel=3 mem=8192 vga=732 ipv6.disable=1 quiet silent splash single nomodeset debug noapic irqpool nolapic ro",
    );

    assert_eq!(args.root, Some(String::from("/dev/sda1")));
    assert_eq!(args.init, Some(String::from("/sbin/init")));
    assert_eq!(args.loglevel, Some(3));
    assert_eq!(args.mem, Some(8192));
    assert_eq!(args.vga, Some(732));
    assert_eq!(args.ipv6_disable, true);
    assert_eq!(args.quiet, true);
    assert_eq!(args.silent, true);
    assert_eq!(args.splash, true);
    assert_eq!(args.single, true);
    assert_eq!(args.nomodeset, true);
    assert_eq!(args.debug, true);
    assert_eq!(args.noapic, true);
    assert_eq!(args.irqpool, true);
    assert_eq!(args.nolapic, true);
    assert_eq!(args.ro, true);
}

#[test]
fn empty_input_yields_defaults() {
    let args = KernelArgs::parse("");
    assert_options_default(&args);
    assert_flags_default(&args);
}

#[test]
fn whitespace_only_yields_defaults() {
    let args = KernelArgs::parse("  \t \n  \r ");
    assert_options_default(&args);
    assert_flags_default(&args);
}

#[test]
fn single_root_sets_only_root() {
    let args = KernelArgs::parse("root=/x");
    assert_eq!(args.root, Some(String::from("/x")));
    assert_eq!(args.loglevel, None);
    assert_eq!(args.init, None);
    assert_eq!(args.mem, None);
    assert_eq!(args.vga, None);
    assert_flags_default(&args);
}

#[test]
fn single_loglevel_sets_only_loglevel() {
    let args = KernelArgs::parse("loglevel=7");
    assert_eq!(args.loglevel, Some(7));
    assert_eq!(args.root, None);
    assert_eq!(args.init, None);
    assert_eq!(args.mem, None);
    assert_eq!(args.vga, None);
    assert_flags_default(&args);
}

#[test]
fn single_init_sets_only_init() {
    let args = KernelArgs::parse("init=/bin/sh");
    assert_eq!(args.init, Some(String::from("/bin/sh")));
    assert_eq!(args.root, None);
    assert_flags_default(&args);
}

#[test]
fn single_mem_sets_only_mem() {
    let args = KernelArgs::parse("mem=42");
    assert_eq!(args.mem, Some(42));
    assert_eq!(args.root, None);
    assert_eq!(args.vga, None);
    assert_flags_default(&args);
}

#[test]
fn single_vga_sets_only_vga() {
    let args = KernelArgs::parse("vga=1");
    assert_eq!(args.vga, Some(1));
    assert_eq!(args.mem, None);
    assert_flags_default(&args);
}

#[test]
fn each_flag_alone_sets_only_itself() {
    let flags = [
        "quiet", "silent", "splash", "single", "nomodeset", "debug", "noapic", "irqpool",
        "nolapic", "ro",
    ];
    for name in flags {
        let args = KernelArgs::parse(name);
        assert_options_default(&args);
        assert_eq!(args.quiet, name == "quiet");
        assert_eq!(args.silent, name == "silent");
        assert_eq!(args.splash, name == "splash");
        assert_eq!(args.single, name == "single");
        assert_eq!(args.nomodeset, name == "nomodeset");
        assert_eq!(args.debug, name == "debug");
        assert_eq!(args.noapic, name == "noapic");
        assert_eq!(args.irqpool, name == "irqpool");
        assert_eq!(args.nolapic, name == "nolapic");
        assert_eq!(args.ro, name == "ro");
        assert_eq!(args.ipv6_disable, false);
    }
}

#[test]
fn repeated_flag_is_idempotent() {
    let args = KernelArgs::parse("ro ro ro");
    assert_eq!(args.ro, true);
    assert_options_default(&args);
}

#[test]
fn last_occurrence_wins() {
    let args = KernelArgs::parse("loglevel=1 loglevel=9");
    assert_eq!(args.loglevel, Some(9));
}

#[test]
fn last_occurrence_wins_for_paths() {
    let args = KernelArgs::parse("root=/a root=/b");
    assert_eq!(args.root, Some(String::from("/b")));
}

#[test]
fn unknown_tokens_are_noops() {
    let with_unknown = KernelArgs::parse("root=/x bogus=1 another");
    let plain = KernelArgs::parse("root=/x");
    assert_eq!(with_unknown.root, plain.root);
    assert_eq!(with_unknown.loglevel, plain.loglevel);
    assert_eq!(with_unknown.init, plain.init);
    assert_eq!(with_unknown.mem, plain.mem);
    assert_eq!(with_unknown.vga, plain.vga);
    assert_eq!(with_unknown.quiet, plain.quiet);
    assert_eq!(with_unknown.silent, plain.silent);
    assert_eq!(with_unknown.splash, plain.splash);
    assert_eq!(with_unknown.single, plain.single);
    assert_eq!(with_unknown.nomodeset, plain.nomodeset);
    assert_eq!(with_unknown.debug, plain.debug);
    assert_eq!(with_unknown.noapic, plain.noapic);
    assert_eq!(with_unknown.irqpool, plain.irqpool);
    assert_eq!(with_unknown.nolapic, plain.nolapic);
    assert_eq!(with_unknown.ipv6_disable, plain.ipv6_disable);
    assert_eq!(with_unknown.ro, plain.ro);
}

#[test]
fn malformed_numeric_is_ignored() {
    let args = KernelArgs::parse("mem=notanumber");
    assert_eq!(args.mem, None);
}

#[test]
fn failed_conversion_keeps_previous_value() {
    let args = KernelArgs::parse("mem=8192 mem=bad");
    assert_eq!(args.mem, Some(8192));
}

#[test]
fn numeric_overflow_is_ignored() {
    let args = KernelArgs::parse("vga=99999999999999999999");
    assert_eq!(args.vga, None);
    let args = KernelArgs::parse("loglevel=4294967296");
    assert_eq!(args.loglevel, None);
    let args = KernelArgs::parse("loglevel=4294967295");
    assert_eq!(args.loglevel, Some(u32::MAX));
}

#[test]
fn numeric_with_plus_sign_parses() {
    let args = KernelArgs::parse("loglevel=+3");
    assert_eq!(args.loglevel, Some(3));
}

#[test]
fn ipv6_disable_requires_exact_one() {
    let args = KernelArgs::parse("ipv6.disable=0");
    assert_eq!(args.ipv6_disable, false);
    let args = KernelArgs::parse("ipv6.disable=1");
    assert_eq!(args.ipv6_disable, true);
    let args = KernelArgs::parse("ipv6.disable=11");
    assert_eq!(args.ipv6_disable, false);
    let args = KernelArgs::parse("ipv6.disable");
    assert_eq!(args.ipv6_disable, false);
}

#[test]
fn empty_value_is_kept_for_paths_and_ignored_for_numbers() {
    let args = KernelArgs::parse("root= mem=");
    assert_eq!(args.root, Some(String::new()));
    assert_eq!(args.mem, None);
}

#[test]
fn empty_key_matches_nothing() {
    let args = KernelArgs::parse("=x =");
    assert_options_default(&args);
    assert_flags_default(&args);
}

#[test]
fn value_keeps_later_equals_signs() {
    let args = KernelArgs::parse("init=/a=b");
    assert_eq!(args.init, Some(String::from("/a=b")));
}

#[test]
fn key_value_splits_at_first_equals() {
    assert_eq!(
        parse_key_value("a=b=c"),
        Some((String::from("a"), String::from("b=c")))
    );
    assert_eq!(parse_key_value("noeq"), None);
    assert_eq!(parse_key_value("="), Some((String::new(), String::new())));
}

#[test]
fn flag_rejects_key_value_tokens() {
    assert_eq!(parse_flag("ro"), Some(String::from("ro")));
    assert_eq!(parse_flag("a=b"), None);
}

#[test]
fn surrounding_whitespace_is_collapsed() {
    let args = KernelArgs::parse("   root=/x \t\t ro   ");
    assert_eq!(args.root, Some(String::from("/x")));
    assert_eq!(args.ro, true);
    assert_eq!(args.quiet, false);
}
