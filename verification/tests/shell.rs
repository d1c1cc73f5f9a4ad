use stratos::commands::AliasTable;
use stratos::commands::Effect;
use stratos::commands::Shell;
use stratos::commands::bytobi;
use stratos::commands::parse_rgb_hex;
use stratos::commands::split_deuxand;
use stratos::commands::split_words;
use stratos::display::CursorBlink;
use stratos::display::CursorStyle;
use stratos::display::FontKind;
use stratos::history::History;
use stratos::textfmt::eq_ignore_ascii_case;
use stratos::textfmt::fmt_u64;
use stratos::textfmt::format_bytes;
use stratos::textfmt::str_eq;
use stratos::textfmt::strip_ascii_whitespace;
use stratos::time::DateTime;

fn rtc() -> DateTime {
    DateTime { year: 2024, month: 5, day: 6, hour: 7, minute: 8, second: 9 }
}

fn shell() -> Shell {
    Shell::new(64 * 1024 * 1024)
}

fn lines_of(out: &stratos::commands::ShellOutput) -> Vec<&str> {
    out.lines.iter().map(|s| s.as_str()).collect()
}

#[test]
fn version_command_lines() {
    let mut s = shell();
    let out = s.handle_command("version", 0, rtc());
    assert_eq!(
        lines_of(&out),
        vec!["StratOS", "Shell 1.A015.28.251130.EXENUS@cfc8a", "", "Built with Rust."],
    );
    assert!(out.effects.is_empty());
}

#[test]
fn unknown_command_reported_with_original_word() {
    let mut s = shell();
    let out = s.handle_command("Wibble now", 0, rtc());
    assert_eq!(lines_of(&out), vec!["Unknown command: Wibble"]);
}

#[test]
fn echo_joins_words() {
    let mut s = shell();
    let out = s.handle_command("echo Hello   weird  spacing", 0, rtc());
    assert_eq!(lines_of(&out), vec!["Hello weird spacing"]);
}

#[test]
fn clear_and_cls_emit_effect() {
    let mut s = shell();
    let out = s.handle_command("clear", 0, rtc());
    assert!(out.lines.is_empty());
    assert_eq!(out.effects, vec![Effect::ClearScreen]);
    let out2 = s.handle_command("cls", 0, rtc());
    assert_eq!(out2.effects, vec![Effect::ClearScreen]);
}

#[test]
fn uptime_formats_ticks() {
    let mut s = shell();
    // 100 ticks a second: 2 h 3 min 4 s
    let ticks = (2 * 3600 + 3 * 60 + 4) * 100;
    let out = s.handle_command("uptime", ticks, rtc());
    assert_eq!(lines_of(&out), vec!["Uptime: 02:03:04"]);
}

#[test]
fn os_font_changes_setting() {
    let mut s = shell();
    assert_eq!(s.settings.current_font(), FontKind::Vga8);
    let out = s.handle_command("os font TERMINUS", 0, rtc());
    assert_eq!(lines_of(&out), vec!["Font set to Terminus 8x16."]);
    assert_eq!(s.settings.current_font(), FontKind::Terminus8x16);
    let bad = s.handle_command("os font comic-sans", 0, rtc());
    assert_eq!(lines_of(&bad), vec!["Usage: os font vga8|default|terminus|spleen"]);
    assert_eq!(s.settings.current_font(), FontKind::Terminus8x16);
}

#[test]
fn os_cursor_and_colors() {
    let mut s = shell();
    s.handle_command("os cursor style block", 0, rtc());
    s.handle_command("os cursor blink none", 0, rtc());
    let out = s.handle_command("os cursor color f80", 0, rtc());
    assert_eq!(lines_of(&out), vec!["Cursor color set to #FF8800."]);
    let out2 = s.handle_command("os text 123456", 0, rtc());
    assert_eq!(lines_of(&out2), vec!["Default text color set to #123456."]);
    assert_eq!(s.settings.default_fg(), 0x123456);
    let out3 = s.handle_command("os bg 000000", 0, rtc());
    assert_eq!(lines_of(&out3), vec!["Default background remains #000000."]);
    let out4 = s.handle_command("os bg 101010", 0, rtc());
    assert_eq!(lines_of(&out4), vec!["Default background set to #101010. Screen cleared."]);
}

#[test]
fn os_hud_toggles() {
    let mut s = shell();
    let on = s.handle_command("os hud on", 0, rtc());
    assert_eq!(lines_of(&on), vec!["Terminal HUD enabled."]);
    let off = s.handle_command("os hud off", 0, rtc());
    assert_eq!(lines_of(&off), vec!["Terminal HUD disabled."]);
    let bad = s.handle_command("os hud sideways", 0, rtc());
    assert_eq!(lines_of(&bad), vec!["Usage: os hud on|off"]);
}

#[test]
fn os_cmdhistory_controls_history() {
    let mut s = shell();
    s.history.push("one");
    s.history.push("two");
    assert_eq!(s.history.len(), 2);
    let out = s.handle_command("os cmdhistory clear", 0, rtc());
    assert_eq!(lines_of(&out), vec!["Command history cleared."]);
    assert!(s.history.is_empty());
    let out2 = s.handle_command("os cmdhistory toggle", 0, rtc());
    assert_eq!(lines_of(&out2), vec!["Command history disabled and cleared."]);
    assert!(!s.history.is_enabled());
    let out3 = s.handle_command("os cmdhistory toggle", 0, rtc());
    assert_eq!(lines_of(&out3), vec!["Command history enabled."]);
}

#[test]
fn alias_roundtrip_through_shell() {
    let mut s = shell();
    // alias <command> <alias>
    let out = s.handle_command("alias version v", 0, rtc());
    assert_eq!(lines_of(&out), vec!["Alias added."]);
    let via = s.handle_command("V", 0, rtc());
    assert_eq!(lines_of(&via)[0], "StratOS");
    let listing = s.handle_command("aliases", 0, rtc());
    assert_eq!(lines_of(&listing), vec!["Aliases:", "  v -> version"]);
    let removed = s.handle_command("unalias v", 0, rtc());
    assert_eq!(lines_of(&removed), vec!["Alias removed."]);
    let gone = s.handle_command("v", 0, rtc());
    assert_eq!(lines_of(&gone), vec!["Unknown command: v"]);
}

#[test]
fn alias_table_rules() {
    let mut t = AliasTable::new();
    assert_eq!(t.add_alias("V", "Version"), "Alias added.");
    // keys are stored lower-case and matched lower-case
    assert_eq!(t.resolve_alias("v"), "version");
    assert_eq!(t.resolve_alias("V"), "version");
    // an alias may not collide with an existing key or target
    assert_eq!(t.add_alias("v", "help"), "Alias already exists or conflicts.");
    assert_eq!(t.add_alias("version", "help"), "Alias already exists or conflicts.");
    let long = "x".repeat(33);
    assert_eq!(t.add_alias(&long, "help"), "Alias too long (max 32 chars).");
    assert!(t.remove_alias("v"));
    assert!(!t.remove_alias("v"));
    assert_eq!(t.resolve_alias("v"), "v");
}

#[test]
fn handle_line_splits_on_double_ampersand() {
    let mut s = shell();
    let out = s.handle_line("version && echo hi", 0, rtc());
    assert_eq!(out.lines.len(), 5);
    assert_eq!(out.lines[4], "hi");
}

#[test]
fn split_deuxand_respects_quotes_and_escapes() {
    let segs = |s: &str| -> Vec<String> {
        split_deuxand(s).into_iter().collect()
    };
    assert_eq!(segs("a && b"), vec!["a", "b"]);
    // quote characters guard the `&&` but are consumed themselves
    assert_eq!(segs("echo 'a && b'"), vec!["echo a && b"]);
    assert_eq!(segs("echo \"x && y\" && z"), vec!["echo x && y", "z"]);
    assert_eq!(segs("a \\&& b"), vec!["a && b"]);
    assert_eq!(segs("  spaced  "), vec!["spaced"]);
    assert_eq!(segs(" && "), Vec::<String>::new());
    assert_eq!(segs("x &&& y"), vec!["x", "& y"]);
    assert_eq!(segs("trailing &"), vec!["trailing &"]);
}

#[test]
fn split_words_caps_and_trims() {
    assert_eq!(split_words("  a  b\tc "), vec!["a", "b", "c"]);
    assert_eq!(split_words(""), Vec::<String>::new());
    let many = (0..20).map(|i| i.to_string()).collect::<Vec<_>>().join(" ");
    assert_eq!(split_words(&many).len(), 16, "extra words beyond the cap are dropped");
}

#[test]
fn rgb_hex_parsing() {
    assert_eq!(parse_rgb_hex("fff"), Some(0xFFFFFF));
    assert_eq!(parse_rgb_hex("f80"), Some(0xFF8800));
    assert_eq!(parse_rgb_hex("123456"), Some(0x123456));
    assert_eq!(parse_rgb_hex("ABCDEF"), Some(0xABCDEF));
    assert_eq!(parse_rgb_hex(" 0f0 "), Some(0x00FF00));
    assert_eq!(parse_rgb_hex("12345"), None);
    assert_eq!(parse_rgb_hex("xyz"), None);
    assert_eq!(parse_rgb_hex("12345g"), None);
    // integer parsing tolerates one leading plus in the 6-character form
    assert_eq!(parse_rgb_hex("+12345"), Some(0x12345));
    assert_eq!(parse_rgb_hex("+f0"), None);
}

#[test]
fn bytobi_reads_leading_number() {
    assert_eq!(bytobi("4text"), Some(32));
    assert_eq!(bytobi("0"), Some(0));
    assert_eq!(bytobi("abc"), None);
    assert_eq!(bytobi(""), None);
    assert_eq!(bytobi("99999999999999999"), None, "more digits than the scratch buffer holds");
    assert_eq!(bytobi("4294967295"), None, "times eight overflows");
}

#[test]
fn text_helpers() {
    assert_eq!(fmt_u64(0), "0");
    assert_eq!(fmt_u64(1234567890123), "1234567890123");
    assert_eq!(format_bytes(5), "5 B");
    assert_eq!(format_bytes(2048), "2 KB");
    assert_eq!(format_bytes(1536), "1 KB");
    assert_eq!(format_bytes(1048576), "1 MB");
    assert_eq!(format_bytes(256 * 1024), "256 KB");
    assert_eq!(strip_ascii_whitespace(" a b\tc\n"), "abc");
    assert!(str_eq("abc", "abc"));
    assert!(!str_eq("abc", "abd"));
    assert!(eq_ignore_ascii_case("HeLLo", "hello"));
    assert!(!eq_ignore_ascii_case("hello", "hellos"));
}

#[test]
fn history_dedups_and_evicts() {
    let mut h = History::new();
    h.push("a");
    h.push("b");
    h.push("a");
    assert_eq!(h.len(), 2);
    assert_eq!(h.entry(0).unwrap(), "b");
    assert_eq!(h.entry(1).unwrap(), "a");
    assert!(h.entry(2).is_none());
    h.push("");
    assert_eq!(h.len(), 2, "empty lines are not recorded");
    for i in 0..70 {
        h.push(&format!("cmd{}", i));
    }
    assert_eq!(h.len(), 64, "the oldest entries are evicted at the cap");
    assert_eq!(h.entry(63).unwrap(), "cmd69");
    assert!(!h.toggle_enabled());
    assert!(h.is_empty(), "disabling clears the history");
    h.push("ignored");
    assert!(h.is_empty());
}

#[test]
fn hud_redraw_cadence() {
    let mut hud = stratos::hud::Hud::init();
    assert!(!hud.on_100hz_tick(), "a hidden HUD never draws");
    hud.enable();
    assert!(hud.poll_draw(), "enabling schedules one redraw");
    assert!(!hud.poll_draw(), "polling consumes the request");
    let mut draws = 0;
    for _ in 0..100 {
        if hud.on_100hz_tick() {
            draws += 1;
        }
    }
    assert_eq!(draws, 1, "one redraw a second");
    hud.disable();
    assert!(!hud.poll_draw());
}

#[test]
fn memtest_reports_success() {
    let mut s = shell();
    let out = s.mem_selftest();
    let lines: Vec<&str> = out.iter().map(|l| l.as_str()).collect();
    assert_eq!(lines[0], "=== Memory self-test starting ===");
    assert!(lines.contains(&"Kernel alloc: success (128 B)"));
    assert!(lines.contains(&"App alloc: success (4 KiB)"));
    assert!(lines.contains(&"App 42 stats: total=65536 used=0 free=65536 allocs=1 deallocs=1"));
    assert_eq!(*lines.last().unwrap(), "=== Memory self-test complete ===");
}

#[test]
fn meminfo_layout() {
    let mut s = shell();
    assert!(s.mem.arena.register_app(4, 4096));
    let lines = stratos::commands::meminfo(&s.mem);
    let v: Vec<&str> = lines.iter().map(|l| l.as_str()).collect();
    assert_eq!(v[0], "System memory:");
    assert_eq!(v[1], "  Total: 64 MB");
    assert_eq!(v[2], "  Reserved: 256 KB");
    assert_eq!(v[5], "Kernel heap:");
    assert_eq!(v[6], "  Total: 256 KB");
    assert_eq!(v[13], "User arena:");
    assert_eq!(v[14], "  Total: 1 MB");
    assert!(v.contains(&"App 4:"));
}

#[test]
fn cecho_and_secho_effects() {
    let mut s = shell();
    let out = s.handle_command("cecho f00 danger zone", 0, rtc());
    assert_eq!(
        out.effects,
        vec![Effect::ColoredLine(0xFF0000, "danger zone".to_string())],
    );
    let out2 = s.handle_command("secho over serial", 0, rtc());
    assert_eq!(out2.effects, vec![Effect::SerialLine("over serial".to_string())]);
    let out3 = s.handle_command("cecho nothex text", 0, rtc());
    assert_eq!(
        lines_of(&out3),
        vec!["cecho: invalid hex. Use 3 or 6 hex digits, e.g., FF0000"],
    );
}

#[test]
fn hardware_commands_become_effects() {
    let mut s = shell();
    assert_eq!(s.handle_command("reboot", 0, rtc()).effects, vec![Effect::Reboot]);
    assert_eq!(s.handle_command("shutdown", 0, rtc()).effects, vec![Effect::Shutdown]);
    assert_eq!(s.handle_command("fbinfo", 0, rtc()).effects, vec![Effect::ShowFbInfo]);
    assert_eq!(s.handle_command("cpuinfo", 0, rtc()).effects, vec![Effect::ShowCpuInfo]);
    let halt = s.handle_command("halt yes-i-know", 0, rtc());
    assert_eq!(halt.effects, vec![Effect::Halt]);
    let refused = s.handle_command("halt", 0, rtc());
    assert_eq!(lines_of(&refused), vec!["Refusing to halt. Use: halt yes-i-know"]);
    assert!(refused.effects.is_empty());
    let fault = s.handle_command("panic yes-i-know divby0", 0, rtc());
    assert_eq!(lines_of(&fault), vec!["Dividing by 0..."]);
    assert_eq!(fault.effects, vec![Effect::TriggerFault("divby0".to_string())]);
    let usage = s.handle_command("panic", 0, rtc());
    assert_eq!(
        lines_of(&usage),
        vec!["Usage: panic yes-i-know [controlled|badmem|delidt|nullidt|int3|int3andkill|divby0|ud]"],
    );
}

#[test]
fn help_topics() {
    let mut s = shell();
    let listing = s.handle_command("help", 0, rtc());
    assert_eq!(listing.lines.len(), 18);
    let topic = s.handle_command("help clear", 0, rtc());
    assert_eq!(lines_of(&topic), vec!["Clears the screen."]);
    let unknown = s.handle_command("help dance", 0, rtc());
    assert_eq!(lines_of(&unknown), vec!["Unknown command for help."]);
}

#[test]
fn splash_layout_centres_banner() {
    let draws = stratos::splash::show(120, 40);
    assert_eq!(draws.len(), 15);
    // block width 42 on 120 columns: starts at column 39
    assert_eq!(draws[0].x, 39);
    assert_eq!(draws[0].y, 16);
    assert!(draws[0].text.starts_with(" ____ _____ ____"));
    assert_eq!(draws[0].text.len(), 42);
    // the animation frames land on the banner's last row
    assert_eq!(draws[7].y, 16 + 6);
    assert!(draws[7].text.starts_with("booting StratOS."));
    assert!(draws[14].text.starts_with("booting StratOS..."));
    // a console narrower than the banner pins it to column 0
    let tiny = stratos::splash::show(10, 3);
    assert_eq!(tiny[0].x, 0);
    assert_eq!(tiny[0].y, 0);
}

#[test]
fn preset_application() {
    let mut settings = stratos::display::ConsoleSettings::new();
    let p = stratos::commands::Preset {
        name: "night",
        bg: 0x101010,
        fg: 0xE0E0E0,
        cursor: 0x00FF00,
        font: FontKind::Spleen8x16,
        cursor_style: CursorStyle::Block,
        cursor_blink: CursorBlink::Fade,
    };
    assert_eq!(p.name, "night");
    stratos::commands::apply_preset(&mut settings, &p);
    assert_eq!(settings.default_colors(), (0xE0E0E0, 0x101010));
    assert_eq!(settings.default_fg(), 0xE0E0E0);
    assert_eq!(settings.default_bg(), 0x101010);
    assert_eq!(settings.current_font(), FontKind::Spleen8x16);
}

#[test]
fn power_of_two_check() {
    assert!(stratos::freelist::is_power_of_two(1));
    assert!(stratos::freelist::is_power_of_two(8));
    assert!(stratos::freelist::is_power_of_two(4096));
    assert!(!stratos::freelist::is_power_of_two(0));
    assert!(!stratos::freelist::is_power_of_two(12));
}
