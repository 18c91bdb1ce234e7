use yashiki::cli::{
    parse_command, parse_direction, parse_output_direction, parse_output_option,
    parse_output_specifier,
};
use yashiki::command::{Command, Direction, OutputDirection, OutputSpecifier};
use yashiki::hotkey::{format_hotkey, key_code_to_str, parse_hotkey, parse_key_code, Hotkey, Modifiers};
use yashiki::strutil::{parse_i32, parse_permille, parse_u32};

fn words(items: &[&str]) -> Vec<String> {
    items.iter().map(|s| s.to_string()).collect()
}

#[test]
fn numbers_parse_exactly() {
    assert_eq!(parse_u32("0"), Some(0));
    assert_eq!(parse_u32("4294967295"), Some(u32::MAX));
    assert_eq!(parse_u32("4294967296"), None);
    assert_eq!(parse_u32("+17"), Some(17));
    assert_eq!(parse_u32(""), None);
    assert_eq!(parse_u32("-1"), None);
    assert_eq!(parse_u32("12a"), None);

    assert_eq!(parse_i32("-2147483648"), Some(i32::MIN));
    assert_eq!(parse_i32("2147483647"), Some(i32::MAX));
    assert_eq!(parse_i32("2147483648"), None);
    assert_eq!(parse_i32("+5"), Some(5));
    assert_eq!(parse_i32("-0"), Some(0));
    assert_eq!(parse_i32("five"), None);
}

#[test]
fn ratios_parse_at_permille_resolution() {
    assert_eq!(parse_permille("0.6"), Some(600));
    assert_eq!(parse_permille("0.05"), Some(50));
    assert_eq!(parse_permille("0.95"), Some(950));
    assert_eq!(parse_permille("1"), Some(1000));
    assert_eq!(parse_permille(".5"), Some(500));
    assert_eq!(parse_permille("2."), Some(2000));
    assert_eq!(parse_permille("0.1234"), Some(123));
    assert_eq!(parse_permille("."), None);
    assert_eq!(parse_permille("1.2.3"), None);
    assert_eq!(parse_permille("abc"), None);
}

#[test]
fn directions_parse_case_insensitively() {
    assert_eq!(parse_direction("left"), Ok(Direction::Left));
    assert_eq!(parse_direction("NEXT"), Ok(Direction::Next));
    assert!(parse_direction("sideways").is_err());
    assert_eq!(parse_output_direction("prev"), Ok(OutputDirection::Prev));
    assert!(parse_output_direction("left").is_err());
}

#[test]
fn output_specifiers_prefer_ids() {
    assert_eq!(parse_output_specifier(Some("3".to_string())), Some(OutputSpecifier::Id(3)));
    assert_eq!(
        parse_output_specifier(Some("main".to_string())),
        Some(OutputSpecifier::Name("main".to_string()))
    );
    assert_eq!(parse_output_specifier(None), None);
}

#[test]
fn output_options_consume_two_words() {
    let args = words(&["--output", "2", "5"]);
    let (o, next) = parse_output_option(&args, 0);
    assert_eq!(o, Some(OutputSpecifier::Id(2)));
    assert_eq!(next, 2);

    let bare = words(&["5"]);
    let (o2, next2) = parse_output_option(&bare, 0);
    assert_eq!(o2, None);
    assert_eq!(next2, 0);
}

#[test]
fn commands_parse_one_to_one() {
    assert_eq!(
        parse_command(&words(&["tag-view", "3"])),
        Ok(Command::TagView { tags: 3, output: None })
    );
    assert_eq!(
        parse_command(&words(&["tag-view", "--output", "1", "3"])),
        Ok(Command::TagView { tags: 3, output: Some(OutputSpecifier::Id(1)) })
    );
    assert_eq!(
        parse_command(&words(&["window-focus", "down"])),
        Ok(Command::WindowFocus { direction: Direction::Down })
    );
    assert_eq!(
        parse_command(&words(&["layout-set", "--tags", "2", "tatami"])),
        Ok(Command::LayoutSet { tags: Some(2), output: None, layout: "tatami".to_string() })
    );
    assert_eq!(
        parse_command(&words(&["layout-cmd", "set-main-ratio", "0.6"])),
        Ok(Command::LayoutCommand {
            cmd: "set-main-ratio".to_string(),
            args: vec!["0.6".to_string()],
        })
    );
    assert_eq!(parse_command(&words(&["quit"])), Ok(Command::Quit));
    assert_eq!(
        parse_command(&words(&["exec-or-focus", "--app-name", "Term", "term"])),
        Ok(Command::ExecOrFocus { app_name: "Term".to_string(), command: "term".to_string() })
    );
}

#[test]
fn bind_nests_a_command() {
    assert_eq!(
        parse_command(&words(&["bind", "alt-1", "tag-view", "1"])),
        Ok(Command::Bind {
            key: "alt-1".to_string(),
            action: Box::new(Command::TagView { tags: 1, output: None }),
        })
    );
}

#[test]
fn bad_commands_report_errors() {
    assert_eq!(parse_command(&words(&[])), Err("No command provided".to_string()));
    assert_eq!(parse_command(&words(&["warp"])), Err("Unknown command: warp".to_string()));
    assert_eq!(parse_command(&words(&["unbind"])), Err("Usage: unbind <key>".to_string()));
    assert!(parse_command(&words(&["tag-view", "many"])).is_err());
    assert!(parse_command(&words(&["window-focus", "sideways"])).is_err());
}

#[test]
fn hotkeys_parse_and_format() {
    let h = parse_hotkey("alt-1").unwrap();
    assert_eq!(h.key_code, 0x12);
    assert!(h.modifiers.alt && !h.modifiers.cmd && !h.modifiers.ctrl && !h.modifiers.shift);

    let h2 = parse_hotkey("cmd-shift-h").unwrap();
    assert_eq!(h2.key_code, 0x04);
    assert!(h2.modifiers.cmd && h2.modifiers.shift);
    assert_eq!(format_hotkey(&h2), "cmd-shift-h");

    let h3 = parse_hotkey("CTRL-Space").unwrap();
    assert_eq!(h3.key_code, 0x31);
    assert!(h3.modifiers.ctrl);

    assert_eq!(
        parse_hotkey("meta-a"),
        Err("Unknown modifier: meta".to_string())
    );
    assert_eq!(parse_hotkey("cmd-nosuchkey"), Err("Unknown key: nosuchkey".to_string()));
}

#[test]
fn key_codes_round_trip() {
    assert_eq!(parse_key_code("a"), Ok(0x00));
    assert_eq!(parse_key_code("RETURN"), Ok(0x24));
    assert_eq!(parse_key_code("enter"), Ok(0x24));
    assert_eq!(key_code_to_str(0x24), "return");
    assert_eq!(key_code_to_str(0x00), "a");
    assert_eq!(key_code_to_str(0xFF), "unknown");
    assert!(parse_key_code("pedal").is_err());

    let h = Hotkey {
        key_code: 0x7E,
        modifiers: Modifiers { cmd: false, alt: false, ctrl: false, shift: false },
    };
    assert_eq!(format_hotkey(&h), "up");
    assert_eq!(parse_hotkey("up"), Ok(h));
}
