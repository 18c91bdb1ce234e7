use vstd::prelude::*;
use vstd::string::StringExecFns;

use crate::command::{Command, CommandV, Direction, OutputDirection, OutputSpecifier, OutputSpecifierV};
use crate::strutil::{
    dec_value, eq_ignore_ascii_case, is_u32_numeral, numeral_body, parse_u32, str_eq,
    str_eq_ignore_case, str_views,
};

verus! {

/// The views of a list of command words.
pub open spec fn word_views(args: Seq<String>) -> Seq<Seq<char>> {
    str_views(args)
}

/// The direction a word names, up to ASCII case.
pub open spec fn direction_of(s: Seq<char>) -> Option<Direction> {
    if eq_ignore_ascii_case(s, "left"@) {
        Some(Direction::Left)
    } else if eq_ignore_ascii_case(s, "right"@) {
        Some(Direction::Right)
    } else if eq_ignore_ascii_case(s, "up"@) {
        Some(Direction::Up)
    } else if eq_ignore_ascii_case(s, "down"@) {
        Some(Direction::Down)
    } else if eq_ignore_ascii_case(s, "next"@) {
        Some(Direction::Next)
    } else if eq_ignore_ascii_case(s, "prev"@) {
        Some(Direction::Prev)
    } else {
        None
    }
}

/// The output direction a word names, up to ASCII case.
pub open spec fn output_direction_of(s: Seq<char>) -> Option<OutputDirection> {
    if eq_ignore_ascii_case(s, "next"@) {
        Some(OutputDirection::Next)
    } else if eq_ignore_ascii_case(s, "prev"@) {
        Some(OutputDirection::Prev)
    } else {
        None
    }
}

/// How a word names an output: by id when it is a number, by name
/// otherwise.
pub open spec fn output_spec_of(t: Seq<char>) -> OutputSpecifierV {
    if is_u32_numeral(t) {
        OutputSpecifierV::Id(dec_value(numeral_body(t)) as u32)
    } else {
        OutputSpecifierV::Name(t)
    }
}

/// An optional `--output <id|name>` pair at position `i`: the specifier
/// read, and the position after it.
pub open spec fn output_option_at(argv: Seq<Seq<char>>, i: int) -> (Option<OutputSpecifierV>, int) {
    if i + 2 <= argv.len() && argv[i] == "--output"@ {
        (Some(output_spec_of(argv[i + 1])), i + 2)
    } else {
        (None, i)
    }
}

/// A tags word read as a `u32` bitmask, or the error naming it.
pub open spec fn tags_at(argv: Seq<Seq<char>>, j: int) -> Result<u32, Seq<char>> {
    if is_u32_numeral(argv[j]) {
        Ok(dec_value(numeral_body(argv[j])) as u32)
    } else {
        Err("invalid number: "@ + argv[j])
    }
}

/// What parsing the words from position `i` on yields: the command, or
/// the error reported.  This is the one place the textual command
/// vocabulary is given meaning; hotkey bindings go through it too.
pub open spec fn parse_cmd_at(argv: Seq<Seq<char>>, i: int) -> Result<CommandV, Seq<char>>
    decreases argv.len() - i,
{
    if i < 0 || i >= argv.len() {
        Err("No command provided"@)
    } else {
        let cmd = argv[i];
        let restlen = argv.len() - i - 1;
        if cmd == "bind"@ {
            if restlen < 2 {
                Err("Usage: bind <key> <command> [args...]"@)
            } else {
                match parse_cmd_at(argv, i + 2) {
                    Ok(a) => Ok(CommandV::Bind { key: argv[i + 1], action: Box::new(a) }),
                    Err(e) => Err(e),
                }
            }
        } else if cmd == "unbind"@ {
            if restlen == 0 {
                Err("Usage: unbind <key>"@)
            } else {
                Ok(CommandV::Unbind { key: argv[i + 1] })
            }
        } else if cmd == "list-bindings"@ {
            Ok(CommandV::ListBindings)
        } else if cmd == "tag-view"@ {
            let (output, j) = output_option_at(argv, i + 1);
            if j >= argv.len() {
                Err("Usage: tag-view [--output <id|name>] <tags>"@)
            } else {
                match tags_at(argv, j) {
                    Ok(tags) => Ok(CommandV::TagView { tags, output }),
                    Err(e) => Err(e),
                }
            }
        } else if cmd == "tag-toggle"@ {
            let (output, j) = output_option_at(argv, i + 1);
            if j >= argv.len() {
                Err("Usage: tag-toggle [--output <id|name>] <tags>"@)
            } else {
                match tags_at(argv, j) {
                    Ok(tags) => Ok(CommandV::TagToggle { tags, output }),
                    Err(e) => Err(e),
                }
            }
        } else if cmd == "tag-view-last"@ {
            Ok(CommandV::TagViewLast)
        } else if cmd == "window-move-to-tag"@ {
            if restlen == 0 {
                Err("Usage: window-move-to-tag <tags>"@)
            } else {
                match tags_at(argv, i + 1) {
                    Ok(tags) => Ok(CommandV::WindowMoveToTag { tags }),
                    Err(e) => Err(e),
                }
            }
        } else if cmd == "window-toggle-tag"@ {
            if restlen == 0 {
                Err("Usage: window-toggle-tag <tags>"@)
            } else {
                match tags_at(argv, i + 1) {
                    Ok(tags) => Ok(CommandV::WindowToggleTag { tags }),
                    Err(e) => Err(e),
                }
            }
        } else if cmd == "window-focus"@ {
            if restlen == 0 {
                Err("Usage: window-focus <direction>"@)
            } else {
                match direction_of(argv[i + 1]) {
                    Some(direction) => Ok(CommandV::WindowFocus { direction }),
                    None => Err(
                        "Unknown direction: "@ + argv[i + 1]
                            + " (use left, right, up, down, next, prev)"@,
                    ),
                }
            }
        } else if cmd == "window-swap"@ {
            if restlen == 0 {
                Err("Usage: window-swap <direction>"@)
            } else {
                match direction_of(argv[i + 1]) {
                    Some(direction) => Ok(CommandV::WindowSwap { direction }),
                    None => Err(
                        "Unknown direction: "@ + argv[i + 1]
                            + " (use left, right, up, down, next, prev)"@,
                    ),
                }
            }
        } else if cmd == "output-focus"@ {
            if restlen == 0 {
                Err("Usage: output-focus <next|prev>"@)
            } else {
                match output_direction_of(argv[i + 1]) {
                    Some(direction) => Ok(CommandV::OutputFocus { direction }),
                    None => Err(
                        "Unknown output direction: "@ + argv[i + 1] + " (use next or prev)"@,
                    ),
                }
            }
        } else if cmd == "output-send"@ {
            if restlen == 0 {
                Err("Usage: output-send <next|prev>"@)
            } else {
                match output_direction_of(argv[i + 1]) {
                    Some(direction) => Ok(CommandV::OutputSend { direction }),
                    None => Err(
                        "Unknown output direction: "@ + argv[i + 1] + " (use next or prev)"@,
                    ),
                }
            }
        } else if cmd == "retile"@ {
            let (output, j) = output_option_at(argv, i + 1);
            Ok(CommandV::Retile { output })
        } else if cmd == "layout-set-default"@ {
            if restlen == 0 {
                Err("Usage: layout-set-default <layout>"@)
            } else {
                Ok(CommandV::LayoutSetDefault { layout: argv[i + 1] })
            }
        } else if cmd == "layout-set"@ {
            let (output, j) = output_option_at(argv, i + 1);
            if argv.len() - j >= 3 && argv[j] == "--tags"@ {
                match tags_at(argv, j + 1) {
                    Ok(tags) => Ok(CommandV::LayoutSet {
                        tags: Some(tags),
                        output,
                        layout: argv[j + 2],
                    }),
                    Err(e) => Err(e),
                }
            } else if j >= argv.len() {
                Err("Usage: layout-set [--tags <tags>] [--output <id|name>] <layout>"@)
            } else {
                Ok(CommandV::LayoutSet { tags: None, output, layout: argv[j] })
            }
        } else if cmd == "layout-get"@ {
            let (output, j) = output_option_at(argv, i + 1);
            if argv.len() - j >= 2 && argv[j] == "--tags"@ {
                match tags_at(argv, j + 1) {
                    Ok(tags) => Ok(CommandV::LayoutGet { tags: Some(tags), output }),
                    Err(e) => Err(e),
                }
            } else {
                Ok(CommandV::LayoutGet { tags: None, output })
            }
        } else if cmd == "layout-cmd"@ {
            if restlen == 0 {
                Err("Usage: layout-cmd <cmd> [args...]"@)
            } else {
                Ok(CommandV::LayoutCommand {
                    cmd: argv[i + 1],
                    args: argv.skip(i + 2),
                })
            }
        } else if cmd == "list-windows"@ {
            Ok(CommandV::ListWindows)
        } else if cmd == "list-outputs"@ {
            Ok(CommandV::ListOutputs)
        } else if cmd == "get-state"@ {
            Ok(CommandV::GetState)
        } else if cmd == "focused-window"@ {
            Ok(CommandV::FocusedWindow)
        } else if cmd == "exec"@ {
            if restlen == 0 {
                Err("Usage: exec <command>"@)
            } else {
                Ok(CommandV::Exec { command: argv[i + 1] })
            }
        } else if cmd == "exec-or-focus"@ {
            if restlen < 3 || argv[i + 1] != "--app-name"@ {
                Err("Usage: exec-or-focus --app-name <name> <command>"@)
            } else {
                Ok(CommandV::ExecOrFocus { app_name: argv[i + 2], command: argv[i + 3] })
            }
        } else if cmd == "quit"@ {
            Ok(CommandV::Quit)
        } else {
            Err("Unknown command: "@ + cmd)
        }
    }
}

/// Read a direction word.
pub fn parse_direction(s: &str) -> (r: Result<Direction, String>)
    ensures
        match direction_of(s@) {
            Some(d) => r == Ok::<Direction, String>(d),
            None => r matches Err(m) && m@ == "Unknown direction: "@ + s@
                + " (use left, right, up, down, next, prev)"@,
        },
{
    if str_eq_ignore_case(s, "left") {
        Ok(Direction::Left)
    } else if str_eq_ignore_case(s, "right") {
        Ok(Direction::Right)
    } else if str_eq_ignore_case(s, "up") {
        Ok(Direction::Up)
    } else if str_eq_ignore_case(s, "down") {
        Ok(Direction::Down)
    } else if str_eq_ignore_case(s, "next") {
        Ok(Direction::Next)
    } else if str_eq_ignore_case(s, "prev") {
        Ok(Direction::Prev)
    } else {
        let mut m = "Unknown direction: ".to_owned();
        m.append(s);
        m.append(" (use left, right, up, down, next, prev)");
        Err(m)
    }
}

/// Read an output direction word.
pub fn parse_output_direction(s: &str) -> (r: Result<OutputDirection, String>)
    ensures
        match output_direction_of(s@) {
            Some(d) => r == Ok::<OutputDirection, String>(d),
            None => r matches Err(m) && m@ == "Unknown output direction: "@ + s@
                + " (use next or prev)"@,
        },
{
    if str_eq_ignore_case(s, "next") {
        Ok(OutputDirection::Next)
    } else if str_eq_ignore_case(s, "prev") {
        Ok(OutputDirection::Prev)
    } else {
        let mut m = "Unknown output direction: ".to_owned();
        m.append(s);
        m.append(" (use next or prev)");
        Err(m)
    }
}

/// Read an output word: an id when it is a number, a name otherwise.
pub fn parse_output_specifier(s: Option<String>) -> (r: Option<OutputSpecifier>)
    ensures
        match s {
            Some(t) => r matches Some(o) && o@ == output_spec_of(t@),
            None => r is None,
        },
{
    match s {
        Some(t) => {
            match parse_u32(t.as_str()) {
                Some(id) => Some(OutputSpecifier::Id(id)),
                None => Some(OutputSpecifier::Name(t)),
            }
        },
        None => None,
    }
}

/// Read an optional `--output <id|name>` pair at `start`, returning the
/// specifier and the position after it.
pub fn parse_output_option(args: &Vec<String>, start: usize) -> (r: (Option<OutputSpecifier>, usize))
    ensures
        ({
            let (o, j) = output_option_at(word_views(args@), start as int);
            &&& r.1 == j
            &&& match o {
                Some(ov) => r.0 matches Some(x) && x@ == ov,
                None => r.0 is None,
            }
        }),
{
    proof {
        if (start as int) + 2 <= args@.len() {
            assert(word_views(args@)[start as int] == args@[start as int]@);
            assert(word_views(args@)[start as int + 1] == args@[start as int + 1]@);
        }
    }
    if args.len() >= 2 && start <= args.len() - 2 && str_eq(args[start].as_str(), "--output") {
        let spec = parse_output_specifier(Some(args[start + 1].clone()));
        (spec, start + 2)
    } else {
        (None, start)
    }
}

/// Read the words of a control command, as the control socket and hotkey
/// bindings deliver them.
pub fn parse_command(args: &Vec<String>) -> (r: Result<Command, String>)
    ensures
        match parse_cmd_at(word_views(args@), 0) {
            Ok(c) => r matches Ok(x) && x@ == c,
            Err(m) => r matches Err(e) && e@ == m,
        },
{
    parse_command_from(args, 0)
}

/// Read the words of a control command from position `start` on.
pub fn parse_command_from(args: &Vec<String>, start: usize) -> (r: Result<Command, String>)
    ensures
        match parse_cmd_at(word_views(args@), start as int) {
            Ok(c) => r matches Ok(x) && x@ == c,
            Err(m) => r matches Err(e) && e@ == m,
        },
    decreases args@.len() - start,
{
    let ghost argv = word_views(args@);
    proof {
        assert forall|k: int| 0 <= k < args@.len() implies argv[k] == args@[k]@ by {}
    }
    if start >= args.len() {
        return Err("No command provided".to_owned());
    }
    let n = args.len();
    let restlen = n - start - 1;
    let cmd = args[start].as_str();
    if str_eq(cmd, "bind") {
        if restlen < 2 {
            return Err("Usage: bind <key> <command> [args...]".to_owned());
        }
        match parse_command_from(args, start + 2) {
            Ok(a) => Ok(Command::Bind { key: args[start + 1].clone(), action: Box::new(a) }),
            Err(e) => Err(e),
        }
    } else if str_eq(cmd, "unbind") {
        if restlen == 0 {
            return Err("Usage: unbind <key>".to_owned());
        }
        Ok(Command::Unbind { key: args[start + 1].clone() })
    } else if str_eq(cmd, "list-bindings") {
        Ok(Command::ListBindings)
    } else if str_eq(cmd, "tag-view") {
        let (output, j) = parse_output_option(args, start + 1);
        if j >= n {
            return Err("Usage: tag-view [--output <id|name>] <tags>".to_owned());
        }
        match parse_tags(args, j) {
            Ok(tags) => Ok(Command::TagView { tags, output }),
            Err(e) => Err(e),
        }
    } else if str_eq(cmd, "tag-toggle") {
        let (output, j) = parse_output_option(args, start + 1);
        if j >= n {
            return Err("Usage: tag-toggle [--output <id|name>] <tags>".to_owned());
        }
        match parse_tags(args, j) {
            Ok(tags) => Ok(Command::TagToggle { tags, output }),
            Err(e) => Err(e),
        }
    } else if str_eq(cmd, "tag-view-last") {
        Ok(Command::TagViewLast)
    } else if str_eq(cmd, "window-move-to-tag") {
        if restlen == 0 {
            return Err("Usage: window-move-to-tag <tags>".to_owned());
        }
        match parse_tags(args, start + 1) {
            Ok(tags) => Ok(Command::WindowMoveToTag { tags }),
            Err(e) => Err(e),
        }
    } else if str_eq(cmd, "window-toggle-tag") {
        if restlen == 0 {
            return Err("Usage: window-toggle-tag <tags>".to_owned());
        }
        match parse_tags(args, start + 1) {
            Ok(tags) => Ok(Command::WindowToggleTag { tags }),
            Err(e) => Err(e),
        }
    } else if str_eq(cmd, "window-focus") {
        if restlen == 0 {
            return Err("Usage: window-focus <direction>".to_owned());
        }
        match parse_direction(args[start + 1].as_str()) {
            Ok(direction) => Ok(Command::WindowFocus { direction }),
            Err(e) => Err(e),
        }
    } else if str_eq(cmd, "window-swap") {
        if restlen == 0 {
            return Err("Usage: window-swap <direction>".to_owned());
        }
        match parse_direction(args[start + 1].as_str()) {
            Ok(direction) => Ok(Command::WindowSwap { direction }),
            Err(e) => Err(e),
        }
    } else if str_eq(cmd, "output-focus") {
        if restlen == 0 {
            return Err("Usage: output-focus <next|prev>".to_owned());
        }
        match parse_output_direction(args[start + 1].as_str()) {
            Ok(direction) => Ok(Command::OutputFocus { direction }),
            Err(e) => Err(e),
        }
    } else if str_eq(cmd, "output-send") {
        if restlen == 0 {
            return Err("Usage: output-send <next|prev>".to_owned());
        }
        match parse_output_direction(args[start + 1].as_str()) {
            Ok(direction) => Ok(Command::OutputSend { direction }),
            Err(e) => Err(e),
        }
    } else if str_eq(cmd, "retile") {
        let (output, _j) = parse_output_option(args, start + 1);
        Ok(Command::Retile { output })
    } else if str_eq(cmd, "layout-set-default") {
        if restlen == 0 {
            return Err("Usage: layout-set-default <layout>".to_owned());
        }
        Ok(Command::LayoutSetDefault { layout: args[start + 1].clone() })
    } else if str_eq(cmd, "layout-set") {
        let (output, j) = parse_output_option(args, start + 1);
        if n - j >= 3 && str_eq(args[j].as_str(), "--tags") {
            match parse_tags(args, j + 1) {
                Ok(tags) => Ok(Command::LayoutSet {
                    tags: Some(tags),
                    output,
                    layout: args[j + 2].clone(),
                }),
                Err(e) => Err(e),
            }
        } else if j >= n {
            Err("Usage: layout-set [--tags <tags>] [--output <id|name>] <layout>".to_owned())
        } else {
            Ok(Command::LayoutSet { tags: None, output, layout: args[j].clone() })
        }
    } else if str_eq(cmd, "layout-get") {
        let (output, j) = parse_output_option(args, start + 1);
        if n - j >= 2 && str_eq(args[j].as_str(), "--tags") {
            match parse_tags(args, j + 1) {
                Ok(tags) => Ok(Command::LayoutGet { tags: Some(tags), output }),
                Err(e) => Err(e),
            }
        } else {
            Ok(Command::LayoutGet { tags: None, output })
        }
    } else if str_eq(cmd, "layout-cmd") {
        if restlen == 0 {
            return Err("Usage: layout-cmd <cmd> [args...]".to_owned());
        }
        let mut rest_args: Vec<String> = Vec::new();
        let mut k: usize = start + 2;
        proof {
            assert(str_views(rest_args@) =~= str_views(args@).skip(start + 2).take(0));
        }
        while k < n
            invariant
                start + 2 <= k <= n,
                n == args@.len(),
                str_views(rest_args@) == str_views(args@).skip(start + 2).take(k - start - 2),
            decreases n - k,
        {
            let ghost prev = rest_args@;
            let w = args[k].clone();
            proof {
                assert(w@ == args@[k as int]@);
            }
            rest_args.push(w);
            proof {
                let whole = str_views(args@).skip(start + 2);
                assert(str_views(args@)[k as int] == args@[k as int]@);
                assert(whole[k - start - 2] == str_views(args@)[k as int]);
                assert(str_views(prev).len() == prev.len());
                assert(prev.len() == k - start - 2);
                assert(rest_args@.len() == k + 1 - start - 2);
                assert forall|m: int|
                    0 <= m < rest_args@.len() implies str_views(rest_args@)[m] == whole.take(
                    k + 1 - start - 2,
                )[m] by {
                    assert(str_views(rest_args@)[m] == rest_args@[m]@);
                    if m < prev.len() {
                        assert(rest_args@[m] == prev[m]);
                        assert(str_views(prev)[m] == prev[m]@);
                        assert(str_views(prev)[m] == whole.take(k - start - 2)[m]);
                    } else {
                        assert(rest_args@[m] == w);
                    }
                }
                assert(str_views(rest_args@) =~= whole.take(k + 1 - start - 2));
            }
            k = k + 1;
        }
        proof {
            let whole = str_views(args@).skip(start + 2);
            assert(whole.take(args@.len() - start - 2) =~= whole);
        }
        Ok(Command::LayoutCommand { cmd: args[start + 1].clone(), args: rest_args })
    } else if str_eq(cmd, "list-windows") {
        Ok(Command::ListWindows)
    } else if str_eq(cmd, "list-outputs") {
        Ok(Command::ListOutputs)
    } else if str_eq(cmd, "get-state") {
        Ok(Command::GetState)
    } else if str_eq(cmd, "focused-window") {
        Ok(Command::FocusedWindow)
    } else if str_eq(cmd, "exec") {
        if restlen == 0 {
            return Err("Usage: exec <command>".to_owned());
        }
        Ok(Command::Exec { command: args[start + 1].clone() })
    } else if str_eq(cmd, "exec-or-focus") {
        if restlen < 3 || !str_eq(args[start + 1].as_str(), "--app-name") {
            return Err("Usage: exec-or-focus --app-name <name> <command>".to_owned());
        }
        Ok(Command::ExecOrFocus {
            app_name: args[start + 2].clone(),
            command: args[start + 3].clone(),
        })
    } else if str_eq(cmd, "quit") {
        Ok(Command::Quit)
    } else {
        let mut m = "Unknown command: ".to_owned();
        m.append(cmd);
        Err(m)
    }
}

/// Read one tags word as a `u32` bitmask.
fn parse_tags(args: &Vec<String>, j: usize) -> (r: Result<u32, String>)
    requires
        j < args@.len(),
    ensures
        match tags_at(word_views(args@), j as int) {
            Ok(v) => r == Ok::<u32, String>(v),
            Err(m) => r matches Err(e) && e@ == m,
        },
{
    proof {
        assert(word_views(args@)[j as int] == args@[j as int]@);
    }
    match parse_u32(args[j].as_str()) {
        Some(v) => Ok(v),
        None => {
            let mut m = "invalid number: ".to_owned();
            m.append(args[j].as_str());
            Err(m)
        },
    }
}

} // verus!
