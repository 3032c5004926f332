use mqtt_toolkit::cli::command::Arg as Given;
use mqtt_toolkit::cli::error::CliError;
use mqtt_toolkit::cli::shell::Shell;
use mqtt_toolkit::cli::spec::flag::Query;
use mqtt_toolkit::cli::spec::{Arg, Command, CommandSet};
use mqtt_toolkit::commands;

fn test_command() -> Command {
    Command::build("pub")
        .set_description("Publish something")
        .set_usage("{$name} {$flags} topic")
        .add_flag("qos", 'q', Arg::Required, "QoS level")
        .add_flag("retain", 'r', Arg::NoArg, "Retain")
        .add_flag("label", 'l', Arg::Optional, "Optional label")
}

fn shell() -> Shell {
    let mut set = CommandSet::new();
    set.insert("pub".to_string(), test_command());
    Shell::new(set, "Test shell.")
}

#[test]
fn empty_line_is_no_command() {
    let sh = shell();
    assert!(sh.parse("").unwrap().is_none());
    assert!(sh.parse("   ").unwrap().is_none());
    assert_eq!(sh.extract_command_name("  "), None);
    assert_eq!(sh.extract_command_name("  pub x"), Some("pub".to_string()));
}

#[test]
fn unknown_command() {
    let sh = shell();
    match sh.parse("sub a") {
        Err(CliError::UnknownCommand(e)) => {
            assert_eq!(e.0, "sub");
            assert_eq!(e.message(), "Error: unknown command sub");
        }
        other => panic!("unexpected {:?}", other.map(|c| c.is_some())),
    }
}

#[test]
fn flags_and_operands() {
    let sh = shell();
    let c = sh.parse("pub -q 1 a/b -r c").unwrap().unwrap();
    assert_eq!(c.spec().name(), "pub");
    let ops: Vec<&str> = c.operands().iter().map(|o| o.value()).collect();
    assert_eq!(ops, vec!["a/b", "c"]);
    assert_eq!(*c.get_flag(Query::Short('q')).unwrap().arg(), Given::Required("1".to_string()));
    assert_eq!(*c.get_flag(Query::Name("retain".to_string())).unwrap().arg(), Given::NoArg);
    assert!(c.get_flag(Query::Short('l')).is_none());
    assert_eq!(c.flags().len(), 2);
}

#[test]
fn repeated_flag_replaces_earlier_one() {
    let sh = shell();
    let c = sh.parse("pub -q 1 --qos 2 t").unwrap().unwrap();
    assert_eq!(c.flags().len(), 1);
    assert_eq!(*c.get_flag(Query::Short('q')).unwrap().arg(), Given::Required("2".to_string()));
}

#[test]
fn optional_argument() {
    let sh = shell();
    let c = sh.parse("pub -l name t").unwrap().unwrap();
    assert_eq!(
        *c.get_flag(Query::Short('l')).unwrap().arg(),
        Given::Optional(Some("name".to_string()))
    );
    let ops: Vec<&str> = c.operands().iter().map(|o| o.value()).collect();
    assert_eq!(ops, vec!["t"]);
    // followed by a flag or by nothing, an optional flag is dropped
    let c = sh.parse("pub -l -r").unwrap().unwrap();
    assert!(c.get_flag(Query::Short('l')).is_none());
    assert!(c.get_flag(Query::Short('r')).is_some());
    let c = sh.parse("pub -l").unwrap().unwrap();
    assert_eq!(c.flags().len(), 0);
}

#[test]
fn unknown_flag_and_missing_argument() {
    let sh = shell();
    match sh.parse("pub -z") {
        Err(CliError::UnknownFlag(e)) => assert_eq!(e.message(), "unrecognized flag '-z'"),
        other => panic!("unexpected {:?}", other.map(|c| c.is_some())),
    }
    match sh.parse("pub -q") {
        Err(CliError::FlagMissingArg(e)) => assert_eq!(e.0.to_text(), "-q"),
        other => panic!("unexpected {:?}", other.map(|c| c.is_some())),
    }
    match sh.parse("pub -q -r") {
        Err(CliError::FlagMissingArg(e)) => assert_eq!(e.0.to_text(), "-q"),
        other => panic!("unexpected {:?}", other.map(|c| c.is_some())),
    }
}

#[test]
fn find_command_spec() {
    let sh = shell();
    assert_eq!(sh.find_command_spec("pub").unwrap().description(), "Publish something");
    assert!(sh.find_command_spec("nope").is_none());
}

#[test]
fn command_help_text() {
    let c = commands::connack::connack();
    let expected = "Usage: connack [-c code] [-s]\n\n  [Debug] Send a connack request to the broker. (This is illegal.)\n\nOptions:\n\n  -c, --code             Specify the Connect Reason Code. Defaults to Accepted if not present.\n  -s, --session-present  If this flag is present, the session-present bit will be set.\n";
    assert_eq!(c.help(), expected);
}

#[test]
fn command_help_with_optional_flag() {
    let c = test_command();
    let expected = "Usage: pub [-l [label]] [-q qos] [-r] topic\n\n  Publish something\n\nOptions:\n\n  -l, --label   Optional label\n  -q, --qos     QoS level\n  -r, --retain  Retain\n";
    assert_eq!(c.help(), expected);
}

#[test]
fn flag_usage_replaces_dashes() {
    let c = Command::build("x").set_usage("{$flags}").add_flag("keep-alive", 'k', Arg::Required, "k");
    assert_eq!(c.help(), "Usage: [-k keep_alive]\n\n  \n\nOptions:\n\n  -k, --keep-alive  k\n");
}

#[test]
fn command_help_without_flags() {
    assert_eq!(commands::exit().help(), "Usage: exit\n\n  Quit the command line interface");
}

#[test]
fn shell_help_text() {
    let mut set = CommandSet::new();
    set.insert("exit".to_string(), commands::exit());
    set.insert("help".to_string(), commands::help());
    let sh = Shell::new(set, "Intro.");
    let exit_help = "Usage: exit\n\n  Quit the command line interface";
    let help_help = "Usage: help [command_name]\n\n  Print this help message or print help for a specific command";
    let width = help_help.len() + 1;
    let expected = format!(
        "Intro.\n\n {}    {}{}\n {}    {}{}\n",
        "exit",
        exit_help,
        " ".repeat(width - exit_help.len()),
        "help",
        help_help,
        " ".repeat(width - help_help.len()),
    );
    assert_eq!(sh.help(), expected);
}

#[test]
fn help_command_text() {
    let mut set = CommandSet::new();
    set.insert("exit".to_string(), commands::exit());
    set.insert("help".to_string(), commands::help());
    let sh = Shell::new(set, "Intro.");
    let c = sh.parse("help exit").unwrap().unwrap();
    match commands::help_text(&c, &sh) {
        Ok(t) => assert_eq!(t, "Usage: exit\n\n  Quit the command line interface"),
        Err(_) => panic!("help failed"),
    }
    let c = sh.parse("help").unwrap().unwrap();
    match commands::help_text(&c, &sh) {
        Ok(t) => assert_eq!(t, sh.help()),
        Err(_) => panic!("help failed"),
    }
    let c = sh.parse("help nope").unwrap().unwrap();
    match commands::help_text(&c, &sh) {
        Err(commands::CommandError::Cli(CliError::UnknownCommand(e))) => assert_eq!(e.0, "nope"),
        _ => panic!("expected an unknown command"),
    }
}
