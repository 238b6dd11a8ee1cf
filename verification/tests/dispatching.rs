use opc_core::{
    new_opc_command, serve_opc, Command, DeclToken, Delimiter, Dispatch, Dispatcher, ParseError,
};

fn text(value: &str) -> DeclToken {
    DeclToken::Literal(format!("\"{}\"", value))
}

fn field(value: &str) -> DeclToken {
    DeclToken::Ident(value.to_string())
}

fn command(body: Vec<DeclToken>, help: &str) -> Command {
    Command::new(new_opc_command(&body).unwrap(), help.to_string())
}

fn tokens(items: &[&str]) -> Vec<String> {
    items.iter().map(|s| s.to_string()).collect()
}

/// Command `a` with one positional and flag `-v`, then command `b` with one
/// positional.
fn a_then_b() -> Dispatcher {
    let a = command(
        vec![
            text("a"),
            field("first"),
            DeclToken::Group(Delimiter::Bracket, vec![text("-"), field("v")]),
        ],
        "a <first> [-v]",
    );
    let b = command(vec![text("b"), field("second")], "b <second>");
    serve_opc(vec![a, b], "1.2.3".to_string())
}

#[test]
fn no_token_gives_the_banner() {
    let action = a_then_b().dispatch(&tokens(&[]));
    assert_eq!(action, Dispatch::Banner("OUTLINE Plugin Creator 1.2.3 installed".to_string()));
    assert_eq!(action.report(), Some("OUTLINE Plugin Creator 1.2.3 installed".to_string()));
}

#[test]
fn banner_does_not_depend_on_the_commands() {
    let none = serve_opc(vec![], "0.1".to_string());
    assert_eq!(
        none.dispatch(&tokens(&[])),
        Dispatch::Banner("OUTLINE Plugin Creator 0.1 installed".to_string())
    );
    assert_eq!(none.banner(), "OUTLINE Plugin Creator 0.1 installed");
    let many = serve_opc(
        vec![
            command(vec![text("a")], ""),
            command(vec![text("b")], ""),
            command(vec![text("c"), field("x"), field("y")], ""),
        ],
        "0.1".to_string(),
    );
    assert_eq!(
        many.dispatch(&tokens(&[])),
        Dispatch::Banner("OUTLINE Plugin Creator 0.1 installed".to_string())
    );
    assert_eq!(serve_opc(vec![], String::new()).banner(), "OUTLINE Plugin Creator  installed");
}

#[test]
fn help_listing_has_a_line_for_each_command() {
    let dispatcher = a_then_b();
    assert_eq!(dispatcher.help(), "Available commands:\nhelp\na\nb");
    let lines: Vec<String> = dispatcher.help().lines().map(|l| l.to_string()).collect();
    assert_eq!(lines, tokens(&["Available commands:", "help", "a", "b"]));
}

#[test]
fn help_listing_without_commands_names_help_alone() {
    assert_eq!(serve_opc(vec![], "1".to_string()).help(), "Available commands:\nhelp");
}

#[test]
fn help_listing_keeps_declaration_order() {
    let dispatcher = serve_opc(
        vec![
            command(vec![text("zeta")], ""),
            command(vec![text("Alpha")], ""),
            command(vec![text("mid")], ""),
        ],
        "1".to_string(),
    );
    assert_eq!(dispatcher.help(), "Available commands:\nhelp\nzeta\nalpha\nmid");
}

#[test]
fn help_alone_gives_the_listing() {
    let action = a_then_b().dispatch(&tokens(&["help"]));
    assert_eq!(action, Dispatch::Help("Available commands:\nhelp\na\nb".to_string()));
    assert_eq!(action.report(), Some("Available commands:\nhelp\na\nb".to_string()));
}

#[test]
fn help_about_help_gives_the_listing() {
    assert_eq!(
        a_then_b().dispatch(&tokens(&["help", "help"])),
        Dispatch::Help("Available commands:\nhelp\na\nb".to_string())
    );
}

#[test]
fn help_about_a_command_gives_its_help_text() {
    let dispatcher = a_then_b();
    assert_eq!(
        dispatcher.dispatch(&tokens(&["help", "a"])),
        Dispatch::Help("a <first> [-v]".to_string())
    );
    assert_eq!(
        dispatcher.dispatch(&tokens(&["help", "b"])),
        Dispatch::Help("b <second>".to_string())
    );
    assert_eq!(dispatcher.run_help("b"), "b <second>");
}

#[test]
fn help_about_an_unknown_command_says_so() {
    let dispatcher = a_then_b();
    assert_eq!(
        dispatcher.dispatch(&tokens(&["help", "zzz"])),
        Dispatch::Help("Unknown Command!".to_string())
    );
    assert_eq!(dispatcher.run_help("A"), "Unknown Command!");
    assert_eq!(dispatcher.run_help(""), "Unknown Command!");
}

#[test]
fn help_is_parsed_like_any_command() {
    let dispatcher = a_then_b();
    assert_eq!(
        dispatcher.dispatch(&tokens(&["help", "3"])),
        Dispatch::Failed(ParseError::Positional)
    );
    assert_eq!(
        dispatcher.dispatch(&tokens(&["help", "a", "b"])),
        Dispatch::Failed(ParseError::UnknownFlag("b".to_string()))
    );
    assert_eq!(
        dispatcher.dispatch(&tokens(&["help", "a", "b"])).report(),
        Some("Unknown optional value: b".to_string())
    );
}

#[test]
fn help_of_the_first_command_with_the_keyword_is_given() {
    let dispatcher = serve_opc(
        vec![
            command(vec![text("twin")], "the first"),
            command(vec![text("twin")], "the second"),
            command(vec![text("help")], "never shown"),
        ],
        "1".to_string(),
    );
    assert_eq!(dispatcher.run_help("twin"), "the first");
    assert_eq!(dispatcher.run_help("help"), "Available commands:\nhelp\ntwin\ntwin\nhelp");
}

#[test]
fn later_command_runs_where_the_earlier_passes_on() {
    match a_then_b().dispatch(&tokens(&["b", "value"])) {
        Dispatch::Run(index, record) => {
            assert_eq!(index, 1);
            assert_eq!(record.get("second"), Some(&"value".to_string()));
            assert_eq!(record.get("first"), None);
        },
        other => panic!("not run: {:?}", other),
    }
}

#[test]
fn first_command_runs_with_its_record() {
    let action = a_then_b().dispatch(&tokens(&["a", "value", "-v"]));
    assert_eq!(action.report(), None);
    match action {
        Dispatch::Run(index, record) => {
            assert_eq!(index, 0);
            assert_eq!(record.get("first"), Some(&"value".to_string()));
            assert_eq!(record.flag("v"), Some(true));
        },
        other => panic!("not run: {:?}", other),
    }
}

#[test]
fn error_of_the_matched_command_ends_the_dispatch() {
    let dispatcher = a_then_b();
    assert_eq!(
        dispatcher.dispatch(&tokens(&["a", "3x"])),
        Dispatch::Failed(ParseError::Positional)
    );
    assert_eq!(
        dispatcher.dispatch(&tokens(&["a", "value", "-q"])),
        Dispatch::Failed(ParseError::UnknownFlag("-q".to_string()))
    );
    assert_eq!(
        dispatcher.dispatch(&tokens(&["b", "value", "-v"])),
        Dispatch::Failed(ParseError::UnknownFlag("-v".to_string()))
    );
    assert_eq!(
        dispatcher.dispatch(&tokens(&["a", "3x"])).report(),
        Some("missing or invalid argument".to_string())
    );
}

#[test]
fn first_of_two_commands_with_one_keyword_decides() {
    let dispatcher = serve_opc(
        vec![
            command(vec![text("twin"), field("x"), field("y")], ""),
            command(vec![text("twin"), field("x")], ""),
        ],
        "1".to_string(),
    );
    assert_eq!(
        dispatcher.dispatch(&tokens(&["twin", "one", "3"])),
        Dispatch::Failed(ParseError::Positional)
    );
    assert!(matches!(dispatcher.dispatch(&tokens(&["twin", "one", "two"])), Dispatch::Run(0, _)));
}

#[test]
fn too_short_invocation_is_an_error_of_the_first_candidate() {
    let dispatcher = a_then_b();
    assert_eq!(dispatcher.dispatch(&tokens(&["b"])), Dispatch::Failed(ParseError::Arity));
    assert_eq!(dispatcher.dispatch(&tokens(&["zzz"])), Dispatch::Failed(ParseError::Arity));
    assert_eq!(dispatcher.dispatch(&tokens(&["b"])).report(), Some("missing argument".to_string()));
    let longer = serve_opc(
        vec![
            command(vec![text("a"), field("x"), field("y")], ""),
            command(vec![text("b"), field("x")], ""),
        ],
        "1".to_string(),
    );
    assert_eq!(longer.dispatch(&tokens(&["b", "value"])), Dispatch::Failed(ParseError::Arity));
}

#[test]
fn unknown_keyword_is_reported() {
    let action = a_then_b().dispatch(&tokens(&["zzz", "value"]));
    assert_eq!(action, Dispatch::Unknown);
    assert_eq!(
        action.report(),
        Some("Unknown command! Use 'opc help' for further information".to_string())
    );
    assert_eq!(
        serve_opc(vec![], "1".to_string()).dispatch(&tokens(&["a", "value"])),
        Dispatch::Unknown
    );
}

#[test]
fn command_called_help_is_never_reached() {
    let mine = command(vec![text("help"), field("x")], "mine");
    let dispatcher = serve_opc(vec![mine], "1".to_string());
    assert_eq!(
        dispatcher.dispatch(&tokens(&["help", "topic"])),
        Dispatch::Help("Unknown Command!".to_string())
    );
}

#[test]
fn dispatcher_keeps_what_it_was_given() {
    let dispatcher = a_then_b();
    assert_eq!(dispatcher.version(), "1.2.3");
    assert_eq!(dispatcher.commands().len(), 2);
    assert_eq!(dispatcher.commands()[0].shape().keyword(), "a");
    assert_eq!(dispatcher.commands()[1].help(), "b <second>");
    assert_eq!(dispatcher.commands()[1].spec().name(), "b");
    assert_eq!(dispatcher.commands()[1].spec().positionals(), &tokens(&["second"]));
    assert_eq!(dispatcher.commands()[1].shape().positionals(), &tokens(&["second"]));
}
