use opc_core::decl::{new_opc_command, struct_name_from, InvalidDeclaration, DeclToken, Delimiter};
use opc_core::text::{all_distinct, unquoted};

fn lit(text: &str) -> DeclToken {
    DeclToken::Literal(format!("\"{}\"", text))
}

fn ident(name: &str) -> DeclToken {
    DeclToken::Ident(name.to_string())
}

fn brackets(inner: Vec<DeclToken>) -> DeclToken {
    DeclToken::Group(Delimiter::Bracket, inner)
}

fn strings(items: &[&str]) -> Vec<String> {
    items.iter().map(|s| s.to_string()).collect()
}

#[test]
fn declares_positionals_and_flags() {
    let body = vec![
        lit("cmd"),
        ident("a"),
        ident("b"),
        brackets(vec![lit("-"), ident("x"), ident("y")]),
    ];
    let spec = new_opc_command(&body).unwrap();
    assert_eq!(spec.name(), "cmd");
    assert_eq!(spec.struct_name(), "CmdCommand");
    assert_eq!(spec.positionals(), &strings(&["a", "b"]));
    assert_eq!(spec.flag_groups().len(), 1);
    assert_eq!(spec.flag_groups()[0].prefix(), "-");
    assert_eq!(spec.flag_groups()[0].flags(), &strings(&["x", "y"]));
}

#[test]
fn declares_a_command_without_clauses() {
    let spec = new_opc_command(&vec![lit("init")]).unwrap();
    assert_eq!(spec.name(), "init");
    assert!(spec.positionals().is_empty());
    assert!(spec.flag_groups().is_empty());
}

#[test]
fn keyword_is_the_literal_in_ascii_lower_case() {
    let spec = new_opc_command(&vec![lit("BuiLd")]).unwrap();
    assert_eq!(spec.name(), "build");
    assert_eq!(spec.struct_name(), "BuiLdCommand");
}

#[test]
fn keyword_keeps_letters_outside_ascii() {
    let spec = new_opc_command(&vec![lit("ÉCHO")]).unwrap();
    assert_eq!(spec.name(), "Écho");
}

#[test]
fn struct_name_starts_with_the_upper_case_initial() {
    let spec = new_opc_command(&vec![lit("écho")]).unwrap();
    assert_eq!(spec.struct_name(), "ÉchoCommand");
    assert_eq!(spec.name(), "écho");
}

#[test]
fn struct_name_is_built_from_initial_and_rest() {
    assert_eq!(struct_name_from('H', "help"), "HelpCommand");
    assert_eq!(struct_name_from('X', "y"), "XCommand");
    assert_eq!(struct_name_from('é', "abc"), "ébcCommand");
}

#[test]
fn literal_without_quotation_marks_names_itself() {
    let spec = new_opc_command(&vec![DeclToken::Literal("123".to_string())]).unwrap();
    assert_eq!(spec.name(), "123");
}

#[test]
fn clause_order_is_kept_where_clauses_interleave() {
    let body = vec![
        lit("deploy"),
        ident("target"),
        brackets(vec![lit("-"), ident("f")]),
        ident("stage"),
        brackets(vec![lit("--"), ident("dry"), ident("force")]),
    ];
    let spec = new_opc_command(&body).unwrap();
    assert_eq!(spec.positionals(), &strings(&["target", "stage"]));
    assert_eq!(spec.flag_groups().len(), 2);
    assert_eq!(spec.flag_groups()[0].prefix(), "-");
    assert_eq!(spec.flag_groups()[0].flags(), &strings(&["f"]));
    assert_eq!(spec.flag_groups()[1].prefix(), "--");
    assert_eq!(spec.flag_groups()[1].flags(), &strings(&["dry", "force"]));
}

#[test]
fn group_without_flags_is_accepted() {
    let spec = new_opc_command(&vec![lit("cmd"), brackets(vec![lit("-")])]).unwrap();
    assert_eq!(spec.flag_groups().len(), 1);
    assert!(spec.flag_groups()[0].flags().is_empty());
}

#[test]
fn empty_declaration_lacks_a_name() {
    assert_eq!(new_opc_command(&vec![]).unwrap_err(), InvalidDeclaration::MissingName);
}

#[test]
fn name_that_is_no_literal_is_refused() {
    assert_eq!(new_opc_command(&vec![ident("cmd")]).unwrap_err(), InvalidDeclaration::MissingName);
    assert_eq!(
        new_opc_command(&vec![brackets(vec![lit("cmd")])]).unwrap_err(),
        InvalidDeclaration::MissingName
    );
    assert_eq!(
        new_opc_command(&vec![DeclToken::Punct('-')]).unwrap_err(),
        InvalidDeclaration::MissingName
    );
}

#[test]
fn empty_name_is_refused() {
    assert_eq!(new_opc_command(&vec![lit("")]).unwrap_err(), InvalidDeclaration::EmptyName);
    assert_eq!(
        new_opc_command(&vec![lit(""), ident("a")]).unwrap_err(),
        InvalidDeclaration::EmptyName
    );
}

#[test]
fn group_in_other_delimiters_is_refused() {
    for delimiter in [Delimiter::Parenthesis, Delimiter::Brace, Delimiter::Invisible] {
        let body = vec![lit("cmd"), DeclToken::Group(delimiter, vec![lit("-"), ident("x")])];
        assert_eq!(new_opc_command(&body).unwrap_err(), InvalidDeclaration::WrongDelimiter);
    }
}

#[test]
fn group_without_prefix_is_refused() {
    let empty = vec![lit("cmd"), brackets(vec![])];
    assert_eq!(new_opc_command(&empty).unwrap_err(), InvalidDeclaration::MissingPrefix);
    let no_literal = vec![lit("cmd"), brackets(vec![ident("x"), ident("y")])];
    assert_eq!(new_opc_command(&no_literal).unwrap_err(), InvalidDeclaration::MissingPrefix);
}

#[test]
fn empty_prefix_is_refused() {
    let body = vec![lit("cmd"), brackets(vec![lit(""), ident("x")])];
    assert_eq!(new_opc_command(&body).unwrap_err(), InvalidDeclaration::EmptyPrefix);
}

#[test]
fn flag_that_is_no_identifier_is_refused() {
    let literal = vec![lit("cmd"), brackets(vec![lit("-"), ident("x"), lit("y")])];
    assert_eq!(new_opc_command(&literal).unwrap_err(), InvalidDeclaration::InvalidFlagName);
    let punct = vec![lit("cmd"), brackets(vec![lit("-"), DeclToken::Punct(',')])];
    assert_eq!(new_opc_command(&punct).unwrap_err(), InvalidDeclaration::InvalidFlagName);
    let nested = vec![lit("cmd"), brackets(vec![lit("-"), brackets(vec![lit("-")])])];
    assert_eq!(new_opc_command(&nested).unwrap_err(), InvalidDeclaration::InvalidFlagName);
}

#[test]
fn clause_that_is_neither_identifier_nor_group_is_refused() {
    let literal = vec![lit("cmd"), lit("oops")];
    assert_eq!(new_opc_command(&literal).unwrap_err(), InvalidDeclaration::InvalidClause);
    let punct = vec![lit("cmd"), ident("a"), DeclToken::Punct(',')];
    assert_eq!(new_opc_command(&punct).unwrap_err(), InvalidDeclaration::InvalidClause);
}

#[test]
fn first_malformed_clause_decides_the_error() {
    let body = vec![
        lit("cmd"),
        ident("a"),
        DeclToken::Punct(';'),
        DeclToken::Group(Delimiter::Brace, vec![]),
    ];
    assert_eq!(new_opc_command(&body).unwrap_err(), InvalidDeclaration::InvalidClause);
    let other = vec![
        lit("cmd"),
        DeclToken::Group(Delimiter::Brace, vec![]),
        DeclToken::Punct(';'),
    ];
    assert_eq!(new_opc_command(&other).unwrap_err(), InvalidDeclaration::WrongDelimiter);
}

#[test]
fn delimiter_is_examined_before_the_prefix() {
    let body = vec![lit("cmd"), DeclToken::Group(Delimiter::Parenthesis, vec![])];
    assert_eq!(new_opc_command(&body).unwrap_err(), InvalidDeclaration::WrongDelimiter);
}

#[test]
fn name_is_examined_before_the_clauses() {
    let body = vec![ident("cmd"), DeclToken::Punct(';')];
    assert_eq!(new_opc_command(&body).unwrap_err(), InvalidDeclaration::MissingName);
}

#[test]
fn flag_named_like_a_positional_is_refused() {
    let body = vec![lit("cmd"), ident("a"), brackets(vec![lit("-"), ident("a")])];
    assert_eq!(new_opc_command(&body).unwrap_err(), InvalidDeclaration::DuplicateField);
}

#[test]
fn repeated_positional_is_refused() {
    let body = vec![lit("cmd"), ident("a"), ident("b"), ident("a")];
    assert_eq!(new_opc_command(&body).unwrap_err(), InvalidDeclaration::DuplicateField);
}

#[test]
fn repeated_flag_is_refused_across_groups() {
    let body = vec![
        lit("cmd"),
        brackets(vec![lit("-"), ident("x")]),
        brackets(vec![lit("--"), ident("x")]),
    ];
    assert_eq!(new_opc_command(&body).unwrap_err(), InvalidDeclaration::DuplicateField);
    let within = vec![lit("cmd"), brackets(vec![lit("-"), ident("x"), ident("x")])];
    assert_eq!(new_opc_command(&within).unwrap_err(), InvalidDeclaration::DuplicateField);
}

#[test]
fn malformed_clause_is_reported_before_a_duplicate() {
    let body = vec![lit("cmd"), ident("a"), ident("a"), DeclToken::Punct(';')];
    assert_eq!(new_opc_command(&body).unwrap_err(), InvalidDeclaration::InvalidClause);
}

#[test]
fn declaration_errors_have_messages() {
    assert_eq!(
        InvalidDeclaration::MissingName.message(),
        "Please provide the command name as literal"
    );
    assert_eq!(InvalidDeclaration::EmptyName.message(), "Please provide a non-empty command name");
    assert_eq!(
        InvalidDeclaration::WrongDelimiter.message(),
        "Please use brackets to limit your list of arguments '[]'"
    );
    assert_eq!(
        InvalidDeclaration::MissingPrefix.message(),
        "Please provide a prefix in literal form as first argument"
    );
    assert_eq!(InvalidDeclaration::EmptyPrefix.message(), "Please provide a non-empty prefix");
    assert_eq!(
        InvalidDeclaration::InvalidFlagName.message(),
        "Please only use identifiers as argument names"
    );
    assert_eq!(
        InvalidDeclaration::InvalidClause.message(),
        "Please provide a list of arguments in brackets '[arg arg2 ...]'"
    );
    assert_eq!(
        InvalidDeclaration::DuplicateField.message(),
        "Please give every argument a name of its own"
    );
}

#[test]
fn unquoted_strips_quotation_marks_at_both_ends() {
    assert_eq!(unquoted("\"help\""), "help");
    assert_eq!(unquoted("help"), "help");
    assert_eq!(unquoted("\"\""), "");
    assert_eq!(unquoted(""), "");
    assert_eq!(unquoted("\"\"\"a\"b\"\""), "a\"b");
    assert_eq!(unquoted("\"--"), "--");
    assert_eq!(unquoted("é\""), "é");
}

#[test]
fn all_distinct_finds_a_repeated_name() {
    assert!(all_distinct(&strings(&[])));
    assert!(all_distinct(&strings(&["a"])));
    assert!(all_distinct(&strings(&["a", "b", "c"])));
    assert!(!all_distinct(&strings(&["a", "b", "a"])));
    assert!(!all_distinct(&strings(&["b", "b"])));
    assert!(all_distinct(&strings(&["a", "A"])));
}
