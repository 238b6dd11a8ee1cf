//! Command declarations: the token form in which a command is declared, and
//! the parser that turns it into a [`CommandSpec`].
//!
//! A declaration is a literal that names the command, followed by clauses. A
//! bare identifier declares a positional argument. A bracketed group declares
//! flags: its first element is a literal prefix, the others are flag names.

use crate::laws::lemma_declared_valid;
use crate::text::{
    all_distinct, ascii_lowercase, first_uppercase, unquote, unquoted, uppercase_initial,
};
use vstd::prelude::*;
use vstd::string::*;

verus! {

/// The brackets round a group of tokens.
#[derive(Clone, Copy, Debug, PartialEq, Eq, Structural)]
pub enum Delimiter {
    /// `( ... )`
    Parenthesis,
    /// `{ ... }`
    Brace,
    /// `[ ... ]`
    Bracket,
    /// No visible delimiter.
    Invisible,
}

/// One token of a declaration.
#[derive(Debug)]
pub enum DeclToken {
    /// A literal, held as it was written: a string literal keeps its
    /// quotation marks.
    Literal(String),
    /// An identifier.
    Ident(String),
    /// A single punctuation character.
    Punct(char),
    /// A delimited group and the tokens inside it.
    Group(Delimiter, Vec<DeclToken>),
}

/// Why a declaration was refused.
#[derive(Clone, Copy, Debug, PartialEq, Eq, Structural)]
pub enum InvalidDeclaration {
    /// The declaration does not start with a literal that names the command.
    MissingName,
    /// The literal that names the command is empty.
    EmptyName,
    /// A group is not delimited by square brackets.
    WrongDelimiter,
    /// A bracket group does not start with a literal prefix.
    MissingPrefix,
    /// A bracket group's prefix is the empty string.
    EmptyPrefix,
    /// An element after a group's prefix is not an identifier.
    InvalidFlagName,
    /// A clause is neither an identifier nor a group.
    InvalidClause,
    /// Two fields of the declaration share a name.
    DuplicateField,
}

impl InvalidDeclaration {
    /// The message that reports the error, as a mathematical value.
    pub open spec fn text(self) -> Seq<char> {
        match self {
            InvalidDeclaration::MissingName => "Please provide the command name as literal"@,
            InvalidDeclaration::EmptyName => "Please provide a non-empty command name"@,
            InvalidDeclaration::WrongDelimiter => {
                "Please use brackets to limit your list of arguments '[]'"@
            },
            InvalidDeclaration::MissingPrefix => {
                "Please provide a prefix in literal form as first argument"@
            },
            InvalidDeclaration::EmptyPrefix => "Please provide a non-empty prefix"@,
            InvalidDeclaration::InvalidFlagName => {
                "Please only use identifiers as argument names"@
            },
            InvalidDeclaration::InvalidClause => {
                "Please provide a list of arguments in brackets '[arg arg2 ...]'"@
            },
            InvalidDeclaration::DuplicateField => "Please give every argument a name of its own"@,
        }
    }

    /// The message that reports the error.
    pub fn message(&self) -> (message: String)
        ensures
            message@ == self.text(),
    {
        match self {
            InvalidDeclaration::MissingName => {
                String::from_str("Please provide the command name as literal")
            },
            InvalidDeclaration::EmptyName => {
                String::from_str("Please provide a non-empty command name")
            },
            InvalidDeclaration::WrongDelimiter => {
                String::from_str("Please use brackets to limit your list of arguments '[]'")
            },
            InvalidDeclaration::MissingPrefix => {
                String::from_str("Please provide a prefix in literal form as first argument")
            },
            InvalidDeclaration::EmptyPrefix => {
                String::from_str("Please provide a non-empty prefix")
            },
            InvalidDeclaration::InvalidFlagName => {
                String::from_str("Please only use identifiers as argument names")
            },
            InvalidDeclaration::InvalidClause => {
                String::from_str("Please provide a list of arguments in brackets '[arg arg2 ...]'")
            },
            InvalidDeclaration::DuplicateField => {
                String::from_str("Please give every argument a name of its own")
            },
        }
    }
}

/// The flags that share one prefix, as a mathematical value.
pub struct FlagGroupView {
    pub prefix: Seq<char>,
    pub flags: Seq<Seq<char>>,
}

/// A command's description, as a mathematical value.
pub struct CommandSpecView {
    pub name: Seq<char>,
    pub struct_name: Seq<char>,
    pub positionals: Seq<Seq<char>>,
    pub flag_groups: Seq<FlagGroupView>,
}

/// The flag names of a group.
pub open spec fn group_flags() -> spec_fn(FlagGroupView) -> Seq<Seq<char>> {
    |g: FlagGroupView| g.flags
}

/// The flag names of the groups, in declaration order.
pub open spec fn flag_names_of(groups: Seq<FlagGroupView>) -> Seq<Seq<char>> {
    groups.map_values(group_flags()).flatten()
}

impl CommandSpecView {
    /// The flag names of every group, in declaration order.
    pub open spec fn flag_names(self) -> Seq<Seq<char>> {
        flag_names_of(self.flag_groups)
    }

    /// The names of every field: the positionals, then the flags.
    pub open spec fn field_names(self) -> Seq<Seq<char>> {
        self.positionals + self.flag_names()
    }

    /// What every parsed declaration satisfies: the name and the prefixes are
    /// not empty, and no two fields share a name.
    pub open spec fn valid(self) -> bool {
        &&& self.name.len() > 0
        &&& forall|i: int|
            0 <= i < self.flag_groups.len() ==> (#[trigger] self.flag_groups[i]).prefix.len() > 0
        &&& self.field_names().no_duplicates()
    }
}

/// The flags of one command that share a prefix. A flag's token on the command
/// line is the prefix directly followed by the flag's name.
#[derive(Clone, Debug, PartialEq, Eq)]
pub struct FlagGroup {
    prefix: String,
    flags: Vec<String>,
}

impl View for FlagGroup {
    type V = FlagGroupView;

    closed spec fn view(&self) -> FlagGroupView {
        FlagGroupView { prefix: self.prefix@, flags: self.flags.deep_view() }
    }
}

impl DeepView for FlagGroup {
    type V = FlagGroupView;

    open spec fn deep_view(&self) -> FlagGroupView {
        self@
    }
}

impl FlagGroup {
    /// The prefix that the group's flags share.
    pub fn prefix(&self) -> (prefix: &String)
        ensures
            prefix@ == self@.prefix,
    {
        &self.prefix
    }

    /// The names of the group's flags, in declaration order.
    pub fn flags(&self) -> (flags: &Vec<String>)
        ensures
            flags.deep_view() == self@.flags,
    {
        &self.flags
    }
}

/// The suffix that a command's type name ends in.
pub open spec fn struct_suffix() -> Seq<char> {
    "Command"@
}

/// The type name of the command that a literal with value `value` names, given
/// the upper-case form `initial` of the value's first character.
pub open spec fn struct_name_with(initial: char, value: Seq<char>) -> Seq<char> {
    seq![initial] + value.skip(1) + struct_suffix()
}

/// The type name of the command that a literal with value `value` names.
pub open spec fn struct_name_of(value: Seq<char>) -> Seq<char> {
    struct_name_with(uppercase_initial(value[0]), value)
}

/// Selects the identifiers among tokens.
pub open spec fn is_ident() -> spec_fn(DeclToken) -> bool {
    |t: DeclToken| t is Ident
}

/// Selects the groups among tokens.
pub open spec fn is_group() -> spec_fn(DeclToken) -> bool {
    |t: DeclToken| t is Group
}

/// The text of an identifier.
pub open spec fn ident_name() -> spec_fn(DeclToken) -> Seq<char> {
    |t: DeclToken| t->Ident_0@
}

/// The flag group that a bracket group with the elements `inner` declares.
pub open spec fn group_of(inner: Seq<DeclToken>) -> FlagGroupView {
    FlagGroupView {
        prefix: unquote(inner[0]->Literal_0@),
        flags: inner.skip(1).map_values(ident_name()),
    }
}

/// The flag group that a group token declares.
pub open spec fn group_view() -> spec_fn(DeclToken) -> FlagGroupView {
    |t: DeclToken| group_of(t->Group_1@)
}

/// What is wrong with a group, if anything. The delimiter is examined first,
/// then the prefix, then the flag names.
pub open spec fn group_error(
    delimiter: Delimiter,
    inner: Seq<DeclToken>,
) -> Option<InvalidDeclaration> {
    if delimiter != Delimiter::Bracket {
        Some(InvalidDeclaration::WrongDelimiter)
    } else if inner.len() == 0 || !(inner[0] is Literal) {
        Some(InvalidDeclaration::MissingPrefix)
    } else if unquote(inner[0]->Literal_0@).len() == 0 {
        Some(InvalidDeclaration::EmptyPrefix)
    } else if exists|i: int| 1 <= i < inner.len() && !(#[trigger] inner[i] is Ident) {
        Some(InvalidDeclaration::InvalidFlagName)
    } else {
        None
    }
}

/// What is wrong with a clause, if anything.
pub open spec fn clause_error(clause: DeclToken) -> Option<InvalidDeclaration> {
    match clause {
        DeclToken::Ident(_) => None,
        DeclToken::Group(delimiter, inner) => group_error(delimiter, inner@),
        _ => Some(InvalidDeclaration::InvalidClause),
    }
}

/// The error of the first malformed clause, if there is one.
pub open spec fn first_clause_error(clauses: Seq<DeclToken>) -> Option<InvalidDeclaration>
    decreases clauses.len(),
{
    if clauses.len() == 0 {
        None
    } else if clause_error(clauses[0]) is Some {
        clause_error(clauses[0])
    } else {
        first_clause_error(clauses.skip(1))
    }
}

/// The positional names that the clauses declare, in order.
pub open spec fn positionals_of(clauses: Seq<DeclToken>) -> Seq<Seq<char>> {
    clauses.filter(is_ident()).map_values(ident_name())
}

/// The flag groups that the clauses declare, in order.
pub open spec fn flag_groups_of(clauses: Seq<DeclToken>) -> Seq<FlagGroupView> {
    clauses.filter(is_group()).map_values(group_view())
}

/// Parses the elements of a group into a flag group.
fn parse_group(delimiter: &Delimiter, inner: &Vec<DeclToken>) -> (res: Result<
    FlagGroup,
    InvalidDeclaration,
>)
    ensures
        match res {
            Ok(group) => group_error(*delimiter, inner@) is None && group@ == group_of(inner@),
            Err(e) => group_error(*delimiter, inner@) == Some(e),
        },
{
    if *delimiter != Delimiter::Bracket {
        return Err(InvalidDeclaration::WrongDelimiter);
    }
    if inner.len() == 0 {
        return Err(InvalidDeclaration::MissingPrefix);
    }
    let prefix = match &inner[0] {
        DeclToken::Literal(text) => unquoted(text.as_str()),
        _ => {
            return Err(InvalidDeclaration::MissingPrefix);
        },
    };
    if prefix.as_str().unicode_len() == 0 {
        return Err(InvalidDeclaration::EmptyPrefix);
    }
    let mut flags: Vec<String> = Vec::new();
    let mut i: usize = 1;
    while i < inner.len()
        invariant
            1 <= i <= inner.len(),
            *delimiter == Delimiter::Bracket,
            inner[0] is Literal,
            unquote(inner[0]->Literal_0@).len() > 0,
            forall|k: int| 1 <= k < i ==> #[trigger] inner[k] is Ident,
            flags.deep_view() == inner@.subrange(1, i as int).map_values(ident_name()),
        decreases inner.len() - i,
    {
        let ghost before = flags.deep_view();
        match &inner[i] {
            DeclToken::Ident(name) => {
                flags.push(name.clone());
            },
            _ => {
                return Err(InvalidDeclaration::InvalidFlagName);
            },
        }
        assert(flags.deep_view() =~= before.push(inner[i as int]->Ident_0@));
        i += 1;
    }
    Ok(FlagGroup { prefix, flags })
}

/// The positionals and the flag groups that clauses declare.
struct Clauses {
    positionals: Vec<String>,
    flag_groups: Vec<FlagGroup>,
}

/// Parses the clauses of a declaration, which start at `body[start]`: each
/// identifier becomes a positional and each bracket group a flag group, both in
/// the order in which they were written.
fn parse_fn(body: &Vec<DeclToken>, start: usize) -> (res: Result<Clauses, InvalidDeclaration>)
    requires
        start <= body.len(),
    ensures
        match res {
            Ok(clauses) => {
                &&& first_clause_error(body@.skip(start as int)) is None
                &&& clauses.positionals.deep_view() == positionals_of(body@.skip(start as int))
                &&& clauses.flag_groups.deep_view() == flag_groups_of(body@.skip(start as int))
            },
            Err(e) => first_clause_error(body@.skip(start as int)) == Some(e),
        },
{
    let mut positionals: Vec<String> = Vec::new();
    let mut flag_groups: Vec<FlagGroup> = Vec::new();
    let mut i: usize = start;
    proof {
        reveal(Seq::filter);
    }
    while i < body.len()
        invariant
            start <= i <= body.len(),
            first_clause_error(body@.skip(start as int)) == first_clause_error(
                body@.skip(i as int),
            ),
            positionals.deep_view() == positionals_of(body@.subrange(start as int, i as int)),
            flag_groups.deep_view() == flag_groups_of(body@.subrange(start as int, i as int)),
        decreases body.len() - i,
    {
        let ghost seen = body@.subrange(start as int, i as int);
        let ghost names = positionals.deep_view();
        let ghost groups = flag_groups.deep_view();
        proof {
            assert(body@.skip(i as int).skip(1) =~= body@.skip(i + 1));
            assert(body@.subrange(start as int, i + 1) =~= seen.push(body[i as int]));
        }
        match &body[i] {
            DeclToken::Ident(name) => {
                positionals.push(name.clone());
                assert(positionals.deep_view() =~= names.push(body[i as int]->Ident_0@));
            },
            DeclToken::Group(delimiter, inner) => {
                match parse_group(delimiter, inner) {
                    Ok(group) => {
                        flag_groups.push(group);
                        assert(flag_groups.deep_view() =~= groups.push(group_of(inner@)));
                    },
                    Err(e) => {
                        return Err(e);
                    },
                }
            },
            _ => {
                return Err(InvalidDeclaration::InvalidClause);
            },
        }
        proof {
            let t = body[i as int];
            seen.lemma_filter_push(t, is_ident());
            seen.lemma_filter_push(t, is_group());
        }
        i += 1;
    }
    Ok(Clauses { positionals, flag_groups })
}

/// The immutable description of one command: its keyword, the name of its
/// record type, its positionals in the order in which they must appear on the
/// command line, and its flag groups. Every value is valid: it can only be
/// made by parsing a declaration.
#[derive(Debug, PartialEq, Eq)]
pub struct CommandSpec {
    name: String,
    struct_name: String,
    positionals: Vec<String>,
    flag_groups: Vec<FlagGroup>,
}

impl View for CommandSpec {
    type V = CommandSpecView;

    closed spec fn view(&self) -> CommandSpecView {
        CommandSpecView {
            name: self.name@,
            struct_name: self.struct_name@,
            positionals: self.positionals.deep_view(),
            flag_groups: self.flag_groups.deep_view(),
        }
    }
}

impl CommandSpec {
    /// What holds of every description: it is valid.
    #[verifier::type_invariant]
    pub open spec fn well_formed(self) -> bool {
        self@.valid()
    }

    /// The command's keyword, in lower case.
    pub fn name(&self) -> (name: &String)
        ensures
            name@ == self@.name,
    {
        &self.name
    }

    /// The name of the command's record type.
    pub fn struct_name(&self) -> (name: &String)
        ensures
            name@ == self@.struct_name,
    {
        &self.struct_name
    }

    /// The names of the positionals, in declaration order.
    pub fn positionals(&self) -> (names: &Vec<String>)
        ensures
            names.deep_view() == self@.positionals,
    {
        &self.positionals
    }

    /// The flag groups, in declaration order.
    pub fn flag_groups(&self) -> (groups: &Vec<FlagGroup>)
        ensures
            groups.deep_view() == self@.flag_groups,
    {
        &self.flag_groups
    }
}

/// What is wrong with the token that names the command, if anything.
pub open spec fn name_error(body: Seq<DeclToken>) -> Option<InvalidDeclaration> {
    if body.len() == 0 || !(body[0] is Literal) {
        Some(InvalidDeclaration::MissingName)
    } else if unquote(body[0]->Literal_0@).len() == 0 {
        Some(InvalidDeclaration::EmptyName)
    } else {
        None
    }
}

/// The command that a well-formed declaration describes.
pub open spec fn declared(body: Seq<DeclToken>) -> CommandSpecView {
    CommandSpecView {
        name: ascii_lowercase(unquote(body[0]->Literal_0@)),
        struct_name: struct_name_of(unquote(body[0]->Literal_0@)),
        positionals: positionals_of(body.skip(1)),
        flag_groups: flag_groups_of(body.skip(1)),
    }
}

/// Why a declaration is refused, if it is. The name is examined first, then
/// the clauses from left to right, and last whether two fields share a name.
pub open spec fn declaration_error(body: Seq<DeclToken>) -> Option<InvalidDeclaration> {
    if name_error(body) is Some {
        name_error(body)
    } else if first_clause_error(body.skip(1)) is Some {
        first_clause_error(body.skip(1))
    } else if !declared(body).field_names().no_duplicates() {
        Some(InvalidDeclaration::DuplicateField)
    } else {
        None
    }
}

/// Builds the name of a command's record type from the value of the literal
/// that names the command and the upper-case form of its first character.
pub fn struct_name_from(initial: char, value: &str) -> (name: String)
    requires
        value@.len() > 0,
    ensures
        name@ == struct_name_with(initial, value@),
{
    let mut name = String::new();
    name.push(initial);
    let n: usize = value.unicode_len();
    name.append(value.substring_char(1, n));
    name.append("Command");
    name
}

/// Collects the field names of a declaration: the positionals, then the flags
/// of each group.
fn field_names(positionals: &Vec<String>, flag_groups: &Vec<FlagGroup>) -> (names: Vec<String>)
    ensures
        names.deep_view() == positionals.deep_view() + flag_names_of(flag_groups.deep_view()),
{
    let mut names: Vec<String> = Vec::new();
    let mut i: usize = 0;
    while i < positionals.len()
        invariant
            i <= positionals.len(),
            names.deep_view() == positionals.deep_view().take(i as int),
        decreases positionals.len() - i,
    {
        let ghost before = names.deep_view();
        names.push(positionals[i].clone());
        assert(names.deep_view() =~= before.push(positionals[i as int]@));
        i += 1;
    }
    let mut g: usize = 0;
    while g < flag_groups.len()
        invariant
            g <= flag_groups.len(),
            names.deep_view() == positionals.deep_view() + flag_names_of(
                flag_groups.deep_view().take(g as int),
            ),
        decreases flag_groups.len() - g,
    {
        let group = &flag_groups[g];
        let ghost start = names.deep_view();
        let mut f: usize = 0;
        while f < group.flags.len()
            invariant
                f <= group.flags.len(),
                names.deep_view() == start + group.flags.deep_view().take(f as int),
            decreases group.flags.len() - f,
        {
            let ghost before = names.deep_view();
            names.push(group.flags[f].clone());
            assert(names.deep_view() =~= before.push(group.flags[f as int]@));
            f += 1;
        }
        proof {
            let done = flag_groups.deep_view().take(g as int).map_values(group_flags());
            assert(flag_groups.deep_view().take(g + 1).map_values(group_flags()) =~= done.push(
                group@.flags,
            ));
            done.lemma_flatten_push(group@.flags);
        }
        g += 1;
    }
    assert(flag_groups.deep_view().take(g as int) =~= flag_groups.deep_view());
    names
}

/// Parses a declaration: a literal that names the command, followed by its
/// clauses. The keyword is the literal's value in ASCII lower case.
pub fn new_opc_command(body: &Vec<DeclToken>) -> (res: Result<CommandSpec, InvalidDeclaration>)
    ensures
        match res {
            Ok(spec) => {
                &&& declaration_error(body@) is None
                &&& spec@ == declared(body@)
                &&& spec@.valid()
            },
            Err(e) => declaration_error(body@) == Some(e),
        },
{
    if body.len() == 0 {
        return Err(InvalidDeclaration::MissingName);
    }
    let value = match &body[0] {
        DeclToken::Literal(text) => unquoted(text.as_str()),
        _ => {
            return Err(InvalidDeclaration::MissingName);
        },
    };
    if value.as_str().unicode_len() == 0 {
        return Err(InvalidDeclaration::EmptyName);
    }
    let clauses = match parse_fn(body, 1) {
        Ok(clauses) => clauses,
        Err(e) => {
            return Err(e);
        },
    };
    let names = field_names(&clauses.positionals, &clauses.flag_groups);
    if !all_distinct(&names) {
        return Err(InvalidDeclaration::DuplicateField);
    }
    let initial = first_uppercase(value.as_str().get_char(0));
    let struct_name = struct_name_from(initial, value.as_str());
    let name = value.as_str().to_ascii_lowercase();
    proof {
        lemma_declared_valid(body@);
    }
    Ok(
        CommandSpec {
            name,
            struct_name,
            positionals: clauses.positionals,
            flag_groups: clauses.flag_groups,
        },
    )
}

} // verus!
