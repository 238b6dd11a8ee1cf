//! The record compiler: turns a [`CommandSpec`] into the shape of the record
//! that an invocation of the command fills.

use crate::decl::{CommandSpec, CommandSpecView, FlagGroupView};
use crate::laws::lemma_compiled_fields;
use crate::text::ascii_lowercase;
use vstd::prelude::*;

verus! {

/// A flag field of a record shape, as a mathematical value.
pub struct FlagFieldView {
    pub name: Seq<char>,
    pub prefix: Seq<char>,
}

impl FlagFieldView {
    /// The token that sets the flag on the command line: the prefix directly
    /// followed by the name.
    pub open spec fn token(self) -> Seq<char> {
        self.prefix + self.name
    }
}

/// A record shape, as a mathematical value.
pub struct CommandShapeView {
    pub keyword: Seq<char>,
    pub positionals: Seq<Seq<char>>,
    pub flags: Seq<FlagFieldView>,
}

/// The name of a flag field.
pub open spec fn flag_name() -> spec_fn(FlagFieldView) -> Seq<char> {
    |f: FlagFieldView| f.name
}

impl CommandShapeView {
    /// The names of the flag fields, in order.
    pub open spec fn flag_names(self) -> Seq<Seq<char>> {
        self.flags.map_values(flag_name())
    }

    /// The names of every field: the positionals, then the flags.
    pub open spec fn field_names(self) -> Seq<Seq<char>> {
        self.positionals + self.flag_names()
    }
}

/// The flag fields that one group contributes: one for each of its flags,
/// tagged with the group's prefix.
pub open spec fn group_fields() -> spec_fn(FlagGroupView) -> Seq<FlagFieldView> {
    |g: FlagGroupView|
        Seq::new(g.flags.len(), |i: int| FlagFieldView { name: g.flags[i], prefix: g.prefix })
}

/// The flag fields of the groups, in declaration order.
pub open spec fn flag_fields_of(groups: Seq<FlagGroupView>) -> Seq<FlagFieldView> {
    groups.map_values(group_fields()).flatten()
}

/// The record shape that a command description compiles to.
pub open spec fn compiled(spec: CommandSpecView) -> CommandShapeView {
    CommandShapeView {
        keyword: ascii_lowercase(spec.name),
        positionals: spec.positionals,
        flags: flag_fields_of(spec.flag_groups),
    }
}

/// A boolean field of a record shape, tagged with the prefix of the group
/// that declared it.
#[derive(Clone, Debug, PartialEq, Eq)]
pub struct FlagField {
    name: String,
    prefix: String,
}

impl View for FlagField {
    type V = FlagFieldView;

    closed spec fn view(&self) -> FlagFieldView {
        FlagFieldView { name: self.name@, prefix: self.prefix@ }
    }
}

impl DeepView for FlagField {
    type V = FlagFieldView;

    open spec fn deep_view(&self) -> FlagFieldView {
        self@
    }
}

impl FlagField {
    /// The field's name.
    pub fn name(&self) -> (name: &String)
        ensures
            name@ == self@.name,
    {
        &self.name
    }

    /// The prefix of the group that declared the field.
    pub fn prefix(&self) -> (prefix: &String)
        ensures
            prefix@ == self@.prefix,
    {
        &self.prefix
    }
}

/// The compiled shape of a command's record: the keyword that an invocation
/// must start with, one string field for each positional, and one boolean
/// field for each flag. No two fields share a name.
#[derive(Debug, PartialEq, Eq)]
pub struct CommandShape {
    keyword: String,
    positionals: Vec<String>,
    flags: Vec<FlagField>,
}

impl View for CommandShape {
    type V = CommandShapeView;

    closed spec fn view(&self) -> CommandShapeView {
        CommandShapeView {
            keyword: self.keyword@,
            positionals: self.positionals.deep_view(),
            flags: self.flags.deep_view(),
        }
    }
}

impl CommandShape {
    /// What holds of every shape: no two of its fields share a name.
    #[verifier::type_invariant]
    pub open spec fn well_formed(self) -> bool {
        self@.field_names().no_duplicates()
    }

    /// The keyword that an invocation of the command starts with.
    pub fn keyword(&self) -> (keyword: &String)
        ensures
            keyword@ == self@.keyword,
    {
        &self.keyword
    }

    /// The names of the positional fields, in the order in which their values
    /// appear on the command line.
    pub fn positionals(&self) -> (names: &Vec<String>)
        ensures
            names.deep_view() == self@.positionals,
    {
        &self.positionals
    }

    /// The flag fields, in declaration order.
    pub fn flags(&self) -> (flags: &Vec<FlagField>)
        ensures
            flags.deep_view() == self@.flags,
    {
        &self.flags
    }
}

/// Compiles a command description into its record shape. The keyword is the
/// description's name in ASCII lower case. The shape has a field for each
/// positional and each flag of the description, and no two of the same name.
pub fn sopc_derive(input: &CommandSpec) -> (shape: CommandShape)
    ensures
        shape@ == compiled(input@),
        shape@.field_names() == input@.field_names(),
        shape@.field_names().no_duplicates(),
{
    proof {
        use_type_invariant(input);
        lemma_compiled_fields(input@);
    }
    let keyword = input.name().as_str().to_ascii_lowercase();
    let names = input.positionals();
    let mut positionals: Vec<String> = Vec::new();
    let mut i: usize = 0;
    while i < names.len()
        invariant
            i <= names.len(),
            positionals.deep_view() == names.deep_view().take(i as int),
        decreases names.len() - i,
    {
        let ghost before = positionals.deep_view();
        positionals.push(names[i].clone());
        assert(positionals.deep_view() =~= before.push(names[i as int]@));
        i += 1;
    }
    assert(names.deep_view().take(i as int) =~= names.deep_view());
    let groups = input.flag_groups();
    let mut flags: Vec<FlagField> = Vec::new();
    let mut g: usize = 0;
    while g < groups.len()
        invariant
            g <= groups.len(),
            flags.deep_view() == flag_fields_of(groups.deep_view().take(g as int)),
        decreases groups.len() - g,
    {
        let group = &groups[g];
        let ghost start = flags.deep_view();
        let ghost fields = group_fields()(group@);
        let prefix = group.prefix();
        let group_flags = group.flags();
        let mut f: usize = 0;
        while f < group_flags.len()
            invariant
                f <= group_flags.len(),
                prefix@ == group@.prefix,
                group_flags.deep_view() == group@.flags,
                fields == group_fields()(group@),
                flags.deep_view() == start + fields.take(f as int),
            decreases group_flags.len() - f,
        {
            let ghost before = flags.deep_view();
            flags.push(FlagField { name: group_flags[f].clone(), prefix: prefix.clone() });
            assert(flags.deep_view() =~= before.push(fields[f as int]));
            f += 1;
        }
        proof {
            let done = groups.deep_view().take(g as int).map_values(group_fields());
            assert(groups.deep_view().take(g + 1).map_values(group_fields()) =~= done.push(fields));
            done.lemma_flatten_push(fields);
        }
        g += 1;
    }
    assert(groups.deep_view().take(g as int) =~= groups.deep_view());
    CommandShape { keyword, positionals, flags }
}

} // verus!
