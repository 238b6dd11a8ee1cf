//! The record that a successfully parsed invocation fills: one string value
//! for each positional and one boolean for each flag.

use vstd::prelude::*;
use vstd::string::*;

verus! {

/// A filled positional field, as a mathematical value.
pub struct TextValueView {
    pub name: Seq<char>,
    pub value: Seq<char>,
}

/// A filled flag field, as a mathematical value.
pub struct FlagValueView {
    pub name: Seq<char>,
    pub set: bool,
}

/// A filled record, as a mathematical value.
pub struct CommandRecordView {
    pub positionals: Seq<TextValueView>,
    pub flags: Seq<FlagValueView>,
}

/// The value of the first positional field called `name`, if there is one.
pub open spec fn text_of(fields: Seq<TextValueView>, name: Seq<char>) -> Option<Seq<char>>
    decreases fields.len(),
{
    if fields.len() == 0 {
        None
    } else if fields[0].name == name {
        Some(fields[0].value)
    } else {
        text_of(fields.skip(1), name)
    }
}

/// The value of the first flag field called `name`, if there is one.
pub open spec fn flag_of(fields: Seq<FlagValueView>, name: Seq<char>) -> Option<bool>
    decreases fields.len(),
{
    if fields.len() == 0 {
        None
    } else if fields[0].name == name {
        Some(fields[0].set)
    } else {
        flag_of(fields.skip(1), name)
    }
}

/// The name of a positional field.
pub open spec fn text_name() -> spec_fn(TextValueView) -> Seq<char> {
    |f: TextValueView| f.name
}

/// The name of a flag field.
pub open spec fn flag_value_name() -> spec_fn(FlagValueView) -> Seq<char> {
    |f: FlagValueView| f.name
}

impl CommandRecordView {
    /// The value of the positional field called `name`.
    pub open spec fn text(self, name: Seq<char>) -> Option<Seq<char>> {
        text_of(self.positionals, name)
    }

    /// The value of the flag field called `name`.
    pub open spec fn flag(self, name: Seq<char>) -> Option<bool> {
        flag_of(self.flags, name)
    }

    /// The names of every field: the positionals, then the flags.
    pub open spec fn field_names(self) -> Seq<Seq<char>> {
        self.positionals.map_values(text_name()) + self.flags.map_values(flag_value_name())
    }
}

/// A positional field and its value.
#[derive(Clone, Debug, PartialEq, Eq)]
pub struct TextValue {
    name: String,
    value: String,
}

impl View for TextValue {
    type V = TextValueView;

    closed spec fn view(&self) -> TextValueView {
        TextValueView { name: self.name@, value: self.value@ }
    }
}

impl DeepView for TextValue {
    type V = TextValueView;

    open spec fn deep_view(&self) -> TextValueView {
        self@
    }
}

impl TextValue {
    /// A positional field called `name` that holds `value`.
    pub(crate) fn new(name: String, value: String) -> (field: TextValue)
        ensures
            field@ == (TextValueView { name: name@, value: value@ }),
    {
        TextValue { name, value }
    }

    /// The field's name.
    pub fn name(&self) -> (name: &String)
        ensures
            name@ == self@.name,
    {
        &self.name
    }

    /// The field's value.
    pub fn value(&self) -> (value: &String)
        ensures
            value@ == self@.value,
    {
        &self.value
    }
}

/// A flag field and whether it is set.
#[derive(Clone, Debug, PartialEq, Eq)]
pub struct FlagValue {
    name: String,
    set: bool,
}

impl View for FlagValue {
    type V = FlagValueView;

    closed spec fn view(&self) -> FlagValueView {
        FlagValueView { name: self.name@, set: self.set }
    }
}

impl DeepView for FlagValue {
    type V = FlagValueView;

    open spec fn deep_view(&self) -> FlagValueView {
        self@
    }
}

impl FlagValue {
    /// A flag field called `name` that is set or not.
    pub(crate) fn new(name: String, set: bool) -> (field: FlagValue)
        ensures
            field@ == (FlagValueView { name: name@, set }),
    {
        FlagValue { name, set }
    }

    /// The field's name.
    pub fn name(&self) -> (name: &String)
        ensures
            name@ == self@.name,
    {
        &self.name
    }

    /// Whether the flag is set.
    pub fn is_set(&self) -> (set: bool)
        ensures
            set == self@.set,
    {
        self.set
    }
}

/// The record of one parsed invocation.
#[derive(Clone, Debug, PartialEq, Eq)]
pub struct CommandRecord {
    positionals: Vec<TextValue>,
    flags: Vec<FlagValue>,
}

impl View for CommandRecord {
    type V = CommandRecordView;

    closed spec fn view(&self) -> CommandRecordView {
        CommandRecordView {
            positionals: self.positionals.deep_view(),
            flags: self.flags.deep_view(),
        }
    }
}

impl CommandRecord {
    /// The record with the given fields.
    pub(crate) fn new(positionals: Vec<TextValue>, flags: Vec<FlagValue>) -> (record: CommandRecord)
        ensures
            record@ == (CommandRecordView {
                positionals: positionals.deep_view(),
                flags: flags.deep_view(),
            }),
    {
        CommandRecord { positionals, flags }
    }

    /// The positional fields, in declaration order.
    pub fn positionals(&self) -> (fields: &Vec<TextValue>)
        ensures
            fields.deep_view() == self@.positionals,
    {
        &self.positionals
    }

    /// The flag fields, in declaration order.
    pub fn flags(&self) -> (fields: &Vec<FlagValue>)
        ensures
            fields.deep_view() == self@.flags,
    {
        &self.flags
    }

    /// The value of the positional field called `name`, or `None` where the
    /// record has no such field.
    pub fn get(&self, name: &str) -> (value: Option<&String>)
        ensures
            match value {
                Some(text) => self@.text(name@) == Some(text@),
                None => self@.text(name@) is None,
            },
    {
        let wanted = String::from_str(name);
        let mut i: usize = 0;
        assert(self@.positionals.skip(0) =~= self@.positionals);
        while i < self.positionals.len()
            invariant
                i <= self.positionals.len(),
                wanted@ == name@,
                self@.text(name@) == text_of(self@.positionals.skip(i as int), name@),
            decreases self.positionals.len() - i,
        {
            assert(self@.positionals.skip(i as int).skip(1) =~= self@.positionals.skip(i + 1));
            if self.positionals[i].name == wanted {
                return Some(&self.positionals[i].value);
            }
            i += 1;
        }
        None
    }

    /// Whether the flag field called `name` is set, or `None` where the record
    /// has no such field.
    pub fn flag(&self, name: &str) -> (set: Option<bool>)
        ensures
            set == self@.flag(name@),
    {
        let wanted = String::from_str(name);
        let mut i: usize = 0;
        assert(self@.flags.skip(0) =~= self@.flags);
        while i < self.flags.len()
            invariant
                i <= self.flags.len(),
                wanted@ == name@,
                self@.flag(name@) == flag_of(self@.flags.skip(i as int), name@),
            decreases self.flags.len() - i,
        {
            assert(self@.flags.skip(i as int).skip(1) =~= self@.flags.skip(i + 1));
            if self.flags[i].name == wanted {
                return Some(self.flags[i].set);
            }
            i += 1;
        }
        None
    }
}

} // verus!
