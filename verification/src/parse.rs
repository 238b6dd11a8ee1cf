//! The invocation parser: validates a raw token list against a record shape
//! and fills the record.
//!
//! The steps come in a fixed order. The tokens are counted before the keyword
//! is looked at, so an invocation that is too short is an error of this
//! command even where the keyword belongs to another. Then the keyword is
//! matched, the positionals are consumed in declaration order, and every
//! token that is left must be the token of a flag.

use crate::record::{
    CommandRecord, CommandRecordView, FlagValue, FlagValueView, TextValue, TextValueView,
};
use crate::shape::{CommandShape, CommandShapeView, FlagField};
use crate::text::is_ascii_letter;
use vstd::prelude::*;
use vstd::string::*;

verus! {

/// Why an invocation was refused, as a mathematical value.
pub enum ParseErrorView {
    Arity,
    Positional,
    UnknownFlag(Seq<char>),
}

impl ParseErrorView {
    /// The message that reports the error.
    pub open spec fn message(self) -> Seq<char> {
        match self {
            ParseErrorView::Arity => "missing argument"@,
            ParseErrorView::Positional => "missing or invalid argument"@,
            ParseErrorView::UnknownFlag(token) => "Unknown optional value: "@ + token,
        }
    }
}

/// Why an invocation was refused.
#[derive(Clone, Debug, PartialEq, Eq)]
pub enum ParseError {
    /// There are fewer tokens than the keyword and the positionals need.
    Arity,
    /// The token in a positional's place is empty or does not start with an
    /// ASCII letter.
    Positional,
    /// A token after the positionals is the token of no flag.
    UnknownFlag(String),
}

impl View for ParseError {
    type V = ParseErrorView;

    open spec fn view(&self) -> ParseErrorView {
        match self {
            ParseError::Arity => ParseErrorView::Arity,
            ParseError::Positional => ParseErrorView::Positional,
            ParseError::UnknownFlag(token) => ParseErrorView::UnknownFlag(token@),
        }
    }
}

impl ParseError {
    /// The message that reports the error.
    pub fn message(&self) -> (message: String)
        ensures
            message@ == self@.message(),
    {
        match self {
            ParseError::Arity => String::from_str("missing argument"),
            ParseError::Positional => String::from_str("missing or invalid argument"),
            ParseError::UnknownFlag(token) => {
                String::from_str("Unknown optional value: ").concat(token.as_str())
            },
        }
    }
}

/// The result of parsing an invocation, as a mathematical value.
pub enum ParseOutcomeView {
    NotThisCommand,
    Error(ParseErrorView),
    Parsed(CommandRecordView),
}

/// The result of parsing an invocation against one command.
#[derive(Clone, Debug, PartialEq, Eq)]
pub enum ParseOutcome {
    /// The first token is not this command's keyword: another command may be
    /// tried.
    NotThisCommand,
    /// The invocation is malformed.
    Error(ParseError),
    /// The filled record.
    Parsed(CommandRecord),
}

impl View for ParseOutcome {
    type V = ParseOutcomeView;

    open spec fn view(&self) -> ParseOutcomeView {
        match self {
            ParseOutcome::NotThisCommand => ParseOutcomeView::NotThisCommand,
            ParseOutcome::Error(e) => ParseOutcomeView::Error(e@),
            ParseOutcome::Parsed(record) => ParseOutcomeView::Parsed(record@),
        }
    }
}

/// Whether a token may stand in a positional's place: it is not empty and
/// starts with an ASCII letter.
pub open spec fn valid_positional(token: Seq<char>) -> bool {
    token.len() > 0 && is_ascii_letter(token[0])
}

impl CommandShapeView {
    /// The number of positionals.
    pub open spec fn arity(self) -> nat {
        self.positionals.len()
    }

    /// Whether `token` is the token of flag `k` and of no flag before it.
    pub open spec fn claims(self, k: int, token: Seq<char>) -> bool {
        &&& 0 <= k < self.flags.len()
        &&& self.flags[k].token() == token
        &&& forall|j: int| 0 <= j < k ==> (#[trigger] self.flags[j]).token() != token
    }

    /// Whether `token` is the token of some flag.
    pub open spec fn knows(self, token: Seq<char>) -> bool {
        exists|k: int| 0 <= k < self.flags.len() && (#[trigger] self.flags[k]).token() == token
    }

    /// Whether one of the tokens `rest` sets flag `k`.
    pub open spec fn flag_set(self, k: int, rest: Seq<Seq<char>>) -> bool {
        exists|i: int| 0 <= i < rest.len() && self.claims(k, #[trigger] rest[i])
    }

    /// The first of the tokens `rest` that is the token of no flag.
    pub open spec fn first_unknown(self, rest: Seq<Seq<char>>) -> Option<Seq<char>>
        decreases rest.len(),
    {
        if rest.len() == 0 {
            None
        } else if !self.knows(rest[0]) {
            Some(rest[0])
        } else {
            self.first_unknown(rest.skip(1))
        }
    }

    /// The tokens that follow the keyword and the positionals.
    pub open spec fn flag_part(self, tokens: Seq<Seq<char>>) -> Seq<Seq<char>> {
        tokens.skip(self.arity() as int + 1)
    }

    /// The record without values: every positional empty, every flag unset.
    pub open spec fn blank(self) -> CommandRecordView {
        CommandRecordView {
            positionals: Seq::new(
                self.positionals.len(),
                |i: int| TextValueView { name: self.positionals[i], value: Seq::empty() },
            ),
            flags: Seq::new(
                self.flags.len(),
                |k: int| FlagValueView { name: self.flags[k].name, set: false },
            ),
        }
    }

    /// The record that a well-formed invocation fills: positional `i` holds
    /// token `i + 1`, and a flag is set where one of the remaining tokens is
    /// its token.
    pub open spec fn filled(self, tokens: Seq<Seq<char>>) -> CommandRecordView {
        CommandRecordView {
            positionals: Seq::new(
                self.positionals.len(),
                |i: int| TextValueView { name: self.positionals[i], value: tokens[i + 1] },
            ),
            flags: Seq::new(
                self.flags.len(),
                |k: int|
                    FlagValueView {
                        name: self.flags[k].name,
                        set: self.flag_set(k, self.flag_part(tokens)),
                    },
            ),
        }
    }

    /// The outcome of parsing `tokens` against this shape.
    pub open spec fn parse(self, tokens: Seq<Seq<char>>) -> ParseOutcomeView {
        if tokens.len() < self.arity() + 1 {
            ParseOutcomeView::Error(ParseErrorView::Arity)
        } else if tokens[0] != self.keyword {
            ParseOutcomeView::NotThisCommand
        } else if exists|i: int|
            0 <= i < self.arity() && !valid_positional(#[trigger] tokens[i + 1]) {
            ParseOutcomeView::Error(ParseErrorView::Positional)
        } else {
            match self.first_unknown(self.flag_part(tokens)) {
                Some(token) => ParseOutcomeView::Error(ParseErrorView::UnknownFlag(token)),
                None => ParseOutcomeView::Parsed(self.filled(tokens)),
            }
        }
    }
}

/// Whether a token may stand in a positional's place.
pub fn is_valid_positional(token: &str) -> (valid: bool)
    ensures
        valid == valid_positional(token@),
{
    token.unicode_len() > 0 && token.get_char(0).is_ascii_alphabetic()
}

impl CommandShape {
    /// The record without values: every positional empty, every flag unset.
    pub fn blank(&self) -> (record: CommandRecord)
        ensures
            record@ == self@.blank(),
    {
        let names = self.positionals();
        let mut positionals: Vec<TextValue> = Vec::new();
        let mut i: usize = 0;
        while i < names.len()
            invariant
                i <= names.len(),
                names.deep_view() == self@.positionals,
                positionals.deep_view() == self@.blank().positionals.take(i as int),
            decreases names.len() - i,
        {
            let ghost before = positionals.deep_view();
            positionals.push(TextValue::new(names[i].clone(), String::new()));
            assert(positionals.deep_view() =~= before.push(self@.blank().positionals[i as int]));
            i += 1;
        }
        assert(positionals.deep_view() =~= self@.blank().positionals);
        let fields = self.flags();
        let mut flags: Vec<FlagValue> = Vec::new();
        let mut k: usize = 0;
        while k < fields.len()
            invariant
                k <= fields.len(),
                fields.deep_view() == self@.flags,
                flags.deep_view() == self@.blank().flags.take(k as int),
            decreases fields.len() - k,
        {
            let ghost before = flags.deep_view();
            flags.push(FlagValue::new(fields[k].name().clone(), false));
            assert(flags.deep_view() =~= before.push(self@.blank().flags[k as int]));
            k += 1;
        }
        assert(flags.deep_view() =~= self@.blank().flags);
        CommandRecord::new(positionals, flags)
    }

    /// The first flag whose token is `token`, if there is one.
    pub fn find_flag(&self, token: &String) -> (found: Option<usize>)
        ensures
            match found {
                Some(k) => self@.claims(k as int, token@),
                None => !self@.knows(token@),
            },
    {
        let fields = self.flags();
        let mut k: usize = 0;
        while k < fields.len()
            invariant
                k <= fields.len(),
                fields.deep_view() == self@.flags,
                forall|j: int| 0 <= j < k ==> (#[trigger] self@.flags[j]).token() != token@,
            decreases fields.len() - k,
        {
            let field: &FlagField = &fields[k];
            let wire = field.prefix().clone().concat(field.name().as_str());
            if wire == *token {
                return Some(k);
            }
            k += 1;
        }
        None
    }

    /// Parses one invocation: the keyword, then a value for each positional in
    /// declaration order, then flag tokens in any order.
    pub fn parse(&self, args: &Vec<String>) -> (out: ParseOutcome)
        ensures
            out@ == self@.parse(args.deep_view()),
    {
        let ghost tokens = args.deep_view();
        let names = self.positionals();
        let n: usize = names.len();
        if args.len() <= n {
            return ParseOutcome::Error(ParseError::Arity);
        }
        if args[0] != *self.keyword() {
            return ParseOutcome::NotThisCommand;
        }
        let mut positionals: Vec<TextValue> = Vec::new();
        let mut i: usize = 0;
        while i < n
            invariant
                i <= n,
                n == names.len(),
                n < args.len(),
                tokens == args.deep_view(),
                tokens[0] == self@.keyword,
                names.deep_view() == self@.positionals,
                forall|k: int| 0 <= k < i ==> valid_positional(#[trigger] tokens[k + 1]),
                positionals.deep_view() == self@.filled(tokens).positionals.take(i as int),
            decreases n - i,
        {
            let token = &args[i + 1];
            assert(tokens[i + 1] == token@);
            if !is_valid_positional(token.as_str()) {
                return ParseOutcome::Error(ParseError::Positional);
            }
            let ghost before = positionals.deep_view();
            positionals.push(TextValue::new(names[i].clone(), token.clone()));
            assert(positionals.deep_view() =~= before.push(
                self@.filled(tokens).positionals[i as int],
            ));
            i += 1;
        }
        assert(positionals.deep_view() =~= self@.filled(tokens).positionals);
        let ghost rest = self@.flag_part(tokens);
        let fields = self.flags();
        let mut set: Vec<bool> = Vec::new();
        let mut k: usize = 0;
        while k < fields.len()
            invariant
                k <= fields.len(),
                set.len() == k,
                forall|j: int| 0 <= j < k ==> !set[j],
            decreases fields.len() - k,
        {
            set.push(false);
            k += 1;
        }
        let mut j: usize = n + 1;
        assert(rest.skip(0) =~= rest);
        while j < args.len()
            invariant
                n + 1 <= j <= args.len(),
                n == self@.arity(),
                tokens == args.deep_view(),
                tokens[0] == self@.keyword,
                forall|k: int| 0 <= k < n ==> valid_positional(#[trigger] tokens[k + 1]),
                rest == self@.flag_part(tokens),
                fields.deep_view() == self@.flags,
                set.len() == fields.len(),
                self@.first_unknown(rest) == self@.first_unknown(rest.skip(j - n - 1)),
                forall|k: int|
                    0 <= k < set.len() ==> set[k] == self@.flag_set(k, rest.take(j - n - 1)),
            decreases args.len() - j,
        {
            let token = &args[j];
            let ghost m = j - n - 1;
            assert(rest.skip(m).skip(1) =~= rest.skip(m + 1));
            match self.find_flag(token) {
                Some(hit) => {
                    set.set(hit, true);
                    assert forall|k: int| 0 <= k < set.len() implies set[k] == self@.flag_set(
                        k,
                        rest.take(m + 1),
                    ) by {
                        if self@.flag_set(k, rest.take(m)) {
                            let w = choose|w: int|
                                0 <= w < rest.take(m).len() && self@.claims(
                                    k,
                                    #[trigger] rest.take(m)[w],
                                );
                            assert(rest.take(m + 1)[w] == rest.take(m)[w]);
                        }
                        if k == hit {
                            assert(rest.take(m + 1)[m] == token@);
                        }
                        if self@.flag_set(k, rest.take(m + 1)) {
                            let w = choose|w: int|
                                0 <= w < rest.take(m + 1).len() && self@.claims(
                                    k,
                                    #[trigger] rest.take(m + 1)[w],
                                );
                            if w < m {
                                assert(rest.take(m)[w] == rest.take(m + 1)[w]);
                            } else {
                                assert(self@.claims(k, token@));
                            }
                        }
                    }
                },
                None => {
                    return ParseOutcome::Error(ParseError::UnknownFlag(token.clone()));
                },
            }
            j += 1;
        }
        let mut flags: Vec<FlagValue> = Vec::new();
        let mut k: usize = 0;
        while k < fields.len()
            invariant
                k <= fields.len(),
                set.len() == fields.len(),
                fields.deep_view() == self@.flags,
                rest == self@.flag_part(tokens),
                forall|k: int| 0 <= k < set.len() ==> set[k] == self@.flag_set(k, rest),
                flags.deep_view() == self@.filled(tokens).flags.take(k as int),
            decreases fields.len() - k,
        {
            let ghost before = flags.deep_view();
            flags.push(FlagValue::new(fields[k].name().clone(), set[k]));
            assert(flags.deep_view() =~= before.push(self@.filled(tokens).flags[k as int]));
            k += 1;
        }
        assert(flags.deep_view() =~= self@.filled(tokens).flags);
        ParseOutcome::Parsed(CommandRecord::new(positionals, flags))
    }
}

} // verus!
