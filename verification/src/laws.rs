//! Laws that relate the declaration parser, the record compiler, the
//! invocation parser and the dispatcher to one another.

use crate::decl::{
    clause_error, declaration_error, declared, first_clause_error, flag_groups_of, flag_names_of,
    group_flags, is_group, CommandSpecView, DeclToken, FlagGroupView,
};
use crate::dispatch::{
    banner, help_keyword, help_shape, join_lines, listing_header, DispatchView, DispatcherView,
};
use crate::parse::{valid_positional, ParseErrorView, ParseOutcomeView};
use crate::record::{flag_of, text_of, FlagValueView, TextValueView};
use crate::shape::{compiled, flag_fields_of, flag_name, group_fields, CommandShapeView};
use crate::text::{ascii_lowercase, unquote};
use vstd::multiset::{group_multiset_axioms, Multiset};
use vstd::prelude::*;
use vstd::seq_lib::{
    lemma_multiset_commutative, seq_to_set_distributes_over_add, to_multiset_build,
    to_multiset_contains, to_multiset_len,
};

verus! {

/// Lower-casing a second time changes nothing.
pub proof fn lemma_lowercase_idempotent(s: Seq<char>)
    ensures
        ascii_lowercase(ascii_lowercase(s)) == ascii_lowercase(s),
{
}

/// The clauses are all well formed exactly where none of them has an error,
/// and otherwise the error reported is that of the first malformed clause.
pub proof fn lemma_first_clause_error(clauses: Seq<DeclToken>)
    ensures
        first_clause_error(clauses) is None <==> forall|i: int|
            0 <= i < clauses.len() ==> clause_error(#[trigger] clauses[i]) is None,
        first_clause_error(clauses) is Some ==> exists|i: int|
            {
                &&& 0 <= i < clauses.len()
                &&& clause_error(#[trigger] clauses[i]) == first_clause_error(clauses)
                &&& forall|j: int| 0 <= j < i ==> clause_error(#[trigger] clauses[j]) is None
            },
    decreases clauses.len(),
{
    if clauses.len() > 0 {
        let rest = clauses.skip(1);
        lemma_first_clause_error(rest);
        if clause_error(clauses[0]) is None && first_clause_error(rest) is None {
            assert forall|i: int| 0 <= i < clauses.len() implies clause_error(
                #[trigger] clauses[i],
            ) is None by {
                if i > 0 {
                    assert(clause_error(rest[i - 1]) is None);
                }
            }
        } else if clause_error(clauses[0]) is None {
            let w = choose|i: int|
                {
                    &&& 0 <= i < rest.len()
                    &&& clause_error(#[trigger] rest[i]) == first_clause_error(rest)
                    &&& forall|j: int| 0 <= j < i ==> clause_error(#[trigger] rest[j]) is None
                };
            assert(clause_error(clauses[w + 1]) == first_clause_error(clauses));
            assert forall|j: int| 0 <= j < w + 1 implies clause_error(
                #[trigger] clauses[j],
            ) is None by {
                if j > 0 {
                    assert(clause_error(rest[j - 1]) is None);
                }
            }
        }
    }
}

/// The flag names of a compiled shape are those of its description.
pub proof fn lemma_compiled_flag_names(groups: Seq<FlagGroupView>)
    ensures
        flag_fields_of(groups).map_values(flag_name()) == flag_names_of(groups),
    decreases groups.len(),
{
    if groups.len() > 0 {
        let init = groups.drop_last();
        let last = groups.last();
        lemma_compiled_flag_names(init);
        assert(groups.map_values(group_fields()) =~= init.map_values(group_fields()).push(
            group_fields()(last),
        ));
        assert(groups.map_values(group_flags()) =~= init.map_values(group_flags()).push(
            last.flags,
        ));
        init.map_values(group_fields()).lemma_flatten_push(group_fields()(last));
        init.map_values(group_flags()).lemma_flatten_push(last.flags);
    }
}

/// The fields of a compiled shape are the positionals and the flags of its
/// description, in that order; where the description is valid, no name occurs
/// twice among them.
pub proof fn lemma_compiled_fields(spec: CommandSpecView)
    ensures
        compiled(spec).field_names() == spec.field_names(),
        compiled(spec).field_names().to_set() == spec.positionals.to_set().union(
            spec.flag_names().to_set(),
        ),
        spec.valid() ==> compiled(spec).field_names().no_duplicates(),
{
    lemma_compiled_flag_names(spec.flag_groups);
    seq_to_set_distributes_over_add(spec.positionals, spec.flag_names());
}

/// A record has the fields of its shape, blank or filled.
pub proof fn lemma_record_fields(shape: CommandShapeView, tokens: Seq<Seq<char>>)
    ensures
        shape.blank().field_names() == shape.field_names(),
        shape.filled(tokens).field_names() == shape.field_names(),
{
}

/// A record answers for each field of its shape with the field's value, where
/// no two fields of the shape share a name: positional `i` holds token
/// `i + 1`, and flag `k` is set where one of the flag tokens is its token.
pub proof fn lemma_record_lookup(shape: CommandShapeView, tokens: Seq<Seq<char>>)
    requires
        shape.field_names().no_duplicates(),
    ensures
        forall|i: int|
            0 <= i < shape.positionals.len() ==> shape.filled(tokens).text(
                #[trigger] shape.positionals[i],
            ) == Some(tokens[i + 1]),
        forall|k: int|
            0 <= k < shape.flags.len() ==> shape.filled(tokens).flag(
                (#[trigger] shape.flags[k]).name,
            ) == Some(shape.flag_set(k, shape.flag_part(tokens))),
        forall|i: int|
            0 <= i < shape.positionals.len() ==> shape.filled(tokens).flag(
                #[trigger] shape.positionals[i],
            ) is None,
        forall|k: int|
            0 <= k < shape.flags.len() ==> shape.filled(tokens).text(
                (#[trigger] shape.flags[k]).name,
            ) is None,
{
    let record = shape.filled(tokens);
    let names = shape.field_names();
    let n = shape.positionals.len() as int;
    assert forall|i: int| 0 <= i < shape.positionals.len() implies record.text(
        #[trigger] shape.positionals[i],
    ) == Some(tokens[i + 1]) && record.flag(shape.positionals[i]) is None by {
        let name = shape.positionals[i];
        assert(names[i] == name);
        assert forall|j: int| 0 <= j < i implies (#[trigger] record.positionals[j]).name
            != name by {
            assert(names[j] == record.positionals[j].name);
        }
        lemma_text_of(record.positionals, name, i);
        assert forall|k: int| 0 <= k < record.flags.len() implies (#[trigger] record.flags[k]).name
            != name by {
            assert(names[n + k] == shape.flag_names()[k]);
        }
        lemma_flag_of_none(record.flags, name);
    }
    assert forall|k: int| 0 <= k < shape.flags.len() implies record.flag(
        (#[trigger] shape.flags[k]).name,
    ) == Some(shape.flag_set(k, shape.flag_part(tokens))) && record.text(shape.flags[k].name)
        is None by {
        let name = shape.flags[k].name;
        assert(names[n + k] == shape.flag_names()[k]);
        assert forall|j: int| 0 <= j < k implies (#[trigger] record.flags[j]).name != name by {
            assert(names[n + j] == shape.flag_names()[j]);
        }
        lemma_flag_of(record.flags, name, k);
        lemma_text_of_none(record.positionals, name);
    }
}

/// The first field called `name` is the one that a lookup finds.
pub proof fn lemma_text_of(fields: Seq<TextValueView>, name: Seq<char>, i: int)
    requires
        0 <= i < fields.len(),
        fields[i].name == name,
        forall|j: int| 0 <= j < i ==> (#[trigger] fields[j]).name != name,
    ensures
        text_of(fields, name) == Some(fields[i].value),
    decreases fields.len(),
{
    if i > 0 {
        let rest = fields.skip(1);
        lemma_text_of(rest, name, i - 1);
    }
}

/// A lookup finds nothing where no field is called `name`.
pub proof fn lemma_text_of_none(fields: Seq<TextValueView>, name: Seq<char>)
    requires
        forall|j: int| 0 <= j < fields.len() ==> (#[trigger] fields[j]).name != name,
    ensures
        text_of(fields, name) is None,
    decreases fields.len(),
{
    if fields.len() > 0 {
        let rest = fields.skip(1);
        lemma_text_of_none(rest, name);
    }
}

/// The first flag called `name` is the one that a lookup finds.
pub proof fn lemma_flag_of(fields: Seq<FlagValueView>, name: Seq<char>, k: int)
    requires
        0 <= k < fields.len(),
        fields[k].name == name,
        forall|j: int| 0 <= j < k ==> (#[trigger] fields[j]).name != name,
    ensures
        flag_of(fields, name) == Some(fields[k].set),
    decreases fields.len(),
{
    if k > 0 {
        let rest = fields.skip(1);
        lemma_flag_of(rest, name, k - 1);
    }
}

/// A lookup finds nothing where no flag is called `name`.
pub proof fn lemma_flag_of_none(fields: Seq<FlagValueView>, name: Seq<char>)
    requires
        forall|j: int| 0 <= j < fields.len() ==> (#[trigger] fields[j]).name != name,
    ensures
        flag_of(fields, name) is None,
    decreases fields.len(),
{
    if fields.len() > 0 {
        let rest = fields.skip(1);
        lemma_flag_of_none(rest, name);
    }
}

/// Every group that well-formed clauses declare has a prefix.
proof fn lemma_groups_have_prefixes(clauses: Seq<DeclToken>)
    requires
        first_clause_error(clauses) is None,
    ensures
        forall|i: int|
            0 <= i < flag_groups_of(clauses).len() ==> (#[trigger] flag_groups_of(
                clauses,
            )[i]).prefix.len() > 0,
{
    lemma_first_clause_error(clauses);
    let groups = clauses.filter(is_group());
    assert forall|i: int| 0 <= i < flag_groups_of(clauses).len() implies (#[trigger] flag_groups_of(
        clauses,
    )[i]).prefix.len() > 0 by {
        let t = groups[i];
        clauses.lemma_filter_pred(is_group(), i);
        clauses.lemma_filter_contains_rev(is_group(), t);
        let k = choose|k: int| 0 <= k < clauses.len() && clauses[k] == t;
        assert(clause_error(clauses[k]) is None);
    }
}

/// What an accepted declaration describes is valid: the name and the
/// prefixes are not empty, and no two fields share a name.
pub proof fn lemma_declared_valid(body: Seq<DeclToken>)
    requires
        declaration_error(body) is None,
    ensures
        declared(body).valid(),
        compiled(declared(body)).keyword == declared(body).name,
        compiled(declared(body)).field_names().no_duplicates(),
{
    lemma_groups_have_prefixes(body.skip(1));
    lemma_lowercase_idempotent(unquote(body[0]->Literal_0@));
    lemma_compiled_fields(declared(body));
}

/// A declaration in which two fields share a name is refused.
pub proof fn lemma_duplicate_refused(body: Seq<DeclToken>)
    requires
        !declared(body).field_names().no_duplicates(),
    ensures
        declaration_error(body) is Some,
{
}

/// The number of tokens is checked before the keyword: an invocation with no
/// more tokens than the command has positionals is an error of this command,
/// whatever its first token is.
pub proof fn lemma_arity_before_keyword(shape: CommandShapeView, tokens: Seq<Seq<char>>)
    requires
        tokens.len() <= shape.arity(),
    ensures
        shape.parse(tokens) == ParseOutcomeView::Error(ParseErrorView::Arity),
{
}

/// An invocation that is long enough and starts with another keyword is
/// passed on, whatever else it holds.
pub proof fn lemma_other_keyword_passed_on(shape: CommandShapeView, tokens: Seq<Seq<char>>)
    requires
        tokens.len() > shape.arity(),
        tokens[0] != shape.keyword,
    ensures
        shape.parse(tokens) == ParseOutcomeView::NotThisCommand,
{
}

/// A token in a positional's place that is empty or does not start with an
/// ASCII letter makes the invocation an error.
pub proof fn lemma_invalid_positional(shape: CommandShapeView, tokens: Seq<Seq<char>>, i: int)
    requires
        tokens.len() > shape.arity(),
        tokens[0] == shape.keyword,
        0 <= i < shape.arity(),
        !valid_positional(tokens[i + 1]),
    ensures
        shape.parse(tokens) == ParseOutcomeView::Error(ParseErrorView::Positional),
{
}

/// No token is unknown exactly where every token is the token of a flag, and
/// otherwise the first unknown token is the one reported.
pub proof fn lemma_first_unknown(shape: CommandShapeView, rest: Seq<Seq<char>>)
    ensures
        shape.first_unknown(rest) is None <==> forall|i: int|
            0 <= i < rest.len() ==> shape.knows(#[trigger] rest[i]),
        shape.first_unknown(rest) is Some ==> exists|i: int|
            {
                &&& 0 <= i < rest.len()
                &&& shape.first_unknown(rest) == Some(#[trigger] rest[i])
                &&& !shape.knows(rest[i])
                &&& forall|j: int| 0 <= j < i ==> shape.knows(#[trigger] rest[j])
            },
    decreases rest.len(),
{
    if rest.len() > 0 {
        let tail = rest.skip(1);
        lemma_first_unknown(shape, tail);
        if shape.knows(rest[0]) && shape.first_unknown(tail) is None {
            assert forall|i: int| 0 <= i < rest.len() implies shape.knows(#[trigger] rest[i]) by {
                if i > 0 {
                    assert(shape.knows(tail[i - 1]));
                }
            }
        } else if shape.knows(rest[0]) {
            let w = choose|i: int|
                {
                    &&& 0 <= i < tail.len()
                    &&& shape.first_unknown(tail) == Some(#[trigger] tail[i])
                    &&& !shape.knows(tail[i])
                    &&& forall|j: int| 0 <= j < i ==> shape.knows(#[trigger] tail[j])
                };
            assert(shape.first_unknown(rest) == Some(rest[w + 1]));
            assert forall|j: int| 0 <= j < w + 1 implies shape.knows(#[trigger] rest[j]) by {
                if j > 0 {
                    assert(shape.knows(tail[j - 1]));
                }
            }
        }
    }
}

/// An unknown token after the positionals ends the parse with an error that
/// names it, whatever flags stand before it.
pub proof fn lemma_unknown_flag_is_terminal(
    shape: CommandShapeView,
    tokens: Seq<Seq<char>>,
    i: int,
)
    requires
        tokens.len() > shape.arity(),
        tokens[0] == shape.keyword,
        forall|p: int| 0 <= p < shape.arity() ==> valid_positional(#[trigger] tokens[p + 1]),
        shape.arity() < i < tokens.len(),
        !shape.knows(tokens[i]),
        forall|j: int| shape.arity() < j < i ==> shape.knows(#[trigger] tokens[j]),
    ensures
        shape.parse(tokens) == ParseOutcomeView::Error(ParseErrorView::UnknownFlag(tokens[i])),
{
    let rest = shape.flag_part(tokens);
    let n = shape.arity() as int;
    lemma_first_unknown(shape, rest);
    assert(rest[i - n - 1] == tokens[i]);
    let w = choose|w: int|
        {
            &&& 0 <= w < rest.len()
            &&& shape.first_unknown(rest) == Some(#[trigger] rest[w])
            &&& !shape.knows(rest[w])
            &&& forall|j: int| 0 <= j < w ==> shape.knows(#[trigger] rest[j])
        };
    assert(w == i - n - 1) by {
        if w < i - n - 1 {
            assert(rest[w] == tokens[w + n + 1]);
        }
    }
}

/// An invocation whose flag tokens are all known is parsed, and its record is
/// the filled one.
pub proof fn lemma_known_flags_parse(shape: CommandShapeView, tokens: Seq<Seq<char>>)
    requires
        tokens.len() > shape.arity(),
        tokens[0] == shape.keyword,
        forall|p: int| 0 <= p < shape.arity() ==> valid_positional(#[trigger] tokens[p + 1]),
        forall|j: int| shape.arity() < j < tokens.len() ==> shape.knows(#[trigger] tokens[j]),
    ensures
        shape.parse(tokens) == ParseOutcomeView::Parsed(shape.filled(tokens)),
{
    let rest = shape.flag_part(tokens);
    lemma_first_unknown(shape, rest);
}

/// Whether a flag is set depends on which tokens occur, not on where or how
/// often.
pub proof fn lemma_flag_set_by_occurrence(
    shape: CommandShapeView,
    k: int,
    a: Seq<Seq<char>>,
    b: Seq<Seq<char>>,
)
    requires
        a.to_set() == b.to_set(),
    ensures
        shape.flag_set(k, a) == shape.flag_set(k, b),
{
    if shape.flag_set(k, a) {
        let i = choose|i: int| 0 <= i < a.len() && shape.claims(k, #[trigger] a[i]);
        assert(a.to_set().contains(a[i]));
        let j = choose|j: int| 0 <= j < b.len() && b[j] == a[i];
        assert(shape.claims(k, b[j]));
    }
    if shape.flag_set(k, b) {
        let i = choose|i: int| 0 <= i < b.len() && shape.claims(k, #[trigger] b[i]);
        assert(b.to_set().contains(b[i]));
        let j = choose|j: int| 0 <= j < a.len() && a[j] == b[i];
        assert(shape.claims(k, a[j]));
    }
}

/// The order of the flag tokens does not matter, nor does it matter how often
/// one occurs: two invocations that agree on the keyword and the positionals
/// and hold the same flag tokens are both parsed or both refused, and where
/// they are parsed their records are equal.
pub proof fn lemma_flag_order_irrelevant(
    shape: CommandShapeView,
    a: Seq<Seq<char>>,
    b: Seq<Seq<char>>,
)
    requires
        a.len() > shape.arity(),
        b.len() > shape.arity(),
        a.take(shape.arity() as int + 1) == b.take(shape.arity() as int + 1),
        shape.flag_part(a).to_set() == shape.flag_part(b).to_set(),
    ensures
        shape.parse(a) is Parsed <==> shape.parse(b) is Parsed,
        shape.parse(a) is Parsed ==> shape.parse(a) == shape.parse(b),
        !(shape.parse(a) matches ParseOutcomeView::Error(ParseErrorView::UnknownFlag(_)))
            ==> shape.parse(a) == shape.parse(b),
{
    let n = shape.arity() as int;
    let ra = shape.flag_part(a);
    let rb = shape.flag_part(b);
    assert forall|i: int| 0 <= i <= n implies a[i] == b[i] by {
        assert(a.take(n + 1)[i] == a[i]);
    }
    lemma_first_unknown(shape, ra);
    lemma_first_unknown(shape, rb);
    if shape.first_unknown(ra) is None {
        assert forall|i: int| 0 <= i < rb.len() implies shape.knows(#[trigger] rb[i]) by {
            assert(rb.to_set().contains(rb[i]));
            let j = choose|j: int| 0 <= j < ra.len() && ra[j] == rb[i];
            assert(shape.knows(ra[j]));
        }
    }
    if shape.first_unknown(rb) is None {
        assert forall|i: int| 0 <= i < ra.len() implies shape.knows(#[trigger] ra[i]) by {
            assert(ra.to_set().contains(ra[i]));
            let j = choose|j: int| 0 <= j < rb.len() && rb[j] == ra[i];
            assert(shape.knows(rb[j]));
        }
    }
    assert(shape.filled(a) == shape.filled(b)) by {
        assert forall|k: int| 0 <= k < shape.flags.len() implies shape.flag_set(k, ra)
            == shape.flag_set(k, rb) by {
            lemma_flag_set_by_occurrence(shape, k, ra, rb);
        }
        assert(shape.filled(a).positionals =~= shape.filled(b).positionals);
        assert(shape.filled(a).flags =~= shape.filled(b).flags);
    }
}

/// Declared commands that pass the invocation on are skipped: the outcome is
/// that of the commands from the first that does not.
pub proof fn lemma_resolve_skips(d: DispatcherView, tokens: Seq<Seq<char>>, k: int)
    requires
        0 <= k <= d.commands.len(),
        forall|i: int|
            0 <= i < k ==> (#[trigger] d.commands[i]).shape().parse(tokens)
                == ParseOutcomeView::NotThisCommand,
    ensures
        d.resolve(tokens, 0) == d.resolve(tokens, k),
    decreases k,
{
    if k > 0 {
        lemma_resolve_skips(d, tokens, k - 1);
    }
}

/// Dispatch order: an invocation that declared command `k` parses runs that
/// command, where the invocation starts with the keyword of neither the help
/// command nor an earlier command and is long enough for each of them to look
/// at its keyword.
pub proof fn lemma_dispatch_order(d: DispatcherView, tokens: Seq<Seq<char>>, k: int)
    requires
        0 <= k < d.commands.len(),
        tokens.len() >= 2,
        tokens[0] != help_keyword(),
        forall|i: int|
            0 <= i < k ==> tokens[0] != (#[trigger] d.commands[i]).shape().keyword && tokens.len()
                > d.commands[i].shape().arity(),
        d.commands[k].shape().parse(tokens) is Parsed,
    ensures
        d.dispatch(tokens) == DispatchView::Run(k, d.commands[k].shape().parse(tokens)->Parsed_0),
{
    lemma_other_keyword_passed_on(help_shape(), tokens);
    assert forall|i: int| 0 <= i < k implies (#[trigger] d.commands[i]).shape().parse(tokens)
        == ParseOutcomeView::NotThisCommand by {
        lemma_other_keyword_passed_on(d.commands[i].shape(), tokens);
    }
    lemma_resolve_skips(d, tokens, k);
}

/// An error of the first command that does not pass the invocation on ends
/// the dispatch: no later command is tried.
pub proof fn lemma_error_is_terminal(d: DispatcherView, tokens: Seq<Seq<char>>, k: int)
    requires
        0 <= k < d.commands.len(),
        tokens.len() > 0,
        help_shape().parse(tokens) == ParseOutcomeView::NotThisCommand,
        forall|i: int|
            0 <= i < k ==> (#[trigger] d.commands[i]).shape().parse(tokens)
                == ParseOutcomeView::NotThisCommand,
        d.commands[k].shape().parse(tokens) is Error,
    ensures
        d.dispatch(tokens) == DispatchView::Failed(d.commands[k].shape().parse(tokens)->Error_0),
{
    lemma_resolve_skips(d, tokens, k);
    assert(!(tokens.len() == 1 && tokens[0] == help_keyword())) by {
        if tokens.len() == 1 {
            lemma_arity_before_keyword(help_shape(), tokens);
        }
    }
}

/// Where every candidate passes the invocation on, no command is known.
pub proof fn lemma_unknown_command(d: DispatcherView, tokens: Seq<Seq<char>>)
    requires
        tokens.len() > 0,
        help_shape().parse(tokens) == ParseOutcomeView::NotThisCommand,
        forall|i: int|
            0 <= i < d.commands.len() ==> (#[trigger] d.commands[i]).shape().parse(tokens)
                == ParseOutcomeView::NotThisCommand,
    ensures
        d.dispatch(tokens) == DispatchView::Unknown,
{
    lemma_resolve_skips(d, tokens, d.commands.len() as int);
    assert(!(tokens.len() == 1 && tokens[0] == help_keyword())) by {
        if tokens.len() == 1 {
            lemma_arity_before_keyword(help_shape(), tokens);
        }
    }
}

/// An invocation without tokens is answered with the banner, whatever the
/// commands are: none of them is tried.
pub proof fn lemma_no_tokens_banner(d: DispatcherView)
    ensures
        d.dispatch(Seq::empty()) == DispatchView::Banner(banner(d.version)),
{
}

/// The help keyword alone is answered with the listing.
pub proof fn lemma_help_alone(d: DispatcherView)
    ensures
        d.dispatch(seq![help_keyword()]) == DispatchView::Help(d.listing()),
{
}

/// The help keyword followed by a name is answered with what the help command
/// holds for that name, where the name may stand in a positional's place.
pub proof fn lemma_help_about(d: DispatcherView, cmd: Seq<char>)
    requires
        valid_positional(cmd),
    ensures
        d.dispatch(seq![help_keyword(), cmd]) == DispatchView::Help(d.help_for(cmd)),
{
    let tokens = seq![help_keyword(), cmd];
    lemma_known_flags_parse(help_shape(), tokens);
}

/// The number of line feeds in a text.
pub open spec fn line_feeds(text: Seq<char>) -> nat {
    text.to_multiset().count('\n')
}

/// Lines that hold no line feed are joined by one line feed fewer than there
/// are lines.
pub proof fn lemma_join_line_feeds(lines: Seq<Seq<char>>)
    requires
        lines.len() > 0,
        forall|i: int| 0 <= i < lines.len() ==> !(#[trigger] lines[i]).contains('\n'),
    ensures
        line_feeds(join_lines(lines)) == lines.len() - 1,
    decreases lines.len(),
{
    broadcast use group_multiset_axioms;

    if lines.len() == 1 {
        to_multiset_contains(lines[0], '\n');
    } else {
        let init = lines.drop_last();
        lemma_join_line_feeds(init);
        let joined = join_lines(init);
        let feed = seq!['\n'];
        let last = lines.last();
        lemma_multiset_commutative(joined + feed, last);
        lemma_multiset_commutative(joined, feed);
        to_multiset_contains(last, '\n');
        assert(feed.to_multiset().count('\n') == 1) by {
            to_multiset_build(Seq::<char>::empty(), '\n');
            assert(Seq::<char>::empty().to_multiset() =~= Multiset::empty()) by {
                to_multiset_len(Seq::<char>::empty());
            }
        }
    }
}

/// The help listing has as many lines as there are declared commands, and two
/// more for the header and the help command, where no keyword holds a line
/// feed.
pub proof fn lemma_listing_line_count(d: DispatcherView)
    requires
        forall|i: int|
            0 <= i < d.commands.len() ==> !(#[trigger] d.commands[i]).shape().keyword.contains(
                '\n',
            ),
    ensures
        line_feeds(d.listing()) + 1 == d.commands.len() + 2,
{
    let lines = d.listing_lines();
    reveal_strlit("Available commands:");
    reveal_strlit("help");
    assert forall|i: int| 0 <= i < lines.len() implies !(#[trigger] lines[i]).contains('\n') by {
        if i >= 2 {
            assert(lines[i] == d.commands[i - 2].shape().keyword);
        }
    }
    lemma_join_line_feeds(lines);
}

/// The help listing holds the header, a line for the help command, and then
/// exactly one line for each declared command, in declaration order.
pub proof fn lemma_listing_lines(d: DispatcherView)
    ensures
        d.listing_lines().len() == d.commands.len() + 2,
        d.listing_lines()[0] == listing_header(),
        d.listing_lines()[1] == help_keyword(),
        forall|i: int|
            0 <= i < d.commands.len() ==> #[trigger] d.listing_lines()[i + 2]
                == d.commands[i].shape().keyword,
{
}

} // verus!
