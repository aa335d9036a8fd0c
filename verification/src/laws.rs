//! General facts about parsing and help rendering, each proved from the
//! definitions that the contracts of the library use.

use vstd::prelude::*;
use crate::builder::{
    all_wf, built, first_slot, lemma_built_is_wf, lemma_variant_scopes_names, nested_of,
};
use crate::declaration::DeclarationView;
use crate::engine::{
    finished, first_missing_from, materialized, parsed, scanned, token_value, unset, OutcomeView,
    ParseErrorView,
};
use crate::help::{flag_line, flag_lines, heading_line, help_lines, indent_step, rendered, subcommand_lines};
use crate::parser::{field_set_fault, flags_of, slots_of};
use crate::schema::{
    find_subcommand_from, flag_matches, lemma_find_flag, lemma_find_subcommand, CommandView, DisplayCommand,
    FlagView,
};
use crate::subcommand::{expanded, variant_info};
use crate::text::lowercased;
use crate::token::TokenView;
use crate::value::{converted, zero_value, ValueView};

verus! {

/// Whether a scope can complete with nothing given: none of its flags is
/// required, and if it is a choice it has a default subcommand that can
/// complete with nothing given too.
pub open spec fn defaultable(command: CommandView) -> bool
    decreases command,
{
    &&& forall|i: int| 0 <= i < command.args.len() ==> (#[trigger] command.args[i]).optional
    &&& command.choice ==> match command.default_subcommand {
        Some(d) => 0 <= d < command.subcommands.len() && defaultable(command.subcommands[d]),
        None => false,
    }
}

/// The scope that completes when nothing is given: the command itself, or for
/// a choice the scope that its default subcommand completes with.
pub open spec fn default_scope(command: CommandView) -> CommandView
    decreases command,
{
    if command.choice {
        match command.default_subcommand {
            Some(d) => if 0 <= d < command.subcommands.len() {
                default_scope(command.subcommands[d])
            } else {
                command
            },
            None => command,
        }
    } else {
        command
    }
}

proof fn lemma_none_missing(args: Seq<FlagView>, state: Seq<Option<ValueView>>, start: int)
    requires
        0 <= start,
        forall|i: int| 0 <= i < args.len() ==> (#[trigger] args[i]).optional || state[i] is Some,
    ensures
        first_missing_from(args, state, start) is None,
    decreases args.len() - start,
{
    if start < args.len() {
        lemma_none_missing(args, state, start + 1);
    }
}

/// Parsing an empty token stream against a schema without required flags
/// succeeds, and every flag of the scope that completes has the zero value of
/// its type. A choice takes part through its default subcommand.
pub proof fn law_empty_stream_yields_defaults(command: CommandView)
    requires
        defaultable(command),
    ensures
        parsed(command, Seq::empty()).result == Ok::<OutcomeView, ParseErrorView>(
            OutcomeView::Parsed(materialized(default_scope(command), unset(default_scope(command)))),
        ),
        parsed(command, Seq::empty()).rest == Seq::<TokenView>::empty(),
        forall|i: int|
            0 <= i < default_scope(command).args.len() ==> (#[trigger] materialized(
                default_scope(command),
                unset(default_scope(command)),
            ).fields[i]).value == zero_value(default_scope(command).args[i].value_type),
    decreases command,
{
    lemma_none_missing(command.args, unset(command), 0);
    if command.choice {
        let d = command.default_subcommand->0;
        law_empty_stream_yields_defaults(command.subcommands[d]);
        assert(finished(command, unset(command)) == finished(
            command.subcommands[d],
            unset(command.subcommands[d]),
        ));
    }
}

/// In a schema whose flag names are unique, the flag found for a token that
/// names the flag at `index` is that flag.
pub proof fn lemma_unique_flag(command: CommandView, index: int, token: TokenView)
    requires
        command.wf(),
        0 <= index < command.args.len(),
        flag_matches(command.args[index], token),
    ensures
        command.find_flag(token) == Some(index),
{
    lemma_find_flag(command.args, token, 0);
}

/// Binding one flag twice, by its short form and then by its long form, is the
/// same as binding the value of the long form alone: the last occurrence wins.
pub proof fn law_last_binding_wins(
    command: CommandView,
    state: Seq<Option<ValueView>>,
    index: int,
    short: char,
    first: Seq<char>,
    second: Seq<char>,
    rest: Seq<TokenView>,
)
    requires
        command.wf(),
        0 <= index < command.args.len(),
        state.len() == command.args.len(),
        command.args[index].short_name == Some(short),
        converted(first, command.args[index].value_type) is Some,
        converted(second, command.args[index].value_type) is Some,
    ensures
        scanned(
            command,
            state,
            seq![
                TokenView::Short(short),
                TokenView::Value(first),
                TokenView::Long(command.args[index].long_name),
                TokenView::Value(second),
            ] + rest,
        ) == scanned(
            command,
            state.update(index, converted(second, command.args[index].value_type)),
            rest,
        ),
{
    let ty = command.args[index].value_type;
    let long = TokenView::Long(command.args[index].long_name);
    let t0 = seq![TokenView::Short(short), TokenView::Value(first), long, TokenView::Value(second)] + rest;
    let t2 = seq![long, TokenView::Value(second)] + rest;
    lemma_unique_flag(command, index, TokenView::Short(short));
    lemma_unique_flag(command, index, long);
    assert(t0.skip(1).skip(1) =~= t2);
    assert(t2.skip(1).skip(1) =~= rest);
    let s1 = state.update(index, converted(first, ty));
    assert(scanned(command, state, t0) == scanned(command, s1, t2));
    assert(scanned(command, s1, t2) == scanned(command, s1.update(index, converted(second, ty)), rest));
    assert(s1.update(index, converted(second, ty)) =~= state.update(index, converted(second, ty)));
}

/// The flag bound last is what the completed record holds: after the short
/// and then the long form of one flag, with nothing else on the stream, the
/// record of a scope in which every other flag has a default has the long
/// form's value.
pub proof fn law_last_binding_is_materialized(
    command: CommandView,
    index: int,
    short: char,
    first: Seq<char>,
    second: Seq<char>,
)
    requires
        command.wf(),
        0 <= index < command.args.len(),
        command.args[index].short_name == Some(short),
        converted(first, command.args[index].value_type) is Some,
        converted(second, command.args[index].value_type) is Some,
        forall|i: int| 0 <= i < command.args.len() && i != index ==> (#[trigger] command.args[i]).optional,
    ensures
        parsed(
            command,
            seq![
                TokenView::Short(short),
                TokenView::Value(first),
                TokenView::Long(command.args[index].long_name),
                TokenView::Value(second),
            ],
        ).result matches Ok(OutcomeView::Parsed(record)) && record.fields[index].value == converted(
            second,
            command.args[index].value_type,
        )->0,
{
    let ty = command.args[index].value_type;
    let tokens = seq![
        TokenView::Short(short),
        TokenView::Value(first),
        TokenView::Long(command.args[index].long_name),
        TokenView::Value(second),
    ];
    law_last_binding_wins(command, unset(command), index, short, first, second, Seq::empty());
    assert(tokens + Seq::<TokenView>::empty() =~= tokens);
    let end = unset(command).update(index, converted(second, ty));
    lemma_none_missing(command.args, end, 0);
}

/// A positional token equal to the dispatch name of a subcommand hands the
/// rest of the stream to exactly that subcommand, which starts with every
/// flag unset: the scope never reports the token as unknown.
pub proof fn law_known_name_dispatches(
    command: CommandView,
    state: Seq<Option<ValueView>>,
    index: int,
    rest: Seq<TokenView>,
)
    requires
        command.wf(),
        0 <= index < command.subcommands.len(),
    ensures
        scanned(command, state, seq![TokenView::Value(command.subcommands[index].name)] + rest) == parsed(
            command.subcommands[index],
            rest,
        ),
{
    let name = command.subcommands[index].name;
    let tokens = seq![TokenView::Value(name)] + rest;
    lemma_find_subcommand(command.subcommands, name, 0);
    assert(command.find_subcommand(name) == Some(index));
    assert(tokens.skip(1) =~= rest);
}

/// In a command without subcommands every positional token fails as an
/// unknown argument that names the token and the scope.
pub proof fn law_positional_without_subcommands_fails(
    command: CommandView,
    state: Seq<Option<ValueView>>,
    text: Seq<char>,
    rest: Seq<TokenView>,
)
    requires
        command.subcommands.len() == 0,
    ensures
        scanned(command, state, seq![TokenView::Value(text)] + rest).result == Err::<
            OutcomeView,
            ParseErrorView,
        >(ParseErrorView::UnknownArgument { token: TokenView::Value(text), scope: command.name }),
        scanned(command, state, seq![TokenView::Value(text)] + rest).rest == rest,
{
    let tokens = seq![TokenView::Value(text)] + rest;
    assert(find_subcommand_from(command.subcommands, text, 0) is None);
    assert(tokens.skip(1) =~= rest);
}

/// Whether `rest` is what is left of `tokens` behind some number of them.
pub open spec fn is_rest_of(rest: Seq<TokenView>, tokens: Seq<TokenView>) -> bool {
    rest.len() <= tokens.len() && rest == tokens.skip(tokens.len() - rest.len())
}

/// What is left of what is left is left.
pub proof fn lemma_rest_of_rest(inner: Seq<TokenView>, middle: Seq<TokenView>, outer: Seq<TokenView>)
    requires
        is_rest_of(inner, middle),
        is_rest_of(middle, outer),
    ensures
        is_rest_of(inner, outer),
{
    assert(outer.skip(outer.len() - middle.len()).skip(middle.len() - inner.len()) =~= outer.skip(
        outer.len() - inner.len(),
    ));
}

/// A run reads its tokens forward and in order: what it leaves unread is the
/// end of what it was given, whichever scopes it went through.
pub proof fn law_stream_is_read_forward(
    command: CommandView,
    state: Seq<Option<ValueView>>,
    tokens: Seq<TokenView>,
)
    ensures
        is_rest_of(scanned(command, state, tokens).rest, tokens),
    decreases tokens.len(),
{
    let run = scanned(command, state, tokens);
    assert(tokens.skip(0) =~= tokens);
    if tokens.len() > 0 {
        let token = tokens[0];
        let rest = tokens.skip(1);
        assert(is_rest_of(rest, tokens));
        assert(rest.skip(0) =~= rest);
        match token {
            TokenView::Value(text) => {
                match command.find_subcommand(text) {
                    Some(i) => {
                        law_stream_is_read_forward(command.subcommands[i], unset(command.subcommands[i]), rest);
                        lemma_rest_of_rest(run.rest, rest, tokens);
                    },
                    None => {},
                }
            },
            _ => {
                match command.find_flag(token) {
                    Some(i) => {
                        if rest.len() > 0 {
                            let behind = rest.skip(1);
                            assert(is_rest_of(behind, rest));
                            assert(behind.skip(0) =~= behind);
                            lemma_rest_of_rest(behind, rest, tokens);
                            match token_value(rest[0], command.args[i].value_type) {
                                Some(v) => {
                                    law_stream_is_read_forward(command, state.update(i, Some(v)), behind);
                                    lemma_rest_of_rest(run.rest, behind, tokens);
                                },
                                None => {},
                            }
                        }
                    },
                    None => {},
                }
            },
        }
    }
}

/// Rendering is a function of the schema alone: commands with the same value
/// render to the same lines, so rendering one command twice gives the same
/// lines twice.
pub proof fn law_render_is_deterministic(first: &DisplayCommand, second: &DisplayCommand)
    requires
        first@ == second@,
    ensures
        rendered(first@) == rendered(second@),
{
}

/// The number of commands in a tree: the command itself and every command
/// below it.
pub open spec fn command_count(command: CommandView) -> nat
    decreases command, command.subcommands.len() + 1,
{
    1 + nested_command_count(command, command.subcommands.len())
}

/// The number of commands in the trees of the first `count` subcommands.
pub open spec fn nested_command_count(command: CommandView, count: nat) -> nat
    decreases command, count,
{
    if count == 0 || count > command.subcommands.len() {
        0
    } else {
        nested_command_count(command, (count - 1) as nat) + command_count(command.subcommands[count - 1])
    }
}

/// The number of flags in a tree: those of the command itself and those of
/// every command below it.
pub open spec fn flag_count(command: CommandView) -> nat
    decreases command, command.subcommands.len() + 1,
{
    command.args.len() + nested_flag_count(command, command.subcommands.len())
}

/// The number of flags in the trees of the first `count` subcommands.
pub open spec fn nested_flag_count(command: CommandView, count: nat) -> nat
    decreases command, count,
{
    if count == 0 || count > command.subcommands.len() {
        0
    } else {
        nested_flag_count(command, (count - 1) as nat) + flag_count(command.subcommands[count - 1])
    }
}

/// The help of a tree has two lines for each command, its heading and its
/// separator, and one line for each flag: nothing is left out and nothing is
/// shown twice.
pub proof fn lemma_help_line_count(command: CommandView, indent: Seq<char>)
    ensures
        help_lines(command, indent).len() == 2 * command_count(command) + flag_count(command),
    decreases command, command.subcommands.len() + 1,
{
    lemma_subcommand_line_count(command, indent, command.subcommands.len());
}

/// The line count of the first `count` subcommands of a command.
pub proof fn lemma_subcommand_line_count(command: CommandView, indent: Seq<char>, count: nat)
    requires
        count <= command.subcommands.len(),
    ensures
        subcommand_lines(command, indent, count).len() == 2 * nested_command_count(command, count)
            + nested_flag_count(command, count),
    decreases command, count,
{
    if count > 0 {
        lemma_subcommand_line_count(command, indent, (count - 1) as nat);
        lemma_help_line_count(command.subcommands[count - 1], indent + indent_step());
    }
}

/// The lines of the first subcommands stay where they are when the lines of
/// further subcommands follow them.
pub proof fn lemma_subcommand_lines_grow(command: CommandView, indent: Seq<char>, count: nat, more: nat)
    requires
        count <= more <= command.subcommands.len(),
    ensures
        subcommand_lines(command, indent, count).len() <= subcommand_lines(command, indent, more).len(),
        subcommand_lines(command, indent, more).subrange(
            0,
            subcommand_lines(command, indent, count).len() as int,
        ) == subcommand_lines(command, indent, count),
    decreases more,
{
    let short = subcommand_lines(command, indent, count);
    if count < more {
        lemma_subcommand_lines_grow(command, indent, count, (more - 1) as nat);
        let previous = subcommand_lines(command, indent, (more - 1) as nat);
        let last = help_lines(command.subcommands[more - 1], indent + indent_step());
        assert(subcommand_lines(command, indent, more) == previous + last);
        assert((previous + last).subrange(0, short.len() as int) =~= previous.subrange(0, short.len() as int));
    } else {
        assert(short.subrange(0, short.len() as int) =~= short);
    }
}

/// The line at which the help of subcommand `index` starts within the help of
/// its command: behind the heading, the blank line and the help of the
/// subcommands before it.
pub open spec fn block_start(command: CommandView, indent: Seq<char>, index: int) -> int {
    2 + subcommand_lines(command, indent, index as nat).len() as int
}

/// Where the help of a command shows what: the heading first, then a blank
/// line, then the help of each subcommand in order, one level deeper and in
/// one piece, then one line for each flag in order.
pub proof fn lemma_help_layout(command: CommandView, indent: Seq<char>)
    ensures
        help_lines(command, indent).len() >= 2 + command.args.len(),
        help_lines(command, indent)[0] == heading_line(command, indent),
        help_lines(command, indent)[1] == Seq::<char>::empty(),
        forall|i: int|
            0 <= i < command.args.len() ==> #[trigger] help_lines(command, indent)[help_lines(
                command,
                indent,
            ).len() - command.args.len() + i] == flag_line(command.args[i], indent),
        forall|j: int|
            0 <= j < command.subcommands.len() ==> #[trigger] help_lines(command, indent).subrange(
                block_start(command, indent, j),
                block_start(command, indent, j + 1),
            ) == help_lines(command.subcommands[j], indent + indent_step()),
{
    let head = seq![heading_line(command, indent), Seq::<char>::empty()];
    let middle = subcommand_lines(command, indent, command.subcommands.len());
    let tail = flag_lines(command.args, indent, command.args.len());
    let all = help_lines(command, indent);
    assert(all == head + middle + tail);
    assert forall|i: int| 0 <= i < command.args.len() implies #[trigger] all[all.len() - command.args.len() + i]
        == flag_line(command.args[i], indent) by {
        assert(all[all.len() - command.args.len() + i] == tail[i]);
    }
    assert forall|j: int| 0 <= j < command.subcommands.len() implies #[trigger] all.subrange(
        block_start(command, indent, j),
        block_start(command, indent, j + 1),
    ) == help_lines(command.subcommands[j], indent + indent_step()) by {
        let before = subcommand_lines(command, indent, j as nat);
        let upto = subcommand_lines(command, indent, (j + 1) as nat);
        let block = help_lines(command.subcommands[j], indent + indent_step());
        assert(upto == before + block);
        lemma_subcommand_lines_grow(command, indent, (j + 1) as nat, command.subcommands.len());
        assert(middle.subrange(0, upto.len() as int) == upto);
        assert(all.subrange(block_start(command, indent, j), block_start(command, indent, j + 1)) =~= middle.subrange(
            before.len() as int,
            upto.len() as int,
        ));
        assert(middle.subrange(before.len() as int, upto.len() as int) =~= middle.subrange(
            0,
            upto.len() as int,
        ).subrange(before.len() as int, upto.len() as int));
        assert(upto.subrange(before.len() as int, upto.len() as int) =~= block);
    }
}

/// What a declaration declares is what its schema holds. A struct of fields
/// gives a scope that is no choice, with one flag for each unmarked field and
/// the subcommands that its marked field brings; a choice gives one
/// subcommand for each variant, named by the lower-cased identifier of the
/// variant, with one flag for each unmarked field of the variant.
pub proof fn law_schema_holds_what_is_declared(declaration: DeclarationView, known: Seq<CommandView>)
    requires
        built(declaration, known) is Ok,
    ensures
        ({
            let command = built(declaration, known)->Ok_0;
            let fields = declaration.fields;
            let variants = declaration.variants;
            &&& command.name == lowercased(declaration.identifier)
            &&& variants.len() == 0 ==> {
                &&& !command.choice
                &&& command.args == flags_of(fields, fields.len())
                &&& slots_of(fields, fields.len()).len() <= 1
                &&& nested_of(first_slot(slots_of(fields, fields.len())), known) matches Ok(nested)
                    && command.subcommands == nested
            }
            &&& variants.len() > 0 ==> {
                &&& command.choice
                &&& command.args.len() == 0
                &&& command.subcommands.len() == variants.len()
                &&& forall|j: int|
                    0 <= j < variants.len() ==> (#[trigger] command.subcommands[j]).name == lowercased(
                        variants[j].identifier,
                    ) && command.subcommands[j].args == flags_of(variants[j].fields, variants[j].fields.len())
                        && !command.subcommands[j].choice
            }
        }),
{
    if declaration.variants.len() == 0 {
        assert(field_set_fault(declaration.fields) is None);
    } else {
        let choice = expanded(declaration)->Ok_0;
        lemma_variant_scopes_names(choice.subcommand, known, choice.subcommand.len());
        assert forall|j: int| 0 <= j < declaration.variants.len() implies #[trigger] choice.subcommand[j]
            == variant_info(declaration.variants[j]) by {
        }
    }
}

/// The help of a schema built from a declaration names every flag and every
/// subcommand of the schema exactly once. It has one heading for each command
/// of the tree and one line for each flag, and no other line but the blank
/// one under each heading; the flags of a scope are shown in declaration
/// order and the help of each subcommand stands in one piece; and within a
/// scope no two flags and no two subcommands have one name, so that no line
/// stands for two of them. What the schema holds is what was declared, see
/// [`law_schema_holds_what_is_declared`].
pub proof fn law_help_names_everything_once(declaration: DeclarationView, known: Seq<CommandView>)
    requires
        all_wf(known),
        built(declaration, known) is Ok,
    ensures
        ({
            let command = built(declaration, known)->Ok_0;
            let lines = rendered(command);
            &&& command.wf()
            &&& lines.len() == 2 * command_count(command) + flag_count(command)
            &&& lines[0] == heading_line(command, Seq::empty())
            &&& forall|i: int|
                0 <= i < command.args.len() ==> #[trigger] lines[lines.len() - command.args.len() + i]
                    == flag_line(command.args[i], Seq::empty())
            &&& forall|j: int|
                0 <= j < command.subcommands.len() ==> #[trigger] lines.subrange(
                    block_start(command, Seq::empty(), j),
                    block_start(command, Seq::empty(), j + 1),
                ) == help_lines(command.subcommands[j], indent_step())
        }),
{
    let command = built(declaration, known)->Ok_0;
    lemma_built_is_wf(declaration, known);
    lemma_help_line_count(command, Seq::empty());
    lemma_help_layout(command, Seq::empty());
    assert(Seq::<char>::empty() + indent_step() =~= indent_step());
}

} // verus!
