//! The schema builder: from a declaration, and the schemas of the types that
//! it names as subcommands, to the command tree.

use vstd::prelude::*;
use crate::declaration::{Declaration, DeclarationView};
use crate::error::{SchemaError, SchemaErrorView};
use crate::parser::{
    check_flags, classified, field_set_fault, flag_clash_from, flag_views, generate_parser,
    lemma_checked_flags_distinct, lemma_distinct_has_no_clash, slot_views, ArgsInfo, SlotView, SubCommandInfo,
};
use crate::schema::{
    command_views, find_command, find_subcommand_from, flags_distinct, lemma_find_subcommand, names_distinct,
    CommandView, DisplayCommand, FlagView,
};
use crate::subcommand::{
    expanded, generate_impl, lemma_variant_without_clash, macro_views, MacroInfo, MacroInfoView,
};
use crate::text::{lowercase_of, lowercased};

verus! {

/// A command under another dispatch name.
pub open spec fn renamed(command: CommandView, name: Seq<char>) -> CommandView {
    CommandView {
        name,
        subcommands: command.subcommands,
        args: command.args,
        usage: command.usage,
        description: command.description,
        choice: command.choice,
        default_subcommand: command.default_subcommand,
    }
}

/// The subcommands that a slot brings, once its type is resolved to `schema`.
/// A slot whose type is a choice brings the variants of the choice, each a
/// subcommand under its own name. A slot of any other type brings one
/// subcommand: the schema of the type under the lower-cased name of the slot.
pub open spec fn with_slot(slot: SlotView, schema: CommandView) -> Seq<CommandView> {
    if schema.choice {
        schema.subcommands
    } else {
        seq![renamed(schema, lowercased(slot.name))]
    }
}

/// The slot of a field set that has passed [`field_set_fault`]: its first
/// slot, if it has one.
pub open spec fn first_slot(slots: Seq<SlotView>) -> Option<SlotView> {
    if slots.len() > 0 {
        Some(slots[0])
    } else {
        None
    }
}

/// The subcommands of a scope with the given slot: none without a slot, and
/// else what the slot brings, or a failure where the type of the slot has no
/// schema among those built already. A type is looked up by its lower-cased
/// name.
pub open spec fn nested_of(slot: Option<SlotView>, known: Seq<CommandView>) -> Result<
    Seq<CommandView>,
    SchemaErrorView,
> {
    match slot {
        None => Ok(Seq::empty()),
        Some(slot) => match find_subcommand_from(known, lowercased(slot.ty), 0) {
            Some(i) => Ok(with_slot(slot, known[i])),
            None => Err(SchemaErrorView::UnresolvedSubcommand { field: slot.name, ty: slot.ty }),
        },
    }
}

/// Whether one of the first `before` commands has the dispatch name.
pub open spec fn name_taken(commands: Seq<CommandView>, name: Seq<char>, before: int) -> bool {
    exists|i: int| 0 <= i < before && i < commands.len() && (#[trigger] commands[i]).name == name
}

/// The first clash of dispatch names among the commands from `start` on.
pub open spec fn name_clash_from(commands: Seq<CommandView>, start: int) -> Option<SchemaErrorView>
    decreases commands.len() - start,
{
    if start < 0 || start >= commands.len() {
        None
    } else if name_taken(commands, commands[start].name, start) {
        Some(SchemaErrorView::DuplicateSubcommand { name: commands[start].name })
    } else {
        name_clash_from(commands, start + 1)
    }
}

/// The scope of a field set: a name, the flags, and the subcommands that the
/// slot brings, no two of them under one dispatch name. Such a scope is no
/// choice and has no fallback selection: with the stream exhausted it yields
/// its own record, whether or not it has subcommands.
pub open spec fn scope_of(name: Seq<char>, flags: Seq<FlagView>, slot: Option<SlotView>, known: Seq<CommandView>) -> Result<
    CommandView,
    SchemaErrorView,
> {
    match nested_of(slot, known) {
        Err(error) => Err(error),
        Ok(subcommands) => match name_clash_from(subcommands, 0) {
            Some(error) => Err(error),
            None => Ok(
                CommandView {
                    name,
                    subcommands,
                    args: flags,
                    usage: Seq::empty(),
                    description: Seq::empty(),
                    choice: false,
                    default_subcommand: None,
                },
            ),
        },
    }
}

/// The scopes of the first `count` variants, each named by the lower-cased
/// identifier of its variant, or the failure of the first variant that has
/// one.
pub open spec fn variant_scopes(variants: Seq<MacroInfoView>, known: Seq<CommandView>, count: nat) -> Result<
    Seq<CommandView>,
    SchemaErrorView,
>
    decreases count,
{
    if count == 0 || count > variants.len() {
        Ok(Seq::empty())
    } else {
        match variant_scopes(variants, known, (count - 1) as nat) {
            Err(error) => Err(error),
            Ok(done) => match scope_of(
                lowercased(variants[count - 1].identifier),
                variants[count - 1].fields,
                first_slot(variants[count - 1].subcommands),
                known,
            ) {
                Err(error) => Err(error),
                Ok(command) => Ok(done.push(command)),
            },
        }
    }
}

/// The position of the first variant from `start` on that is tagged default.
pub open spec fn first_default_from(variants: Seq<MacroInfoView>, start: int) -> Option<int>
    decreases variants.len() - start,
{
    if start < 0 || start >= variants.len() {
        None
    } else if variants[start].default {
        Some(start)
    } else {
        first_default_from(variants, start + 1)
    }
}

/// The schema of a declaration, given the schemas built already.
///
/// A struct of fields becomes a scope with a flag for each unmarked field and
/// the subcommands that its marked field brings. It is no choice: where no
/// token selects a subcommand it yields its own record, also where its
/// subcommands are the variants of a choice with a default. A choice becomes
/// a scope without flags whose subcommands are its variants, each the scope of
/// the variant's own fields; the first variant tagged default is the fallback
/// selection. Scopes are named by the lower-cased identifier of the declared
/// type or of the variant.
pub open spec fn built(declaration: DeclarationView, known: Seq<CommandView>) -> Result<CommandView, SchemaErrorView> {
    match classified(declaration) {
        Err(error) => Err(error),
        Ok(info) => if declaration.variants.len() == 0 {
            scope_of(lowercased(info.identifier), info.flags, first_slot(info.subcommands), known)
        } else {
            match expanded(declaration) {
                Err(error) => Err(error),
                Ok(choice) => match variant_scopes(choice.subcommand, known, choice.subcommand.len()) {
                    Err(error) => Err(error),
                    Ok(subcommands) => match name_clash_from(subcommands, 0) {
                        Some(error) => Err(error),
                        None => Ok(
                            CommandView {
                                name: lowercased(declaration.identifier),
                                subcommands,
                                args: Seq::empty(),
                                usage: Seq::empty(),
                                description: Seq::empty(),
                                choice: true,
                                default_subcommand: first_default_from(choice.subcommand, 0),
                            },
                        ),
                    },
                },
            }
        },
    }
}

/// Every command of a run keeps the schema invariant.
pub open spec fn all_wf(commands: Seq<CommandView>) -> bool {
    forall|i: int| 0 <= i < commands.len() ==> (#[trigger] commands[i]).wf()
}

/// What a slot brings over schemas that keep the invariant keeps it.
pub proof fn lemma_nested_wf(slot: Option<SlotView>, known: Seq<CommandView>)
    requires
        all_wf(known),
        nested_of(slot, known) is Ok,
    ensures
        all_wf(nested_of(slot, known)->Ok_0),
{
    if slot is Some {
        let s = slot->0;
        lemma_find_subcommand(known, lowercased(s.ty), 0);
        let i = find_subcommand_from(known, lowercased(s.ty), 0)->0;
        assert(known[i].wf());
        assert(renamed(known[i], lowercased(s.name)).wf());
    }
}

/// Commands without a clash of names have distinct dispatch names.
pub proof fn lemma_no_name_clash(commands: Seq<CommandView>, start: int)
    requires
        0 <= start,
        name_clash_from(commands, start) is None,
    ensures
        forall|i: int, j: int|
            0 <= i < j < commands.len() && start <= j ==> (#[trigger] commands[i]).name != (
            #[trigger] commands[j]).name,
    decreases commands.len() - start,
{
    if start < commands.len() {
        lemma_no_name_clash(commands, start + 1);
        assert(!name_taken(commands, commands[start].name, start));
        assert forall|i: int| 0 <= i < start implies (#[trigger] commands[i]).name != commands[start].name by {
        }
    }
}

/// Commands with distinct dispatch names have no clash of names.
pub proof fn lemma_distinct_names_have_no_clash(commands: Seq<CommandView>, start: int)
    requires
        0 <= start,
        names_distinct(commands),
    ensures
        name_clash_from(commands, start) is None,
    decreases commands.len() - start,
{
    if start < commands.len() {
        lemma_distinct_names_have_no_clash(commands, start + 1);
    }
}

/// A scope made of flags without a clash, over schemas that keep the
/// invariant, keeps it.
pub proof fn lemma_scope_wf(name: Seq<char>, flags: Seq<FlagView>, slot: Option<SlotView>, known: Seq<CommandView>)
    requires
        all_wf(known),
        flag_clash_from(flags, 0) is None,
        scope_of(name, flags, slot, known) is Ok,
    ensures
        scope_of(name, flags, slot, known)->Ok_0.wf(),
{
    lemma_nested_wf(slot, known);
    lemma_checked_flags_distinct(flags);
    let subcommands = nested_of(slot, known)->Ok_0;
    lemma_no_name_clash(subcommands, 0);
    assert(names_distinct(subcommands));
}

/// Variants that build give one scope each, and each keeps the invariant.
pub proof fn lemma_variant_scopes_wf(variants: Seq<MacroInfoView>, known: Seq<CommandView>, count: nat)
    requires
        count <= variants.len(),
        all_wf(known),
        forall|i: int| 0 <= i < variants.len() ==> flag_clash_from((#[trigger] variants[i]).fields, 0) is None,
        variant_scopes(variants, known, count) is Ok,
    ensures
        variant_scopes(variants, known, count)->Ok_0.len() == count,
        all_wf(variant_scopes(variants, known, count)->Ok_0),
    decreases count,
{
    if count > 0 {
        lemma_variant_scopes_wf(variants, known, (count - 1) as nat);
        let v = variants[count - 1];
        lemma_scope_wf(lowercased(v.identifier), v.fields, first_slot(v.subcommands), known);
    }
}

/// The subcommand that a variant becomes is named by the lower-cased
/// identifier of the variant, has the variant's flags and is no choice:
/// variant by variant, in order.
pub proof fn lemma_variant_scopes_names(variants: Seq<MacroInfoView>, known: Seq<CommandView>, count: nat)
    requires
        count <= variants.len(),
        variant_scopes(variants, known, count) is Ok,
    ensures
        variant_scopes(variants, known, count)->Ok_0.len() == count,
        forall|i: int|
            0 <= i < count ==> (#[trigger] variant_scopes(variants, known, count)->Ok_0[i]).name == lowercased(
                variants[i].identifier,
            ) && variant_scopes(variants, known, count)->Ok_0[i].args == variants[i].fields
                && !variant_scopes(variants, known, count)->Ok_0[i].choice,
    decreases count,
{
    if count > 0 {
        lemma_variant_scopes_names(variants, known, (count - 1) as nat);
    }
}

/// A default variant that is found is one of the variants.
pub proof fn lemma_first_default(variants: Seq<MacroInfoView>, start: int)
    requires
        0 <= start,
    ensures
        first_default_from(variants, start) matches Some(d) ==> start <= d < variants.len() && variants[d].default,
    decreases variants.len() - start,
{
    if start < variants.len() && !variants[start].default {
        lemma_first_default(variants, start + 1);
    }
}

/// A schema built over schemas that keep the invariant keeps it: within each
/// of its scopes the flag names and the dispatch names are unique, a choice
/// has no flags, and its fallback selection is one of its subcommands.
pub proof fn lemma_built_is_wf(declaration: DeclarationView, known: Seq<CommandView>)
    requires
        all_wf(known),
        built(declaration, known) is Ok,
    ensures
        built(declaration, known)->Ok_0.wf(),
{
    let info = classified(declaration)->Ok_0;
    if declaration.variants.len() == 0 {
        lemma_scope_wf(lowercased(info.identifier), info.flags, first_slot(info.subcommands), known);
    } else {
        let choice = expanded(declaration)->Ok_0;
        let variants = choice.subcommand;
        assert forall|i: int| 0 <= i < variants.len() implies flag_clash_from((#[trigger] variants[i]).fields, 0)
            is None by {
            lemma_variant_without_clash(declaration.variants, 0, i);
            assert(field_set_fault(declaration.variants[i].fields) is None);
        }
        lemma_variant_scopes_wf(variants, known, variants.len());
        let subcommands = variant_scopes(variants, known, variants.len())->Ok_0;
        lemma_no_name_clash(subcommands, 0);
        assert(names_distinct(subcommands));
        lemma_first_default(variants, 0);
        let command = built(declaration, known)->Ok_0;
        assert(command.args =~= Seq::<FlagView>::empty());
    }
}

fn resolve_slot(slot: Option<&SubCommandInfo>, known: &Vec<DisplayCommand>) -> (res: Result<
    Vec<DisplayCommand>,
    SchemaError,
>)
    ensures
        match res {
            Ok(commands) => nested_of(
                match slot {
                    Some(s) => Some(s@),
                    None => None,
                },
                command_views(known@),
            ) == Ok::<Seq<CommandView>, SchemaErrorView>(command_views(commands@)),
            Err(error) => nested_of(
                match slot {
                    Some(s) => Some(s@),
                    None => None,
                },
                command_views(known@),
            ) == Err::<Seq<CommandView>, SchemaErrorView>(error@),
        },
{
    let mut commands: Vec<DisplayCommand> = Vec::new();
    assert(command_views(commands@) =~= Seq::<CommandView>::empty());
    let slot = match slot {
        None => {
            return Ok(commands);
        },
        Some(slot) => slot,
    };
    let key = lowercase_of(slot.ty.as_str());
    let schema = match find_command(known, &key) {
        None => {
            return Err(SchemaError::UnresolvedSubcommand { field: slot.name.clone(), ty: slot.ty.clone() });
        },
        Some(found) => &known[found],
    };
    proof {
        schema.lemma_view();
    }
    if schema.choice {
        let mut k: usize = 0;
        while k < schema.subcommands.len()
            invariant
                k <= schema.subcommands.len(),
                schema@.subcommands.len() == schema.subcommands.len(),
                forall|j: int|
                    0 <= j < schema.subcommands.len() ==> #[trigger] schema@.subcommands[j]
                        == schema.subcommands[j]@,
                command_views(commands@) == schema@.subcommands.subrange(0, k as int),
            decreases schema.subcommands.len() - k,
        {
            let ghost so_far = command_views(commands@);
            let copy = schema.subcommands[k].duplicate();
            commands.push(copy);
            k = k + 1;
            assert(command_views(commands@) =~= so_far.push(schema@.subcommands[k - 1]));
            assert(command_views(commands@) =~= schema@.subcommands.subrange(0, k as int));
        }
        assert(schema@.subcommands.subrange(0, k as int) =~= schema@.subcommands);
    } else {
        let mut command = schema.duplicate();
        let ghost copy = command;
        command.name = lowercase_of(slot.name.as_str());
        proof {
            command.lemma_view();
            copy.lemma_view();
            assert(command@.subcommands =~= copy@.subcommands);
            assert(command@.args =~= copy@.args);
            assert(command@ == renamed(schema@, lowercased(slot@.name)));
        }
        commands.push(command);
        assert(command_views(commands@) =~= seq![renamed(schema@, lowercased(slot@.name))]);
    }
    Ok(commands)
}

/// Once a variant has failed, the failure stands however many more variants
/// are taken.
pub proof fn lemma_variants_fail_on(variants: Seq<MacroInfoView>, known: Seq<CommandView>, count: nat, more: nat)
    requires
        count <= more <= variants.len(),
        variant_scopes(variants, known, count) is Err,
    ensures
        variant_scopes(variants, known, more) == variant_scopes(variants, known, count),
    decreases more,
{
    if count < more {
        lemma_variants_fail_on(variants, known, count, (more - 1) as nat);
    }
}

fn dispatch_name_taken(commands: &Vec<DisplayCommand>, index: usize) -> (res: bool)
    requires
        index < commands.len(),
    ensures
        res == name_taken(command_views(commands@), command_views(commands@)[index as int].name, index as int),
{
    proof {
        commands[index as int].lemma_view();
    }
    let mut i: usize = 0;
    while i < index
        invariant
            i <= index,
            index < commands.len(),
            command_views(commands@)[index as int].name == commands[index as int].name@,
            forall|k: int|
                0 <= k < i ==> (#[trigger] command_views(commands@)[k]).name != command_views(
                    commands@,
                )[index as int].name,
        decreases index - i,
    {
        proof {
            commands[i as int].lemma_view();
        }
        if commands[i].name == commands[index].name {
            assert(command_views(commands@)[i as int].name == command_views(commands@)[index as int].name);
            return true;
        }
        i = i + 1;
    }
    false
}

fn check_names(commands: &Vec<DisplayCommand>) -> (res: Option<SchemaError>)
    ensures
        match res {
            Some(error) => name_clash_from(command_views(commands@), 0) == Some(error@),
            None => name_clash_from(command_views(commands@), 0) is None,
        },
{
    let mut j: usize = 0;
    while j < commands.len()
        invariant
            j <= commands.len(),
            name_clash_from(command_views(commands@), 0) == name_clash_from(command_views(commands@), j as int),
        decreases commands.len() - j,
    {
        if dispatch_name_taken(commands, j) {
            proof {
                commands[j as int].lemma_view();
            }
            return Some(SchemaError::DuplicateSubcommand { name: commands[j].name.clone() });
        }
        j = j + 1;
    }
    None
}

/// Tests the schema invariant on a whole tree: unique flag names and unique
/// dispatch names within every scope, no flags on a choice, and a fallback
/// selection that is one of the scope's subcommands.
pub fn is_well_formed(command: &DisplayCommand) -> (res: bool)
    ensures
        res == command.wf(),
    decreases command,
{
    proof {
        command.lemma_view();
        assert(command@.args =~= flag_views(command.args@));
        assert(command@.subcommands =~= command_views(command.subcommands@));
        if flag_clash_from(command@.args, 0) is None {
            lemma_checked_flags_distinct(command@.args);
        }
        if flags_distinct(command@.args) {
            lemma_distinct_has_no_clash(command@.args, 0);
        }
        if name_clash_from(command@.subcommands, 0) is None {
            lemma_no_name_clash(command@.subcommands, 0);
        }
        if names_distinct(command@.subcommands) {
            lemma_distinct_names_have_no_clash(command@.subcommands, 0);
        }
    }
    if command.choice && command.args.len() > 0 {
        return false;
    }
    if check_flags(&command.args).is_some() {
        return false;
    }
    if check_names(&command.subcommands).is_some() {
        return false;
    }
    match command.default_subcommand {
        Some(d) => {
            if d >= command.subcommands.len() {
                return false;
            }
        },
        None => {},
    }
    let mut i: usize = 0;
    while i < command.subcommands.len()
        invariant
            i <= command.subcommands.len(),
            command@.subcommands.len() == command.subcommands.len(),
            forall|k: int|
                0 <= k < command.subcommands.len() ==> #[trigger] command@.subcommands[k]
                    == command.subcommands[k]@,
            forall|k: int| 0 <= k < i ==> (#[trigger] command@.subcommands[k]).wf(),
        decreases command.subcommands.len() - i,
    {
        if !is_well_formed(&command.subcommands[i]) {
            assert(!command@.subcommands[i as int].wf());
            return false;
        }
        i = i + 1;
    }
    true
}

/// Whether no flag of a scope has the dispatch name of a subcommand of the
/// same scope as its long name, in any scope of the tree. Parsing does not
/// depend on it, since options and positionals differ in kind; the help reads
/// better where it holds.
pub open spec fn names_clear(command: CommandView) -> bool
    decreases command,
{
    &&& forall|i: int, j: int|
        0 <= i < command.args.len() && 0 <= j < command.subcommands.len() ==> (#[trigger] command.args[i]).long_name
            != (#[trigger] command.subcommands[j]).name
    &&& forall|j: int| 0 <= j < command.subcommands.len() ==> names_clear(#[trigger] command.subcommands[j])
}

/// Tests whether the flags and the subcommands of every scope are apart in
/// name: see [`names_clear`].
pub fn has_clear_names(command: &DisplayCommand) -> (res: bool)
    ensures
        res == names_clear(command@),
    decreases command,
{
    proof {
        command.lemma_view();
    }
    let mut i: usize = 0;
    while i < command.args.len()
        invariant
            i <= command.args.len(),
            command@.args.len() == command.args.len(),
            command@.subcommands.len() == command.subcommands.len(),
            forall|k: int| 0 <= k < command.args.len() ==> #[trigger] command@.args[k] == command.args[k]@,
            forall|k: int|
                0 <= k < command.subcommands.len() ==> #[trigger] command@.subcommands[k]
                    == command.subcommands[k]@,
            forall|a: int, b: int|
                0 <= a < i && 0 <= b < command.subcommands.len() ==> (#[trigger] command@.args[a]).long_name != (
                #[trigger] command@.subcommands[b]).name,
        decreases command.args.len() - i,
    {
        proof {
            assert(command@.subcommands =~= command_views(command.subcommands@));
            lemma_find_subcommand(command@.subcommands, command.args[i as int].long_name@, 0);
        }
        match find_command(&command.subcommands, &command.args[i].long_name) {
            Some(j) => {
                assert(command@.args[i as int].long_name == command@.subcommands[j as int].name);
                return false;
            },
            None => {},
        }
        i = i + 1;
    }
    let mut j: usize = 0;
    while j < command.subcommands.len()
        invariant
            j <= command.subcommands.len(),
            command@.subcommands.len() == command.subcommands.len(),
            forall|k: int|
                0 <= k < command.subcommands.len() ==> #[trigger] command@.subcommands[k]
                    == command.subcommands[k]@,
            forall|k: int| 0 <= k < j ==> names_clear(#[trigger] command@.subcommands[k]),
        decreases command.subcommands.len() - j,
    {
        if !has_clear_names(&command.subcommands[j]) {
            assert(!names_clear(command@.subcommands[j as int]));
            return false;
        }
        j = j + 1;
    }
    true
}

fn first_of(slots: &Vec<SubCommandInfo>) -> (res: Option<&SubCommandInfo>)
    ensures
        match res {
            Some(s) => first_slot(slot_views(slots@)) == Some(s@),
            None => first_slot(slot_views(slots@)) is None,
        },
{
    if slots.len() > 0 {
        assert(slot_views(slots@)[0] == slots[0]@);
        Some(&slots[0])
    } else {
        None
    }
}

fn build_scope(name: String, flags: Vec<ArgsInfo>, slots: &Vec<SubCommandInfo>, known: &Vec<DisplayCommand>) -> (res:
    Result<DisplayCommand, SchemaError>)
    ensures
        match res {
            Ok(command) => scope_of(
                name@,
                flag_views(flags@),
                first_slot(slot_views(slots@)),
                command_views(known@),
            ) == Ok::<CommandView, SchemaErrorView>(command@),
            Err(error) => scope_of(
                name@,
                flag_views(flags@),
                first_slot(slot_views(slots@)),
                command_views(known@),
            ) == Err::<CommandView, SchemaErrorView>(error@),
        },
{
    match resolve_slot(first_of(slots), known) {
        Err(error) => Err(error),
        Ok(subcommands) => match check_names(&subcommands) {
            Some(error) => Err(error),
            None => {
                let command = DisplayCommand {
                    name,
                    subcommands,
                    args: flags,
                    usage: String::new(),
                    description: String::new(),
                    choice: false,
                    default_subcommand: None,
                };
                proof {
                    command.lemma_view();
                    assert(command@.subcommands =~= command_views(subcommands@));
                    assert(command@.args =~= flag_views(flags@));
                }
                Ok(command)
            },
        },
    }
}

fn clone_flags(flags: &Vec<ArgsInfo>) -> (res: Vec<ArgsInfo>)
    ensures
        flag_views(res@) == flag_views(flags@),
{
    let mut res: Vec<ArgsInfo> = Vec::new();
    let mut i: usize = 0;
    while i < flags.len()
        invariant
            i <= flags.len(),
            res.len() == i,
            forall|k: int| 0 <= k < i ==> (#[trigger] res[k])@ == flags[k]@,
        decreases flags.len() - i,
    {
        res.push(flags[i].clone());
        i = i + 1;
    }
    assert(flag_views(res@) =~= flag_views(flags@));
    res
}

fn build_variants(variants: &Vec<MacroInfo>, known: &Vec<DisplayCommand>) -> (res: Result<
    Vec<DisplayCommand>,
    SchemaError,
>)
    ensures
        match res {
            Ok(commands) => variant_scopes(macro_views(variants@), command_views(known@), variants.len() as nat)
                == Ok::<Seq<CommandView>, SchemaErrorView>(command_views(commands@)),
            Err(error) => variant_scopes(macro_views(variants@), command_views(known@), variants.len() as nat)
                == Err::<Seq<CommandView>, SchemaErrorView>(error@),
        },
{
    let mut commands: Vec<DisplayCommand> = Vec::new();
    let mut i: usize = 0;
    assert(command_views(commands@) =~= Seq::<CommandView>::empty());
    while i < variants.len()
        invariant
            i <= variants.len(),
            variant_scopes(macro_views(variants@), command_views(known@), i as nat) == Ok::<
                Seq<CommandView>,
                SchemaErrorView,
            >(command_views(commands@)),
        decreases variants.len() - i,
    {
        let ghost before = command_views(commands@);
        assert(macro_views(variants@)[i as int] == variants[i as int]@);
        let name = lowercase_of(variants[i].identifier.as_str());
        let flags = clone_flags(&variants[i].fields);
        match build_scope(name, flags, &variants[i].subcommands, known) {
            Err(error) => {
                assert(variant_scopes(macro_views(variants@), command_views(known@), (i + 1) as nat) == Err::<
                    Seq<CommandView>,
                    SchemaErrorView,
                >(error@));
                proof {
                    lemma_variants_fail_on(
                        macro_views(variants@),
                        command_views(known@),
                        (i + 1) as nat,
                        variants.len() as nat,
                    );
                }
                return Err(error);
            },
            Ok(command) => {
                commands.push(command);
                assert(command_views(commands@) =~= before.push(command@));
            },
        }
        i = i + 1;
    }
    Ok(commands)
}

fn first_default(variants: &Vec<MacroInfo>) -> (res: Option<usize>)
    ensures
        match res {
            Some(i) => first_default_from(macro_views(variants@), 0) == Some(i as int) && i < variants.len(),
            None => first_default_from(macro_views(variants@), 0) is None,
        },
{
    let mut i: usize = 0;
    while i < variants.len()
        invariant
            i <= variants.len(),
            first_default_from(macro_views(variants@), 0) == first_default_from(macro_views(variants@), i as int),
        decreases variants.len() - i,
    {
        if variants[i].default {
            return Some(i);
        }
        i = i + 1;
    }
    None
}

/// Builds the schema of a declaration. `known` holds the schemas of the types
/// that the declaration may name as subcommands: nested scopes are built
/// first. A malformed declaration gives an error and no schema; see [`built`].
pub fn build(declaration: &Declaration, known: &Vec<DisplayCommand>) -> (res: Result<DisplayCommand, SchemaError>)
    ensures
        match res {
            Ok(command) => built(declaration@, command_views(known@)) == Ok::<CommandView, SchemaErrorView>(
                command@,
            ),
            Err(error) => built(declaration@, command_views(known@)) == Err::<CommandView, SchemaErrorView>(
                error@,
            ),
        },
        res is Ok && all_wf(command_views(known@)) ==> res->Ok_0.wf(),
{
    proof {
        if built(declaration@, command_views(known@)) is Ok && all_wf(command_views(known@)) {
            lemma_built_is_wf(declaration@, command_views(known@));
        }
    }
    let info = match generate_parser(declaration) {
        Err(error) => {
            return Err(error);
        },
        Ok(info) => info,
    };
    if declaration.variants.len() == 0 {
        let name = lowercase_of(info.identifier.as_str());
        return build_scope(name, info.flags, &info.subcommands, known);
    }
    let choice = match generate_impl(declaration) {
        Err(error) => {
            return Err(error);
        },
        Ok(choice) => choice,
    };
    match build_variants(&choice.subcommand, known) {
        Err(error) => Err(error),
        Ok(subcommands) => match check_names(&subcommands) {
            Some(error) => Err(error),
            None => {
                let default_subcommand = first_default(&choice.subcommand);
                let command = DisplayCommand {
                    name: lowercase_of(declaration.identifier.as_str()),
                    subcommands,
                    args: Vec::new(),
                    usage: String::new(),
                    description: String::new(),
                    choice: true,
                    default_subcommand,
                };
                proof {
                    command.lemma_view();
                    assert(command@.subcommands =~= command_views(subcommands@));
                    assert(command@.args =~= Seq::<FlagView>::empty());
                }
                Ok(command)
            },
        },
    }
}

} // verus!
