//! The schema model: the commands, subcommands and flags of one command line.
//!
//! A schema is built once and only read afterwards: the parsing engine and the
//! help renderer walk the same tree.

use vstd::prelude::*;
use crate::token::{Token, TokenView};

verus! {

/// The primitive integer types.
#[derive(Clone, Copy, Debug, PartialEq, Eq, Structural)]
pub enum IntegerType {
    I8,
    I16,
    I32,
    I64,
    Isize,
    U8,
    U16,
    U32,
    U64,
    Usize,
}

/// The closed set of value types that a flag can carry.
#[derive(Clone, Copy, Debug, PartialEq, Eq, Structural)]
pub enum ValueType {
    /// `true` or `false`.
    Boolean,
    /// Any text.
    Text,
    /// An integer within the range of the given primitive type.
    Integer(IntegerType),
}

/// One bindable option of a command.
#[derive(Debug, PartialEq, Eq)]
pub struct DisplayArg {
    /// Whether an absent value resolves to the zero value of the type instead
    /// of failing the parse.
    pub optional: bool,
    /// The name matched after `--`.
    pub long_name: String,
    /// The single character matched after `-`, if there is one.
    pub short_name: Option<char>,
    /// Display-only text; empty when there is none.
    pub description: String,
    /// The slot that the parsed value is written into.
    pub field_name: String,
    /// The type that the raw value is converted to.
    pub value_type: ValueType,
}

/// The mathematical value of a [`DisplayArg`].
pub struct FlagView {
    pub optional: bool,
    pub long_name: Seq<char>,
    pub short_name: Option<char>,
    pub description: Seq<char>,
    pub field_name: Seq<char>,
    pub value_type: ValueType,
}

impl View for DisplayArg {
    type V = FlagView;

    open spec fn view(&self) -> FlagView {
        FlagView {
            optional: self.optional,
            long_name: self.long_name@,
            short_name: self.short_name,
            description: self.description@,
            field_name: self.field_name@,
            value_type: self.value_type,
        }
    }
}

impl Clone for DisplayArg {
    fn clone(&self) -> (res: DisplayArg)
        ensures
            res@ == self@,
    {
        DisplayArg {
            optional: self.optional,
            long_name: self.long_name.clone(),
            short_name: self.short_name,
            description: self.description.clone(),
            field_name: self.field_name.clone(),
            value_type: self.value_type,
        }
    }
}

/// One parseable scope: the program itself or a subcommand.
///
/// `subcommands` is the mapping from dispatch name to nested command: the
/// dispatch name of an entry is its `name`.
#[derive(Debug, PartialEq, Eq)]
pub struct DisplayCommand {
    /// Matched against positional tokens and shown in the help.
    pub name: String,
    /// The nested commands, in display order.
    pub subcommands: Vec<DisplayCommand>,
    /// The flags, in display order.
    pub args: Vec<DisplayArg>,
    /// Display-only text; empty when there is none.
    pub usage: String,
    /// Display-only text; empty when there is none.
    pub description: String,
    /// Whether the scope is a choice among its subcommands, so that a parse
    /// that selects none falls back to the default one.
    pub choice: bool,
    /// The position in `subcommands` of the fallback selection.
    pub default_subcommand: Option<usize>,
}

/// The mathematical value of a [`DisplayCommand`].
pub struct CommandView {
    pub name: Seq<char>,
    pub subcommands: Seq<CommandView>,
    pub args: Seq<FlagView>,
    pub usage: Seq<char>,
    pub description: Seq<char>,
    pub choice: bool,
    pub default_subcommand: Option<int>,
}

impl View for DisplayCommand {
    type V = CommandView;

    open spec fn view(&self) -> CommandView
        decreases self, self.subcommands.len() + 1,
    {
        CommandView {
            name: self.name@,
            subcommands: self.subcommand_views(self.subcommands.len() as nat),
            args: Seq::new(self.args.len() as nat, |i: int| self.args[i]@),
            usage: self.usage@,
            description: self.description@,
            choice: self.choice,
            default_subcommand: match self.default_subcommand {
                Some(d) => Some(d as int),
                None => None,
            },
        }
    }
}

/// Whether an option token names this flag: a short option by the flag's
/// short name, a long option by its long name. A positional token names none.
pub open spec fn flag_matches(flag: FlagView, token: TokenView) -> bool {
    match token {
        TokenView::Short(c) => flag.short_name == Some(c),
        TokenView::Long(s) => flag.long_name == s,
        TokenView::Value(_) => false,
    }
}

/// The position of the first flag from `start` on that `token` names.
pub open spec fn find_flag_from(args: Seq<FlagView>, token: TokenView, start: int) -> Option<int>
    decreases args.len() - start,
{
    if start < 0 || start >= args.len() {
        None
    } else if flag_matches(args[start], token) {
        Some(start)
    } else {
        find_flag_from(args, token, start + 1)
    }
}

/// The position of the first subcommand from `start` on whose dispatch name is
/// exactly `name`.
pub open spec fn find_subcommand_from(subcommands: Seq<CommandView>, name: Seq<char>, start: int) -> Option<int>
    decreases subcommands.len() - start,
{
    if start < 0 || start >= subcommands.len() {
        None
    } else if subcommands[start].name == name {
        Some(start)
    } else {
        find_subcommand_from(subcommands, name, start + 1)
    }
}

/// No two flags share a long name, and no two share a short name.
pub open spec fn flags_distinct(args: Seq<FlagView>) -> bool {
    &&& forall|i: int, j: int|
        0 <= i < j < args.len() ==> (#[trigger] args[i]).long_name != (#[trigger] args[j]).long_name
    &&& forall|i: int, j: int|
        0 <= i < j < args.len() && (#[trigger] args[i]).short_name is Some
            ==> args[i].short_name != (#[trigger] args[j]).short_name
}

/// No two subcommands share a dispatch name.
pub open spec fn names_distinct(subcommands: Seq<CommandView>) -> bool {
    forall|i: int, j: int|
        0 <= i < j < subcommands.len() ==> (#[trigger] subcommands[i]).name != (#[trigger] subcommands[j]).name
}

impl CommandView {
    /// The invariant of a schema: within every scope of the tree the flag
    /// names are unique, the dispatch names are unique, a choice among
    /// subcommands has no flags of its own, and a fallback selection is one
    /// of the scope's subcommands.
    pub open spec fn wf(self) -> bool
        decreases self,
    {
        &&& flags_distinct(self.args)
        &&& self.choice ==> self.args.len() == 0
        &&& names_distinct(self.subcommands)
        &&& (self.default_subcommand matches Some(d) ==> 0 <= d < self.subcommands.len())
        &&& forall|i: int| 0 <= i < self.subcommands.len() ==> (#[trigger] self.subcommands[i]).wf()
    }

    /// The flag that `token` names.
    pub open spec fn find_flag(self, token: TokenView) -> Option<int> {
        find_flag_from(self.args, token, 0)
    }

    /// The subcommand that `name` dispatches to.
    pub open spec fn find_subcommand(self, name: Seq<char>) -> Option<int> {
        find_subcommand_from(self.subcommands, name, 0)
    }
}

/// A found flag lies in the sequence and is named by the token; none before it is.
pub proof fn lemma_find_flag(args: Seq<FlagView>, token: TokenView, start: int)
    requires
        0 <= start,
    ensures
        match find_flag_from(args, token, start) {
            Some(i) => start <= i < args.len() && flag_matches(args[i], token)
                && forall|j: int| start <= j < i ==> !flag_matches(#[trigger] args[j], token),
            None => forall|j: int| start <= j < args.len() ==> !flag_matches(#[trigger] args[j], token),
        },
    decreases args.len() - start,
{
    if start < args.len() && !flag_matches(args[start], token) {
        lemma_find_flag(args, token, start + 1);
    }
}

/// A found subcommand lies in the sequence and has the name; none before it has.
pub proof fn lemma_find_subcommand(subcommands: Seq<CommandView>, name: Seq<char>, start: int)
    requires
        0 <= start,
    ensures
        match find_subcommand_from(subcommands, name, start) {
            Some(i) => start <= i < subcommands.len() && subcommands[i].name == name
                && forall|j: int| start <= j < i ==> (#[trigger] subcommands[j]).name != name,
            None => forall|j: int| start <= j < subcommands.len() ==> (#[trigger] subcommands[j]).name != name,
        },
    decreases subcommands.len() - start,
{
    if start < subcommands.len() && subcommands[start].name != name {
        lemma_find_subcommand(subcommands, name, start + 1);
    }
}

/// The views of a run of commands, in order.
pub open spec fn command_views(commands: Seq<DisplayCommand>) -> Seq<CommandView> {
    Seq::new(commands.len(), |i: int| commands[i]@)
}

/// Looks up the command with the dispatch name `name`, by exact match.
pub fn find_command(commands: &Vec<DisplayCommand>, name: &String) -> (res: Option<usize>)
    ensures
        match res {
            Some(i) => find_subcommand_from(command_views(commands@), name@, 0) == Some(i as int) && i
                < commands.len(),
            None => find_subcommand_from(command_views(commands@), name@, 0) is None,
        },
{
    let mut i: usize = 0;
    while i < commands.len()
        invariant
            i <= commands.len(),
            find_subcommand_from(command_views(commands@), name@, 0) == find_subcommand_from(
                command_views(commands@),
                name@,
                i as int,
            ),
        decreases commands.len() - i,
    {
        proof {
            commands[i as int].lemma_view();
        }
        if commands[i].name == *name {
            return Some(i);
        }
        i = i + 1;
    }
    None
}

impl DisplayArg {
    /// Whether `token` names this flag.
    pub fn matches(&self, token: &Token) -> (res: bool)
        ensures
            res == flag_matches(self@, token@),
    {
        match token {
            Token::Short(c) => match self.short_name {
                Some(s) => s == *c,
                None => false,
            },
            Token::Long(s) => self.long_name == *s,
            Token::Value(_) => false,
        }
    }
}

impl DisplayCommand {
    /// The views of the first `count` subcommands, in order.
    pub open spec fn subcommand_views(&self, count: nat) -> Seq<CommandView>
        decreases self, count,
    {
        if count == 0 || count > self.subcommands.len() {
            Seq::empty()
        } else {
            self.subcommand_views((count - 1) as nat).push(self.subcommands[count - 1]@)
        }
    }

    /// The schema invariant, see [`CommandView::wf`].
    pub open spec fn wf(&self) -> bool {
        self@.wf()
    }

    /// The view of a command is made of the views of its parts.
    pub proof fn lemma_view(&self)
        ensures
            self@.name == self.name@,
            self@.usage == self.usage@,
            self@.description == self.description@,
            self@.choice == self.choice,
            self@.args.len() == self.args.len(),
            self@.subcommands.len() == self.subcommands.len(),
            forall|i: int| 0 <= i < self.args.len() ==> #[trigger] self@.args[i] == self.args[i]@,
            forall|i: int|
                0 <= i < self.subcommands.len() ==> #[trigger] self@.subcommands[i] == self.subcommands[i]@,
            self.default_subcommand is None <==> self@.default_subcommand is None,
            self.default_subcommand matches Some(d) ==> self@.default_subcommand == Some(d as int),
    {
        self.lemma_subcommand_views(self.subcommands.len() as nat);
    }

    proof fn lemma_subcommand_views(&self, count: nat)
        requires
            count <= self.subcommands.len(),
        ensures
            self.subcommand_views(count).len() == count,
            forall|i: int| 0 <= i < count ==> #[trigger] self.subcommand_views(count)[i] == self.subcommands[i]@,
        decreases count,
    {
        if count > 0 {
            self.lemma_subcommand_views((count - 1) as nat);
            assert(self.subcommand_views(count) == self.subcommand_views((count - 1) as nat).push(self.subcommands[count - 1]@));
        } else {
            assert(self.subcommand_views(0) =~= Seq::<CommandView>::empty());
        }
    }

    /// Looks up the flag that an option token names, within this scope only.
    pub fn find_flag(&self, token: &Token) -> (res: Option<usize>)
        ensures
            match res {
                Some(i) => self@.find_flag(token@) == Some(i as int) && i < self.args.len(),
                None => self@.find_flag(token@) is None,
            },
    {
        let mut i: usize = 0;
        while i < self.args.len()
            invariant
                i <= self.args.len(),
                self@.args.len() == self.args.len(),
                find_flag_from(self@.args, token@, 0) == find_flag_from(self@.args, token@, i as int),
            decreases self.args.len() - i,
        {
            if self.args[i].matches(token) {
                return Some(i);
            }
            i = i + 1;
        }
        None
    }

    /// Looks up the subcommand with the dispatch name `name`, by exact match.
    pub fn find_subcommand(&self, name: &String) -> (res: Option<usize>)
        ensures
            match res {
                Some(i) => self@.find_subcommand(name@) == Some(i as int) && i < self.subcommands.len(),
                None => self@.find_subcommand(name@) is None,
            },
    {
        proof {
            self.lemma_view();
            assert(self@.subcommands =~= command_views(self.subcommands@));
        }
        find_command(&self.subcommands, name)
    }

    /// A copy of the whole tree.
    pub fn duplicate(&self) -> (res: DisplayCommand)
        ensures
            res@ == self@,
        decreases self,
    {
        let mut subcommands: Vec<DisplayCommand> = Vec::new();
        let mut i: usize = 0;
        while i < self.subcommands.len()
            invariant
                i <= self.subcommands.len(),
                subcommands.len() == i,
                forall|k: int| 0 <= k < i ==> (#[trigger] subcommands[k])@ == self.subcommands[k]@,
            decreases self.subcommands.len() - i,
        {
            subcommands.push(self.subcommands[i].duplicate());
            i = i + 1;
        }
        let mut args: Vec<DisplayArg> = Vec::new();
        let mut j: usize = 0;
        while j < self.args.len()
            invariant
                j <= self.args.len(),
                args.len() == j,
                forall|k: int| 0 <= k < j ==> (#[trigger] args[k])@ == self.args[k]@,
            decreases self.args.len() - j,
        {
            args.push(self.args[j].clone());
            j = j + 1;
        }
        let res = DisplayCommand {
            name: self.name.clone(),
            subcommands,
            args,
            usage: self.usage.clone(),
            description: self.description.clone(),
            choice: self.choice,
            default_subcommand: self.default_subcommand,
        };
        proof {
            res.lemma_view();
            self.lemma_view();
            assert(res@.subcommands =~= self@.subcommands);
            assert(res@.args =~= self@.args);
        }
        res
    }
}

} // verus!
