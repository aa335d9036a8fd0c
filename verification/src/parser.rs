//! The first step of schema building: the fields of one declaration are
//! sorted into flags and subcommand slots, and the flag names are resolved.

use vstd::prelude::*;
use crate::declaration::{field_views, Declaration, DeclarationView, FieldDecl, FieldDeclView};
use crate::error::{SchemaError, SchemaErrorView};
use crate::schema::{flags_distinct, DisplayArg, FlagView, IntegerType, ValueType};
use crate::text::{is_word, kebab_lower, to_kebab_lower};

verus! {

/// A flag as the builder resolves it: the record that the engine and the help
/// renderer read.
pub type ArgsInfo = DisplayArg;

/// A subcommand slot: a field, or a variant, that stands for a nested command.
#[derive(Debug, PartialEq, Eq)]
pub struct SubCommandInfo {
    /// The identifier of the field or of the variant.
    pub name: String,
    /// The identifier of the type that declares the nested command.
    pub ty: String,
}

/// The mathematical value of a [`SubCommandInfo`].
pub struct SlotView {
    pub name: Seq<char>,
    pub ty: Seq<char>,
}

impl View for SubCommandInfo {
    type V = SlotView;

    open spec fn view(&self) -> SlotView {
        SlotView { name: self.name@, ty: self.ty@ }
    }
}

/// What one declaration comes to, before its slots are resolved.
#[derive(Debug, PartialEq, Eq)]
pub struct ParserMacroInfo {
    /// The identifier of the declared type.
    pub identifier: String,
    /// The subcommand slots, in declaration order.
    pub subcommands: Vec<SubCommandInfo>,
    /// The flags, in declaration order.
    pub flags: Vec<ArgsInfo>,
    /// Whether the declaration brings its own help.
    pub custom_help: bool,
    /// Whether the declaration brings its own parsing.
    pub custom_parse: bool,
}

/// The mathematical value of a [`ParserMacroInfo`].
pub struct ParserMacroInfoView {
    pub identifier: Seq<char>,
    pub subcommands: Seq<SlotView>,
    pub flags: Seq<FlagView>,
    pub custom_help: bool,
    pub custom_parse: bool,
}

/// The views of a run of flags, in order.
pub open spec fn flag_views(flags: Seq<DisplayArg>) -> Seq<FlagView> {
    Seq::new(flags.len(), |i: int| flags[i]@)
}

/// The views of a run of slots, in order.
pub open spec fn slot_views(slots: Seq<SubCommandInfo>) -> Seq<SlotView> {
    Seq::new(slots.len(), |i: int| slots[i]@)
}

impl View for ParserMacroInfo {
    type V = ParserMacroInfoView;

    open spec fn view(&self) -> ParserMacroInfoView {
        ParserMacroInfoView {
            identifier: self.identifier@,
            subcommands: slot_views(self.subcommands@),
            flags: flag_views(self.flags@),
            custom_help: self.custom_help,
            custom_parse: self.custom_parse,
        }
    }
}

/// The primitive integer type of the given name, if the name is one.
pub open spec fn integer_type_of(ty: Seq<char>) -> Option<IntegerType> {
    if ty == seq!['i', '8'] {
        Some(IntegerType::I8)
    } else if ty == seq!['i', '1', '6'] {
        Some(IntegerType::I16)
    } else if ty == seq!['i', '3', '2'] {
        Some(IntegerType::I32)
    } else if ty == seq!['i', '6', '4'] {
        Some(IntegerType::I64)
    } else if ty == seq!['i', 's', 'i', 'z', 'e'] {
        Some(IntegerType::Isize)
    } else if ty == seq!['u', '8'] {
        Some(IntegerType::U8)
    } else if ty == seq!['u', '1', '6'] {
        Some(IntegerType::U16)
    } else if ty == seq!['u', '3', '2'] {
        Some(IntegerType::U32)
    } else if ty == seq!['u', '6', '4'] {
        Some(IntegerType::U64)
    } else if ty == seq!['u', 's', 'i', 'z', 'e'] {
        Some(IntegerType::Usize)
    } else {
        None
    }
}

/// The value type of a declared type: `bool` is boolean, a primitive integer
/// type is an integer of that type, every other type is text.
pub open spec fn value_type_of(ty: Seq<char>) -> ValueType {
    if ty == seq!['b', 'o', 'o', 'l'] {
        ValueType::Boolean
    } else {
        match integer_type_of(ty) {
            Some(kind) => ValueType::Integer(kind),
            None => ValueType::Text,
        }
    }
}

/// The flag that an unmarked field becomes: the long name is the explicit one,
/// or else the identifier in kebab and lower form; the short name is the
/// explicit one or none; the flag has a default unless the field is required.
pub open spec fn flag_of(field: FieldDeclView) -> FlagView {
    FlagView {
        optional: !field.required,
        long_name: match field.long {
            Some(l) => l,
            None => kebab_lower(field.identifier),
        },
        short_name: field.short,
        description: field.description,
        field_name: field.identifier,
        value_type: value_type_of(field.ty),
    }
}

/// The flags of the first `count` fields: one for each unmarked field, in order.
pub open spec fn flags_of(fields: Seq<FieldDeclView>, count: nat) -> Seq<FlagView>
    decreases count,
{
    if count == 0 || count > fields.len() {
        Seq::empty()
    } else if fields[count - 1].subcommand {
        flags_of(fields, (count - 1) as nat)
    } else {
        flags_of(fields, (count - 1) as nat).push(flag_of(fields[count - 1]))
    }
}

/// The slots of the first `count` fields: one for each marked field, in order.
pub open spec fn slots_of(fields: Seq<FieldDeclView>, count: nat) -> Seq<SlotView>
    decreases count,
{
    if count == 0 || count > fields.len() {
        Seq::empty()
    } else if fields[count - 1].subcommand {
        slots_of(fields, (count - 1) as nat).push(
            SlotView { name: fields[count - 1].identifier, ty: fields[count - 1].ty },
        )
    } else {
        slots_of(fields, (count - 1) as nat)
    }
}

/// Whether one of the first `before` flags has the long name.
pub open spec fn long_taken(flags: Seq<FlagView>, name: Seq<char>, before: int) -> bool {
    exists|i: int| 0 <= i < before && i < flags.len() && (#[trigger] flags[i]).long_name == name
}

/// Whether one of the first `before` flags has the short name.
pub open spec fn short_taken(flags: Seq<FlagView>, name: char, before: int) -> bool {
    exists|i: int| 0 <= i < before && i < flags.len() && (#[trigger] flags[i]).short_name == Some(name)
}

/// The first clash of names among the flags from `start` on: the first flag
/// whose long name, or else whose short name, an earlier flag has already.
pub open spec fn flag_clash_from(flags: Seq<FlagView>, start: int) -> Option<SchemaErrorView>
    decreases flags.len() - start,
{
    if start < 0 || start >= flags.len() {
        None
    } else if long_taken(flags, flags[start].long_name, start) {
        Some(SchemaErrorView::DuplicateLongName { name: flags[start].long_name })
    } else if flags[start].short_name is Some && short_taken(flags, flags[start].short_name->0, start) {
        Some(SchemaErrorView::DuplicateShortName { short: flags[start].short_name->0 })
    } else {
        flag_clash_from(flags, start + 1)
    }
}

/// The fault of a field set with more than one slot: its second slot.
pub open spec fn second_slot(slots: Seq<SlotView>) -> Option<SchemaErrorView> {
    if slots.len() > 1 {
        Some(SchemaErrorView::SecondSubcommand { field: slots[1].name })
    } else {
        None
    }
}

/// Why a field set is refused, if it is: it has a second field marked as a
/// subcommand slot, or else two of its flags clash.
pub open spec fn field_set_fault(fields: Seq<FieldDeclView>) -> Option<SchemaErrorView> {
    match second_slot(slots_of(fields, fields.len())) {
        Some(error) => Some(error),
        None => flag_clash_from(flags_of(fields, fields.len()), 0),
    }
}

/// The slots of a choice: one for each variant, each of the declared type.
pub open spec fn variant_slots(declaration: DeclarationView) -> Seq<SlotView> {
    Seq::new(
        declaration.variants.len(),
        |i: int| SlotView { name: declaration.variants[i].identifier, ty: declaration.identifier },
    )
}

/// What a declaration comes to. One with both fields and variants is refused.
/// A choice gives one slot for each variant and no flag. A struct of fields
/// gives a flag for each unmarked field and a slot for its marked field; it
/// is refused where it has a second marked field or where two of its flags
/// clash.
pub open spec fn classified(declaration: DeclarationView) -> Result<ParserMacroInfoView, SchemaErrorView> {
    if declaration.fields.len() > 0 && declaration.variants.len() > 0 {
        Err(SchemaErrorView::MixedShape { identifier: declaration.identifier })
    } else if declaration.variants.len() > 0 {
        Ok(
            ParserMacroInfoView {
                identifier: declaration.identifier,
                subcommands: variant_slots(declaration),
                flags: Seq::empty(),
                custom_help: false,
                custom_parse: false,
            },
        )
    } else {
        match field_set_fault(declaration.fields) {
            Some(error) => Err(error),
            None => Ok(
                ParserMacroInfoView {
                    identifier: declaration.identifier,
                    subcommands: slots_of(declaration.fields, declaration.fields.len()),
                    flags: flags_of(declaration.fields, declaration.fields.len()),
                    custom_help: false,
                    custom_parse: false,
                },
            ),
        }
    }
}

/// Flags without a clash have unique long names and unique short names.
pub proof fn lemma_no_clash_is_distinct(flags: Seq<FlagView>, start: int)
    requires
        0 <= start,
        flag_clash_from(flags, start) is None,
    ensures
        forall|i: int, j: int|
            0 <= i < j < flags.len() && start <= j ==> (#[trigger] flags[i]).long_name != (
            #[trigger] flags[j]).long_name,
        forall|i: int, j: int|
            0 <= i < j < flags.len() && start <= j && (#[trigger] flags[i]).short_name is Some
                ==> flags[i].short_name != (#[trigger] flags[j]).short_name,
    decreases flags.len() - start,
{
    if start < flags.len() {
        lemma_no_clash_is_distinct(flags, start + 1);
        assert(!long_taken(flags, flags[start].long_name, start));
        assert forall|i: int| 0 <= i < start implies (#[trigger] flags[i]).long_name != flags[start].long_name by {
        }
        assert forall|i: int| 0 <= i < start && (#[trigger] flags[i]).short_name is Some implies flags[i].short_name
            != flags[start].short_name by {
            if flags[start].short_name is Some {
                assert(!short_taken(flags, flags[start].short_name->0, start));
            }
        }
    }
}

/// Flags with unique names have no clash.
pub proof fn lemma_distinct_has_no_clash(flags: Seq<FlagView>, start: int)
    requires
        0 <= start,
        flags_distinct(flags),
    ensures
        flag_clash_from(flags, start) is None,
    decreases flags.len() - start,
{
    if start < flags.len() {
        lemma_distinct_has_no_clash(flags, start + 1);
    }
}

/// Flags without a clash from the first one on are distinct.
pub proof fn lemma_checked_flags_distinct(flags: Seq<FlagView>)
    requires
        flag_clash_from(flags, 0) is None,
    ensures
        flags_distinct(flags),
{
    lemma_no_clash_is_distinct(flags, 0);
}

impl ValueType {
    /// The value type of a declared type, by the type's name.
    pub fn from_type_name(ty: &String) -> (res: ValueType)
        ensures
            res == value_type_of(ty@),
    {
        proof {
            reveal_strlit("bool");
            reveal_strlit("i8");
            reveal_strlit("i16");
            reveal_strlit("i32");
            reveal_strlit("i64");
            reveal_strlit("isize");
            reveal_strlit("u8");
            reveal_strlit("u16");
            reveal_strlit("u32");
            reveal_strlit("u64");
            reveal_strlit("usize");
            assert("bool"@ =~= seq!['b', 'o', 'o', 'l']);
            assert("i8"@ =~= seq!['i', '8']);
            assert("i16"@ =~= seq!['i', '1', '6']);
            assert("i32"@ =~= seq!['i', '3', '2']);
            assert("i64"@ =~= seq!['i', '6', '4']);
            assert("isize"@ =~= seq!['i', 's', 'i', 'z', 'e']);
            assert("u8"@ =~= seq!['u', '8']);
            assert("u16"@ =~= seq!['u', '1', '6']);
            assert("u32"@ =~= seq!['u', '3', '2']);
            assert("u64"@ =~= seq!['u', '6', '4']);
            assert("usize"@ =~= seq!['u', 's', 'i', 'z', 'e']);
        }
        if is_word(ty, "bool") {
            ValueType::Boolean
        } else if is_word(ty, "i8") {
            ValueType::Integer(IntegerType::I8)
        } else if is_word(ty, "i16") {
            ValueType::Integer(IntegerType::I16)
        } else if is_word(ty, "i32") {
            ValueType::Integer(IntegerType::I32)
        } else if is_word(ty, "i64") {
            ValueType::Integer(IntegerType::I64)
        } else if is_word(ty, "isize") {
            ValueType::Integer(IntegerType::Isize)
        } else if is_word(ty, "u8") {
            ValueType::Integer(IntegerType::U8)
        } else if is_word(ty, "u16") {
            ValueType::Integer(IntegerType::U16)
        } else if is_word(ty, "u32") {
            ValueType::Integer(IntegerType::U32)
        } else if is_word(ty, "u64") {
            ValueType::Integer(IntegerType::U64)
        } else if is_word(ty, "usize") {
            ValueType::Integer(IntegerType::Usize)
        } else {
            ValueType::Text
        }
    }
}

/// Resolves one unmarked field into a flag.
pub fn flag_from_field(field: &FieldDecl) -> (res: ArgsInfo)
    ensures
        res@ == flag_of(field@),
{
    let long_name = match &field.long {
        Some(l) => l.clone(),
        None => to_kebab_lower(field.identifier.as_str()),
    };
    DisplayArg {
        optional: !field.required,
        long_name,
        short_name: field.short,
        description: field.description.clone(),
        field_name: field.identifier.clone(),
        value_type: ValueType::from_type_name(&field.ty),
    }
}

/// The flags of a field set: one for each unmarked field, in order.
pub fn collect_flags(fields: &Vec<FieldDecl>) -> (res: Vec<ArgsInfo>)
    ensures
        flag_views(res@) == flags_of(field_views(fields@), fields.len() as nat),
{
    let mut flags: Vec<ArgsInfo> = Vec::new();
    let mut i: usize = 0;
    while i < fields.len()
        invariant
            i <= fields.len(),
            flag_views(flags@) == flags_of(field_views(fields@), i as nat),
        decreases fields.len() - i,
    {
        let ghost before = flag_views(flags@);
        if !fields[i].subcommand {
            flags.push(flag_from_field(&fields[i]));
            assert(flag_views(flags@) =~= before.push(flag_of(field_views(fields@)[i as int])));
        }
        i = i + 1;
    }
    flags
}

/// The slots of a field set: one for each marked field, in order.
pub fn collect_slots(fields: &Vec<FieldDecl>) -> (res: Vec<SubCommandInfo>)
    ensures
        slot_views(res@) == slots_of(field_views(fields@), fields.len() as nat),
{
    let mut slots: Vec<SubCommandInfo> = Vec::new();
    let mut i: usize = 0;
    while i < fields.len()
        invariant
            i <= fields.len(),
            slot_views(slots@) == slots_of(field_views(fields@), i as nat),
        decreases fields.len() - i,
    {
        let ghost before = slot_views(slots@);
        if fields[i].subcommand {
            slots.push(SubCommandInfo { name: fields[i].identifier.clone(), ty: fields[i].ty.clone() });
            assert(slot_views(slots@) =~= before.push(
                SlotView { name: field_views(fields@)[i as int].identifier, ty: field_views(fields@)[i as int].ty },
            ));
        }
        i = i + 1;
    }
    slots
}

fn long_name_taken(flags: &Vec<ArgsInfo>, index: usize) -> (res: bool)
    requires
        index < flags.len(),
    ensures
        res == long_taken(flag_views(flags@), flag_views(flags@)[index as int].long_name, index as int),
{
    let mut i: usize = 0;
    while i < index
        invariant
            i <= index,
            index < flags.len(),
            forall|k: int| 0 <= k < i ==> (#[trigger] flag_views(flags@)[k]).long_name != flag_views(
                flags@,
            )[index as int].long_name,
        decreases index - i,
    {
        if flags[i].long_name == flags[index].long_name {
            assert(flag_views(flags@)[i as int].long_name == flag_views(flags@)[index as int].long_name);
            return true;
        }
        i = i + 1;
    }
    false
}

fn short_name_taken(flags: &Vec<ArgsInfo>, name: char, index: usize) -> (res: bool)
    requires
        index < flags.len(),
    ensures
        res == short_taken(flag_views(flags@), name, index as int),
{
    let mut i: usize = 0;
    while i < index
        invariant
            i <= index,
            index < flags.len(),
            forall|k: int| 0 <= k < i ==> (#[trigger] flag_views(flags@)[k]).short_name != Some(name),
        decreases index - i,
    {
        match flags[i].short_name {
            Some(c) => {
                if c == name {
                    assert(flag_views(flags@)[i as int].short_name == Some(name));
                    return true;
                }
            },
            None => {},
        }
        i = i + 1;
    }
    false
}

/// Looks for two flags with one name: the first flag, in order, whose long
/// name or else whose short name an earlier flag has.
pub fn check_flags(flags: &Vec<ArgsInfo>) -> (res: Option<SchemaError>)
    ensures
        match res {
            Some(error) => flag_clash_from(flag_views(flags@), 0) == Some(error@),
            None => flag_clash_from(flag_views(flags@), 0) is None,
        },
{
    let mut j: usize = 0;
    while j < flags.len()
        invariant
            j <= flags.len(),
            flag_clash_from(flag_views(flags@), 0) == flag_clash_from(flag_views(flags@), j as int),
        decreases flags.len() - j,
    {
        if long_name_taken(flags, j) {
            return Some(SchemaError::DuplicateLongName { name: flags[j].long_name.clone() });
        }
        match flags[j].short_name {
            Some(c) => {
                if short_name_taken(flags, c, j) {
                    return Some(SchemaError::DuplicateShortName { short: c });
                }
            },
            None => {},
        }
        j = j + 1;
    }
    None
}

/// Tests a field set, sorted into flags and slots: see [`field_set_fault`].
pub fn check_field_set(flags: &Vec<ArgsInfo>, slots: &Vec<SubCommandInfo>) -> (res: Option<SchemaError>)
    ensures
        match res {
            Some(error) => Some(error@) == (match second_slot(slot_views(slots@)) {
                Some(fault) => Some(fault),
                None => flag_clash_from(flag_views(flags@), 0),
            }),
            None => second_slot(slot_views(slots@)) is None && flag_clash_from(flag_views(flags@), 0) is None,
        },
{
    if slots.len() > 1 {
        assert(slot_views(slots@)[1] == slots[1]@);
        return Some(SchemaError::SecondSubcommand { field: slots[1].name.clone() });
    }
    check_flags(flags)
}

/// Sorts the fields of a declaration into flags and subcommand slots and
/// resolves the flag names; see [`classified`].
pub fn generate_parser(declaration: &Declaration) -> (res: Result<ParserMacroInfo, SchemaError>)
    ensures
        match res {
            Ok(info) => classified(declaration@) == Ok::<ParserMacroInfoView, SchemaErrorView>(info@),
            Err(error) => classified(declaration@) == Err::<ParserMacroInfoView, SchemaErrorView>(error@),
        },
{
    if declaration.fields.len() > 0 && declaration.variants.len() > 0 {
        return Err(SchemaError::MixedShape { identifier: declaration.identifier.clone() });
    }
    if declaration.variants.len() > 0 {
        let mut slots: Vec<SubCommandInfo> = Vec::new();
        let mut i: usize = 0;
        while i < declaration.variants.len()
            invariant
                i <= declaration.variants.len(),
                slots.len() == i,
                forall|k: int|
                    0 <= k < i ==> (#[trigger] slots[k])@ == (SlotView {
                        name: declaration.variants[k].identifier@,
                        ty: declaration.identifier@,
                    }),
            decreases declaration.variants.len() - i,
        {
            slots.push(
                SubCommandInfo {
                    name: declaration.variants[i].identifier.clone(),
                    ty: declaration.identifier.clone(),
                },
            );
            i = i + 1;
        }
        let info = ParserMacroInfo {
            identifier: declaration.identifier.clone(),
            subcommands: slots,
            flags: Vec::new(),
            custom_help: false,
            custom_parse: false,
        };
        assert(info@.subcommands =~= variant_slots(declaration@));
        assert(info@.flags =~= Seq::<FlagView>::empty());
        return Ok(info);
    }
    let flags = collect_flags(&declaration.fields);
    let slots = collect_slots(&declaration.fields);
    match check_field_set(&flags, &slots) {
        Some(error) => Err(error),
        None => {
            Ok(
                ParserMacroInfo {
                    identifier: declaration.identifier.clone(),
                    subcommands: slots,
                    flags,
                    custom_help: false,
                    custom_parse: false,
                },
            )
        },
    }
}

} // verus!
