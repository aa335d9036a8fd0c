//! The variants of a choice: each variant is a nested field set of its own.

use vstd::prelude::*;
use crate::declaration::{Declaration, DeclarationView, VariantDecl, VariantDeclView};
use crate::error::{SchemaError, SchemaErrorView};
use crate::parser::{
    check_field_set, collect_flags, collect_slots, field_set_fault, flag_views, flags_of, slot_views,
    slots_of, ArgsInfo, SlotView, SubCommandInfo,
};
use crate::schema::FlagView;

verus! {

/// One variant of a choice, with its fields sorted into flags and slots.
#[derive(Debug, PartialEq, Eq)]
pub struct MacroInfo {
    /// The identifier of the variant.
    pub identifier: String,
    /// The flags of the variant, in declaration order.
    pub fields: Vec<ArgsInfo>,
    /// The subcommand slots of the variant, in declaration order.
    pub subcommands: Vec<SubCommandInfo>,
    /// Whether the variant is the default selection.
    pub default: bool,
}

/// The mathematical value of a [`MacroInfo`].
pub struct MacroInfoView {
    pub identifier: Seq<char>,
    pub fields: Seq<FlagView>,
    pub subcommands: Seq<SlotView>,
    pub default: bool,
}

impl View for MacroInfo {
    type V = MacroInfoView;

    open spec fn view(&self) -> MacroInfoView {
        MacroInfoView {
            identifier: self.identifier@,
            fields: flag_views(self.fields@),
            subcommands: slot_views(self.subcommands@),
            default: self.default,
        }
    }
}

/// What a choice comes to: its variants, in declaration order.
#[derive(Debug, PartialEq, Eq)]
pub struct SubCommandMacroInfo {
    /// The identifier of the declared type.
    pub identifier: String,
    /// The variants.
    pub subcommand: Vec<MacroInfo>,
}

/// The mathematical value of a [`SubCommandMacroInfo`].
pub struct SubCommandMacroInfoView {
    pub identifier: Seq<char>,
    pub subcommand: Seq<MacroInfoView>,
}

/// The views of a run of variants, in order.
pub open spec fn macro_views(variants: Seq<MacroInfo>) -> Seq<MacroInfoView> {
    Seq::new(variants.len(), |i: int| variants[i]@)
}

impl View for SubCommandMacroInfo {
    type V = SubCommandMacroInfoView;

    open spec fn view(&self) -> SubCommandMacroInfoView {
        SubCommandMacroInfoView { identifier: self.identifier@, subcommand: macro_views(self.subcommand@) }
    }
}

/// What one variant comes to: a flag for each unmarked field and a slot for
/// its marked field.
pub open spec fn variant_info(variant: VariantDeclView) -> MacroInfoView {
    MacroInfoView {
        identifier: variant.identifier,
        fields: flags_of(variant.fields, variant.fields.len()),
        subcommands: slots_of(variant.fields, variant.fields.len()),
        default: variant.default,
    }
}

/// The fault of the first variant from `start` on whose field set has one: a
/// second marked field, or two flags that clash.
pub open spec fn variant_clash_from(variants: Seq<VariantDeclView>, start: int) -> Option<SchemaErrorView>
    decreases variants.len() - start,
{
    if start < 0 || start >= variants.len() {
        None
    } else {
        match field_set_fault(variants[start].fields) {
            Some(error) => Some(error),
            None => variant_clash_from(variants, start + 1),
        }
    }
}

/// What the variants of a declaration come to. Only a choice has variants:
/// a declaration with both fields and variants is refused, and so is a struct
/// of fields, which has fields and no variant. A choice is refused where one
/// of its variants has a second marked field or two flags that clash. A
/// declaration with neither fields nor variants comes to an empty choice.
pub open spec fn expanded(declaration: DeclarationView) -> Result<SubCommandMacroInfoView, SchemaErrorView> {
    if declaration.fields.len() > 0 && declaration.variants.len() > 0 {
        Err(SchemaErrorView::MixedShape { identifier: declaration.identifier })
    } else if declaration.fields.len() > 0 {
        Err(SchemaErrorView::NotAChoice { identifier: declaration.identifier })
    } else {
        match variant_clash_from(declaration.variants, 0) {
            Some(error) => Err(error),
            None => Ok(
                SubCommandMacroInfoView {
                    identifier: declaration.identifier,
                    subcommand: Seq::new(
                        declaration.variants.len(),
                        |i: int| variant_info(declaration.variants[i]),
                    ),
                },
            ),
        }
    }
}

/// No variant from `start` on has a fault if none from the first on has.
pub proof fn lemma_variant_without_clash(variants: Seq<VariantDeclView>, start: int, index: int)
    requires
        0 <= start <= index < variants.len(),
        variant_clash_from(variants, start) is None,
    ensures
        field_set_fault(variants[index].fields) is None,
    decreases variants.len() - start,
{
    if start < index {
        lemma_variant_without_clash(variants, start + 1, index);
    }
}

fn variant_from(variant: &VariantDecl) -> (res: Result<MacroInfo, SchemaError>)
    ensures
        match res {
            Ok(info) => info@ == variant_info(variant@) && field_set_fault(variant@.fields) is None,
            Err(error) => field_set_fault(variant@.fields) == Some(error@),
        },
{
    let fields = collect_flags(&variant.fields);
    let subcommands = collect_slots(&variant.fields);
    match check_field_set(&fields, &subcommands) {
        Some(error) => Err(error),
        None => Ok(MacroInfo { identifier: variant.identifier.clone(), fields, subcommands, default: variant.default }),
    }
}

/// Sorts the fields of each variant of a declaration into flags and
/// subcommand slots; see [`expanded`].
pub fn generate_impl(declaration: &Declaration) -> (res: Result<SubCommandMacroInfo, SchemaError>)
    ensures
        match res {
            Ok(info) => expanded(declaration@) == Ok::<SubCommandMacroInfoView, SchemaErrorView>(info@),
            Err(error) => expanded(declaration@) == Err::<SubCommandMacroInfoView, SchemaErrorView>(error@),
        },
{
    if declaration.fields.len() > 0 && declaration.variants.len() > 0 {
        return Err(SchemaError::MixedShape { identifier: declaration.identifier.clone() });
    }
    if declaration.fields.len() > 0 {
        return Err(SchemaError::NotAChoice { identifier: declaration.identifier.clone() });
    }
    let mut variants: Vec<MacroInfo> = Vec::new();
    let mut i: usize = 0;
    while i < declaration.variants.len()
        invariant
            i <= declaration.variants.len(),
            variants.len() == i,
            declaration@.variants.len() == declaration.variants.len(),
            declaration@.fields.len() == 0,
            forall|k: int| 0 <= k < i ==> (#[trigger] variants[k])@ == variant_info(declaration@.variants[k]),
            variant_clash_from(declaration@.variants, 0) == variant_clash_from(declaration@.variants, i as int),
        decreases declaration.variants.len() - i,
    {
        assert(declaration@.variants[i as int] == declaration.variants[i as int]@);
        match variant_from(&declaration.variants[i]) {
            Err(error) => {
                return Err(error);
            },
            Ok(info) => {
                variants.push(info);
            },
        }
        i = i + 1;
    }
    let info = SubCommandMacroInfo { identifier: declaration.identifier.clone(), subcommand: variants };
    assert(info@.subcommand =~= Seq::new(
        declaration@.variants.len(),
        |i: int| variant_info(declaration@.variants[i]),
    ));
    Ok(info)
}

} // verus!
