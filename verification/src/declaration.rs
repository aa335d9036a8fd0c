//! The normalized declaration that a schema is built from: what an extractor
//! has read off a struct or an enum and its annotations.

use vstd::prelude::*;

verus! {

/// One declared field.
#[derive(Debug, PartialEq, Eq)]
pub struct FieldDecl {
    /// The identifier of the field.
    pub identifier: String,
    /// The identifier of the declared type.
    pub ty: String,
    /// Whether the field is marked as a subcommand slot.
    pub subcommand: bool,
    /// An explicit short name.
    pub short: Option<char>,
    /// An explicit long name, in place of the one derived from the identifier.
    pub long: Option<String>,
    /// Whether a value must be given on the command line.
    pub required: bool,
    /// Display-only text; empty when there is none.
    pub description: String,
}

/// The mathematical value of a [`FieldDecl`].
pub struct FieldDeclView {
    pub identifier: Seq<char>,
    pub ty: Seq<char>,
    pub subcommand: bool,
    pub short: Option<char>,
    pub long: Option<Seq<char>>,
    pub required: bool,
    pub description: Seq<char>,
}

impl View for FieldDecl {
    type V = FieldDeclView;

    open spec fn view(&self) -> FieldDeclView {
        FieldDeclView {
            identifier: self.identifier@,
            ty: self.ty@,
            subcommand: self.subcommand,
            short: self.short,
            long: match self.long {
                Some(s) => Some(s@),
                None => None,
            },
            required: self.required,
            description: self.description@,
        }
    }
}

/// The views of a run of fields, in order.
pub open spec fn field_views(fields: Seq<FieldDecl>) -> Seq<FieldDeclView> {
    Seq::new(fields.len(), |i: int| fields[i]@)
}

/// One named variant of a choice, with its own fields.
#[derive(Debug, PartialEq, Eq)]
pub struct VariantDecl {
    /// The identifier of the variant.
    pub identifier: String,
    /// The fields of the variant.
    pub fields: Vec<FieldDecl>,
    /// Whether the variant is tagged as the default selection.
    pub default: bool,
}

/// The mathematical value of a [`VariantDecl`].
pub struct VariantDeclView {
    pub identifier: Seq<char>,
    pub fields: Seq<FieldDeclView>,
    pub default: bool,
}

impl View for VariantDecl {
    type V = VariantDeclView;

    open spec fn view(&self) -> VariantDeclView {
        VariantDeclView {
            identifier: self.identifier@,
            fields: field_views(self.fields@),
            default: self.default,
        }
    }
}

/// One declared type: a fixed set of fields, or a set of named variants.
/// A declaration that has both is malformed.
#[derive(Debug, PartialEq, Eq)]
pub struct Declaration {
    /// The identifier of the declared type.
    pub identifier: String,
    /// The fields, where the type is a struct of fields.
    pub fields: Vec<FieldDecl>,
    /// The variants, where the type is a choice.
    pub variants: Vec<VariantDecl>,
}

/// The mathematical value of a [`Declaration`].
pub struct DeclarationView {
    pub identifier: Seq<char>,
    pub fields: Seq<FieldDeclView>,
    pub variants: Seq<VariantDeclView>,
}

impl View for Declaration {
    type V = DeclarationView;

    open spec fn view(&self) -> DeclarationView {
        DeclarationView {
            identifier: self.identifier@,
            fields: field_views(self.fields@),
            variants: Seq::new(self.variants.len() as nat, |i: int| self.variants[i]@),
        }
    }
}

} // verus!
