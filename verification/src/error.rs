//! Why a declaration does not make a schema.

use vstd::prelude::*;

verus! {

/// A malformed declaration. No schema is built from one.
#[derive(Debug, PartialEq, Eq)]
pub enum SchemaError {
    /// A field marked as a subcommand slot names a type for which no schema
    /// has been built.
    UnresolvedSubcommand { field: String, ty: String },
    /// Two flags of one scope have the same long name.
    DuplicateLongName { name: String },
    /// Two flags of one scope have the same short name.
    DuplicateShortName { short: char },
    /// Two subcommands of one scope have the same dispatch name.
    DuplicateSubcommand { name: String },
    /// A field set has a second field marked as a subcommand slot; `field` is
    /// that second field.
    SecondSubcommand { field: String },
    /// The declaration has both fields and variants.
    MixedShape { identifier: String },
    /// The declaration is a struct of fields where a choice among variants is
    /// asked for.
    NotAChoice { identifier: String },
    /// An attribute list does not follow `key = value, ...`; `position` is the
    /// index of the token at which it stops doing so.
    MalformedAttribute { position: usize },
    /// An attribute list has a key that is not known.
    UnknownAttribute { key: String },
    /// An attribute list lacks a key that must be there; `last_key` is the
    /// last key that the list gave, if it gave one.
    MissingAttribute { name: String, last_key: Option<String> },
    /// A function that must have a body has none.
    MissingBody { function: String },
}

/// The mathematical value of a [`SchemaError`].
pub enum SchemaErrorView {
    UnresolvedSubcommand { field: Seq<char>, ty: Seq<char> },
    DuplicateLongName { name: Seq<char> },
    DuplicateShortName { short: char },
    DuplicateSubcommand { name: Seq<char> },
    SecondSubcommand { field: Seq<char> },
    MixedShape { identifier: Seq<char> },
    NotAChoice { identifier: Seq<char> },
    MalformedAttribute { position: int },
    UnknownAttribute { key: Seq<char> },
    MissingAttribute { name: Seq<char>, last_key: Option<Seq<char>> },
    MissingBody { function: Seq<char> },
}

impl View for SchemaError {
    type V = SchemaErrorView;

    open spec fn view(&self) -> SchemaErrorView {
        match self {
            SchemaError::UnresolvedSubcommand { field, ty } => SchemaErrorView::UnresolvedSubcommand {
                field: field@,
                ty: ty@,
            },
            SchemaError::DuplicateLongName { name } => SchemaErrorView::DuplicateLongName { name: name@ },
            SchemaError::DuplicateShortName { short } => SchemaErrorView::DuplicateShortName { short: *short },
            SchemaError::DuplicateSubcommand { name } => SchemaErrorView::DuplicateSubcommand { name: name@ },
            SchemaError::SecondSubcommand { field } => SchemaErrorView::SecondSubcommand { field: field@ },
            SchemaError::MixedShape { identifier } => SchemaErrorView::MixedShape { identifier: identifier@ },
            SchemaError::NotAChoice { identifier } => SchemaErrorView::NotAChoice { identifier: identifier@ },
            SchemaError::MalformedAttribute { position } => SchemaErrorView::MalformedAttribute {
                position: *position as int,
            },
            SchemaError::UnknownAttribute { key } => SchemaErrorView::UnknownAttribute { key: key@ },
            SchemaError::MissingAttribute { name, last_key } => SchemaErrorView::MissingAttribute {
                name: name@,
                last_key: match last_key {
                    Some(key) => Some(key@),
                    None => None,
                },
            },
            SchemaError::MissingBody { function } => SchemaErrorView::MissingBody { function: function@ },
        }
    }
}

} // verus!
