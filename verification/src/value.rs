//! Typed values and the conversion of raw text into them.

use vstd::prelude::*;
use vstd::string::StrSliceExecFns;
use crate::schema::{IntegerType, ValueType};
use crate::text::is_word;

verus! {

/// A typed value bound to a flag.
#[derive(Debug, PartialEq, Eq)]
pub enum Value {
    Boolean(bool),
    Text(String),
    /// An integer; it lies within the range of the type of its flag.
    Integer(i128),
}

/// The mathematical value of a [`Value`].
pub enum ValueView {
    Boolean(bool),
    Text(Seq<char>),
    Integer(int),
}

impl View for Value {
    type V = ValueView;

    open spec fn view(&self) -> ValueView {
        match self {
            Value::Boolean(b) => ValueView::Boolean(*b),
            Value::Text(s) => ValueView::Text(s@),
            Value::Integer(n) => ValueView::Integer(*n as int),
        }
    }
}

impl Clone for Value {
    fn clone(&self) -> (res: Value)
        ensures
            res@ == self@,
    {
        match self {
            Value::Boolean(b) => Value::Boolean(*b),
            Value::Text(s) => Value::Text(s.clone()),
            Value::Integer(n) => Value::Integer(*n),
        }
    }
}

/// The value that an absent flag of type `ty` resolves to: `false`, the empty
/// text, or zero.
pub open spec fn zero_value(ty: ValueType) -> ValueView {
    match ty {
        ValueType::Boolean => ValueView::Boolean(false),
        ValueType::Text => ValueView::Text(Seq::empty()),
        ValueType::Integer(_) => ValueView::Integer(0),
    }
}

/// The least integer of a primitive integer type.
pub open spec fn lowest(kind: IntegerType) -> int {
    match kind {
        IntegerType::I8 => i8::MIN as int,
        IntegerType::I16 => i16::MIN as int,
        IntegerType::I32 => i32::MIN as int,
        IntegerType::I64 => i64::MIN as int,
        IntegerType::Isize => isize::MIN as int,
        _ => 0,
    }
}

/// The greatest integer of a primitive integer type.
pub open spec fn highest(kind: IntegerType) -> int {
    match kind {
        IntegerType::I8 => i8::MAX as int,
        IntegerType::I16 => i16::MAX as int,
        IntegerType::I32 => i32::MAX as int,
        IntegerType::I64 => i64::MAX as int,
        IntegerType::Isize => isize::MAX as int,
        IntegerType::U8 => u8::MAX as int,
        IntegerType::U16 => u16::MAX as int,
        IntegerType::U32 => u32::MAX as int,
        IntegerType::U64 => u64::MAX as int,
        IntegerType::Usize => usize::MAX as int,
    }
}

/// Whether a primitive integer type has negative numbers.
pub open spec fn is_signed(kind: IntegerType) -> bool {
    lowest(kind) < 0
}

/// Whether a text starts with a minus sign.
pub open spec fn has_minus(text: Seq<char>) -> bool {
    text.len() > 0 && text[0] == '-'
}

/// The integer that the standard library reads from `text` at the widest
/// width, if it reads one.
pub uninterp spec fn parsed_integer(text: Seq<char>) -> Option<i128>;

/// `str::parse::<i128>` of the standard library. What it reads is a function
/// of the text alone and is named [`parsed_integer`]; nothing more is claimed.
#[verifier::external_body]
fn parse_integer(text: &str) -> (res: Option<i128>)
    ensures
        res == parsed_integer(text@),
{
    text.parse::<i128>().ok()
}

/// The integer of type `kind` that a text stands for, given what was read
/// from it at the widest width: the integer read, where it lies within the
/// range of the type and, for a type without negative numbers, where the
/// text has no minus sign.
pub open spec fn fitted(read: Option<i128>, kind: IntegerType, minus: bool) -> Option<ValueView> {
    match read {
        Some(n) => if lowest(kind) <= n <= highest(kind) && (is_signed(kind) || !minus) {
            Some(ValueView::Integer(n as int))
        } else {
            None
        },
        None => None,
    }
}

/// The typed value of `text` read as a `ty`, if the text is one.
pub open spec fn converted(text: Seq<char>, ty: ValueType) -> Option<ValueView> {
    match ty {
        ValueType::Boolean => if text == seq!['t', 'r', 'u', 'e'] {
            Some(ValueView::Boolean(true))
        } else if text == seq!['f', 'a', 'l', 's', 'e'] {
            Some(ValueView::Boolean(false))
        } else {
            None
        },
        ValueType::Text => Some(ValueView::Text(text)),
        ValueType::Integer(kind) => fitted(parsed_integer(text), kind, has_minus(text)),
    }
}

fn bounds(kind: IntegerType) -> (res: (i128, i128))
    ensures
        res.0 == lowest(kind),
        res.1 == highest(kind),
{
    match kind {
        IntegerType::I8 => (i8::MIN as i128, i8::MAX as i128),
        IntegerType::I16 => (i16::MIN as i128, i16::MAX as i128),
        IntegerType::I32 => (i32::MIN as i128, i32::MAX as i128),
        IntegerType::I64 => (i64::MIN as i128, i64::MAX as i128),
        IntegerType::Isize => (isize::MIN as i128, isize::MAX as i128),
        IntegerType::U8 => (0, u8::MAX as i128),
        IntegerType::U16 => (0, u16::MAX as i128),
        IntegerType::U32 => (0, u32::MAX as i128),
        IntegerType::U64 => (0, u64::MAX as i128),
        IntegerType::Usize => (0, usize::MAX as i128),
    }
}

impl Value {
    /// The value that an absent flag of type `ty` resolves to.
    pub fn zero(ty: ValueType) -> (res: Value)
        ensures
            res@ == zero_value(ty),
    {
        match ty {
            ValueType::Boolean => Value::Boolean(false),
            ValueType::Text => Value::Text(String::new()),
            ValueType::Integer(_) => Value::Integer(0),
        }
    }

    /// Fits an integer that was read from a text into the type `kind`;
    /// `minus` says whether the text starts with a minus sign.
    pub fn from_integer(read: Option<i128>, kind: IntegerType, minus: bool) -> (res: Option<Value>)
        ensures
            match res {
                Some(value) => fitted(read, kind, minus) == Some(value@),
                None => fitted(read, kind, minus) is None,
            },
    {
        match read {
            Some(n) => {
                let (low, high) = bounds(kind);
                if low <= n && n <= high && (low < 0 || !minus) {
                    Some(Value::Integer(n))
                } else {
                    None
                }
            },
            None => None,
        }
    }

    /// Converts raw text into a value of type `ty`. Text converts to itself,
    /// a boolean from the two words `true` and `false` and from nothing else,
    /// an integer as the standard library reads it, within the range of its
    /// type.
    pub fn convert(text: &String, ty: ValueType) -> (res: Option<Value>)
        ensures
            converted(text@, ty) is None ==> res is None,
            converted(text@, ty) is Some ==> res is Some && res->0@ == converted(text@, ty)->0,
    {
        match ty {
            ValueType::Boolean => {
                proof {
                    reveal_strlit("true");
                    reveal_strlit("false");
                    assert("true"@ =~= seq!['t', 'r', 'u', 'e']);
                    assert("false"@ =~= seq!['f', 'a', 'l', 's', 'e']);
                }
                if is_word(text, "true") {
                    Some(Value::Boolean(true))
                } else if is_word(text, "false") {
                    Some(Value::Boolean(false))
                } else {
                    None
                }
            },
            ValueType::Text => Some(Value::Text(text.clone())),
            ValueType::Integer(kind) => {
                let minus = text.as_str().unicode_len() > 0 && text.as_str().get_char(0) == '-';
                Value::from_integer(parse_integer(text.as_str()), kind, minus)
            },
        }
    }
}

} // verus!
