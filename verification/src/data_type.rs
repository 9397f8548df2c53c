//! SQL type ids and the parser for their textual names.

use vstd::prelude::*;
use vstd::string::StringExecFns;

use crate::text::{
    chars_eq_str, chars_of, chars_start_with, find_char, parse_u32, spec_find_char, spec_parse_u32,
    string_from_chars, sub_chars, decimal_chars, spec_decimal,
};

verus! {

/// Every possible SQL type id.
#[derive(Debug, Clone, PartialEq, Eq, Hash, Structural)]
pub enum DataType {
    Invalid,
    Boolean,
    TinyInt,
    SmallInt,
    Integer,
    BigInt,
    Decimal,
    Varchar(u32),
    Timestamp,
    Vector,
}

/// The type named by `s`, already lower-cased: a fixed set of keywords; a
/// name beginning with `varchar` or `char` carries its size between the
/// first `(` and the first `)`; anything else falls back to `Integer`.
/// Fails when the parenthesized size is missing or malformed.
pub open spec fn spec_parse_data_type(s: Seq<char>) -> Result<DataType, ()> {
    if s == "bool"@ || s == "boolean"@ {
        Ok(DataType::Boolean)
    } else if s == "tinyint"@ {
        Ok(DataType::TinyInt)
    } else if s == "smallint"@ {
        Ok(DataType::SmallInt)
    } else if s == "int"@ || s == "integer"@ {
        Ok(DataType::Integer)
    } else if s == "bigint"@ {
        Ok(DataType::BigInt)
    } else if s == "double"@ || s == "float"@ {
        Ok(DataType::Decimal)
    } else if (s.len() >= "varchar"@.len() && s.subrange(0, "varchar"@.len() as int)
        == "varchar"@) || (s.len() >= "char"@.len() && s.subrange(0, "char"@.len() as int)
        == "char"@) {
        match (spec_find_char(s, '('), spec_find_char(s, ')')) {
            (Some(open), Some(close)) => if open + 1 <= close {
                match spec_parse_u32(s.subrange(open + 1, close)) {
                    Ok(size) => Ok(DataType::Varchar(size)),
                    Err(()) => Err(()),
                }
            } else {
                Err(())
            },
            _ => Err(()),
        }
    } else {
        Ok(DataType::Integer)
    }
}

impl DataType {
    /// Parse a lower-cased SQL type name.
    pub fn from_str(s: &str) -> (parsed: Result<DataType, ()>)
        ensures
            parsed == spec_parse_data_type(s@),
    {
        let chars = chars_of(s);
        Self::from_chars(&chars)
    }

    /// Parse a lower-cased SQL type name given as characters.
    pub fn from_chars(chars: &Vec<char>) -> (parsed: Result<DataType, ()>)
        ensures
            parsed == spec_parse_data_type(chars@),
    {
        if chars_eq_str(chars, "bool") || chars_eq_str(chars, "boolean") {
            Ok(DataType::Boolean)
        } else if chars_eq_str(chars, "tinyint") {
            Ok(DataType::TinyInt)
        } else if chars_eq_str(chars, "smallint") {
            Ok(DataType::SmallInt)
        } else if chars_eq_str(chars, "int") || chars_eq_str(chars, "integer") {
            Ok(DataType::Integer)
        } else if chars_eq_str(chars, "bigint") {
            Ok(DataType::BigInt)
        } else if chars_eq_str(chars, "double") || chars_eq_str(chars, "float") {
            Ok(DataType::Decimal)
        } else if chars_start_with(chars, "varchar") || chars_start_with(chars, "char") {
            let open = match find_char(chars, '(') {
                Some(i) => i,
                None => {
                    return Err(());
                },
            };
            let close = match find_char(chars, ')') {
                Some(i) => i,
                None => {
                    return Err(());
                },
            };
            let _len: usize = chars.len();
            proof {
                assert(chars@.len() <= usize::MAX);
                crate::text::lemma_find_char(chars@, '(');
                crate::text::lemma_find_char(chars@, ')');
                assert(spec_find_char(chars@, '(') == Some(open as int));
                assert(spec_find_char(chars@, ')') == Some(close as int));
                assert(open < chars@.len());
                assert(close < chars@.len());
            }
            if open + 1 > close {
                return Err(());
            }
            let size_chars = sub_chars(chars, open + 1, close);
            match parse_u32(&size_chars) {
                Ok(size) => Ok(DataType::Varchar(size)),
                Err(()) => Err(()),
            }
        } else {
            Ok(DataType::Integer)
        }
    }

    /// Whether values of this type are numbers.
    pub fn is_numeric(&self) -> (numeric: bool)
        ensures
            numeric == (self is TinyInt || self is SmallInt || self is Integer || self is BigInt),
    {
        matches!(self, DataType::TinyInt | DataType::SmallInt | DataType::Integer | DataType::BigInt)
    }

    /// The name of this type, as it is written in diagnostics:
    /// the variant's name, with the size in parentheses for `Varchar`.
    pub open spec fn spec_name_string(self) -> Seq<char> {
        match self {
            DataType::Invalid => "Invalid"@,
            DataType::Boolean => "Boolean"@,
            DataType::TinyInt => "TinyInt"@,
            DataType::SmallInt => "SmallInt"@,
            DataType::Integer => "Integer"@,
            DataType::BigInt => "BigInt"@,
            DataType::Decimal => "Decimal"@,
            DataType::Varchar(size) => "Varchar("@ + spec_decimal(size as nat) + ")"@,
            DataType::Timestamp => "Timestamp"@,
            DataType::Vector => "Vector"@,
        }
    }

    /// Printable name of this type.
    pub fn name_string(&self) -> (name: String)
        ensures
            name@ == self.spec_name_string(),
    {
        match self {
            DataType::Invalid => "Invalid".to_owned(),
            DataType::Boolean => "Boolean".to_owned(),
            DataType::TinyInt => "TinyInt".to_owned(),
            DataType::SmallInt => "SmallInt".to_owned(),
            DataType::Integer => "Integer".to_owned(),
            DataType::BigInt => "BigInt".to_owned(),
            DataType::Decimal => "Decimal".to_owned(),
            DataType::Varchar(size) => {
                let digits = decimal_chars(*size as usize);
                let mut name = "Varchar(".to_owned();
                name.append(string_from_chars(&digits).as_str());
                name.append(")");
                name
            },
            DataType::Timestamp => "Timestamp".to_owned(),
            DataType::Vector => "Vector".to_owned(),
        }
    }
}

} // verus!
