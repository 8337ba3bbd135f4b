use vstd::prelude::*;

use crate::escape::{escape_spec, EscapedFieldValueString, FieldValueString};
use crate::text::{decimal, push_all, push_char, push_decimal};

verus! {

/// Possible value types
#[derive(Debug, Clone)]
pub enum FieldValue {
    /// A true or false value
    Bool(bool),
    /// A 64-bit floating point number, held as the decimal text that Rust's
    /// default formatting of the number writes (`42` for `42.0`)
    F64(String),
    /// A 64-bit signed integer number
    I64(i64),
    /// A string value
    String(EscapedFieldValueString),
}

impl FieldValue {
    /// The text of the value on the wire.
    pub open spec fn text(self) -> Seq<char> {
        match self {
            FieldValue::Bool(b) => if b { seq!['t'] } else { seq!['f'] },
            FieldValue::F64(s) => s@,
            FieldValue::I64(v) => decimal(v as int).push('i'),
            FieldValue::String(s) => seq!['"'] + escape_spec::<FieldValueString>(s@) + seq!['"'],
        }
    }

    /// Appends the text of the value to `out`.
    pub(crate) fn render_into(&self, out: &mut String)
        ensures
            final(out)@ == old(out)@ + self.text(),
    {
        let ghost start = out@;
        match self {
            FieldValue::Bool(b) => {
                if *b {
                    push_char(out, 't');
                } else {
                    push_char(out, 'f');
                }
            },
            FieldValue::F64(s) => {
                push_all(out, s);
            },
            FieldValue::I64(v) => {
                push_decimal(out, *v);
                push_char(out, 'i');
                proof {
                    assert(out@ =~= start + self.text());
                }
            },
            FieldValue::String(s) => {
                push_char(out, '"');
                s.render_into(out);
                push_char(out, '"');
                proof {
                    assert(out@ =~= start + self.text());
                }
            },
        }
    }

    /// The text of the value on the wire.
    pub fn to_string(&self) -> (r: String)
        ensures
            r@ == self.text(),
    {
        let mut out = String::new();
        self.render_into(&mut out);
        proof {
            assert(out@ =~= self.text());
        }
        out
    }
}

impl From<bool> for FieldValue {
    fn from(other: bool) -> Self {
        FieldValue::Bool(other)
    }
}

impl vstd::std_specs::convert::FromSpecImpl<bool> for FieldValue {
    open spec fn obeys_from_spec() -> bool {
        true
    }

    open spec fn from_spec(v: bool) -> Self {
        FieldValue::Bool(v)
    }
}

impl From<i64> for FieldValue {
    fn from(other: i64) -> Self {
        FieldValue::I64(other)
    }
}

impl vstd::std_specs::convert::FromSpecImpl<i64> for FieldValue {
    open spec fn obeys_from_spec() -> bool {
        true
    }

    open spec fn from_spec(v: i64) -> Self {
        FieldValue::I64(v)
    }
}

impl From<&str> for FieldValue {
    fn from(other: &str) -> Self {
        FieldValue::String(EscapedFieldValueString::new(other))
    }
}

impl vstd::std_specs::convert::FromSpecImpl<&str> for FieldValue {
    open spec fn obeys_from_spec() -> bool {
        false
    }

    open spec fn from_spec(v: &str) -> Self {
        arbitrary()
    }
}

impl From<String> for FieldValue {
    fn from(other: String) -> Self {
        FieldValue::String(EscapedFieldValueString::new(other.as_str()))
    }
}

impl vstd::std_specs::convert::FromSpecImpl<String> for FieldValue {
    open spec fn obeys_from_spec() -> bool {
        false
    }

    open spec fn from_spec(v: String) -> Self {
        arbitrary()
    }
}

} // verus!
