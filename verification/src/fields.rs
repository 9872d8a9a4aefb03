//! Field conversion: the one-way mapping from domain values to the textual
//! field representation. Booleans encode as `"1"`/`"0"`, absent optional
//! values as the empty field, tag/value lists as concatenated `tag=value;`
//! pairs.
use vstd::prelude::*;

use crate::numbers::{i32_to_field, spec_dec_digits, spec_int_str, usize_to_field};

verus! {

/// A domain value that encodes as one textual field.
pub trait ToField {
    /// The text this value encodes as.
    spec fn field_spec(&self) -> Seq<char>;

    fn to_field(&self) -> (r: String)
        ensures
            r@ == self.field_spec(),
    ;
}

impl ToField for bool {
    open spec fn field_spec(&self) -> Seq<char> {
        if *self {
            "1"@
        } else {
            "0"@
        }
    }

    fn to_field(&self) -> (r: String) {
        if *self {
            String::from_str("1")
        } else {
            String::from_str("0")
        }
    }
}

impl ToField for String {
    open spec fn field_spec(&self) -> Seq<char> {
        self@
    }

    fn to_field(&self) -> (r: String) {
        self.clone()
    }
}

impl ToField for &str {
    open spec fn field_spec(&self) -> Seq<char> {
        (*self)@
    }

    fn to_field(&self) -> (r: String) {
        String::from_str(*self)
    }
}

impl ToField for i32 {
    open spec fn field_spec(&self) -> Seq<char> {
        spec_int_str(*self as int)
    }

    fn to_field(&self) -> (r: String) {
        i32_to_field(*self)
    }
}

impl ToField for usize {
    open spec fn field_spec(&self) -> Seq<char> {
        spec_dec_digits(*self as int)
    }

    fn to_field(&self) -> (r: String) {
        usize_to_field(*self)
    }
}

/// An absent optional value encodes as the empty field; a present one as its
/// inner encoding.
pub open spec fn spec_option_field<T: ToField>(val: Option<T>) -> Seq<char> {
    match val {
        Some(v) => v.field_spec(),
        None => Seq::empty(),
    }
}

pub fn encode_option_field<T: ToField>(val: &Option<T>) -> (r: String)
    ensures
        r@ == spec_option_field(*val),
{
    match val {
        Some(v) => v.to_field(),
        None => String::new(),
    }
}

impl ToField for Option<i32> {
    open spec fn field_spec(&self) -> Seq<char> {
        spec_option_field(*self)
    }

    fn to_field(&self) -> (r: String) {
        encode_option_field(self)
    }
}

/// One tag/value pair of a tag/value list field.
#[derive(Debug, Clone)]
pub struct TagValue {
    pub tag: String,
    pub value: String,
}

/// A tag/value list encodes as the concatenation of `tag=value;` pairs, in
/// order.
pub open spec fn spec_tag_values(items: Seq<TagValue>) -> Seq<char>
    decreases items.len(),
{
    if items.len() == 0 {
        Seq::empty()
    } else {
        spec_tag_values(items.drop_last()) + items.last().tag@ + "="@ + items.last().value@
            + ";"@
    }
}

impl ToField for Vec<TagValue> {
    open spec fn field_spec(&self) -> Seq<char> {
        spec_tag_values(self@)
    }

    fn to_field(&self) -> (r: String) {
        let mut out = String::new();
        let n = self.len();
        let mut j: usize = 0;
        while j < n
            invariant
                n == self@.len(),
                j <= n,
                out@ == spec_tag_values(self@.subrange(0, j as int)),
            decreases n - j,
        {
            out.append(self[j].tag.as_str());
            out.append("=");
            out.append(self[j].value.as_str());
            out.append(";");
            proof {
                assert(self@.subrange(0, j + 1).drop_last() =~= self@.subrange(0, j as int));
                assert(self@.subrange(0, j + 1).last() == self@[j as int]);
            }
            j += 1;
        }
        proof {
            assert(self@.subrange(0, n as int) =~= self@);
        }
        out
    }
}

} // verus!
