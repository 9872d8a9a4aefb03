//! Frame codec: an outbound message is an ordered sequence of textual fields
//! joined by a NUL terminator after each field; an inbound frame is split
//! back into an ordered, cursor-addressed field sequence.
use vstd::prelude::*;

use crate::datetime::{datetime_from_unix, MAX_UNIX_TIMESTAMP, MIN_UNIX_TIMESTAMP};
use crate::errors::IbError;
use crate::fields::ToField;
use crate::messages::{spec_request_id_offset, IncomingMessages};
use crate::numbers::{
    parse_i32, parse_i64, spec_parse_i32, spec_parse_i64,
};

verus! {

/// The reserved field terminator; it is not valid inside a field.
pub const FIELD_SEP: char = '\0';

/// Sentinel literal standing for an unset integer field.
pub const UNSET_INTEGER: &'static str = "2147483647";

/// Sentinel literal standing for an unset floating-point field.
pub const UNSET_DOUBLE: &'static str = "1.7976931348623157E308";

/// Sentinel literal standing for an unbounded floating-point field.
pub const INFINITY_STR: &'static str = "Infinity";

/// A frame's text: every field followed by one terminator.
pub open spec fn spec_encode(fields: Seq<Seq<char>>) -> Seq<char>
    decreases fields.len(),
{
    if fields.len() == 0 {
        Seq::empty()
    } else {
        fields[0] + seq![FIELD_SEP] + spec_encode(fields.drop_first())
    }
}

/// Index of the first terminator in `s`, or `s.len()` if there is none.
pub open spec fn first_sep(s: Seq<char>) -> int
    decreases s.len(),
{
    if s.len() == 0 {
        0
    } else if s[0] == FIELD_SEP {
        0
    } else {
        1 + first_sep(s.drop_first())
    }
}

/// The fields of a frame's text: the runs between terminators, where a
/// trailing terminator closes the last field instead of opening an empty one.
pub open spec fn spec_decode(s: Seq<char>) -> Seq<Seq<char>>
    decreases s.len(),
    via spec_decode_decreases
{
    if s.len() == 0 {
        Seq::empty()
    } else {
        let i = first_sep(s);
        if i == s.len() {
            seq![s]
        } else {
            seq![s.subrange(0, i)] + spec_decode(s.subrange(i + 1, s.len() as int))
        }
    }
}

#[via_fn]
proof fn spec_decode_decreases(s: Seq<char>) {
    lemma_first_sep(s);
}

pub proof fn lemma_first_sep(s: Seq<char>)
    ensures
        0 <= first_sep(s) <= s.len(),
        forall|k: int| 0 <= k < first_sep(s) ==> s[k] != FIELD_SEP,
        first_sep(s) < s.len() ==> s[first_sep(s)] == FIELD_SEP,
    decreases s.len(),
{
    if s.len() == 0 {
    } else if s[0] == FIELD_SEP {
    } else {
        let t = s.drop_first();
        lemma_first_sep(t);
        assert(first_sep(s) == 1 + first_sep(t));
        assert forall|k: int| 0 <= k < first_sep(s) implies s[k] != FIELD_SEP by {
            if k > 0 {
                assert(s[k] == t[k - 1]);
            }
        }
        if first_sep(s) < s.len() {
            assert(s[first_sep(s)] == t[first_sep(t)]);
        }
    }
}

/// The first terminator is exactly where one stands after a run without one.
pub proof fn lemma_first_sep_at(s: Seq<char>, i: int)
    requires
        0 <= i <= s.len(),
        forall|k: int| 0 <= k < i ==> s[k] != FIELD_SEP,
        i < s.len() ==> s[i] == FIELD_SEP,
    ensures
        first_sep(s) == i,
    decreases s.len(),
{
    if s.len() == 0 {
    } else if s[0] == FIELD_SEP {
        assert(i == 0);
    } else {
        assert(i > 0);
        let t = s.drop_first();
        assert forall|k: int| 0 <= k < i - 1 implies t[k] != FIELD_SEP by {
            assert(t[k] == s[k + 1]);
        }
        lemma_first_sep_at(t, i - 1);
    }
}

/// Decoding one terminated field off the front.
pub proof fn lemma_decode_step(a: Seq<char>, b: Seq<char>)
    requires
        forall|k: int| 0 <= k < a.len() ==> a[k] != FIELD_SEP,
    ensures
        spec_decode(a + seq![FIELD_SEP] + b) == seq![a] + spec_decode(b),
{
    let s = a + seq![FIELD_SEP] + b;
    assert(s.len() == a.len() + 1 + b.len());
    assert forall|k: int| 0 <= k < a.len() implies s[k] != FIELD_SEP by {
        assert(s[k] == a[k]);
    }
    assert(s[a.len() as int] == FIELD_SEP);
    lemma_first_sep_at(s, a.len() as int);
    assert(s.subrange(0, a.len() as int) =~= a);
    assert(s.subrange(a.len() as int + 1, s.len() as int) =~= b);
}

/// A non-empty text without a terminator decodes to that one field.
pub proof fn lemma_decode_no_sep(s: Seq<char>)
    requires
        s.len() > 0,
        forall|k: int| 0 <= k < s.len() ==> s[k] != FIELD_SEP,
    ensures
        spec_decode(s) == seq![s],
{
    lemma_first_sep_at(s, s.len() as int);
}

/// Encoding appends at the back: one more field adds its text and one
/// terminator.
pub proof fn lemma_encode_snoc(fields: Seq<Seq<char>>, f: Seq<char>)
    ensures
        spec_encode(fields.push(f)) == spec_encode(fields) + f + seq![FIELD_SEP],
    decreases fields.len(),
{
    if fields.len() == 0 {
        reveal_with_fuel(spec_encode, 2);
        assert(fields.push(f).drop_first() =~= Seq::<Seq<char>>::empty());
        assert(fields.push(f)[0] == f);
        assert(spec_encode(fields.push(f)) =~= f + seq![FIELD_SEP]);
        assert(spec_encode(fields) + f + seq![FIELD_SEP] =~= f + seq![FIELD_SEP]);
    } else {
        let g = fields.push(f);
        assert(g.drop_first() =~= fields.drop_first().push(f));
        lemma_encode_snoc(fields.drop_first(), f);
        assert(g[0] == fields[0]);
        assert(spec_encode(g) == fields[0] + seq![FIELD_SEP] + (spec_encode(fields.drop_first())
            + f + seq![FIELD_SEP]));
        assert(spec_encode(g) =~= spec_encode(fields) + f + seq![FIELD_SEP]);
    }
}

/// Round trip: a frame built from fields that hold no terminator decodes back
/// to exactly those fields, in order.
pub proof fn lemma_decode_encode(fields: Seq<Seq<char>>)
    requires
        forall|j: int, k: int|
            0 <= j < fields.len() && 0 <= k < fields[j].len() ==> #[trigger] fields[j][k]
                != FIELD_SEP,
    ensures
        spec_decode(spec_encode(fields)) == fields,
    decreases fields.len(),
{
    if fields.len() == 0 {
    } else {
        let f0 = fields[0];
        let rest = fields.drop_first();
        assert(forall|k: int| 0 <= k < f0.len() ==> f0[k] != FIELD_SEP);
        assert forall|j: int, k: int|
            0 <= j < rest.len() && 0 <= k < rest[j].len() implies #[trigger] rest[j][k]
            != FIELD_SEP by {
            assert(rest[j] == fields[j + 1]);
        }
        lemma_decode_encode(rest);
        lemma_decode_step(f0, spec_encode(rest));
        assert(seq![f0] + rest =~= fields);
    }
}

/// An outbound message: an ordered, append-only sequence of textual fields.
/// Field order is significant; the codec never reorders or interprets fields.
#[derive(Debug)]
pub struct RequestMessage {
    fields: Vec<String>,
}

impl View for RequestMessage {
    type V = Seq<Seq<char>>;

    closed spec fn view(&self) -> Seq<Seq<char>> {
        self.fields.deep_view()
    }
}

impl Default for RequestMessage {
    fn default() -> (r: Self)
        ensures
            r@ == Seq::<Seq<char>>::empty(),
    {
        RequestMessage { fields: Vec::new() }
    }
}

impl RequestMessage {
    /// An empty message.
    pub fn new() -> (r: Self)
        ensures
            r@ == Seq::<Seq<char>>::empty(),
    {
        RequestMessage { fields: Vec::new() }
    }

    /// An empty message; the argument is not copied into it.
    pub fn from(_fields: &Vec<String>) -> (r: RequestMessage)
        ensures
            r@ == Seq::<Seq<char>>::empty(),
    {
        RequestMessage { fields: Vec::new() }
    }

    /// Appends one field, encoded by its type's textual mapping.
    pub fn push_field<T: ToField>(&mut self, val: &T)
        ensures
            final(self)@ == old(self)@.push(val.field_spec()),
    {
        let field = val.to_field();
        self.fields.push(field);
        proof {
            assert(final(self)@ =~= old(self)@.push(val.field_spec()));
        }
    }

    /// How many fields the message holds.
    pub fn len(&self) -> (r: usize)
        ensures
            r == self@.len(),
    {
        self.fields.len()
    }

    /// The field at `index`.
    pub fn field(&self, index: usize) -> (r: &String)
        requires
            index < self@.len(),
        ensures
            r@ == self@[index as int],
    {
        &self.fields[index]
    }

    /// The frame's text: every field followed by one terminator.
    pub fn encode(&self) -> (r: String)
        ensures
            r@ == spec_encode(self@),
    {
        let mut data = String::new();
        let n = self.fields.len();
        let mut j: usize = 0;
        while j < n
            invariant
                n == self@.len(),
                j <= n,
                data@ == spec_encode(self@.subrange(0, j as int)),
            decreases n - j,
        {
            data.append(self.fields[j].as_str());
            data.append("\0");
            proof {
                reveal_strlit("\0");
                assert(self@.subrange(0, j + 1) =~= self@.subrange(0, j as int).push(
                    self@[j as int],
                ));
                lemma_encode_snoc(self@.subrange(0, j as int), self@[j as int]);
            }
            j += 1;
        }
        proof {
            assert(self@.subrange(0, n as int) =~= self@);
        }
        data
    }
}

/// Kind of a required floating-point field. The textual part of its decoding
/// happens here; turning `Text` into a number is the caller's concern.
#[derive(Debug, PartialEq, Eq)]
pub enum DoubleField {
    /// `""`, `"0"` and `"0.0"` all stand for zero; absence is not
    /// distinguished from zero at this accessor.
    Zero,
    /// Any other text: to be parsed as a floating-point number.
    Text(String),
}

/// Kind of an optional floating-point field.
#[derive(Debug, PartialEq, Eq)]
pub enum OptionalDoubleField {
    /// `""` or the unset-double sentinel: the value is absent.
    Absent,
    /// The literal `"Infinity"`: positive infinity.
    Infinite,
    /// Any other text: to be parsed as a present floating-point number.
    Text(String),
}

/// An inbound frame: an ordered, immutable field sequence and a read cursor
/// that only moves forward. Every `next_*` accessor consumes exactly one
/// field. Out-of-range access is a defect, so the accessors require a field
/// to be left; the first field is the message-type code.
#[derive(Debug, Default, PartialEq, Eq)]
pub struct ResponseMessage {
    /// The read cursor.
    pub i: usize,
    /// The decoded fields.
    pub fields: Vec<String>,
}

/// The message-type code: the first field read as an integer, `-1` when it
/// does not parse; an empty frame is not valid.
pub open spec fn spec_message_type(fields: Seq<Seq<char>>) -> IncomingMessages {
    if fields.len() == 0 {
        IncomingMessages::NotValid
    } else {
        match spec_parse_i32(fields[0]) {
            Some(code) => IncomingMessages::spec_from_code(code),
            None => IncomingMessages::spec_from_code(-1),
        }
    }
}

/// The correlation id a frame carries: the field at its message type's fixed
/// offset, read as an integer; `None` when the type carries no id, the frame
/// is too short, or the field does not parse.
pub open spec fn spec_correlation_id(fields: Seq<Seq<char>>) -> Option<int> {
    match spec_request_id_offset(spec_message_type(fields)) {
        Some(off) => if (off as int) < fields.len() {
            spec_parse_i32(fields[off as int])
        } else {
            None
        },
        None => None,
    }
}

impl ResponseMessage {
    pub open spec fn spec_fields(&self) -> Seq<Seq<char>> {
        self.fields.deep_view()
    }

    /// Decodes a frame's text into its fields; the cursor starts at the
    /// message-type code.
    pub fn from(fields: &str) -> (r: ResponseMessage)
        ensures
            r.i == 0,
            r.spec_fields() == spec_decode(fields@),
    {
        let n = fields.unicode_len();
        let mut out: Vec<String> = Vec::new();
        let mut start: usize = 0;
        let mut j: usize = 0;
        proof {
            assert(fields@.subrange(0, n as int) =~= fields@);
            assert(out.deep_view() =~= Seq::<Seq<char>>::empty());
            assert(out.deep_view() + spec_decode(fields@) =~= spec_decode(fields@));
        }
        while j < n
            invariant
                n == fields@.len(),
                start <= j <= n,
                spec_decode(fields@) == out.deep_view() + spec_decode(
                    fields@.subrange(start as int, n as int),
                ),
                forall|k: int| start <= k < j ==> fields@[k] != FIELD_SEP,
            decreases n - j,
        {
            let c = fields.get_char(j);
            if c == '\0' {
                let f = fields.substring_char(start, j);
                let ghost old_out = out.deep_view();
                out.push(String::from_str(f));
                proof {
                    let a = fields@.subrange(start as int, j as int);
                    let b = fields@.subrange(j + 1, n as int);
                    assert(fields@.subrange(start as int, n as int) =~= a + seq![FIELD_SEP]
                        + b);
                    lemma_decode_step(a, b);
                    assert(out.deep_view() =~= old_out.push(a));
                    assert(out.deep_view() + spec_decode(b) =~= old_out + (seq![a]
                        + spec_decode(b)));
                }
                start = j + 1;
            }
            j += 1;
        }
        if start < n {
            let f = fields.substring_char(start, n);
            let ghost old_out = out.deep_view();
            out.push(String::from_str(f));
            proof {
                let a = fields@.subrange(start as int, n as int);
                lemma_decode_no_sep(a);
                assert(out.deep_view() =~= old_out.push(a));
                assert(out.deep_view() =~= old_out + seq![a]);
            }
        } else {
            proof {
                assert(fields@.subrange(start as int, n as int) =~= Seq::<char>::empty());
            }
        }
        ResponseMessage { i: 0, fields: out }
    }

    /// The frame's message-type code as an enumerated type; `NotValid` for an
    /// empty frame or an unknown code.
    pub fn message_type(&self) -> (r: IncomingMessages)
        ensures
            r == spec_message_type(self.spec_fields()),
    {
        if self.fields.len() == 0 {
            IncomingMessages::NotValid
        } else {
            match parse_i32(self.fields[0].as_str()) {
                Some(code) => IncomingMessages::from(code),
                None => IncomingMessages::from(-1),
            }
        }
    }

    /// The correlation id at this message type's fixed offset. Types outside
    /// the closed offset table carry no id; a frame of a listed type that is
    /// too short for its offset is a defect.
    pub fn request_id(&self) -> (r: Result<i32, IbError>)
        requires
            spec_request_id_offset(spec_message_type(self.spec_fields())) matches Some(off)
                ==> (off as int) < self.spec_fields().len(),
        ensures
            match spec_request_id_offset(spec_message_type(self.spec_fields())) {
                Some(off) => match spec_parse_i32(self.spec_fields()[off as int]) {
                    Some(v) => r == Ok::<i32, IbError>(v as i32),
                    None => r matches Err(IbError::Parse { index, text }) && index == off
                        && text@ == self.spec_fields()[off as int],
                },
                None => r == Err::<i32, IbError>(IbError::NoRequestId),
            },
    {
        match IncomingMessages::request_id_offset(&self.message_type()) {
            Some(off) => self.peek_int(off),
            None => Err(IbError::NoRequestId),
        }
    }

    /// Reads the field at `index` as an integer without moving the cursor.
    pub fn peek_int(&self, index: usize) -> (r: Result<i32, IbError>)
        requires
            index < self.spec_fields().len(),
        ensures
            match spec_parse_i32(self.spec_fields()[index as int]) {
                Some(v) => r == Ok::<i32, IbError>(v as i32),
                None => r matches Err(IbError::Parse { index: ei, text }) && ei == index
                    && text@ == self.spec_fields()[index as int],
            },
    {
        let field = &self.fields[index];
        match parse_i32(field.as_str()) {
            Some(v) => Ok(v),
            None => Err(IbError::Parse { index, text: field.clone() }),
        }
    }

    /// Consumes one field as a required integer.
    pub fn next_int(&mut self) -> (r: Result<i32, IbError>)
        requires
            old(self).i < old(self).spec_fields().len(),
        ensures
            final(self).i == old(self).i + 1,
            final(self).fields == old(self).fields,
            match spec_parse_i32(old(self).spec_fields()[old(self).i as int]) {
                Some(v) => r == Ok::<i32, IbError>(v as i32),
                None => r matches Err(IbError::Parse { index, text }) && index == old(self).i
                    + 1 && text@ == old(self).spec_fields()[old(self).i as int],
            },
    {
        let field = &self.fields[self.i];
        proof {
            assert(self.fields.len() == self.fields@.len());
        }
        let index = self.i + 1;
        self.i = index;
        match parse_i32(field.as_str()) {
            Some(v) => Ok(v),
            None => Err(IbError::Parse { index, text: field.clone() }),
        }
    }

    /// Consumes one field as an optional integer: the empty field and the
    /// unset-integer sentinel stand for absent, wherever they occur.
    pub fn next_optional_int(&mut self) -> (r: Result<Option<i32>, IbError>)
        requires
            old(self).i < old(self).spec_fields().len(),
        ensures
            final(self).i == old(self).i + 1,
            final(self).fields == old(self).fields,
            ({
                let f = old(self).spec_fields()[old(self).i as int];
                if f.len() == 0 || f == UNSET_INTEGER@ {
                    r == Ok::<Option<i32>, IbError>(None)
                } else {
                    match spec_parse_i32(f) {
                        Some(v) => r == Ok::<Option<i32>, IbError>(Some(v as i32)),
                        None => r matches Err(IbError::Parse { index, text }) && index == old(
                            self,
                        ).i + 1 && text@ == f,
                    }
                }
            }),
    {
        let field = &self.fields[self.i];
        proof {
            assert(self.fields.len() == self.fields@.len());
        }
        let index = self.i + 1;
        self.i = index;

        if field.as_str().unicode_len() == 0 || *field == String::from_str(UNSET_INTEGER) {
            return Ok(None);
        }
        match parse_i32(field.as_str()) {
            Some(v) => Ok(Some(v)),
            None => Err(IbError::Parse { index, text: field.clone() }),
        }
    }

    /// Consumes one field as a boolean: exactly `"1"` is true, anything else
    /// is false.
    pub fn next_bool(&mut self) -> (r: Result<bool, IbError>)
        requires
            old(self).i < old(self).spec_fields().len(),
        ensures
            final(self).i == old(self).i + 1,
            final(self).fields == old(self).fields,
            r == Ok::<bool, IbError>(old(self).spec_fields()[old(self).i as int] == "1"@),
    {
        let field = &self.fields[self.i];
        proof {
            assert(self.fields.len() == self.fields@.len());
        }
        self.i = self.i + 1;
        Ok(*field == String::from_str("1"))
    }

    /// Consumes one field as a required long integer.
    pub fn next_long(&mut self) -> (r: Result<i64, IbError>)
        requires
            old(self).i < old(self).spec_fields().len(),
        ensures
            final(self).i == old(self).i + 1,
            final(self).fields == old(self).fields,
            match spec_parse_i64(old(self).spec_fields()[old(self).i as int]) {
                Some(v) => r == Ok::<i64, IbError>(v as i64),
                None => r matches Err(IbError::Parse { index, text }) && index == old(self).i
                    + 1 && text@ == old(self).spec_fields()[old(self).i as int],
            },
    {
        let field = &self.fields[self.i];
        proof {
            assert(self.fields.len() == self.fields@.len());
        }
        let index = self.i + 1;
        self.i = index;
        match parse_i64(field.as_str()) {
            Some(v) => Ok(v),
            None => Err(IbError::Parse { index, text: field.clone() }),
        }
    }

    /// Consumes one field as a Unix epoch timestamp, converted to an
    /// absolute time value.
    pub fn next_date_time(&mut self) -> (r: Result<time::OffsetDateTime, IbError>)
        requires
            old(self).i < old(self).spec_fields().len(),
        ensures
            final(self).i == old(self).i + 1,
            final(self).fields == old(self).fields,
            ({
                let f = old(self).spec_fields()[old(self).i as int];
                match spec_parse_i64(f) {
                    Some(ts) => if MIN_UNIX_TIMESTAMP as int <= ts <= MAX_UNIX_TIMESTAMP as int {
                        r is Ok
                    } else {
                        r matches Err(IbError::TimestampOutOfRange { index, text }) && index
                            == old(self).i + 1 && text@ == f
                    },
                    None => r matches Err(IbError::Parse { index, text }) && index == old(self).i
                        + 1 && text@ == f,
                }
            }),
    {
        let field = &self.fields[self.i];
        proof {
            assert(self.fields.len() == self.fields@.len());
        }
        let index = self.i + 1;
        self.i = index;
        match parse_i64(field.as_str()) {
            Some(ts) => match datetime_from_unix(ts) {
                Some(v) => Ok(v),
                None => Err(IbError::TimestampOutOfRange { index, text: field.clone() }),
            },
            None => Err(IbError::Parse { index, text: field.clone() }),
        }
    }

    /// Consumes one field as raw text.
    pub fn next_string(&mut self) -> (r: Result<String, IbError>)
        requires
            old(self).i < old(self).spec_fields().len(),
        ensures
            final(self).i == old(self).i + 1,
            final(self).fields == old(self).fields,
            r matches Ok(s) && s@ == old(self).spec_fields()[old(self).i as int],
    {
        let field = &self.fields[self.i];
        proof {
            assert(self.fields.len() == self.fields@.len());
        }
        self.i = self.i + 1;
        Ok(field.clone())
    }

    /// Consumes one field as a required floating-point field: `""`, `"0"` and
    /// `"0.0"` all stand for zero; any other text is handed back to be parsed
    /// as a number.
    pub fn next_double_field(&mut self) -> (r: Result<DoubleField, IbError>)
        requires
            old(self).i < old(self).spec_fields().len(),
        ensures
            final(self).i == old(self).i + 1,
            final(self).fields == old(self).fields,
            ({
                let f = old(self).spec_fields()[old(self).i as int];
                if f.len() == 0 || f == "0"@ || f == "0.0"@ {
                    r == Ok::<DoubleField, IbError>(DoubleField::Zero)
                } else {
                    r matches Ok(DoubleField::Text(t)) && t@ == f
                }
            }),
    {
        let field = &self.fields[self.i];
        proof {
            assert(self.fields.len() == self.fields@.len());
        }
        self.i = self.i + 1;
        if field.as_str().unicode_len() == 0 || *field == String::from_str("0") || *field
            == String::from_str("0.0") {
            Ok(DoubleField::Zero)
        } else {
            Ok(DoubleField::Text(field.clone()))
        }
    }

    /// Consumes one field as an optional floating-point field: `""` and the
    /// unset-double sentinel stand for absent; the literal `"Infinity"` for
    /// positive infinity; any other text is handed back to be parsed.
    pub fn next_optional_double_field(&mut self) -> (r: Result<OptionalDoubleField, IbError>)
        requires
            old(self).i < old(self).spec_fields().len(),
        ensures
            final(self).i == old(self).i + 1,
            final(self).fields == old(self).fields,
            ({
                let f = old(self).spec_fields()[old(self).i as int];
                if f.len() == 0 || f == UNSET_DOUBLE@ {
                    r == Ok::<OptionalDoubleField, IbError>(OptionalDoubleField::Absent)
                } else if f == INFINITY_STR@ {
                    r == Ok::<OptionalDoubleField, IbError>(OptionalDoubleField::Infinite)
                } else {
                    r matches Ok(OptionalDoubleField::Text(t)) && t@ == f
                }
            }),
    {
        let field = &self.fields[self.i];
        proof {
            assert(self.fields.len() == self.fields@.len());
        }
        self.i = self.i + 1;
        if field.as_str().unicode_len() == 0 || *field == String::from_str(UNSET_DOUBLE) {
            Ok(OptionalDoubleField::Absent)
        } else if *field == String::from_str(INFINITY_STR) {
            Ok(OptionalDoubleField::Infinite)
        } else {
            Ok(OptionalDoubleField::Text(field.clone()))
        }
    }

    /// Moves the cursor past one field without reading it.
    pub fn skip(&mut self)
        requires
            old(self).i < usize::MAX,
        ensures
            final(self).i == old(self).i + 1,
            final(self).fields == old(self).fields,
    {
        self.i = self.i + 1;
    }

    /// Moves the cursor back to the message-type code.
    pub fn reset(&mut self)
        ensures
            final(self).i == 0,
            final(self).fields == old(self).fields,
    {
        self.i = 0;
    }

    /// Re-encodes the frame: every field followed by one terminator.
    pub fn encode(&self) -> (r: String)
        ensures
            r@ == spec_encode(self.spec_fields()),
    {
        let mut data = String::new();
        let n = self.fields.len();
        let mut j: usize = 0;
        while j < n
            invariant
                n == self.spec_fields().len(),
                j <= n,
                data@ == spec_encode(self.spec_fields().subrange(0, j as int)),
            decreases n - j,
        {
            data.append(self.fields[j].as_str());
            data.append("\0");
            proof {
                reveal_strlit("\0");
                assert(self.spec_fields().subrange(0, j + 1) =~= self.spec_fields().subrange(
                    0,
                    j as int,
                ).push(self.spec_fields()[j as int]));
                lemma_encode_snoc(self.spec_fields().subrange(0, j as int), self.spec_fields()[j as int]);
            }
            j += 1;
        }
        proof {
            assert(self.spec_fields().subrange(0, n as int) =~= self.spec_fields());
        }
        data
    }
}

} // verus!
