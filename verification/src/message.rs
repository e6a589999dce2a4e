//! Messages in memory, and the errors of decoding and encoding them.

use vstd::prelude::*;
use crate::bytes::reads_back;
use crate::json::Number;

verus! {

/// One value of a field.
#[derive(Debug, PartialEq, Eq)]
pub enum Value {
    Bool(bool),
    String(String),
    Bytes(Vec<u8>),
    /// A value of any of the numeric types, as the number that was read.
    Number(Number),
    /// A value of an enumeration: its discriminant.
    Enumeration(i32),
    Message(Message),
}

/// The active variant of a oneof: its position among the variants of the
/// oneof, and its payload.
#[derive(Debug, PartialEq, Eq)]
pub struct OneofValue {
    pub variant: usize,
    pub value: Value,
}

/// What a field of a message holds, by its cardinality.
#[derive(Debug, PartialEq, Eq)]
pub enum FieldValue {
    Single(Value),
    Optional(Option<Value>),
    Repeated(Vec<Value>),
    Oneof(Option<OneofValue>),
}

/// A message: the values of its fields, in the order of their declaration.
#[derive(Debug, PartialEq, Eq)]
pub struct Message {
    pub fields: Vec<FieldValue>,
}

/// What a `Value` holds.
pub enum ValueView {
    Bool(bool),
    String(Seq<char>),
    Bytes(Seq<u8>),
    Number(Number),
    Enumeration(i32),
    Message(MessageView),
}

/// What a `OneofValue` holds.
pub struct OneofValueView {
    pub variant: int,
    pub value: ValueView,
}

/// What a `FieldValue` holds.
pub enum FieldValueView {
    Single(ValueView),
    Optional(Option<ValueView>),
    Repeated(Seq<ValueView>),
    Oneof(Option<OneofValueView>),
}

/// What a `Message` holds.
pub struct MessageView {
    pub fields: Seq<FieldValueView>,
}

/// What `value` holds.
pub open spec fn value_view(value: Value) -> ValueView
    decreases value,
{
    match value {
        Value::Bool(b) => ValueView::Bool(b),
        Value::String(s) => ValueView::String(s@),
        Value::Bytes(b) => ValueView::Bytes(b@),
        Value::Number(n) => ValueView::Number(n),
        Value::Enumeration(n) => ValueView::Enumeration(n),
        Value::Message(m) => ValueView::Message(message_view(m)),
    }
}

/// What `field` holds.
pub open spec fn field_view(field: FieldValue) -> FieldValueView
    decreases field,
{
    match field {
        FieldValue::Single(v) => FieldValueView::Single(value_view(v)),
        FieldValue::Optional(None) => FieldValueView::Optional(None),
        FieldValue::Optional(Some(v)) => FieldValueView::Optional(Some(value_view(v))),
        FieldValue::Repeated(items) => FieldValueView::Repeated(
            Seq::new(
                items@.len(),
                |i: int|
                    if 0 <= i < items@.len() {
                        value_view(items@[i])
                    } else {
                        ValueView::Bool(false)
                    },
            ),
        ),
        FieldValue::Oneof(None) => FieldValueView::Oneof(None),
        FieldValue::Oneof(Some(active)) => FieldValueView::Oneof(
            Some(OneofValueView { variant: active.variant as int, value: value_view(active.value) }),
        ),
    }
}

/// What `message` holds.
pub open spec fn message_view(message: Message) -> MessageView
    decreases message,
{
    MessageView {
        fields: Seq::new(
            message.fields@.len(),
            |i: int|
                if 0 <= i < message.fields@.len() {
                    field_view(message.fields@[i])
                } else {
                    FieldValueView::Oneof(None)
                },
        ),
    }
}

impl View for Value {
    type V = ValueView;

    open spec fn view(&self) -> ValueView {
        value_view(*self)
    }
}

impl View for OneofValue {
    type V = OneofValueView;

    open spec fn view(&self) -> OneofValueView {
        OneofValueView { variant: self.variant as int, value: self.value@ }
    }
}

impl View for FieldValue {
    type V = FieldValueView;

    open spec fn view(&self) -> FieldValueView {
        field_view(*self)
    }
}

impl View for Message {
    type V = MessageView;

    open spec fn view(&self) -> MessageView {
        message_view(*self)
    }
}

/// What a list of values holds.
pub open spec fn values_view(values: Seq<Value>) -> Seq<ValueView> {
    Seq::new(values.len(), |i: int| values[i]@)
}

/// What a list of field values holds.
pub open spec fn fields_view(fields: Seq<FieldValue>) -> Seq<FieldValueView> {
    Seq::new(fields.len(), |i: int| fields[i]@)
}

/// A repeated field holds what its values hold.
pub proof fn lemma_repeated_view(values: Vec<Value>)
    ensures
        FieldValue::Repeated(values)@ == FieldValueView::Repeated(values_view(values@)),
{
    assert(field_view(FieldValue::Repeated(values)) matches FieldValueView::Repeated(s) && s
        =~= values_view(values@));
}

/// A message holds what its fields hold.
pub proof fn lemma_message_view(message: Message)
    ensures
        message@ == (MessageView { fields: fields_view(message.fields@) }),
{
    assert(message_view(message).fields =~= fields_view(message.fields@));
}

/// Why a JSON value could not be decoded.
#[derive(Debug, PartialEq, Eq)]
pub enum DecodeError {
    /// A value has not the shape of its field's type.
    TypeMismatch,
    /// The text names no variant of its enumeration.
    UnknownVariant(String),
    /// The text is no base64.
    InvalidBytes(String),
    /// The field of this name is given twice.
    DuplicateField(String),
    /// The key names no field.
    UnknownField(String),
    /// The required field of this name is not given.
    MissingField(String),
    /// The schema refers to a type that the catalog does not hold.
    Unresolved,
}

/// What a `DecodeError` holds.
pub enum DecodeErrorView {
    TypeMismatch,
    UnknownVariant(Seq<char>),
    InvalidBytes(Seq<char>),
    DuplicateField(Seq<char>),
    UnknownField(Seq<char>),
    MissingField(Seq<char>),
    Unresolved,
}

impl View for DecodeError {
    type V = DecodeErrorView;

    open spec fn view(&self) -> DecodeErrorView {
        match self {
            DecodeError::TypeMismatch => DecodeErrorView::TypeMismatch,
            DecodeError::UnknownVariant(s) => DecodeErrorView::UnknownVariant(s@),
            DecodeError::InvalidBytes(s) => DecodeErrorView::InvalidBytes(s@),
            DecodeError::DuplicateField(s) => DecodeErrorView::DuplicateField(s@),
            DecodeError::UnknownField(s) => DecodeErrorView::UnknownField(s@),
            DecodeError::MissingField(s) => DecodeErrorView::MissingField(s@),
            DecodeError::Unresolved => DecodeErrorView::Unresolved,
        }
    }
}

/// Why a message could not be encoded.
#[derive(Debug, Clone, Copy, PartialEq, Eq, Structural)]
pub enum EncodeError {
    /// A value of an enumeration is the discriminant of none of its variants.
    InvalidEnumValue(i32),
    /// A value is not of the kind that its field's type and cardinality ask
    /// for.
    Mismatch,
    /// The schema refers to a type that the catalog does not hold.
    Unresolved,
}

/// What a decoded result holds.
pub open spec fn decoded<T: View>(r: Result<T, DecodeError>) -> Result<T::V, DecodeErrorView> {
    match r {
        Ok(v) => Ok(v@),
        Err(e) => Err(e@),
    }
}

/// What an encoded result holds.
pub open spec fn encoded<T: View>(r: Result<T, EncodeError>) -> Result<T::V, EncodeError> {
    match r {
        Ok(v) => Ok(v@),
        Err(e) => Err(e),
    }
}

/// Whether the base64 text of all bytes in `value` is read back as those
/// bytes. Encoding a value states this of it.
pub open spec fn value_reads_back(value: ValueView) -> bool
    decreases value,
{
    match value {
        ValueView::Bytes(bytes) => reads_back(bytes),
        ValueView::Message(message) => message_reads_back(message),
        _ => true,
    }
}

/// Whether the base64 text of all bytes in every one of `values` is read
/// back as those bytes.
pub open spec fn values_read_back(values: Seq<ValueView>) -> bool
    decreases values,
{
    forall|i: int| 0 <= i < values.len() ==> value_reads_back(#[trigger] values[i])
}

/// Whether the base64 text of all bytes in `field` is read back as those
/// bytes.
pub open spec fn field_reads_back(field: FieldValueView) -> bool
    decreases field,
{
    match field {
        FieldValueView::Single(value) => value_reads_back(value),
        FieldValueView::Optional(Some(value)) => value_reads_back(value),
        FieldValueView::Optional(None) => true,
        FieldValueView::Repeated(values) => values_read_back(values),
        FieldValueView::Oneof(Some(active)) => value_reads_back(active.value),
        FieldValueView::Oneof(None) => true,
    }
}

/// Whether the base64 text of all bytes in every one of `fields` is read
/// back as those bytes.
pub open spec fn fields_read_back(fields: Seq<FieldValueView>) -> bool
    decreases fields,
{
    forall|i: int| 0 <= i < fields.len() ==> field_reads_back(#[trigger] fields[i])
}

/// Whether the base64 text of all bytes in `message` is read back as those
/// bytes.
pub open spec fn message_reads_back(message: MessageView) -> bool
    decreases message,
{
    fields_read_back(message.fields)
}

} // verus!
