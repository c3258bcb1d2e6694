//! Raw records: what the remote listing hands out before it is checked.
//!
//! A record is a list of named fields. A field holds a text, a whole number,
//! or something that no entity reads.

use vstd::prelude::*;
use crate::text::same_text;

verus! {

/// The value of one field of a raw record.
#[derive(Debug)]
pub enum RawValue {
    /// A text.
    Text(String),
    /// A whole number that fits in 64 bits with a sign.
    Integer(i64),
    /// Anything else: nothing, a truth value, a fraction, a list, a record.
    Other,
}

/// What a `RawValue` stands for.
pub enum RawValueView {
    Text(Seq<char>),
    Integer(i64),
    Other,
}

impl DeepView for RawValue {
    type V = RawValueView;

    open spec fn deep_view(&self) -> RawValueView {
        match self {
            RawValue::Text(s) => RawValueView::Text(s@),
            RawValue::Integer(n) => RawValueView::Integer(*n),
            RawValue::Other => RawValueView::Other,
        }
    }
}

impl View for RawValue {
    type V = RawValueView;

    open spec fn view(&self) -> RawValueView {
        self.deep_view()
    }
}

/// One named field of a raw record.
#[derive(Debug)]
pub struct RawField {
    pub name: String,
    pub value: RawValue,
}

/// What a `RawField` stands for.
pub struct RawFieldView {
    pub name: Seq<char>,
    pub value: RawValueView,
}

impl DeepView for RawField {
    type V = RawFieldView;

    open spec fn deep_view(&self) -> RawFieldView {
        RawFieldView { name: self.name@, value: self.value@ }
    }
}

impl View for RawField {
    type V = RawFieldView;

    open spec fn view(&self) -> RawFieldView {
        self.deep_view()
    }
}

/// A raw record: its fields, in the order in which they were written.
#[derive(Debug)]
pub struct RawRecord {
    pub fields: Vec<RawField>,
}

impl DeepView for RawRecord {
    type V = Seq<RawFieldView>;

    open spec fn deep_view(&self) -> Seq<RawFieldView> {
        self.fields.deep_view()
    }
}

impl View for RawRecord {
    type V = Seq<RawFieldView>;

    open spec fn view(&self) -> Seq<RawFieldView> {
        self.deep_view()
    }
}

/// The value of the first field of `fields` named `name`.
pub open spec fn field_value(fields: Seq<RawFieldView>, name: Seq<char>) -> Option<RawValueView>
    decreases fields.len(),
{
    if fields.len() == 0 {
        None
    } else if fields[0].name == name {
        Some(fields[0].value)
    } else {
        field_value(fields.skip(1), name)
    }
}

/// Why a raw record is not an entity.
#[derive(Debug)]
pub enum RecordError {
    /// The record has no field of this name.
    Missing { field: String },
    /// The field of this name holds no text.
    NotText { field: String },
    /// The source address of the record is no address.
    InvalidUrl,
    /// The time at which the record was saved is no time.
    InvalidTimestamp,
}

/// What a `RecordError` stands for.
pub enum RecordErrorView {
    Missing { field: Seq<char> },
    NotText { field: Seq<char> },
    InvalidUrl,
    InvalidTimestamp,
}

impl DeepView for RecordError {
    type V = RecordErrorView;

    open spec fn deep_view(&self) -> RecordErrorView {
        match self {
            RecordError::Missing { field } => RecordErrorView::Missing { field: field@ },
            RecordError::NotText { field } => RecordErrorView::NotText { field: field@ },
            RecordError::InvalidUrl => RecordErrorView::InvalidUrl,
            RecordError::InvalidTimestamp => RecordErrorView::InvalidTimestamp,
        }
    }
}

impl View for RecordError {
    type V = RecordErrorView;

    open spec fn view(&self) -> RecordErrorView {
        self.deep_view()
    }
}

/// What a result stands for: what its value or its error stands for.
pub open spec fn result_view<T: DeepView, E: DeepView>(r: Result<T, E>) -> Result<T::V, E::V> {
    match r {
        Ok(t) => Ok(t.deep_view()),
        Err(e) => Err(e.deep_view()),
    }
}

/// The text of the field `name`, or why there is none.
pub open spec fn text_field(fields: Seq<RawFieldView>, name: Seq<char>) -> Result<
    Seq<char>,
    RecordErrorView,
> {
    match field_value(fields, name) {
        None => Err(RecordErrorView::Missing { field: name }),
        Some(RawValueView::Text(s)) => Ok(s),
        Some(_) => Err(RecordErrorView::NotText { field: name }),
    }
}

/// The texts of the fields `names`, in this order, or why the first of them
/// that has none has none.
pub open spec fn text_fields(fields: Seq<RawFieldView>, names: Seq<Seq<char>>) -> Result<
    Seq<Seq<char>>,
    RecordErrorView,
>
    decreases names.len(),
{
    if names.len() == 0 {
        Ok(Seq::empty())
    } else {
        match text_fields(fields, names.drop_last()) {
            Err(e) => Err(e),
            Ok(texts) => match text_field(fields, names.last()) {
                Err(e) => Err(e),
                Ok(text) => Ok(texts.push(text)),
            },
        }
    }
}

/// The whole number of the field `name`, if the record has such a field and
/// it holds one.
pub open spec fn integer_field(fields: Seq<RawFieldView>, name: Seq<char>) -> Option<i64> {
    match field_value(fields, name) {
        Some(RawValueView::Integer(n)) => Some(n),
        _ => None,
    }
}

impl RawRecord {
    /// The value of the first field named `name`.
    pub fn get(&self, name: &str) -> (r: Option<&RawValue>)
        ensures
            match r {
                Some(v) => field_value(self@, name@) == Some(v@),
                None => field_value(self@, name@) is None,
            },
    {
        let mut i: usize = 0;
        assert(self@.skip(0) == self@);
        while i < self.fields.len()
            invariant
                i <= self.fields.len(),
                field_value(self@, name@) == field_value(self@.skip(i as int), name@),
            decreases self.fields.len() - i,
        {
            assert(self@.skip(i as int)[0] == self.fields@[i as int]@);
            assert(self@.skip(i as int).skip(1) == self@.skip(i + 1));
            if same_text(self.fields[i].name.as_str(), name) {
                return Some(&self.fields[i].value);
            }
            i += 1;
        }
        None
    }

    /// The whole number of the field `name`, if there is one.
    pub fn get_integer(&self, name: &str) -> (r: Option<i64>)
        ensures
            r == integer_field(self@, name@),
    {
        match self.get(name) {
            Some(RawValue::Integer(n)) => Some(*n),
            _ => None,
        }
    }
}

/// The text of the field `field` of `value`, or why there is none.
pub fn get_string(value: &RawRecord, field: &str) -> (r: Result<String, RecordError>)
    ensures
        result_view(r) == text_field(value@, field@),
{
    match value.get(field) {
        None => Err(RecordError::Missing { field: field.to_owned() }),
        Some(RawValue::Text(s)) => Ok(s.clone()),
        Some(_) => Err(RecordError::NotText { field: field.to_owned() }),
    }
}

/// The texts of the fields `names` of `value`, in this order, or why the
/// first of them that has none has none.
pub fn get_strings(value: &RawRecord, names: &Vec<&str>) -> (r: Result<Vec<String>, RecordError>)
    ensures
        result_view(r) == text_fields(value@, names.deep_view()),
        r matches Ok(texts) ==> texts.len() == names.len(),
{
    let ghost all = names.deep_view();
    let mut texts: Vec<String> = Vec::new();
    let mut i: usize = 0;
    assert(texts.deep_view() == Seq::<Seq<char>>::empty());
    while i < names.len()
        invariant
            i <= names.len(),
            all == names.deep_view(),
            texts.len() == i,
            text_fields(value@, all.take(i as int)) == Ok::<Seq<Seq<char>>, RecordErrorView>(
                texts.deep_view(),
            ),
        decreases names.len() - i,
    {
        proof {
            assert(all.take(i + 1).drop_last() == all.take(i as int));
            assert(all.take(i + 1).last() == names@[i as int]@);
        }
        match get_string(value, names[i]) {
            Ok(text) => {
                let ghost before = texts.deep_view();
                texts.push(text);
                assert(texts.deep_view() == before.push(text@));
            },
            Err(e) => {
                proof {
                    lemma_text_fields_stop(value@, all, i + 1);
                }
                return Err(e);
            },
        }
        i += 1;
    }
    assert(all.take(i as int) == all);
    Ok(texts)
}

/// Once the texts of the first `k` names fail, the texts of all names fail
/// in the same way.
pub proof fn lemma_text_fields_stop(fields: Seq<RawFieldView>, names: Seq<Seq<char>>, k: int)
    requires
        0 <= k <= names.len(),
        text_fields(fields, names.take(k)) is Err,
    ensures
        text_fields(fields, names) == text_fields(fields, names.take(k)),
    decreases names.len(),
{
    if k == names.len() {
        assert(names.take(k) == names);
    } else {
        assert(names.drop_last().take(k) == names.take(k));
        lemma_text_fields_stop(fields, names.drop_last(), k);
    }
}

} // verus!
