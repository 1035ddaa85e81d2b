//! The two value vocabularies the library converts between, and their
//! mathematical models.

use vstd::prelude::*;

verus! {

/// A loosely typed value as callers exchange it with the library.
#[derive(Debug, PartialEq)]
pub enum DynValue {
    /// The absent value.
    Null,
    /// A truth value.
    Boolean(bool),
    /// A signed 64-bit integer.
    Integer(i64),
    /// A 64-bit float, held as the engine value that stores it.
    Float(sqlite::Value),
    /// A piece of text.
    Text(String),
    /// A sequence of values: a row of a batch on the way in, the bytes of a
    /// binary cell on the way out.
    Array(Vec<DynValue>),
    /// Any shape that has no counterpart among the engine's column types.
    Unsupported,
}

/// The mathematical model of a [`DynValue`].
pub enum DynModel {
    Null,
    Boolean(bool),
    Integer(i64),
    Float(sqlite::Value),
    Text(Seq<char>),
    Array(Seq<DynModel>),
    Unsupported,
}

/// A value in one of the engine's column types.
#[derive(Debug, Clone, PartialEq)]
pub enum SqlValue {
    /// SQL NULL.
    Null,
    /// A signed 64-bit integer.
    Integer(i64),
    /// A 64-bit float, held as the engine value that stores it.
    Float(sqlite::Value),
    /// A piece of text.
    Text(String),
    /// A byte blob.
    Binary(Vec<u8>),
}

/// The mathematical model of a [`SqlValue`].
pub enum SqlModel {
    Null,
    Integer(i64),
    Float(sqlite::Value),
    Text(Seq<char>),
    Binary(Seq<u8>),
}

/// The model of a caller value: the same shape, with text as a sequence of
/// characters and an array as the sequence of its elements' models.
pub open spec fn model_of(value: DynValue) -> DynModel
    decreases value,
{
    match value {
        DynValue::Null => DynModel::Null,
        DynValue::Boolean(b) => DynModel::Boolean(b),
        DynValue::Integer(n) => DynModel::Integer(n),
        DynValue::Float(f) => DynModel::Float(f),
        DynValue::Text(s) => DynModel::Text(s@),
        DynValue::Array(items) => DynModel::Array(
            Seq::new(
                items@.len(),
                |i: int|
                    if 0 <= i < items@.len() {
                        model_of(items@[i])
                    } else {
                        DynModel::Null
                    },
            ),
        ),
        DynValue::Unsupported => DynModel::Unsupported,
    }
}

impl View for DynValue {
    type V = DynModel;

    open spec fn view(&self) -> DynModel {
        model_of(*self)
    }
}

impl View for SqlValue {
    type V = SqlModel;

    open spec fn view(&self) -> SqlModel {
        match self {
            SqlValue::Null => SqlModel::Null,
            SqlValue::Integer(n) => SqlModel::Integer(*n),
            SqlValue::Float(f) => SqlModel::Float(*f),
            SqlValue::Text(s) => SqlModel::Text(s@),
            SqlValue::Binary(b) => SqlModel::Binary(b@),
        }
    }
}

/// The models of the values of a vector, in order.
pub open spec fn models(values: Seq<DynValue>) -> Seq<DynModel> {
    Seq::new(values.len(), |i: int| values[i]@)
}

/// The models of the engine values of a vector, in order.
pub open spec fn sql_models(values: Seq<SqlValue>) -> Seq<SqlModel> {
    Seq::new(values.len(), |i: int| values[i]@)
}

/// The model of an array is the array of its elements' models.
pub proof fn lemma_array_model(items: Vec<DynValue>)
    ensures
        DynValue::Array(items)@ == DynModel::Array(models(items@)),
{
    reveal_with_fuel(model_of, 2);
    assert(DynValue::Array(items)@->Array_0 =~= models(items@));
}

impl Clone for DynValue {
    /// A copy with the same model.
    #[verifier::loop_isolation(false)]
    fn clone(&self) -> (copy: Self)
        ensures
            copy@ == self@,
        decreases self,
    {
        match self {
            DynValue::Null => DynValue::Null,
            DynValue::Boolean(b) => DynValue::Boolean(*b),
            DynValue::Integer(n) => DynValue::Integer(*n),
            DynValue::Float(f) => DynValue::Float(f.clone()),
            DynValue::Text(s) => DynValue::Text(s.clone()),
            DynValue::Array(items) => {
                let mut copies: Vec<DynValue> = Vec::new();
                let mut i: usize = 0;
                while i < items.len()
                    invariant
                        i <= items.len(),
                        copies.len() == i,
                        forall|j: int| 0 <= j < i ==> (#[trigger] copies[j])@ == items[j]@,
                    decreases items.len() - i,
                {
                    proof {
                        vstd::std_specs::vec::axiom_vec_index_decreases(*items, i as int);
                    }
                    copies.push(items[i].clone());
                    i += 1;
                }
                proof {
                    lemma_array_model(copies);
                    lemma_array_model(*items);
                    assert(models(copies@) =~= models(items@));
                }
                DynValue::Array(copies)
            },
            DynValue::Unsupported => DynValue::Unsupported,
        }
    }
}

} // verus!
