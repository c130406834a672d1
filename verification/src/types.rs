//! Column types, scalar values and schemas.

use vstd::prelude::*;

verus! {

/// The type of a column or of an expression's result.
#[derive(Clone, Copy, Debug, PartialEq, Eq, Structural)]
pub enum DataType {
    Boolean,
    Int16,
    Int32,
    Int64,
}

/// A non-null scalar value.
#[derive(Clone, Copy, Debug, PartialEq, Eq, Structural)]
pub enum ScalarImpl {
    Bool(bool),
    Int16(i16),
    Int32(i32),
    Int64(i64),
}

/// A nullable scalar: `None` is SQL NULL.
pub type Datum = Option<ScalarImpl>;

impl ScalarImpl {
    /// The type that this value belongs to.
    pub open spec fn type_of(self) -> DataType {
        match self {
            ScalarImpl::Bool(_) => DataType::Boolean,
            ScalarImpl::Int16(_) => DataType::Int16,
            ScalarImpl::Int32(_) => DataType::Int32,
            ScalarImpl::Int64(_) => DataType::Int64,
        }
    }

    pub fn data_type(&self) -> (t: DataType)
        ensures
            t == self.type_of(),
    {
        match self {
            ScalarImpl::Bool(_) => DataType::Boolean,
            ScalarImpl::Int16(_) => DataType::Int16,
            ScalarImpl::Int32(_) => DataType::Int32,
            ScalarImpl::Int64(_) => DataType::Int64,
        }
    }
}

/// A datum fits a type when it is null or a scalar of that type.
pub open spec fn datum_fits(datum: Datum, data_type: DataType) -> bool {
    datum matches Some(value) ==> value.type_of() == data_type
}

/// Every datum of `values` fits `data_type`.
pub open spec fn all_fit(values: Seq<Datum>, data_type: DataType) -> bool {
    forall|i: int| 0 <= i < values.len() ==> datum_fits(#[trigger] values[i], data_type)
}

/// Tells whether `datum` is null or a scalar of type `data_type`.
pub fn fits(datum: &Datum, data_type: DataType) -> (r: bool)
    ensures
        r == datum_fits(*datum, data_type),
{
    match datum {
        None => true,
        Some(value) => value.data_type() == data_type,
    }
}

/// The equality that expressions use on datums: two nulls are equal, a null
/// and a scalar are not, and two scalars are equal when they have the same
/// type and value.
pub fn datum_eq(left: &Datum, right: &Datum) -> (r: bool)
    ensures
        r == (*left == *right),
{
    match (left, right) {
        (None, None) => true,
        (Some(a), Some(b)) => *a == *b,
        _ => false,
    }
}

/// The mathematical value of a [`Field`].
pub struct FieldView {
    pub name: Seq<char>,
    pub data_type: DataType,
}

/// A named, typed column of a schema.
#[derive(Debug, PartialEq, Eq)]
pub struct Field {
    pub name: String,
    pub data_type: DataType,
}

impl View for Field {
    type V = FieldView;

    open spec fn view(&self) -> FieldView {
        FieldView { name: self.name@, data_type: self.data_type }
    }
}

impl Clone for Field {
    fn clone(&self) -> (r: Self)
        ensures
            r@ == self@,
    {
        Field { name: self.name.clone(), data_type: self.data_type }
    }
}

impl Field {
    pub fn new(name: String, data_type: DataType) -> (r: Field)
        ensures
            r@ == (FieldView { name: name@, data_type }),
    {
        Field { name, data_type }
    }

    pub fn data_type(&self) -> (t: DataType)
        ensures
            t == self@.data_type,
    {
        self.data_type
    }
}

/// The views of a vector of fields, in order.
pub open spec fn field_views(fields: Seq<Field>) -> Seq<FieldView> {
    Seq::new(fields.len(), |i: int| fields[i]@)
}

/// An ordered list of fields. A column is addressed by its position.
#[derive(Debug, PartialEq, Eq)]
pub struct Schema {
    pub fields: Vec<Field>,
}

impl View for Schema {
    type V = Seq<FieldView>;

    open spec fn view(&self) -> Seq<FieldView> {
        field_views(self.fields@)
    }
}

impl Clone for Schema {
    fn clone(&self) -> (r: Self)
        ensures
            r@ == self@,
    {
        let mut fields: Vec<Field> = Vec::new();
        let mut i: usize = 0;
        while i < self.fields.len()
            invariant
                i <= self.fields.len(),
                fields@.len() == i,
                forall|j: int| 0 <= j < i ==> fields@[j]@ == self.fields@[j]@,
            decreases self.fields.len() - i,
        {
            fields.push(self.fields[i].clone());
            i += 1;
        }
        let r = Schema { fields };
        assert(r@ =~= self@);
        r
    }
}

impl Schema {
    pub fn new(fields: Vec<Field>) -> (r: Schema)
        ensures
            r@ == field_views(fields@),
    {
        Schema { fields }
    }

    /// The number of columns.
    pub fn len(&self) -> (n: usize)
        ensures
            n == self@.len(),
    {
        self.fields.len()
    }

    pub fn fields(&self) -> (r: &Vec<Field>)
        ensures
            field_views(r@) == self@,
    {
        &self.fields
    }
}

} // verus!
