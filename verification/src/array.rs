//! Typed columns, the builder that fills one, and batches of columns.

use vstd::prelude::*;
use crate::error::ErrorCode;
use crate::types::{all_fit, datum_fits, fits, DataType, Datum};

verus! {

/// The mathematical value of a column: its type and its rows.
pub struct ArrayView {
    pub data_type: DataType,
    pub values: Seq<Datum>,
}

impl ArrayView {
    /// Every row is null or a scalar of the column's type.
    pub open spec fn well_typed(self) -> bool {
        all_fit(self.values, self.data_type)
    }
}

/// The mathematical value of a batch: its columns and its row count.
pub struct ChunkView {
    pub columns: Seq<ArrayView>,
    pub cardinality: nat,
}

impl ChunkView {
    /// Every column is well typed and has one row per row of the batch.
    pub open spec fn wf(self) -> bool {
        forall|i: int|
            0 <= i < self.columns.len() ==> {
                &&& (#[trigger] self.columns[i]).values.len() == self.cardinality
                &&& self.columns[i].well_typed()
            }
    }
}

/// A column: nullable scalars of one type.
#[derive(Debug, PartialEq, Eq)]
pub struct ArrayImpl {
    data_type: DataType,
    values: Vec<Datum>,
}

impl View for ArrayImpl {
    type V = ArrayView;

    closed spec fn view(&self) -> ArrayView {
        ArrayView { data_type: self.data_type, values: self.values@ }
    }
}

impl Clone for ArrayImpl {
    fn clone(&self) -> (r: Self)
        ensures
            r@ == self@,
    {
        proof {
            use_type_invariant(self);
        }
        ArrayImpl { data_type: self.data_type, values: self.values.clone() }
    }
}

impl ArrayImpl {
    #[verifier::type_invariant]
    spec fn typed(self) -> bool {
        all_fit(self.values@, self.data_type)
    }

    /// Makes a column of type `data_type` out of `values`. Fails with
    /// `TypeMismatch` when a value is a scalar of another type.
    pub fn new(data_type: DataType, values: Vec<Datum>) -> (r: Result<ArrayImpl, ErrorCode>)
        ensures
            match r {
                Ok(a) => all_fit(values@, data_type) && a@ == (ArrayView {
                    data_type,
                    values: values@,
                }),
                Err(e) => e == ErrorCode::TypeMismatch && !all_fit(values@, data_type),
            },
    {
        let mut i: usize = 0;
        while i < values.len()
            invariant
                i <= values.len(),
                all_fit(values@.take(i as int), data_type),
            decreases values.len() - i,
        {
            if !fits(&values[i], data_type) {
                return Err(ErrorCode::TypeMismatch);
            }
            assert forall|j: int| 0 <= j < i + 1 implies datum_fits(
                #[trigger] values@.take(i + 1)[j],
                data_type,
            ) by {
                if j < i {
                    assert(values@.take(i as int)[j] == values@[j]);
                }
            }
            i += 1;
        }
        assert(values@.take(i as int) =~= values@);
        Ok(ArrayImpl { data_type, values })
    }

    pub fn data_type(&self) -> (t: DataType)
        ensures
            t == self@.data_type,
    {
        self.data_type
    }

    /// The number of rows.
    pub fn len(&self) -> (n: usize)
        ensures
            n == self@.values.len(),
    {
        self.values.len()
    }

    /// The rows, in order. Each fits the column's type.
    pub fn values(&self) -> (r: &Vec<Datum>)
        ensures
            r@ == self@.values,
            self@.well_typed(),
    {
        proof {
            use_type_invariant(self);
        }
        &self.values
    }

    /// The value of row `idx`.
    pub fn datum_at(&self, idx: usize) -> (d: Datum)
        requires
            idx < self@.values.len(),
        ensures
            d == self@.values[idx as int],
            datum_fits(d, self@.data_type),
    {
        proof {
            use_type_invariant(self);
        }
        self.values[idx]
    }
}

/// Collects rows into a column of a fixed type.
pub struct ArrayBuilder {
    data_type: DataType,
    values: Vec<Datum>,
}

impl View for ArrayBuilder {
    type V = ArrayView;

    closed spec fn view(&self) -> ArrayView {
        ArrayView { data_type: self.data_type, values: self.values@ }
    }
}

impl ArrayBuilder {
    /// Every row appended so far fits the builder's type. `new` establishes
    /// this and the appending methods keep it.
    pub open spec fn wf(&self) -> bool {
        self@.well_typed()
    }

    /// An empty builder for a column of type `data_type`, with room for
    /// `capacity` rows.
    pub fn new(data_type: DataType, capacity: usize) -> (r: ArrayBuilder)
        ensures
            r.wf(),
            r@ == (ArrayView { data_type, values: Seq::<Datum>::empty() }),
    {
        ArrayBuilder { data_type, values: Vec::with_capacity(capacity) }
    }

    /// Appends `datum` as the next row. A scalar of another type than the
    /// builder's is refused with `TypeMismatch`, and the builder stays as it
    /// was.
    pub fn append_datum(&mut self, datum: &Datum) -> (r: Result<(), ErrorCode>)
        requires
            old(self).wf(),
        ensures
            final(self).wf(),
            match r {
                Ok(_) => {
                    &&& datum_fits(*datum, old(self)@.data_type)
                    &&& final(self)@ == (ArrayView {
                        data_type: old(self)@.data_type,
                        values: old(self)@.values.push(*datum),
                    })
                },
                Err(e) => {
                    &&& e == ErrorCode::TypeMismatch
                    &&& !datum_fits(*datum, old(self)@.data_type)
                    &&& final(self)@ == old(self)@
                },
            },
    {
        if fits(datum, self.data_type) {
            self.values.push(*datum);
            Ok(())
        } else {
            Err(ErrorCode::TypeMismatch)
        }
    }

    /// Appends a null row.
    pub fn append_null(&mut self)
        requires
            old(self).wf(),
        ensures
            final(self).wf(),
            final(self)@ == (ArrayView {
                data_type: old(self)@.data_type,
                values: old(self)@.values.push(None),
            }),
    {
        self.values.push(None);
    }

    /// The column of the rows appended so far.
    pub fn finish(self) -> (r: ArrayImpl)
        requires
            self.wf(),
        ensures
            r@ == self@,
    {
        ArrayImpl { data_type: self.data_type, values: self.values }
    }
}

/// The views of a vector of columns, in order.
pub open spec fn array_views(columns: Seq<ArrayImpl>) -> Seq<ArrayView> {
    Seq::new(columns.len(), |i: int| columns[i]@)
}

/// A batch: columns of equal length, processed together.
#[derive(Debug, PartialEq, Eq)]
pub struct DataChunk {
    columns: Vec<ArrayImpl>,
    cardinality: usize,
}

impl View for DataChunk {
    type V = ChunkView;

    closed spec fn view(&self) -> ChunkView {
        ChunkView { columns: array_views(self.columns@), cardinality: self.cardinality as nat }
    }
}

impl DataChunk {
    #[verifier::type_invariant]
    spec fn aligned(self) -> bool {
        forall|i: int|
            0 <= i < self.columns@.len() ==> (#[trigger] self.columns@[i])@.values.len()
                == self.cardinality
    }

    /// Makes a batch of `cardinality` rows out of `columns`. Fails with
    /// `TypeMismatch` when a column has another number of rows.
    pub fn new(columns: Vec<ArrayImpl>, cardinality: usize) -> (r: Result<DataChunk, ErrorCode>)
        ensures
            match r {
                Ok(chunk) => {
                    &&& chunk@.columns == array_views(columns@)
                    &&& chunk@.cardinality == cardinality
                    &&& chunk@.wf()
                },
                Err(e) => {
                    &&& e == ErrorCode::TypeMismatch
                    &&& exists|i: int|
                        0 <= i < columns@.len() && (#[trigger] columns@[i])@.values.len()
                            != cardinality
                },
            },
    {
        let mut i: usize = 0;
        while i < columns.len()
            invariant
                i <= columns.len(),
                forall|j: int|
                    0 <= j < i ==> {
                        &&& (#[trigger] columns@[j])@.values.len() == cardinality
                        &&& columns@[j]@.well_typed()
                    },
            decreases columns.len() - i,
        {
            let column = &columns[i];
            let _ = column.values();
            if column.len() != cardinality {
                return Err(ErrorCode::TypeMismatch);
            }
            i += 1;
        }
        Ok(DataChunk { columns, cardinality })
    }

    /// The number of rows.
    pub fn cardinality(&self) -> (n: usize)
        ensures
            n == self@.cardinality,
    {
        self.cardinality
    }

    /// The number of columns.
    pub fn dimension(&self) -> (n: usize)
        ensures
            n == self@.columns.len(),
    {
        self.columns.len()
    }

    /// Column `idx`, or `None` when the batch has no such column.
    pub fn column_at(&self, idx: usize) -> (r: Option<&ArrayImpl>)
        ensures
            match r {
                Some(column) => {
                    &&& idx < self@.columns.len()
                    &&& column@ == self@.columns[idx as int]
                    &&& column@.values.len() == self@.cardinality
                    &&& column@.well_typed()
                },
                None => idx >= self@.columns.len(),
            },
    {
        proof {
            use_type_invariant(self);
        }
        if idx < self.columns.len() {
            let column = &self.columns[idx];
            let _ = column.values();
            Some(column)
        } else {
            None
        }
    }
}

} // verus!
