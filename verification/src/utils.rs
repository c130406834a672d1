//! Column-index mappings: how references move when a schema changes.
//!
//! A mapping is a finite partial function from old column positions to new
//! ones. A position without an entry is a dropped column. Rewriting an
//! expression through a mapping replaces the index of every column reference
//! and fails when a reference points at a dropped column.

use vstd::prelude::*;
use crate::error::ErrorCode;
use crate::expr::expr_nullif::NullifExpression;
use crate::expr::{ExprImpl, InputRef, Literal};
use crate::types::Datum;

verus! {

/// The mapping that moves each of the first `source_num` positions up by
/// `offset`. A position whose target would not fit in `usize` has no entry.
pub open spec fn shift_map(source_num: nat, offset: nat) -> Seq<Option<usize>> {
    Seq::new(
        source_num,
        |i: int|
            if i + offset <= usize::MAX {
                Some((i + offset) as usize)
            } else {
                None
            },
    )
}

impl ExprImpl {
    /// Every column reference in the expression points below `width`.
    pub open spec fn refs_within(self, width: nat) -> bool
        decreases self,
    {
        match self {
            ExprImpl::InputRef(input_ref) => input_ref.index < width,
            ExprImpl::Literal(_) => true,
            ExprImpl::Nullif(nullif) => nullif.left.refs_within(width) && nullif.right.refs_within(
                width,
            ),
        }
    }

    /// The indices of the column references in the expression, left to right.
    pub open spec fn input_refs(self) -> Seq<int>
        decreases self,
    {
        match self {
            ExprImpl::InputRef(input_ref) => seq![input_ref.index as int],
            ExprImpl::Literal(_) => Seq::empty(),
            ExprImpl::Nullif(nullif) => nullif.left.input_refs() + nullif.right.input_refs(),
        }
    }

    /// The values of the literals in the expression, left to right.
    pub open spec fn literals(self) -> Seq<Datum>
        decreases self,
    {
        match self {
            ExprImpl::InputRef(_) => Seq::empty(),
            ExprImpl::Literal(literal) => seq![literal.value],
            ExprImpl::Nullif(nullif) => nullif.left.literals() + nullif.right.literals(),
        }
    }

    /// The expression with every column reference moved through `map`, or
    /// `None` when some reference has no entry in `map`.
    pub open spec fn remapped(self, map: Seq<Option<usize>>) -> Option<ExprImpl>
        decreases self,
    {
        match self {
            ExprImpl::InputRef(input_ref) => {
                if input_ref.index < map.len() && map[input_ref.index as int] is Some {
                    Some(
                        ExprImpl::InputRef(
                            InputRef {
                                index: map[input_ref.index as int].unwrap(),
                                data_type: input_ref.data_type,
                            },
                        ),
                    )
                } else {
                    None
                }
            },
            ExprImpl::Literal(literal) => Some(self),
            ExprImpl::Nullif(nullif) => match (
                nullif.left.remapped(map),
                nullif.right.remapped(map),
            ) {
                (Some(left), Some(right)) => Some(
                    ExprImpl::Nullif(
                        NullifExpression {
                            return_type: nullif.return_type,
                            left: Box::new(left),
                            right: Box::new(right),
                        },
                    ),
                ),
                _ => None,
            },
        }
    }

    /// The expression with `offset` added to the index of every column
    /// reference. Literals and declared types stay as they are.
    pub open spec fn shifted(self, offset: nat) -> ExprImpl
        decreases self,
    {
        match self {
            ExprImpl::InputRef(input_ref) => ExprImpl::InputRef(
                InputRef {
                    index: (input_ref.index + offset) as usize,
                    data_type: input_ref.data_type,
                },
            ),
            ExprImpl::Literal(literal) => self,
            ExprImpl::Nullif(nullif) => ExprImpl::Nullif(
                NullifExpression {
                    return_type: nullif.return_type,
                    left: Box::new(nullif.left.shifted(offset)),
                    right: Box::new(nullif.right.shifted(offset)),
                },
            ),
        }
    }

    /// Tells whether every column reference points below `width`.
    pub fn has_refs_within(&self, width: usize) -> (r: bool)
        ensures
            r == self.refs_within(width as nat),
        decreases self,
    {
        match self {
            ExprImpl::InputRef(input_ref) => input_ref.index < width,
            ExprImpl::Literal(_) => true,
            ExprImpl::Nullif(nullif) => nullif.left.has_refs_within(width)
                && nullif.right.has_refs_within(width),
        }
    }
}

/// A finite partial function from old column positions to new ones.
#[derive(Debug, PartialEq, Eq)]
pub struct ColIndexMapping {
    map: Vec<Option<usize>>,
}

impl View for ColIndexMapping {
    type V = Seq<Option<usize>>;

    closed spec fn view(&self) -> Seq<Option<usize>> {
        self.map@
    }
}

impl ColIndexMapping {
    /// The mapping given by an explicit table: position `i` goes to
    /// `map[i]`, and is dropped where that is `None` or `i` is past the end.
    pub fn new(map: Vec<Option<usize>>) -> (r: ColIndexMapping)
        ensures
            r@ == map@,
    {
        ColIndexMapping { map }
    }

    /// The mapping that moves each of the first `source_num` positions up by
    /// `offset`, as when `offset` columns are put in front.
    pub fn with_shift_offset(source_num: usize, offset: usize) -> (r: ColIndexMapping)
        ensures
            r@ == shift_map(source_num as nat, offset as nat),
    {
        let mut map: Vec<Option<usize>> = Vec::with_capacity(source_num);
        let mut i: usize = 0;
        while i < source_num
            invariant
                i <= source_num,
                map@ == shift_map(i as nat, offset as nat),
            decreases source_num - i,
        {
            map.push(i.checked_add(offset));
            i += 1;
        }
        ColIndexMapping { map }
    }

    /// The number of old positions that the table covers.
    pub fn source_size(&self) -> (n: usize)
        ensures
            n == self@.len(),
    {
        self.map.len()
    }

    /// Where position `index` goes, or `None` when it is dropped.
    pub fn try_map(&self, index: usize) -> (r: Option<usize>)
        ensures
            index < self@.len() ==> r == self@[index as int],
            index >= self@.len() ==> r is None,
    {
        if index < self.map.len() {
            self.map[index]
        } else {
            None
        }
    }

    /// Where position `index` goes. The position must have an entry.
    pub fn map(&self, index: usize) -> (r: usize)
        requires
            index < self@.len(),
            self@[index as int] is Some,
        ensures
            Some(r) == self@[index as int],
    {
        self.map[index].unwrap()
    }

    /// Rewrites every column reference of `expr` through the mapping and
    /// leaves the rest of the tree as it is. Fails with
    /// `RuleApplicationError` when some reference has no entry.
    pub fn rewrite_expr(&self, expr: &ExprImpl) -> (r: Result<ExprImpl, ErrorCode>)
        ensures
            match r {
                Ok(rewritten) => expr.remapped(self@) == Some(rewritten),
                Err(e) => e == ErrorCode::RuleApplicationError && expr.remapped(self@) is None,
            },
        decreases expr,
    {
        match expr {
            ExprImpl::InputRef(input_ref) => match self.try_map(input_ref.index) {
                Some(target) => Ok(ExprImpl::InputRef(InputRef::new(target, input_ref.data_type))),
                None => Err(ErrorCode::RuleApplicationError),
            },
            ExprImpl::Literal(literal) => Ok(
                ExprImpl::Literal(Literal::new(literal.value, literal.data_type)),
            ),
            ExprImpl::Nullif(nullif) => {
                let left = match self.rewrite_expr(&nullif.left) {
                    Ok(e) => e,
                    Err(e) => { return Err(e); },
                };
                let right = match self.rewrite_expr(&nullif.right) {
                    Ok(e) => e,
                    Err(e) => { return Err(e); },
                };
                Ok(
                    ExprImpl::Nullif(
                        NullifExpression::new(nullif.return_type, Box::new(left), Box::new(right)),
                    ),
                )
            },
        }
    }
}

/// Position `index` has an entry in `map`.
pub open spec fn has_entry(map: Seq<Option<usize>>, index: int) -> bool {
    0 <= index < map.len() && map[index] is Some
}

/// Every reference of `expr` has an entry in `map`.
pub open spec fn covers(map: Seq<Option<usize>>, expr: ExprImpl) -> bool {
    forall|i: int|
        0 <= i < expr.input_refs().len() ==> has_entry(map, #[trigger] expr.input_refs()[i])
}

/// Rewriting succeeds exactly when every reference of the tree has an entry
/// in the mapping. It then replaces the index of each reference by its
/// entry, in place, and changes nothing else: the literals and the declared
/// type of the tree stay as they are.
pub proof fn lemma_remapped_parts(expr: ExprImpl, map: Seq<Option<usize>>)
    ensures
        expr.remapped(map) is Some <==> covers(map, expr),
        expr.remapped(map) matches Some(rewritten) ==> {
            &&& rewritten.input_refs() == expr.input_refs().map_values(
                |j: int| map[j].unwrap() as int,
            )
            &&& rewritten.literals() == expr.literals()
            &&& rewritten.return_type_of() == expr.return_type_of()
        },
    decreases expr,
{
    let target = |j: int| map[j].unwrap() as int;
    match expr {
        ExprImpl::InputRef(input_ref) => {
            assert(expr.input_refs()[0] == input_ref.index);
            if expr.remapped(map) is Some {
                assert(expr.remapped(map).unwrap().input_refs() =~= expr.input_refs().map_values(
                    target,
                ));
            }
        },
        ExprImpl::Literal(_) => {
            assert(expr.remapped(map).unwrap().input_refs() =~= expr.input_refs().map_values(
                target,
            ));
        },
        ExprImpl::Nullif(nullif) => {
            let l = nullif.left.input_refs();
            let r = nullif.right.input_refs();
            lemma_remapped_parts(*nullif.left, map);
            lemma_remapped_parts(*nullif.right, map);
            if expr.remapped(map) is Some {
                assert forall|i: int| 0 <= i < expr.input_refs().len() implies has_entry(
                    map,
                    #[trigger] expr.input_refs()[i],
                ) by {
                    if i < l.len() {
                        assert(expr.input_refs()[i] == l[i]);
                    } else {
                        assert(expr.input_refs()[i] == r[i - l.len()]);
                    }
                }
                assert(expr.remapped(map).unwrap().input_refs() =~= expr.input_refs().map_values(
                    target,
                ));
            }
            if covers(map, expr) {
                assert forall|i: int| 0 <= i < l.len() implies has_entry(map, #[trigger] l[i]) by {
                    assert(expr.input_refs()[i] == l[i]);
                }
                assert forall|i: int| 0 <= i < r.len() implies has_entry(map, #[trigger] r[i]) by {
                    assert(expr.input_refs()[l.len() + i] == r[i]);
                }
            }
        },
    }
}

/// Shifting moves every reference and nothing else: the rewritten tree has
/// the references of the old one, each raised by `offset`, in the same
/// order; its literals and its declared type are those of the old tree.
pub proof fn lemma_shifted_parts(expr: ExprImpl, offset: nat)
    requires
        forall|i: int|
            0 <= i < expr.input_refs().len() ==> expr.input_refs()[i] + offset <= usize::MAX,
    ensures
        expr.shifted(offset).input_refs() == expr.input_refs().map_values(|j: int| j + offset),
        expr.shifted(offset).literals() == expr.literals(),
        expr.shifted(offset).return_type_of() == expr.return_type_of(),
    decreases expr,
{
    match expr {
        ExprImpl::InputRef(input_ref) => {
            assert(expr.input_refs()[0] == input_ref.index);
            assert(expr.shifted(offset).input_refs() =~= expr.input_refs().map_values(
                |j: int| j + offset,
            ));
        },
        ExprImpl::Literal(_) => {
            assert(expr.shifted(offset).input_refs() =~= expr.input_refs().map_values(
                |j: int| j + offset,
            ));
        },
        ExprImpl::Nullif(nullif) => {
            let l = nullif.left.input_refs();
            let r = nullif.right.input_refs();
            assert forall|i: int| 0 <= i < l.len() implies l[i] + offset <= usize::MAX by {
                assert(expr.input_refs()[i] == l[i]);
            }
            assert forall|i: int| 0 <= i < r.len() implies r[i] + offset <= usize::MAX by {
                assert(expr.input_refs()[l.len() + i] == r[i]);
            }
            lemma_shifted_parts(*nullif.left, offset);
            lemma_shifted_parts(*nullif.right, offset);
            assert(expr.shifted(offset).input_refs() =~= expr.input_refs().map_values(
                |j: int| j + offset,
            ));
        },
    }
}

/// Rewriting through a shift mapping is shifting: where every reference of
/// `expr` points below `source_num` and the shifted positions fit in
/// `usize`, the mapping turns a reference to column `j` into one to column
/// `j + offset` and leaves literals untouched.
pub proof fn lemma_shift_rewrites_every_ref(expr: ExprImpl, source_num: nat, offset: nat)
    requires
        expr.refs_within(source_num),
        source_num + offset <= usize::MAX + 1,
    ensures
        expr.remapped(shift_map(source_num, offset)) == Some(expr.shifted(offset)),
    decreases expr,
{
    match expr {
        ExprImpl::InputRef(_) => {},
        ExprImpl::Literal(_) => {},
        ExprImpl::Nullif(nullif) => {
            lemma_shift_rewrites_every_ref(*nullif.left, source_num, offset);
            lemma_shift_rewrites_every_ref(*nullif.right, source_num, offset);
        },
    }
}

} // verus!
