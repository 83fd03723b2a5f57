//! Data classes: reading and writing fields.
use crate::error::{Error, ErrorView};
use crate::ir::{node1, node2, term1, term2, Op, OpView};
use crate::names::name_index;
use crate::pyterm::{outcome, py, PyTerm, PyTermView};
use crate::ty::{Ty, TyView};
use vstd::prelude::*;

verus! {

/// The field of a class value with the given name.
pub open spec fn field_selected(class_: PyTermView, field: Seq<char>) -> Result<
    PyTermView,
    ErrorView,
> {
    match class_.ty {
        TyView::DataClass(_, fs) => match name_index(fs, field) {
            Some(i) => Ok(py(fs[i].1, node1(OpView::Field(i as nat), class_.term))),
            None => Err(ErrorView::NoField(field)),
        },
        ty => Err(ErrorView::NotClass(ty)),
    }
}

/// The field of a class value with the given name.
pub fn field_select(class_: &PyTerm, field: &str) -> (r: Result<PyTerm, Error>)
    ensures
        outcome(r) == field_selected(class_@, field@),
{
    match &class_.ty {
        Ty::DataClass(_, map) => {
            if let Some((idx, ty)) = map.search(field) {
                Ok(PyTerm::new(ty.clone(), term1(Op::Field(idx), class_.term.clone())))
            } else {
                Err(Error::NoField(field.to_owned()))
            }
        },
        a => Err(Error::NotClass(a.clone())),
    }
}

/// A class value with the field of the given name replaced by a value of its
/// type.
pub open spec fn field_stored(class_: PyTermView, field: Seq<char>, val: PyTermView) -> Result<
    PyTermView,
    ErrorView,
> {
    match class_.ty {
        TyView::DataClass(_, fs) => match name_index(fs, field) {
            Some(i) => if fs[i].1 == val.ty {
                Ok(py(class_.ty, node2(OpView::Update(i as nat), class_.term, val.term)))
            } else {
                Err(ErrorView::FieldType(val.term, field, fs[i].1))
            },
            None => Err(ErrorView::NoField(field)),
        },
        ty => Err(ErrorView::NotClass(ty)),
    }
}

/// A class value with the field of the given name replaced.
pub fn field_store(class_: PyTerm, field: &str, val: PyTerm) -> (r: Result<PyTerm, Error>)
    ensures
        outcome(r) == field_stored(class_@, field@, val@),
        r matches Ok(t) ==> t@.ty == class_@.ty,
{
    match &class_.ty {
        Ty::DataClass(_, map) => {
            if let Some((idx, ty)) = map.search(field) {
                if *ty == val.ty {
                    Ok(
                        PyTerm::new(
                            class_.ty.clone(),
                            term2(Op::Update(idx), class_.term.clone(), val.term),
                        ),
                    )
                } else {
                    let (_, want) = map.get(idx);
                    Err(Error::FieldType(val.term, field.to_owned(), want.clone()))
                }
            } else {
                Err(Error::NoField(field.to_owned()))
            }
        },
        a => Err(Error::NotClass(a.clone())),
    }
}

} // verus!
