//! Why an operation is refused.
use crate::integer::{decimal, integer_text, Integer};
use crate::ir::{terms_view, Term, TermView};
use crate::ty::{decimal_text, ty_text, Ty, TyView};
use vstd::prelude::*;

verus! {

/// Why an operation is refused.
#[derive(Debug)]
pub enum Error {
    /// A value of this type is not an array.
    NotArray(Ty),
    /// The operator does not take values of these types.
    BinaryOp(String, Ty, Ty),
    /// The operator does not take a value of this type.
    UnaryOp(String, Ty),
    /// Values of two types cannot be compared.
    Dissimilar(Ty, Ty),
    /// Only a field element can be raised, and only to a 32-bit power.
    Power(Term, Term),
    /// The term is not a constant integer.
    NotConstInt(Term),
    /// The term is not a constant.
    NotConstValue(Term),
    /// A value of this type is not a Boolean.
    NotBool(Ty),
    /// A value of this type cannot be shifted.
    Shift(String, Ty, Integer),
    /// The two cases have different types.
    Ite(Term, Term),
    /// A value of this type cannot be sliced.
    Slice(Ty),
    /// The class has no field with this name.
    NoField(String),
    /// A value of this type has no fields.
    NotClass(Ty),
    /// The term does not have the type of the field.
    FieldType(Term, String, Ty),
    /// The term is not a number.
    Coerce(Term),
    /// The first type cannot be indexed by the second.
    Index(Ty, Ty),
    /// The term that is stored into is not an array.
    StoreTarget(Term),
    /// The index that is stored at is not a number.
    StoreIndex(Term),
    /// The value that is stored is not a number.
    StoreValue(Term),
    /// The elements have different types.
    InconsistentArray,
    /// There are no elements.
    EmptyArray,
    /// Only an unsigned integer becomes a field element.
    UintToField(Ty),
    /// A value of this type has no bits.
    UintToBits(Ty),
    /// No unsigned integer has this many bits.
    UintFromBitsLen(usize),
    /// Only an array of Booleans becomes an unsigned integer.
    UintFromBits(Ty),
    /// The arrays hold something else than Booleans.
    BitArrayLeElems,
    /// The arrays differ in length.
    BitArrayLeLengths(usize, usize),
    /// The arrays do not have the stated length.
    BitArrayLeLength(usize, usize),
    /// Something else than arrays is compared.
    BitArrayLeTypes(Ty, Ty),
}

/// What an `Error` is.
pub enum ErrorView {
    NotArray(TyView),
    BinaryOp(Seq<char>, TyView, TyView),
    UnaryOp(Seq<char>, TyView),
    Dissimilar(TyView, TyView),
    Power(TermView, TermView),
    NotConstInt(TermView),
    NotConstValue(TermView),
    NotBool(TyView),
    Shift(Seq<char>, TyView, int),
    Ite(TermView, TermView),
    Slice(TyView),
    NoField(Seq<char>),
    NotClass(TyView),
    FieldType(TermView, Seq<char>, TyView),
    Coerce(TermView),
    Index(TyView, TyView),
    StoreTarget(TermView),
    StoreIndex(TermView),
    StoreValue(TermView),
    InconsistentArray,
    EmptyArray,
    UintToField(TyView),
    UintToBits(TyView),
    UintFromBitsLen(nat),
    UintFromBits(TyView),
    BitArrayLeElems,
    BitArrayLeLengths(nat, nat),
    BitArrayLeLength(nat, nat),
    BitArrayLeTypes(TyView, TyView),
}

impl View for Error {
    type V = ErrorView;

    open spec fn view(&self) -> ErrorView {
        match *self {
            Error::NotArray(a) => ErrorView::NotArray(a@),
            Error::BinaryOp(a, b, c) => ErrorView::BinaryOp(a@, b@, c@),
            Error::UnaryOp(a, b) => ErrorView::UnaryOp(a@, b@),
            Error::Dissimilar(a, b) => ErrorView::Dissimilar(a@, b@),
            Error::Power(a, b) => ErrorView::Power(a@, b@),
            Error::NotConstInt(a) => ErrorView::NotConstInt(a@),
            Error::NotConstValue(a) => ErrorView::NotConstValue(a@),
            Error::NotBool(a) => ErrorView::NotBool(a@),
            Error::Shift(a, b, c) => ErrorView::Shift(a@, b@, c@),
            Error::Ite(a, b) => ErrorView::Ite(a@, b@),
            Error::Slice(a) => ErrorView::Slice(a@),
            Error::NoField(a) => ErrorView::NoField(a@),
            Error::NotClass(a) => ErrorView::NotClass(a@),
            Error::FieldType(a, b, c) => ErrorView::FieldType(a@, b@, c@),
            Error::Coerce(a) => ErrorView::Coerce(a@),
            Error::Index(a, b) => ErrorView::Index(a@, b@),
            Error::StoreTarget(a) => ErrorView::StoreTarget(a@),
            Error::StoreIndex(a) => ErrorView::StoreIndex(a@),
            Error::StoreValue(a) => ErrorView::StoreValue(a@),
            Error::InconsistentArray => ErrorView::InconsistentArray,
            Error::EmptyArray => ErrorView::EmptyArray,
            Error::UintToField(a) => ErrorView::UintToField(a@),
            Error::UintToBits(a) => ErrorView::UintToBits(a@),
            Error::UintFromBitsLen(a) => ErrorView::UintFromBitsLen(a as nat),
            Error::UintFromBits(a) => ErrorView::UintFromBits(a@),
            Error::BitArrayLeElems => ErrorView::BitArrayLeElems,
            Error::BitArrayLeLengths(a, b) => ErrorView::BitArrayLeLengths(a as nat, b as nat),
            Error::BitArrayLeLength(a, b) => ErrorView::BitArrayLeLength(a as nat, b as nat),
            Error::BitArrayLeTypes(a, b) => ErrorView::BitArrayLeTypes(a@, b@),
        }
    }
}

/// The terms that the message of an error shows, in the order it shows them.
pub open spec fn error_terms(e: ErrorView) -> Seq<TermView> {
    match e {
        ErrorView::Power(a, b) => seq![a, b],
        ErrorView::NotConstInt(a) => seq![a],
        ErrorView::NotConstValue(a) => seq![a],
        ErrorView::Ite(a, b) => seq![a, b],
        ErrorView::FieldType(a, _, _) => seq![a],
        ErrorView::Coerce(a) => seq![a],
        ErrorView::StoreTarget(a) => seq![a],
        ErrorView::StoreIndex(a) => seq![a],
        ErrorView::StoreValue(a) => seq![a],
        _ => Seq::empty(),
    }
}

/// The message of an error, where `printed` is how its terms are printed.
pub open spec fn error_text(e: ErrorView, printed: Seq<Seq<char>>) -> Seq<char> {
    match e {
        ErrorView::NotArray(a) => "Not an array: "@ + ty_text(a),
        ErrorView::BinaryOp(a, b, c) => "Cannot perform op '"@ + a + "' on "@ + ty_text(b) + " and "@ + ty_text(c),
        ErrorView::UnaryOp(a, b) => "Cannot perform op '"@ + a + "' on "@ + ty_text(b),
        ErrorView::Dissimilar(a, b) => "Cannot '==' dissimilar types "@ + ty_text(a) + " and "@ + ty_text(b),
        ErrorView::Power(_, _) => "Cannot compute "@ + printed[0] + " ** "@ + printed[1] + " : must be Field ** U32"@,
        ErrorView::NotConstInt(_) => printed[0] + " is not a constant integer"@,
        ErrorView::NotConstValue(_) => printed[0] + " is not a constant value"@,
        ErrorView::NotBool(a) => ty_text(a) + " is not a boolean"@,
        ErrorView::Shift(a, b, c) => "Cannot perform op '"@ + a + "' on "@ + ty_text(b) + " and "@ + integer_text(c),
        ErrorView::Ite(_, _) => "Cannot perform ITE on "@ + printed[0] + " and "@ + printed[1],
        ErrorView::Slice(a) => "Cannot slice "@ + ty_text(a),
        ErrorView::NoField(a) => "No field '"@ + a + "'"@,
        ErrorView::NotClass(a) => ty_text(a) + " is not a class"@,
        ErrorView::FieldType(_, b, c) => "term "@ + printed[0] + " assigned to field "@ + b + " of type "@ + ty_text(c),
        ErrorView::Coerce(_) => "Cannot coerce "@ + printed[0] + " to a field element"@,
        ErrorView::Index(a, b) => "Cannot index "@ + ty_text(a) + " using "@ + ty_text(b),
        ErrorView::StoreTarget(_) => "Can only call mut_array_store on arrays, not "@ + printed[0],
        ErrorView::StoreIndex(_) => "Cannot coerce "@ + printed[0] + " to a field element: mutable array index"@,
        ErrorView::StoreValue(_) => "Cannot coerce "@ + printed[0] + " to a field element: mutable array value"@,
        ErrorView::InconsistentArray => "Inconsistent types in array"@,
        ErrorView::EmptyArray => "Empty array"@,
        ErrorView::UintToField(a) => "Cannot do uint-to-field on "@ + ty_text(a),
        ErrorView::UintToBits(a) => "Cannot do uint-to-bits on "@ + ty_text(a),
        ErrorView::UintFromBitsLen(a) => "Cannot do uint-from-bits on len "@ + decimal_text(a) + " array"@,
        ErrorView::UintFromBits(a) => "Cannot do uint-from-bits on "@ + ty_text(a),
        ErrorView::BitArrayLeElems => "bit-array-le must be called on arrays of Bools"@,
        ErrorView::BitArrayLeLengths(a, b) => "bit-array-le called on arrays with lengths "@ + decimal_text(a) + " != "@ + decimal_text(b),
        ErrorView::BitArrayLeLength(a, b) => "bit-array-le::<"@ + decimal_text(a) + "> called on arrays with length "@ + decimal_text(b),
        ErrorView::BitArrayLeTypes(a, b) => "Cannot do bit-array-le on ("@ + ty_text(a) + ", "@ + ty_text(b) + ")"@,
    }
}

/// The views of texts.
pub open spec fn texts_view(ss: Seq<String>) -> Seq<Seq<char>> {
    Seq::new(ss.len(), |i: int| ss[i]@)
}

impl Error {
    /// The terms that the message shows, in the order it shows them.
    pub fn terms(&self) -> (r: Vec<Term>)
        ensures
            terms_view(r@) == error_terms(self@),
    {
        let mut r: Vec<Term> = Vec::new();
        match self {
            Error::Power(a, b) => {
                r.push(a.clone());
                r.push(b.clone());
            },
            Error::NotConstInt(a) => {
                r.push(a.clone());
            },
            Error::NotConstValue(a) => {
                r.push(a.clone());
            },
            Error::Ite(a, b) => {
                r.push(a.clone());
                r.push(b.clone());
            },
            Error::FieldType(a, _, _) => {
                r.push(a.clone());
            },
            Error::Coerce(a) => {
                r.push(a.clone());
            },
            Error::StoreTarget(a) => {
                r.push(a.clone());
            },
            Error::StoreIndex(a) => {
                r.push(a.clone());
            },
            Error::StoreValue(a) => {
                r.push(a.clone());
            },
            _ => {},
        }
        assert(terms_view(r@) =~= error_terms(self@));
        r
    }

    /// The message, where `printed` is how the terms that it shows are printed.
    pub fn message(&self, printed: &Vec<String>) -> (r: String)
        requires
            printed@.len() == error_terms(self@).len(),
        ensures
            r@ == error_text(self@, texts_view(printed@)),
    {
        let mut s = String::new();
        match self {
            Error::NotArray(a) => {
                s.append("Not an array: ");
                s.append(a.to_string().as_str());
            },
            Error::BinaryOp(a, b, c) => {
                s.append("Cannot perform op '");
                s.append(a.as_str());
                s.append("' on ");
                s.append(b.to_string().as_str());
                s.append(" and ");
                s.append(c.to_string().as_str());
            },
            Error::UnaryOp(a, b) => {
                s.append("Cannot perform op '");
                s.append(a.as_str());
                s.append("' on ");
                s.append(b.to_string().as_str());
            },
            Error::Dissimilar(a, b) => {
                s.append("Cannot '==' dissimilar types ");
                s.append(a.to_string().as_str());
                s.append(" and ");
                s.append(b.to_string().as_str());
            },
            Error::Power(_, _) => {
                s.append("Cannot compute ");
                s.append(printed[0].as_str());
                s.append(" ** ");
                s.append(printed[1].as_str());
                s.append(" : must be Field ** U32");
            },
            Error::NotConstInt(_) => {
                s.append(printed[0].as_str());
                s.append(" is not a constant integer");
            },
            Error::NotConstValue(_) => {
                s.append(printed[0].as_str());
                s.append(" is not a constant value");
            },
            Error::NotBool(a) => {
                s.append(a.to_string().as_str());
                s.append(" is not a boolean");
            },
            Error::Shift(a, b, c) => {
                s.append("Cannot perform op '");
                s.append(a.as_str());
                s.append("' on ");
                s.append(b.to_string().as_str());
                s.append(" and ");
                s.append(c.to_text().as_str());
            },
            Error::Ite(_, _) => {
                s.append("Cannot perform ITE on ");
                s.append(printed[0].as_str());
                s.append(" and ");
                s.append(printed[1].as_str());
            },
            Error::Slice(a) => {
                s.append("Cannot slice ");
                s.append(a.to_string().as_str());
            },
            Error::NoField(a) => {
                s.append("No field '");
                s.append(a.as_str());
                s.append("'");
            },
            Error::NotClass(a) => {
                s.append(a.to_string().as_str());
                s.append(" is not a class");
            },
            Error::FieldType(_, b, c) => {
                s.append("term ");
                s.append(printed[0].as_str());
                s.append(" assigned to field ");
                s.append(b.as_str());
                s.append(" of type ");
                s.append(c.to_string().as_str());
            },
            Error::Coerce(_) => {
                s.append("Cannot coerce ");
                s.append(printed[0].as_str());
                s.append(" to a field element");
            },
            Error::Index(a, b) => {
                s.append("Cannot index ");
                s.append(a.to_string().as_str());
                s.append(" using ");
                s.append(b.to_string().as_str());
            },
            Error::StoreTarget(_) => {
                s.append("Can only call mut_array_store on arrays, not ");
                s.append(printed[0].as_str());
            },
            Error::StoreIndex(_) => {
                s.append("Cannot coerce ");
                s.append(printed[0].as_str());
                s.append(" to a field element: mutable array index");
            },
            Error::StoreValue(_) => {
                s.append("Cannot coerce ");
                s.append(printed[0].as_str());
                s.append(" to a field element: mutable array value");
            },
            Error::InconsistentArray => {
                s.append("Inconsistent types in array");
            },
            Error::EmptyArray => {
                s.append("Empty array");
            },
            Error::UintToField(a) => {
                s.append("Cannot do uint-to-field on ");
                s.append(a.to_string().as_str());
            },
            Error::UintToBits(a) => {
                s.append("Cannot do uint-to-bits on ");
                s.append(a.to_string().as_str());
            },
            Error::UintFromBitsLen(a) => {
                s.append("Cannot do uint-from-bits on len ");
                s.append(decimal(*a).as_str());
                s.append(" array");
            },
            Error::UintFromBits(a) => {
                s.append("Cannot do uint-from-bits on ");
                s.append(a.to_string().as_str());
            },
            Error::BitArrayLeElems => {
                s.append("bit-array-le must be called on arrays of Bools");
            },
            Error::BitArrayLeLengths(a, b) => {
                s.append("bit-array-le called on arrays with lengths ");
                s.append(decimal(*a).as_str());
                s.append(" != ");
                s.append(decimal(*b).as_str());
            },
            Error::BitArrayLeLength(a, b) => {
                s.append("bit-array-le::<");
                s.append(decimal(*a).as_str());
                s.append("> called on arrays with length ");
                s.append(decimal(*b).as_str());
            },
            Error::BitArrayLeTypes(a, b) => {
                s.append("Cannot do bit-array-le on (");
                s.append(a.to_string().as_str());
                s.append(", ");
                s.append(b.to_string().as_str());
                s.append(")");
            },
        }
        assert(s@ =~= error_text(self@, texts_view(printed@)));
        s
    }
}

} // verus!
