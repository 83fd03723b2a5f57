//! Prime fields, their elements, bit-vectors, and the configured field.
use crate::integer::Integer;
use vstd::arithmetic::power2::pow2;
use vstd::prelude::*;

verus! {

/// A prime field, known by its modulus.
#[derive(Debug, PartialEq, Eq)]
pub struct FieldT {
    modulus: Integer,
}

impl View for FieldT {
    type V = int;

    closed spec fn view(&self) -> int {
        self.modulus@
    }
}

impl Clone for FieldT {
    fn clone(&self) -> (r: Self)
        ensures
            r@ == self@,
    {
        proof {
            use_type_invariant(self);
        }
        FieldT { modulus: self.modulus.clone() }
    }
}

impl FieldT {
    /// A field has a zero and a one.
    #[verifier::type_invariant]
    spec fn well_formed(self) -> bool {
        self.modulus@ >= 2
    }

    /// The field with the given modulus.
    pub fn new(modulus: Integer) -> (r: Self)
        requires
            modulus@ >= 2,
        ensures
            r@ == modulus@,
    {
        FieldT { modulus }
    }

    /// The modulus.
    pub fn modulus(&self) -> (r: &Integer)
        ensures
            r@ == self@,
            r@ >= 2,
    {
        proof {
            use_type_invariant(self);
        }
        &self.modulus
    }

    /// The element that `i` stands for: its remainder by the modulus.
    pub fn new_v(&self, i: &Integer) -> (r: FieldV)
        ensures
            r@ == (FieldElem { value: i@ % self@, modulus: self@ }),
            self@ >= 2,
    {
        proof {
            use_type_invariant(self);
        }
        FieldV { value: i.rem_euc(&self.modulus), field: self.clone() }
    }
}

/// What an element of a field is: a number below the modulus.
pub struct FieldElem {
    pub value: int,
    pub modulus: int,
}

/// An element of a field.
#[derive(Debug, PartialEq, Eq)]
pub struct FieldV {
    value: Integer,
    field: FieldT,
}

impl View for FieldV {
    type V = FieldElem;

    closed spec fn view(&self) -> FieldElem {
        FieldElem { value: self.value@, modulus: self.field@ }
    }
}

impl Clone for FieldV {
    fn clone(&self) -> (r: Self)
        ensures
            r@ == self@,
    {
        proof {
            use_type_invariant(self);
        }
        FieldV { value: self.value.clone(), field: self.field.clone() }
    }
}

impl FieldV {
    /// The number is below the modulus.
    #[verifier::type_invariant]
    spec fn well_formed(self) -> bool {
        0 <= self.value@ < self.field@
    }

    /// The number that the element is.
    pub fn i(&self) -> (r: Integer)
        ensures
            r@ == self@.value,
            0 <= r@ < self@.modulus,
    {
        proof {
            use_type_invariant(self);
        }
        self.value.clone()
    }

    /// The field that the element belongs to.
    pub fn field(&self) -> (r: &FieldT)
        ensures
            r@ == self@.modulus,
    {
        &self.field
    }
}

/// What a bit-vector is: a number that fits in its width.
pub struct Bits {
    pub uint: int,
    pub width: nat,
}

/// A bit-vector.
#[derive(Debug, PartialEq, Eq)]
pub struct BitVector {
    uint: Integer,
    width: usize,
}

impl View for BitVector {
    type V = Bits;

    closed spec fn view(&self) -> Bits {
        Bits { uint: self.uint@, width: self.width as nat }
    }
}

impl Clone for BitVector {
    fn clone(&self) -> (r: Self)
        ensures
            r@ == self@,
    {
        proof {
            use_type_invariant(self);
        }
        BitVector { uint: self.uint.clone(), width: self.width }
    }
}

impl BitVector {
    /// The number fits in the width.
    #[verifier::type_invariant]
    spec fn well_formed(self) -> bool {
        0 <= self.uint@ < pow2(self.width as nat)
    }

    /// The bit-vector of the given width that holds `uint`.
    pub fn new(uint: Integer, width: usize) -> (r: Self)
        requires
            0 <= uint@ < pow2(width as nat),
        ensures
            r@ == (Bits { uint: uint@, width: width as nat }),
    {
        BitVector { uint, width }
    }

    /// The number that the bits write.
    pub fn uint(&self) -> (r: &Integer)
        ensures
            r@ == self@.uint,
            0 <= r@ < pow2(self@.width),
    {
        proof {
            use_type_invariant(self);
        }
        &self.uint
    }

    /// The number of bits.
    pub fn width(&self) -> (r: usize)
        ensures
            r == self@.width,
    {
        self.width
    }
}

/// The configuration: the field that field values live in. Its view is the
/// modulus.
#[derive(Debug, PartialEq, Eq)]
pub struct Cfg {
    field: FieldT,
}

impl View for Cfg {
    type V = int;

    closed spec fn view(&self) -> int {
        self.field@
    }
}

impl Cfg {
    /// The configuration with the given field.
    pub fn new(field: FieldT) -> (r: Self)
        ensures
            r@ == field@,
    {
        Cfg { field }
    }

    /// The configured field.
    pub fn field(&self) -> (r: &FieldT)
        ensures
            r@ == self@,
            r@ >= 2,
    {
        let _ = self.field.modulus();
        &self.field
    }
}

/// The field that field values live in.
pub fn default_field(cfg: &Cfg) -> (r: FieldT)
    ensures
        r@ == cfg@,
        r@ >= 2,
{
    cfg.field().clone()
}

} // verus!
