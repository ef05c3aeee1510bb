//! The typed-value algebra: a value-carrying type descriptor ([`Argument`]),
//! its type-only projection ([`ArgumentDiscriminant`]), and structural
//! equality of type shapes.
//!
//! Floating-point payloads are carried as their IEEE-754 bit patterns
//! (`u32` for the 32-bit width, `u64` for the 64-bit width), so the algebra
//! itself stays within exactly representable values; a presentation layer
//! converts at its edge.

use vstd::prelude::*;

verus! {

/// A type descriptor together with a carried default value.
///
/// `FixedArray` holds its element descriptor and a length (a valid shape
/// requires the length to be positive); `DynamicArray` holds the type-only
/// descriptor of its element and an optional maximum length; `UserStruct`
/// names an aggregate type defined at project level.
#[derive(Debug, PartialEq)]
pub enum Argument {
    Boolean(bool),
    I8(i8),
    I16(i16),
    I32(i32),
    I64(i64),
    U8(u8),
    U16(u16),
    U32(u32),
    U64(u64),
    UUID(u128),
    F32(u32),
    F64(u64),
    String(String),
    FixedArray(Box<Argument>, usize),
    Tuple(Vec<Argument>),
    DynamicArray(Box<ArgumentDiscriminant>, Option<usize>),
    BoxedAny,
    Entity,
    UserStruct(String),
}

/// The type-only projection of [`Argument`]: same variant tags, no carried
/// value, recursive element shapes kept.
#[derive(Debug, PartialEq)]
pub enum ArgumentDiscriminant {
    Boolean,
    I8,
    I16,
    I32,
    I64,
    U8,
    U16,
    U32,
    U64,
    UUID,
    F32,
    F64,
    String,
    FixedArray(Box<ArgumentDiscriminant>, usize),
    Tuple(Vec<ArgumentDiscriminant>),
    DynamicArray(Box<ArgumentDiscriminant>, Option<usize>),
    BoxedAny,
    Entity,
    UserStruct(String),
}

/// The mathematical shape of a type descriptor: what contracts compare.
/// Struct references compare by referenced name alone.
pub enum TypeShape {
    Boolean,
    I8,
    I16,
    I32,
    I64,
    U8,
    U16,
    U32,
    U64,
    UUID,
    F32,
    F64,
    String,
    FixedArray(Box<TypeShape>, usize),
    Tuple(Seq<TypeShape>),
    DynamicArray(Box<TypeShape>, Option<usize>),
    BoxedAny,
    Entity,
    UserStruct(Seq<char>),
}

/// Shape of a type-only descriptor.
pub open spec fn shape_of(d: ArgumentDiscriminant) -> TypeShape
    decreases d,
{
    match d {
        ArgumentDiscriminant::Boolean => TypeShape::Boolean,
        ArgumentDiscriminant::I8 => TypeShape::I8,
        ArgumentDiscriminant::I16 => TypeShape::I16,
        ArgumentDiscriminant::I32 => TypeShape::I32,
        ArgumentDiscriminant::I64 => TypeShape::I64,
        ArgumentDiscriminant::U8 => TypeShape::U8,
        ArgumentDiscriminant::U16 => TypeShape::U16,
        ArgumentDiscriminant::U32 => TypeShape::U32,
        ArgumentDiscriminant::U64 => TypeShape::U64,
        ArgumentDiscriminant::UUID => TypeShape::UUID,
        ArgumentDiscriminant::F32 => TypeShape::F32,
        ArgumentDiscriminant::F64 => TypeShape::F64,
        ArgumentDiscriminant::String => TypeShape::String,
        ArgumentDiscriminant::FixedArray(e, n) => TypeShape::FixedArray(
            Box::new(shape_of(*e)),
            n,
        ),
        ArgumentDiscriminant::Tuple(v) => TypeShape::Tuple(shapes_of(v@)),
        ArgumentDiscriminant::DynamicArray(e, m) => TypeShape::DynamicArray(
            Box::new(shape_of(*e)),
            m,
        ),
        ArgumentDiscriminant::BoxedAny => TypeShape::BoxedAny,
        ArgumentDiscriminant::Entity => TypeShape::Entity,
        ArgumentDiscriminant::UserStruct(name) => TypeShape::UserStruct(name@),
    }
}

/// Pointwise shape of a sequence of type-only descriptors.
pub open spec fn shapes_of(s: Seq<ArgumentDiscriminant>) -> Seq<TypeShape>
    decreases s,
{
    if s.len() == 0 {
        Seq::empty()
    } else {
        seq![shape_of(s[0])] + shapes_of(s.subrange(1, s.len() as int))
    }
}

/// Shape of a value-carrying descriptor: the shape of its type-only
/// projection.
pub open spec fn arg_shape(a: Argument) -> TypeShape
    decreases a,
{
    match a {
        Argument::Boolean(_) => TypeShape::Boolean,
        Argument::I8(_) => TypeShape::I8,
        Argument::I16(_) => TypeShape::I16,
        Argument::I32(_) => TypeShape::I32,
        Argument::I64(_) => TypeShape::I64,
        Argument::U8(_) => TypeShape::U8,
        Argument::U16(_) => TypeShape::U16,
        Argument::U32(_) => TypeShape::U32,
        Argument::U64(_) => TypeShape::U64,
        Argument::UUID(_) => TypeShape::UUID,
        Argument::F32(_) => TypeShape::F32,
        Argument::F64(_) => TypeShape::F64,
        Argument::String(_) => TypeShape::String,
        Argument::FixedArray(e, n) => TypeShape::FixedArray(Box::new(arg_shape(*e)), n),
        Argument::Tuple(v) => TypeShape::Tuple(arg_shapes(v@)),
        Argument::DynamicArray(e, m) => TypeShape::DynamicArray(Box::new(shape_of(*e)), m),
        Argument::BoxedAny => TypeShape::BoxedAny,
        Argument::Entity => TypeShape::Entity,
        Argument::UserStruct(name) => TypeShape::UserStruct(name@),
    }
}

/// Pointwise shape of a sequence of value-carrying descriptors.
pub open spec fn arg_shapes(s: Seq<Argument>) -> Seq<TypeShape>
    decreases s,
{
    if s.len() == 0 {
        Seq::empty()
    } else {
        seq![arg_shape(s[0])] + arg_shapes(s.subrange(1, s.len() as int))
    }
}

pub proof fn lemma_shapes_of_index(s: Seq<ArgumentDiscriminant>)
    ensures
        shapes_of(s).len() == s.len(),
        forall|i: int| 0 <= i < s.len() ==> shapes_of(s)[i] == shape_of(s[i]),
    decreases s.len(),
{
    if s.len() > 0 {
        lemma_shapes_of_index(s.subrange(1, s.len() as int));
    }
}

pub proof fn lemma_arg_shapes_index(s: Seq<Argument>)
    ensures
        arg_shapes(s).len() == s.len(),
        forall|i: int| 0 <= i < s.len() ==> arg_shapes(s)[i] == arg_shape(s[i]),
    decreases s.len(),
{
    if s.len() > 0 {
        lemma_arg_shapes_index(s.subrange(1, s.len() as int));
    }
}

impl ArgumentDiscriminant {
    /// Structural copy of a type-only descriptor: same shape, fresh
    /// allocations.
    #[verifier::loop_isolation(false)]
    pub fn duplicate(&self) -> (r: ArgumentDiscriminant)
        ensures
            shape_of(r) == shape_of(*self),
        decreases *self,
    {
        match self {
            ArgumentDiscriminant::Boolean => ArgumentDiscriminant::Boolean,
            ArgumentDiscriminant::I8 => ArgumentDiscriminant::I8,
            ArgumentDiscriminant::I16 => ArgumentDiscriminant::I16,
            ArgumentDiscriminant::I32 => ArgumentDiscriminant::I32,
            ArgumentDiscriminant::I64 => ArgumentDiscriminant::I64,
            ArgumentDiscriminant::U8 => ArgumentDiscriminant::U8,
            ArgumentDiscriminant::U16 => ArgumentDiscriminant::U16,
            ArgumentDiscriminant::U32 => ArgumentDiscriminant::U32,
            ArgumentDiscriminant::U64 => ArgumentDiscriminant::U64,
            ArgumentDiscriminant::UUID => ArgumentDiscriminant::UUID,
            ArgumentDiscriminant::F32 => ArgumentDiscriminant::F32,
            ArgumentDiscriminant::F64 => ArgumentDiscriminant::F64,
            ArgumentDiscriminant::String => ArgumentDiscriminant::String,
            ArgumentDiscriminant::FixedArray(e, n) => ArgumentDiscriminant::FixedArray(
                Box::new(e.duplicate()),
                *n,
            ),
            ArgumentDiscriminant::Tuple(v) => {
                let mut out: Vec<ArgumentDiscriminant> = Vec::new();
                let mut i: usize = 0;
                while i < v.len()
                    invariant
                        i <= v.len(),
                        out@.len() == i as int,
                        forall|k: int|
                            0 <= k < i as int ==> shape_of(out@[k]) == shape_of(v@[k]),
                    decreases v.len() - i,
                {
                    let d = v[i].duplicate();
                    out.push(d);
                    i = i + 1;
                }
                proof {
                    lemma_shapes_of_index(out@);
                    lemma_shapes_of_index(v@);
                    assert(shapes_of(out@) =~= shapes_of(v@));
                }
                ArgumentDiscriminant::Tuple(out)
            },
            ArgumentDiscriminant::DynamicArray(e, m) => ArgumentDiscriminant::DynamicArray(
                Box::new(e.duplicate()),
                *m,
            ),
            ArgumentDiscriminant::BoxedAny => ArgumentDiscriminant::BoxedAny,
            ArgumentDiscriminant::Entity => ArgumentDiscriminant::Entity,
            ArgumentDiscriminant::UserStruct(name) => ArgumentDiscriminant::UserStruct(
                name.clone(),
            ),
        }
    }
}

impl Argument {
    /// The type-only projection of this descriptor.
    #[verifier::loop_isolation(false)]
    pub fn discriminant(&self) -> (d: ArgumentDiscriminant)
        ensures
            shape_of(d) == arg_shape(*self),
        decreases *self,
    {
        match self {
            Argument::Boolean(_) => ArgumentDiscriminant::Boolean,
            Argument::I8(_) => ArgumentDiscriminant::I8,
            Argument::I16(_) => ArgumentDiscriminant::I16,
            Argument::I32(_) => ArgumentDiscriminant::I32,
            Argument::I64(_) => ArgumentDiscriminant::I64,
            Argument::U8(_) => ArgumentDiscriminant::U8,
            Argument::U16(_) => ArgumentDiscriminant::U16,
            Argument::U32(_) => ArgumentDiscriminant::U32,
            Argument::U64(_) => ArgumentDiscriminant::U64,
            Argument::UUID(_) => ArgumentDiscriminant::UUID,
            Argument::F32(_) => ArgumentDiscriminant::F32,
            Argument::F64(_) => ArgumentDiscriminant::F64,
            Argument::String(_) => ArgumentDiscriminant::String,
            Argument::FixedArray(e, n) => ArgumentDiscriminant::FixedArray(
                Box::new(e.discriminant()),
                *n,
            ),
            Argument::Tuple(v) => {
                let mut out: Vec<ArgumentDiscriminant> = Vec::new();
                let mut i: usize = 0;
                while i < v.len()
                    invariant
                        i <= v.len(),
                        out@.len() == i as int,
                        forall|k: int|
                            0 <= k < i as int ==> shape_of(out@[k]) == arg_shape(v@[k]),
                    decreases v.len() - i,
                {
                    let d = v[i].discriminant();
                    out.push(d);
                    i = i + 1;
                }
                proof {
                    lemma_shapes_of_index(out@);
                    lemma_arg_shapes_index(v@);
                    assert(shapes_of(out@) =~= arg_shapes(v@));
                }
                ArgumentDiscriminant::Tuple(out)
            },
            Argument::DynamicArray(e, m) => ArgumentDiscriminant::DynamicArray(
                Box::new(e.duplicate()),
                *m,
            ),
            Argument::BoxedAny => ArgumentDiscriminant::BoxedAny,
            Argument::Entity => ArgumentDiscriminant::Entity,
            Argument::UserStruct(name) => ArgumentDiscriminant::UserStruct(name.clone()),
        }
    }
}

/// Structural equality of two type-only descriptors: true exactly when
/// their shapes are equal. Struct references compare by name alone.
/// Equality of two optional maximum lengths.
pub fn opt_len_eq(a: &Option<usize>, b: &Option<usize>) -> (r: bool)
    ensures
        r == (*a == *b),
{
    match a {
        Option::Some(x) => match b {
            Option::Some(y) => x == y,
            Option::None => false,
        },
        Option::None => matches!(b, Option::None),
    }
}

#[verifier::loop_isolation(false)]
pub fn shape_eq(a: &ArgumentDiscriminant, b: &ArgumentDiscriminant) -> (r: bool)
    ensures
        r == (shape_of(*a) == shape_of(*b)),
    decreases *a,
{
    match a {
        ArgumentDiscriminant::Boolean => matches!(b, ArgumentDiscriminant::Boolean),
        ArgumentDiscriminant::I8 => matches!(b, ArgumentDiscriminant::I8),
        ArgumentDiscriminant::I16 => matches!(b, ArgumentDiscriminant::I16),
        ArgumentDiscriminant::I32 => matches!(b, ArgumentDiscriminant::I32),
        ArgumentDiscriminant::I64 => matches!(b, ArgumentDiscriminant::I64),
        ArgumentDiscriminant::U8 => matches!(b, ArgumentDiscriminant::U8),
        ArgumentDiscriminant::U16 => matches!(b, ArgumentDiscriminant::U16),
        ArgumentDiscriminant::U32 => matches!(b, ArgumentDiscriminant::U32),
        ArgumentDiscriminant::U64 => matches!(b, ArgumentDiscriminant::U64),
        ArgumentDiscriminant::UUID => matches!(b, ArgumentDiscriminant::UUID),
        ArgumentDiscriminant::F32 => matches!(b, ArgumentDiscriminant::F32),
        ArgumentDiscriminant::F64 => matches!(b, ArgumentDiscriminant::F64),
        ArgumentDiscriminant::String => matches!(b, ArgumentDiscriminant::String),
        ArgumentDiscriminant::FixedArray(e1, n1) => match b {
            ArgumentDiscriminant::FixedArray(e2, n2) => shape_eq(e1, e2) && n1 == n2,
            _ => false,
        },
        ArgumentDiscriminant::Tuple(v1) => match b {
            ArgumentDiscriminant::Tuple(v2) => {
                proof {
                    lemma_shapes_of_index(v1@);
                    lemma_shapes_of_index(v2@);
                }
                if v1.len() != v2.len() {
                    false
                } else {
                    let mut i: usize = 0;
                    let mut all_eq: bool = true;
                    while i < v1.len()
                        invariant
                            i <= v1.len(),
                            all_eq == (forall|k: int|
                                0 <= k < i as int ==> shape_of(v1@[k]) == shape_of(v2@[k])),
                        decreases v1.len() - i,
                    {
                        let e = shape_eq(&v1[i], &v2[i]);
                        all_eq = all_eq && e;
                        i = i + 1;
                    }
                    proof {
                        if all_eq {
                            assert(shapes_of(v1@) =~= shapes_of(v2@));
                        } else {
                            let k = choose|k: int|
                                0 <= k < v1@.len() && shape_of(v1@[k]) != shape_of(v2@[k]);
                            assert(shapes_of(v1@)[k] != shapes_of(v2@)[k]);
                        }
                    }
                    all_eq
                }
            },
            _ => false,
        },
        ArgumentDiscriminant::DynamicArray(e1, m1) => match b {
            ArgumentDiscriminant::DynamicArray(e2, m2) => shape_eq(e1, e2) && opt_len_eq(
                m1,
                m2,
            ),
            _ => false,
        },
        ArgumentDiscriminant::BoxedAny => matches!(b, ArgumentDiscriminant::BoxedAny),
        ArgumentDiscriminant::Entity => matches!(b, ArgumentDiscriminant::Entity),
        ArgumentDiscriminant::UserStruct(n1) => match b {
            ArgumentDiscriminant::UserStruct(n2) => *n1 == *n2,
            _ => false,
        },
    }
}

} // verus!
