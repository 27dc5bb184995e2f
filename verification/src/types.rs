//! Type names, privacy annotations and homomorphisms of zkay.
use vstd::prelude::*;

verus! {

/// The homomorphism that a (private) value is encrypted with.
#[derive(PartialEq, Eq, Structural, Clone, Copy, Debug)]
pub enum Homomorphism {
    NonHomomorphic,
    Additive,
}

impl Homomorphism {
    pub fn non_homomorphic() -> (r: Homomorphism)
        ensures
            r == Homomorphism::NonHomomorphic,
    {
        Homomorphism::NonHomomorphic
    }
}

/// A privacy annotation label: `@all`, `@me`, or an identifier (by declaration id).
#[derive(PartialEq, Eq, Structural, Clone, Copy, Debug)]
pub enum PrivacyLabel {
    All,
    Me,
    Idf(u64),
}

/// The alias analysis before a statement: the identifiers provably equal to `me`.
#[derive(Debug)]
pub struct PartitionState {
    pub me_aliases: Vec<u64>,
}

impl PartitionState {
    /// Whether `label` is provably equal to `me`.
    pub open spec fn spec_same_partition_as_me(&self, label: PrivacyLabel) -> bool {
        match label {
            PrivacyLabel::Me => true,
            PrivacyLabel::All => false,
            PrivacyLabel::Idf(x) => self.me_aliases@.contains(x),
        }
    }

    #[verifier::when_used_as_spec(spec_same_partition_as_me)]
    pub fn same_partition_as_me(&self, label: PrivacyLabel) -> (r: bool)
        ensures
            r == self.spec_same_partition_as_me(label),
    {
        match label {
            PrivacyLabel::Me => true,
            PrivacyLabel::All => false,
            PrivacyLabel::Idf(x) => {
                let mut i: usize = 0;
                while i < self.me_aliases.len()
                    invariant
                        i <= self.me_aliases.len(),
                        label == PrivacyLabel::Idf(x),
                        forall|j: int| 0 <= j < i ==> self.me_aliases@[j] != x,
                    decreases self.me_aliases.len() - i,
                {
                    if self.me_aliases[i] == x {
                        assert(self.me_aliases@[i as int] == x);
                        return true;
                    }
                    i = i + 1;
                }
                false
            },
        }
    }

    pub fn copy(&self) -> (r: PartitionState)
        ensures
            r.me_aliases@ == self.me_aliases@,
    {
        PartitionState { me_aliases: self.me_aliases.clone() }
    }
}

/// Whether two labels lie in the same partition: they are equal, or the
/// analysis proves both equal to `me`.
pub open spec fn labels_equal(analysis: Option<&PartitionState>, a: PrivacyLabel, b: PrivacyLabel) -> bool {
    a == b || match analysis {
        Some(an) => an.spec_same_partition_as_me(a) && an.spec_same_partition_as_me(b),
        None => false,
    }
}

pub fn labels_equal_exec(analysis: Option<&PartitionState>, a: PrivacyLabel, b: PrivacyLabel) -> (r: bool)
    ensures
        r == labels_equal(analysis, a, b),
{
    if a == b {
        return true;
    }
    match analysis {
        Some(an) => an.same_partition_as_me(a) && an.same_partition_as_me(b),
        None => false,
    }
}


/// A type name of the zkay language.
#[derive(Debug)]
pub enum TypeName {
    Bool,
    BooleanLiteral(bool),
    /// `uint<bits>`
    Uint(u32),
    /// `int<bits>`
    Int(u32),
    NumberLiteral(i64),
    Address,
    AddressPayable,
    /// An enum type (by the id of its definition).
    Enum(u64),
    /// The type of one value of an enum (by the id of the enum).
    EnumValue(u64),
    /// A user-defined type name that is not resolved yet (by the id of its target).
    UserDefined(u64),
    Contract(u64),
    Mapping { key_type: Box<TypeName>, key_label: Option<u64>, value_type: Box<AnnotatedTypeName> },
    Array { value_type: Box<AnnotatedTypeName>, length: u64 },
    Tuple(AnnotatedTypeList),
    Function { parameters: AnnotatedTypeList, return_parameters: AnnotatedTypeList },
    Cipher,
    Key,
    Randomness,
}

/// A list of annotated types (tuple elements, parameter types).
#[derive(Debug)]
pub enum AnnotatedTypeList {
    Nil,
    Cons(Box<AnnotatedTypeName>, Box<AnnotatedTypeList>),
}

/// A type name together with its privacy annotation and homomorphism.
#[derive(Debug)]
pub struct AnnotatedTypeName {
    pub ty: Box<TypeName>,
    pub privacy_annotation: Option<PrivacyLabel>,
    pub homomorphism: Homomorphism,
}

/// The result of combining two types: a type, or the marker for two literals.
#[derive(Debug)]
pub enum CombinedType {
    Lit,
    Type(TypeName),
}

/// The number of bits of the smallest `uint`/`int` that holds the literal `v`.
pub open spec fn literal_bits(v: int) -> u32 {
    if v >= 0 {
        if v < 0x100 { 8 } else if v < 0x1_0000 { 16 } else if v < 0x100_0000 { 24 }
        else if v < 0x1_0000_0000 { 32 } else if v < 0x100_0000_0000 { 40 }
        else if v < 0x1_0000_0000_0000 { 48 } else if v < 0x100_0000_0000_0000 { 56 } else { 64 }
    } else {
        if v >= -0x80 { 8 } else if v >= -0x8000 { 16 } else if v >= -0x80_0000 { 24 }
        else if v >= -0x8000_0000 { 32 } else if v >= -0x80_0000_0000 { 40 }
        else if v >= -0x8000_0000_0000 { 48 } else if v >= -0x80_0000_0000_0000 { 56 } else { 64 }
    }
}

pub fn literal_bits_exec(v: i64) -> (r: u32)
    ensures
        r == literal_bits(v as int),
{
    if v >= 0 {
        if v < 0x100 { 8 } else if v < 0x1_0000 { 16 } else if v < 0x100_0000 { 24 }
        else if v < 0x1_0000_0000 { 32 } else if v < 0x100_0000_0000 { 40 }
        else if v < 0x1_0000_0000_0000 { 48 } else if v < 0x100_0000_0000_0000 { 56 } else { 64 }
    } else {
        if v >= -0x80 { 8 } else if v >= -0x8000 { 16 } else if v >= -0x80_0000 { 24 }
        else if v >= -0x8000_0000 { 32 } else if v >= -0x80_0000_0000 { 40 }
        else if v >= -0x8000_0000_0000 { 48 } else if v >= -0x80_0000_0000_0000 { 56 } else { 64 }
    }
}

impl TypeName {
    pub fn bool_type() -> (r: TypeName)
        ensures
            r == TypeName::Bool,
    {
        TypeName::Bool
    }

    pub fn number_type() -> (r: TypeName)
        ensures
            r == TypeName::Uint(256),
    {
        TypeName::Uint(256)
    }

    pub fn address_type() -> (r: TypeName)
        ensures
            r == TypeName::Address,
    {
        TypeName::Address
    }

    /// Elementary and enum types: the types a private value may have.
    pub open spec fn spec_can_be_private(&self) -> bool {
        match self {
            TypeName::Bool | TypeName::BooleanLiteral(_) | TypeName::Uint(_) | TypeName::Int(_)
            | TypeName::NumberLiteral(_) | TypeName::Address | TypeName::AddressPayable
            | TypeName::Enum(_) | TypeName::EnumValue(_) => true,
            _ => false,
        }
    }

    #[verifier::when_used_as_spec(spec_can_be_private)]
    pub fn can_be_private(&self) -> (r: bool)
        ensures
            r == self.spec_can_be_private(),
    {
        match self {
            TypeName::Bool | TypeName::BooleanLiteral(_) | TypeName::Uint(_) | TypeName::Int(_)
            | TypeName::NumberLiteral(_) | TypeName::Address | TypeName::AddressPayable
            | TypeName::Enum(_) | TypeName::EnumValue(_) => true,
            _ => false,
        }
    }

    /// Elementary and enum types.
    pub open spec fn spec_is_primitive_type(&self) -> bool {
        self.spec_can_be_private()
    }

    #[verifier::when_used_as_spec(spec_is_primitive_type)]
    pub fn is_primitive_type(&self) -> (r: bool)
        ensures
            r == self.spec_is_primitive_type(),
    {
        self.can_be_private()
    }

    pub open spec fn spec_is_numeric(&self) -> bool {
        match self {
            TypeName::Uint(_) | TypeName::Int(_) | TypeName::NumberLiteral(_) => true,
            _ => false,
        }
    }

    #[verifier::when_used_as_spec(spec_is_numeric)]
    pub fn is_numeric(&self) -> (r: bool)
        ensures
            r == self.spec_is_numeric(),
    {
        match self {
            TypeName::Uint(_) | TypeName::Int(_) | TypeName::NumberLiteral(_) => true,
            _ => false,
        }
    }

    pub open spec fn spec_is_literal(&self) -> bool {
        match self {
            TypeName::BooleanLiteral(_) | TypeName::NumberLiteral(_) => true,
            _ => false,
        }
    }

    #[verifier::when_used_as_spec(spec_is_literal)]
    pub fn is_literal(&self) -> (r: bool)
        ensures
            r == self.spec_is_literal(),
    {
        match self {
            TypeName::BooleanLiteral(_) | TypeName::NumberLiteral(_) => true,
            _ => false,
        }
    }

    pub open spec fn spec_is_address(&self) -> bool {
        match self {
            TypeName::Address | TypeName::AddressPayable => true,
            _ => false,
        }
    }

    #[verifier::when_used_as_spec(spec_is_address)]
    pub fn is_address(&self) -> (r: bool)
        ensures
            r == self.spec_is_address(),
    {
        match self {
            TypeName::Address | TypeName::AddressPayable => true,
            _ => false,
        }
    }

    pub open spec fn spec_signed(&self) -> bool {
        match self {
            TypeName::Int(_) => true,
            TypeName::NumberLiteral(v) => *v < 0,
            _ => false,
        }
    }

    #[verifier::when_used_as_spec(spec_signed)]
    pub fn signed(&self) -> (r: bool)
        ensures
            r == self.spec_signed(),
    {
        match self {
            TypeName::Int(_) => true,
            TypeName::NumberLiteral(v) => *v < 0,
            _ => false,
        }
    }

    /// The value of a literal type (`true` is 1, `false` is 0); 0 for other types.
    pub open spec fn spec_value(&self) -> i64 {
        match self {
            TypeName::NumberLiteral(v) => *v,
            TypeName::BooleanLiteral(b) => if *b { 1 } else { 0 },
            _ => 0,
        }
    }

    #[verifier::when_used_as_spec(spec_value)]
    pub fn value(&self) -> (r: i64)
        ensures
            r == self.spec_value(),
    {
        match self {
            TypeName::NumberLiteral(v) => *v,
            TypeName::BooleanLiteral(b) => if *b { 1 } else { 0 },
            _ => 0,
        }
    }

    /// The non-literal type of a literal: `bool`, or the smallest `uint`/`int`
    /// that holds the number; other types are their own abstract type.
    pub open spec fn spec_to_abstract_type(&self) -> TypeName {
        match self {
            TypeName::BooleanLiteral(_) => TypeName::Bool,
            TypeName::NumberLiteral(v) => if *v >= 0 {
                TypeName::Uint(literal_bits(*v as int))
            } else {
                TypeName::Int(literal_bits(*v as int))
            },
            _ => *self,
        }
    }

    pub open spec fn spec_elem_bitwidth(&self) -> u32 {
        match self {
            TypeName::Uint(n) => *n,
            TypeName::Int(n) => *n,
            TypeName::NumberLiteral(v) => literal_bits(*v as int),
            TypeName::Bool | TypeName::BooleanLiteral(_) => 1,
            TypeName::Address | TypeName::AddressPayable => 160,
            _ => 256,
        }
    }

    #[verifier::when_used_as_spec(spec_elem_bitwidth)]
    pub fn elem_bitwidth(&self) -> (r: u32)
        ensures
            r == self.spec_elem_bitwidth(),
    {
        match self {
            TypeName::Uint(n) => *n,
            TypeName::Int(n) => *n,
            TypeName::NumberLiteral(v) => literal_bits_exec(*v),
            TypeName::Bool | TypeName::BooleanLiteral(_) => 1,
            TypeName::Address | TypeName::AddressPayable => 160,
            _ => 256,
        }
    }
}

/// Whether a number type of the given kind and width fits into another.
pub open spec fn number_fits(signed_from: bool, from_bits: u32, signed_to: bool, to_bits: u32) -> bool {
    if signed_from == signed_to {
        from_bits <= to_bits
    } else {
        !signed_from && from_bits < to_bits
    }
}

/// Whether a value of type `from` converts to type `to` implicitly.
pub open spec fn convertible(from: TypeName, to: TypeName) -> bool
    decreases from,
{
    if from == to {
        true
    } else {
        match (from, to) {
            (TypeName::Uint(a), TypeName::Uint(b)) => number_fits(false, a, false, b),
            (TypeName::Uint(a), TypeName::Int(b)) => number_fits(false, a, true, b),
            (TypeName::Int(a), TypeName::Int(b)) => number_fits(true, a, true, b),
            (TypeName::NumberLiteral(v), TypeName::Uint(b)) => number_fits(
                v < 0,
                literal_bits(v as int),
                false,
                b,
            ),
            (TypeName::NumberLiteral(v), TypeName::Int(b)) => number_fits(
                v < 0,
                literal_bits(v as int),
                true,
                b,
            ),
            (TypeName::BooleanLiteral(_), TypeName::Bool) => true,
            (TypeName::AddressPayable, TypeName::Address) => true,
            (TypeName::EnumValue(a), TypeName::Enum(b)) => a == b,
            (TypeName::Tuple(xs), TypeName::Tuple(ys)) => convertible_list(xs, ys),
            _ => false,
        }
    }
}

pub open spec fn convertible_list(xs: AnnotatedTypeList, ys: AnnotatedTypeList) -> bool
    decreases xs,
{
    match (xs, ys) {
        (AnnotatedTypeList::Nil, AnnotatedTypeList::Nil) => true,
        (AnnotatedTypeList::Cons(x, xr), AnnotatedTypeList::Cons(y, yr)) => convertible(
            *x.ty,
            *y.ty,
        ) && convertible_list(*xr, *yr),
        _ => false,
    }
}


impl TypeName {
    /// A copy equal to `self`.
    pub fn copy(&self) -> (r: TypeName)
        ensures
            r == *self,
        decreases self,
    {
        match self {
            TypeName::Bool => TypeName::Bool,
            TypeName::BooleanLiteral(b) => TypeName::BooleanLiteral(*b),
            TypeName::Uint(n) => TypeName::Uint(*n),
            TypeName::Int(n) => TypeName::Int(*n),
            TypeName::NumberLiteral(v) => TypeName::NumberLiteral(*v),
            TypeName::Address => TypeName::Address,
            TypeName::AddressPayable => TypeName::AddressPayable,
            TypeName::Enum(e) => TypeName::Enum(*e),
            TypeName::EnumValue(e) => TypeName::EnumValue(*e),
            TypeName::UserDefined(e) => TypeName::UserDefined(*e),
            TypeName::Contract(e) => TypeName::Contract(*e),
            TypeName::Mapping { key_type, key_label, value_type } => TypeName::Mapping {
                key_type: Box::new(key_type.copy()),
                key_label: *key_label,
                value_type: Box::new(value_type.copy()),
            },
            TypeName::Array { value_type, length } => TypeName::Array {
                value_type: Box::new(value_type.copy()),
                length: *length,
            },
            TypeName::Tuple(ts) => TypeName::Tuple(ts.copy()),
            TypeName::Function { parameters, return_parameters } => TypeName::Function {
                parameters: parameters.copy(),
                return_parameters: return_parameters.copy(),
            },
            TypeName::Cipher => TypeName::Cipher,
            TypeName::Key => TypeName::Key,
            TypeName::Randomness => TypeName::Randomness,
        }
    }

    /// Structural equality of type names.
    pub fn equals(&self, other: &TypeName) -> (r: bool)
        ensures
            r == (*self == *other),
        decreases self,
    {
        match (self, other) {
            (TypeName::Bool, TypeName::Bool) => true,
            (TypeName::BooleanLiteral(a), TypeName::BooleanLiteral(b)) => *a == *b,
            (TypeName::Uint(a), TypeName::Uint(b)) => *a == *b,
            (TypeName::Int(a), TypeName::Int(b)) => *a == *b,
            (TypeName::NumberLiteral(a), TypeName::NumberLiteral(b)) => *a == *b,
            (TypeName::Address, TypeName::Address) => true,
            (TypeName::AddressPayable, TypeName::AddressPayable) => true,
            (TypeName::Enum(a), TypeName::Enum(b)) => *a == *b,
            (TypeName::EnumValue(a), TypeName::EnumValue(b)) => *a == *b,
            (TypeName::UserDefined(a), TypeName::UserDefined(b)) => *a == *b,
            (TypeName::Contract(a), TypeName::Contract(b)) => *a == *b,
            (
                TypeName::Mapping { key_type: k1, key_label: l1, value_type: v1 },
                TypeName::Mapping { key_type: k2, key_label: l2, value_type: v2 },
            ) => {
                let same_label = match (l1, l2) {
                    (None, None) => true,
                    (Some(a), Some(b)) => *a == *b,
                    _ => false,
                };
                same_label && k1.equals(k2) && v1.equals(v2)
            },
            (
                TypeName::Array { value_type: v1, length: n1 },
                TypeName::Array { value_type: v2, length: n2 },
            ) => *n1 == *n2 && v1.equals(v2),
            (TypeName::Tuple(a), TypeName::Tuple(b)) => a.equals(b),
            (
                TypeName::Function { parameters: p1, return_parameters: r1 },
                TypeName::Function { parameters: p2, return_parameters: r2 },
            ) => p1.equals(p2) && r1.equals(r2),
            (TypeName::Cipher, TypeName::Cipher) => true,
            (TypeName::Key, TypeName::Key) => true,
            (TypeName::Randomness, TypeName::Randomness) => true,
            _ => false,
        }
    }

    pub fn to_abstract_type(&self) -> (r: TypeName)
        ensures
            r == self.spec_to_abstract_type(),
    {
        match self {
            TypeName::BooleanLiteral(_) => TypeName::Bool,
            TypeName::NumberLiteral(v) => if *v >= 0 {
                TypeName::Uint(literal_bits_exec(*v))
            } else {
                TypeName::Int(literal_bits_exec(*v))
            },
            _ => self.copy(),
        }
    }

    /// Whether a value of this type converts implicitly to `expected`.
    pub fn implicitly_convertible_to(&self, expected: &TypeName) -> (r: bool)
        ensures
            r == convertible(*self, *expected),
        decreases self,
    {
        if self.equals(expected) {
            return true;
        }
        match (self, expected) {
            (TypeName::Uint(a), TypeName::Uint(b)) => *a <= *b,
            (TypeName::Uint(a), TypeName::Int(b)) => *a < *b,
            (TypeName::Int(a), TypeName::Int(b)) => *a <= *b,
            (TypeName::NumberLiteral(v), TypeName::Uint(b)) => *v >= 0 && literal_bits_exec(*v) <= *b,
            (TypeName::NumberLiteral(v), TypeName::Int(b)) => {
                let bits = literal_bits_exec(*v);
                if *v < 0 {
                    bits <= *b
                } else {
                    bits < *b
                }
            },
            (TypeName::BooleanLiteral(_), TypeName::Bool) => true,
            (TypeName::AddressPayable, TypeName::Address) => true,
            (TypeName::EnumValue(a), TypeName::Enum(b)) => *a == *b,
            (TypeName::Tuple(xs), TypeName::Tuple(ys)) => xs.convertible_to(ys),
            _ => false,
        }
    }

    /// The type that both `self` and `other` convert to, `Lit` for two literals
    /// (unless `convert_literals`), or `None`.
    pub fn combined_type(&self, other: &TypeName, convert_literals: bool) -> (r: Option<CombinedType>)
        ensures
            r == combined(*self, *other, convert_literals),
    {
        match (self, other) {
            (TypeName::NumberLiteral(_), TypeName::NumberLiteral(_))
            | (TypeName::BooleanLiteral(_), TypeName::BooleanLiteral(_)) => {
                if convert_literals {
                    let a = self.to_abstract_type();
                    let b = other.to_abstract_type();
                    general_combined(&a, &b)
                } else {
                    Some(CombinedType::Lit)
                }
            },
            _ => general_combined(self, other),
        }
    }
}

fn general_combined(a: &TypeName, b: &TypeName) -> (r: Option<CombinedType>)
    ensures
        r == general_combined_spec(*a, *b),
{
    if a.implicitly_convertible_to(b) {
        Some(CombinedType::Type(b.copy()))
    } else if b.implicitly_convertible_to(a) {
        Some(CombinedType::Type(a.copy()))
    } else {
        None
    }
}

pub open spec fn general_combined_spec(a: TypeName, b: TypeName) -> Option<CombinedType> {
    if convertible(a, b) {
        Some(CombinedType::Type(b))
    } else if convertible(b, a) {
        Some(CombinedType::Type(a))
    } else {
        None
    }
}

/// The combined type of two types (see `TypeName::combined_type`).
pub open spec fn combined(a: TypeName, b: TypeName, convert_literals: bool) -> Option<CombinedType> {
    match (a, b) {
        (TypeName::NumberLiteral(_), TypeName::NumberLiteral(_)) | (
            TypeName::BooleanLiteral(_),
            TypeName::BooleanLiteral(_),
        ) => if convert_literals {
            general_combined_spec(a.spec_to_abstract_type(), b.spec_to_abstract_type())
        } else {
            Some(CombinedType::Lit)
        },
        _ => general_combined_spec(a, b),
    }
}

impl AnnotatedTypeList {
    pub fn copy(&self) -> (r: AnnotatedTypeList)
        ensures
            r == *self,
        decreases self,
    {
        match self {
            AnnotatedTypeList::Nil => AnnotatedTypeList::Nil,
            AnnotatedTypeList::Cons(x, rest) => AnnotatedTypeList::Cons(
                Box::new(x.copy()),
                Box::new(rest.copy()),
            ),
        }
    }

    pub fn equals(&self, other: &AnnotatedTypeList) -> (r: bool)
        ensures
            r == (*self == *other),
        decreases self,
    {
        match (self, other) {
            (AnnotatedTypeList::Nil, AnnotatedTypeList::Nil) => true,
            (AnnotatedTypeList::Cons(x, xr), AnnotatedTypeList::Cons(y, yr)) => x.equals(y)
                && xr.equals(yr),
            _ => false,
        }
    }

    pub fn convertible_to(&self, other: &AnnotatedTypeList) -> (r: bool)
        ensures
            r == convertible_list(*self, *other),
        decreases self,
    {
        match (self, other) {
            (AnnotatedTypeList::Nil, AnnotatedTypeList::Nil) => true,
            (AnnotatedTypeList::Cons(x, xr), AnnotatedTypeList::Cons(y, yr)) => {
                x.ty.implicitly_convertible_to(&y.ty) && xr.convertible_to(yr)
            },
            _ => false,
        }
    }

    /// The elements of the list as a sequence.
    pub open spec fn spec_items(self) -> Seq<AnnotatedTypeName>
        decreases self,
    {
        match self {
            AnnotatedTypeList::Nil => Seq::empty(),
            AnnotatedTypeList::Cons(x, rest) => seq![*x].add(rest.spec_items()),
        }
    }
}

impl AnnotatedTypeName {
    pub fn new(ty: TypeName, privacy_annotation: Option<PrivacyLabel>, homomorphism: Homomorphism) -> (r: AnnotatedTypeName)
        ensures
            *r.ty == ty,
            r.privacy_annotation == privacy_annotation,
            r.homomorphism == homomorphism,
    {
        AnnotatedTypeName { ty: Box::new(ty), privacy_annotation, homomorphism }
    }

    pub fn copy(&self) -> (r: AnnotatedTypeName)
        ensures
            r == *self,
        decreases self,
    {
        AnnotatedTypeName {
            ty: Box::new(self.ty.copy()),
            privacy_annotation: self.privacy_annotation,
            homomorphism: self.homomorphism,
        }
    }

    pub fn equals(&self, other: &AnnotatedTypeName) -> (r: bool)
        ensures
            r == (*self == *other),
        decreases self,
    {
        let same_privacy = match (self.privacy_annotation, other.privacy_annotation) {
            (None, None) => true,
            (Some(a), Some(b)) => a == b,
            _ => false,
        };
        same_privacy && self.homomorphism == other.homomorphism && self.ty.equals(&other.ty)
    }

    /// `bool@all`
    pub fn bool_all() -> (r: AnnotatedTypeName)
        ensures
            *r.ty == TypeName::Bool,
            r.privacy_annotation == Some(PrivacyLabel::All),
            r.homomorphism == Homomorphism::NonHomomorphic,
    {
        AnnotatedTypeName::new(TypeName::Bool, Some(PrivacyLabel::All), Homomorphism::NonHomomorphic)
    }

    /// `address@all`
    pub fn address_all() -> (r: AnnotatedTypeName)
        ensures
            *r.ty == TypeName::Address,
            r.privacy_annotation == Some(PrivacyLabel::All),
            r.homomorphism == Homomorphism::NonHomomorphic,
    {
        AnnotatedTypeName::new(TypeName::Address, Some(PrivacyLabel::All), Homomorphism::NonHomomorphic)
    }

    /// Labelled `all`, or not labelled at all (which means `all`).
    pub open spec fn spec_is_public(&self) -> bool {
        self.privacy_annotation is None || self.privacy_annotation == Some(PrivacyLabel::All)
    }

    #[verifier::when_used_as_spec(spec_is_public)]
    pub fn is_public(&self) -> (r: bool)
        ensures
            r == self.spec_is_public(),
    {
        match self.privacy_annotation {
            None => true,
            Some(p) => p == PrivacyLabel::All,
        }
    }

    pub open spec fn spec_is_private(&self) -> bool {
        !self.spec_is_public()
    }

    #[verifier::when_used_as_spec(spec_is_private)]
    pub fn is_private(&self) -> (r: bool)
        ensures
            r == self.spec_is_private(),
    {
        !self.is_public()
    }

    /// Private to a label that is, or provably equals, `me`.
    pub open spec fn spec_is_private_at_me(&self, analysis: Option<&PartitionState>) -> bool {
        match self.privacy_annotation {
            Some(PrivacyLabel::Me) => true,
            Some(l) => match analysis {
                Some(an) => an.spec_same_partition_as_me(l),
                None => false,
            },
            None => false,
        }
    }

    #[verifier::when_used_as_spec(spec_is_private_at_me)]
    pub fn is_private_at_me(&self, analysis: Option<&PartitionState>) -> (r: bool)
        ensures
            r == self.spec_is_private_at_me(analysis),
    {
        match self.privacy_annotation {
            Some(PrivacyLabel::Me) => true,
            Some(l) => match analysis {
                Some(an) => an.same_partition_as_me(l),
                None => false,
            },
            None => false,
        }
    }

    /// Readable by the invoker: public, or private at `me`.
    pub open spec fn spec_is_accessible(&self, analysis: Option<&PartitionState>) -> bool {
        self.spec_is_public() || self.spec_is_private_at_me(analysis)
    }

    #[verifier::when_used_as_spec(spec_is_accessible)]
    pub fn is_accessible(&self, analysis: Option<&PartitionState>) -> (r: bool)
        ensures
            r == self.spec_is_accessible(analysis),
    {
        self.is_public() || self.is_private_at_me(analysis)
    }

    pub open spec fn spec_with_homomorphism(&self, hom: Homomorphism) -> AnnotatedTypeName {
        AnnotatedTypeName { homomorphism: hom, ..*self }
    }

    #[verifier::when_used_as_spec(spec_with_homomorphism)]
    pub fn with_homomorphism(&self, hom: Homomorphism) -> (r: AnnotatedTypeName)
        ensures
            r == self.spec_with_homomorphism(hom),
    {
        AnnotatedTypeName { ty: Box::new(self.ty.copy()), privacy_annotation: self.privacy_annotation, homomorphism: hom }
    }
}

/// The outcome of checking a value against an expected type.
#[derive(PartialEq, Eq, Structural, Clone, Copy, Debug)]
pub enum InstanceOf {
    /// The value has the expected type.
    Yes,
    /// The value cannot have the expected type.
    No,
    /// The value is public and must be made private to have the expected type.
    MakePrivate,
}

/// The privacy that a value of type `actual` has when used where `expected` is
/// expected: its own label if both lie in one partition, the expected label if
/// the value is public, and none otherwise (also when a private value's
/// homomorphism differs from the expected one).
pub open spec fn combined_privacy(
    actual: AnnotatedTypeName,
    analysis: Option<&PartitionState>,
    expected: AnnotatedTypeName,
) -> Option<PrivacyLabel> {
    if actual.homomorphism != expected.homomorphism && !actual.spec_is_public() {
        None
    } else {
        match (expected.privacy_annotation, actual.privacy_annotation) {
            (Some(pe), Some(pa)) => if labels_equal(analysis, pe, pa) {
                Some(pa)
            } else if pa == PrivacyLabel::All {
                Some(pe)
            } else {
                None
            },
            _ => None,
        }
    }
}

pub fn combined_privacy_exec(
    actual: &AnnotatedTypeName,
    analysis: Option<&PartitionState>,
    expected: &AnnotatedTypeName,
) -> (r: Option<PrivacyLabel>)
    ensures
        r == combined_privacy(*actual, analysis, *expected),
{
    if actual.homomorphism != expected.homomorphism && !actual.is_public() {
        None
    } else {
        match (expected.privacy_annotation, actual.privacy_annotation) {
            (Some(pe), Some(pa)) => if labels_equal_exec(analysis, pe, pa) {
                Some(pa)
            } else if pa == PrivacyLabel::All {
                Some(pe)
            } else {
                None
            },
            _ => None,
        }
    }
}

/// Whether each element of a tuple keeps the expected element's label.
pub open spec fn tuple_privacy_matches(
    actual: AnnotatedTypeList,
    analysis: Option<&PartitionState>,
    expected: AnnotatedTypeList,
) -> bool
    decreases actual,
{
    match (actual, expected) {
        (AnnotatedTypeList::Nil, AnnotatedTypeList::Nil) => true,
        (AnnotatedTypeList::Cons(a, ar), AnnotatedTypeList::Cons(e, er)) => {
            &&& combined_privacy(*a, analysis, *e) is Some
            &&& combined_privacy(*a, analysis, *e) == e.privacy_annotation
            &&& tuple_privacy_matches(*ar, analysis, *er)
        },
        _ => false,
    }
}

/// The expected element types of a tuple that matches them all carry labels.
pub proof fn lemma_matched_tuple_is_labelled(actual: AnnotatedTypeList, analysis: Option<&PartitionState>, expected: AnnotatedTypeList)
    requires
        tuple_privacy_matches(actual, analysis, expected),
    ensures
        all_labelled(expected),
    decreases actual,
{
    match (actual, expected) {
        (AnnotatedTypeList::Cons(a, ar), AnnotatedTypeList::Cons(e, er)) => {
            lemma_matched_tuple_is_labelled(*ar, analysis, *er);
        },
        _ => {},
    }
}

fn tuple_privacy_matches_exec(
    actual: &AnnotatedTypeList,
    analysis: Option<&PartitionState>,
    expected: &AnnotatedTypeList,
) -> (r: bool)
    ensures
        r == tuple_privacy_matches(*actual, analysis, *expected),
    decreases actual,
{
    match (actual, expected) {
        (AnnotatedTypeList::Nil, AnnotatedTypeList::Nil) => true,
        (AnnotatedTypeList::Cons(a, ar), AnnotatedTypeList::Cons(e, er)) => {
            let c = combined_privacy_exec(a, analysis, e);
            c.is_some() && c == e.privacy_annotation && tuple_privacy_matches_exec(ar, analysis, er)
        },
        _ => false,
    }
}

/// Whether a value of type `actual` is an instance of `expected` (see
/// `InstanceOf`): the type names convert, and the combined privacy is the
/// value's own label (`Yes`) or the expected label of a public value (`MakePrivate`).
pub open spec fn instance_of(
    actual: AnnotatedTypeName,
    analysis: Option<&PartitionState>,
    expected: AnnotatedTypeName,
) -> InstanceOf {
    if !convertible(*actual.ty, *expected.ty) {
        InstanceOf::No
    } else {
        match (*actual.ty, *expected.ty) {
            (TypeName::Tuple(xs), TypeName::Tuple(ys)) => if tuple_privacy_matches(
                xs,
                analysis,
                ys,
            ) {
                InstanceOf::Yes
            } else {
                InstanceOf::No
            },
            _ => match combined_privacy(actual, analysis, expected) {
                None => InstanceOf::No,
                Some(l) => if Some(l) == actual.privacy_annotation {
                    InstanceOf::Yes
                } else {
                    InstanceOf::MakePrivate
                },
            },
        }
    }
}

pub fn instance_of_exec(
    actual: &AnnotatedTypeName,
    analysis: Option<&PartitionState>,
    expected: &AnnotatedTypeName,
) -> (r: InstanceOf)
    ensures
        r == instance_of(*actual, analysis, *expected),
{
    if !actual.ty.implicitly_convertible_to(&expected.ty) {
        return InstanceOf::No;
    }
    match (&*actual.ty, &*expected.ty) {
        (TypeName::Tuple(xs), TypeName::Tuple(ys)) => if tuple_privacy_matches_exec(xs, analysis, ys) {
            InstanceOf::Yes
        } else {
            InstanceOf::No
        },
        _ => match combined_privacy_exec(actual, analysis, expected) {
            None => InstanceOf::No,
            Some(l) => if Some(l) == actual.privacy_annotation {
                InstanceOf::Yes
            } else {
                InstanceOf::MakePrivate
            },
        },
    }
}


/// Every element of the list carries a privacy label.
pub open spec fn all_labelled(xs: AnnotatedTypeList) -> bool
    decreases xs,
{
    match xs {
        AnnotatedTypeList::Nil => true,
        AnnotatedTypeList::Cons(x, rest) => x.privacy_annotation is Some && all_labelled(*rest),
    }
}

/// The labels a type must carry to be compared: its own, or for a tuple
/// those of its elements.
pub open spec fn labelled(t: AnnotatedTypeName) -> bool {
    match *t.ty {
        TypeName::Tuple(xs) => all_labelled(xs),
        _ => t.privacy_annotation is Some,
    }
}

pub proof fn lemma_tuple_privacy_matches_itself(xs: AnnotatedTypeList, analysis: Option<&PartitionState>)
    requires
        all_labelled(xs),
    ensures
        tuple_privacy_matches(xs, analysis, xs),
    decreases xs,
{
    match xs {
        AnnotatedTypeList::Nil => {},
        AnnotatedTypeList::Cons(_, rest) => lemma_tuple_privacy_matches_itself(*rest, analysis),
    }
}

/// A value is an instance of its own type, whatever the analysis says.
pub proof fn law_type_is_instance_of_itself(t: AnnotatedTypeName, analysis: Option<&PartitionState>)
    requires
        labelled(t),
    ensures
        instance_of(t, analysis, t) == InstanceOf::Yes,
{
    match *t.ty {
        TypeName::Tuple(xs) => lemma_tuple_privacy_matches_itself(xs, analysis),
        _ => {},
    }
}

impl AnnotatedTypeList {
    /// The elements as a vector.
    pub fn to_vec(&self) -> (r: Vec<AnnotatedTypeName>)
        ensures
            r@ == self.spec_items(),
        decreases self,
    {
        match self {
            AnnotatedTypeList::Nil => Vec::new(),
            AnnotatedTypeList::Cons(x, rest) => {
                let tail = rest.to_vec();
                let mut r: Vec<AnnotatedTypeName> = Vec::new();
                r.push(x.copy());
                let mut i: usize = 0;
                while i < tail.len()
                    invariant
                        i <= tail.len(),
                        r@ == seq![**x].add(tail@.subrange(0, i as int)),
                    decreases tail.len() - i,
                {
                    r.push(tail[i].copy());
                    i = i + 1;
                    assert(r@ =~= seq![**x].add(tail@.subrange(0, i as int)));
                }
                assert(tail@.subrange(0, tail.len() as int) =~= tail@);
                r
            },
        }
    }

    /// The list of the given elements.
    pub fn from_vec(v: Vec<AnnotatedTypeName>) -> (r: AnnotatedTypeList)
        ensures
            r.spec_items() == v@,
    {
        let ghost old_v = v@;
        let mut v = v;
        let mut list = AnnotatedTypeList::Nil;
        while v.len() > 0
            invariant
                v.len() <= old_v.len(),
                v@ == old_v.subrange(0, v.len() as int),
                list.spec_items() == old_v.subrange(v.len() as int, old_v.len() as int),
            decreases v.len(),
        {
            let x = v.pop().unwrap();
            let ghost n = v.len();
            assert(x == old_v[n as int]);
            let ghost prev = list.spec_items();
            list = AnnotatedTypeList::Cons(Box::new(x), Box::new(list));
            assert(list.spec_items() == seq![x].add(prev));
            assert(list.spec_items() =~= old_v.subrange(n as int, old_v.len() as int));
        }
        assert(old_v.subrange(0, old_v.len() as int) =~= old_v);
        list
    }
}

/// The list of the given elements.
pub open spec fn list_of(s: Seq<AnnotatedTypeName>) -> AnnotatedTypeList
    decreases s.len(),
{
    if s.len() == 0 {
        AnnotatedTypeList::Nil
    } else {
        AnnotatedTypeList::Cons(Box::new(s[0]), Box::new(list_of(s.drop_first())))
    }
}

/// A list is the list of its elements.
pub proof fn lemma_list_of_items(l: AnnotatedTypeList)
    ensures
        list_of(l.spec_items()) == l,
    decreases l,
{
    match l {
        AnnotatedTypeList::Nil => {},
        AnnotatedTypeList::Cons(x, rest) => {
            lemma_list_of_items(*rest);
            assert(l.spec_items().drop_first() =~= rest.spec_items());
        },
    }
}

} // verus!
