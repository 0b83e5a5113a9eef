//! The data model: patch payload values, patches, view queries, projection
//! results, and the error taxonomy.

use vstd::prelude::*;
use vstd::view::View as _;

verus! {

/// The payload of a patch: a string, an integer number, a boolean, or an
/// arbitrary structured value.
#[derive(Debug)]
pub enum Val {
    Str(String),
    Num(i64),
    Bool(bool),
    /// A structured payload (an array or an object), carried as its
    /// serialized text. The engine passes it through untouched — `Latest`
    /// and `Collect` return it — and no typed accessor matches it, so
    /// every typed aggregate rejects a stream holding one.
    Structured(String),
}

/// Mathematical model of a [`Val`].
#[verifier::ext_equal]
pub enum SpecVal {
    Str(Seq<char>),
    Num(int),
    Bool(bool),
    Structured(Seq<char>),
}

impl vstd::prelude::View for Val {
    type V = SpecVal;

    open spec fn view(&self) -> SpecVal {
        match self {
            Val::Str(s) => SpecVal::Str(s@),
            Val::Num(n) => SpecVal::Num(*n as int),
            Val::Bool(b) => SpecVal::Bool(*b),
            Val::Structured(s) => SpecVal::Structured(s@),
        }
    }
}

impl DeepView for Val {
    type V = SpecVal;

    open spec fn deep_view(&self) -> SpecVal {
        self.view()
    }
}

impl Val {
    /// The string payload, or `None` when the value is not a string.
    pub fn as_str(&self) -> (r: Option<&str>)
        ensures
            match r {
                Some(s) => self@ matches SpecVal::Str(t) && t == s@,
                None => !(self@ is Str),
            },
    {
        match self {
            Val::Str(s) => Some(s.as_str()),
            _ => None,
        }
    }

    /// The numeric payload, or `None` when the value is not a number.
    pub fn as_num(&self) -> (r: Option<i64>)
        ensures
            match r {
                Some(n) => self@ == SpecVal::Num(n as int),
                None => !(self@ is Num),
            },
    {
        match self {
            Val::Num(n) => Some(*n),
            _ => None,
        }
    }

    /// The boolean payload, or `None` when the value is not a boolean.
    pub fn as_bool(&self) -> (r: Option<bool>)
        ensures
            match r {
                Some(b) => self@ == SpecVal::Bool(b),
                None => !(self@ is Bool),
            },
    {
        match self {
            Val::Bool(b) => Some(*b),
            _ => None,
        }
    }
}

/// One immutable field update: the field it belongs to and its payload.
#[derive(Debug)]
pub struct Patch {
    pub field: String,
    pub value: Val,
}

/// Mathematical model of a [`Patch`].
#[verifier::ext_equal]
pub struct SpecPatch {
    pub field: Seq<char>,
    pub value: SpecVal,
}

impl vstd::prelude::View for Patch {
    type V = SpecPatch;

    open spec fn view(&self) -> SpecPatch {
        SpecPatch { field: self.field@, value: self.value@ }
    }
}

impl DeepView for Patch {
    type V = SpecPatch;

    open spec fn deep_view(&self) -> SpecPatch {
        self.view()
    }
}

impl Val {
    /// An owned copy with the same model.
    pub fn dup(&self) -> (r: Val)
        ensures
            r@ == self@,
    {
        match self {
            Val::Str(s) => Val::Str(s.clone()),
            Val::Num(n) => Val::Num(*n),
            Val::Bool(b) => Val::Bool(*b),
            Val::Structured(s) => Val::Structured(s.clone()),
        }
    }
}

impl Patch {
    /// An owned copy with the same model.
    pub fn dup(&self) -> (r: Patch)
        ensures
            r@ == self@,
    {
        Patch { field: self.field.clone(), value: self.value.dup() }
    }
}

/// An inclusive bound, in milliseconds since the epoch, on a patch's
/// ingestion timestamp.
#[derive(Clone, Copy, PartialEq, Eq, Structural, Debug)]
pub struct Range {
    pub from: u64,
    pub to: u64,
}

/// The reduction a view applies to its filtered patch sequence.
#[derive(Debug)]
pub enum Projection {
    /// The value of the last matching patch, in arrival order.
    Latest,
    /// Every matching value, in arrival order, duplicates retained.
    Collect,
    /// The exact average of a numeric stream, as numerator and denominator.
    Avg,
    /// The sum of a numeric stream; an empty stream sums to zero.
    Sum,
    /// The matching strings joined, in arrival order, with the separator.
    Concat(String),
    /// True iff every matching boolean is true; vacuously true.
    All,
    /// True iff at least one matching boolean is true; vacuously false.
    Any,
    /// Joint denial: true iff no matching boolean is true; vacuously true.
    Nor,
}

/// Mathematical model of a [`Projection`].
#[verifier::ext_equal]
pub enum SpecProjection {
    Latest,
    Collect,
    Avg,
    Sum,
    Concat(Seq<char>),
    All,
    Any,
    Nor,
}

impl vstd::prelude::View for Projection {
    type V = SpecProjection;

    open spec fn view(&self) -> SpecProjection {
        match self {
            Projection::Latest => SpecProjection::Latest,
            Projection::Collect => SpecProjection::Collect,
            Projection::Avg => SpecProjection::Avg,
            Projection::Sum => SpecProjection::Sum,
            Projection::Concat(sep) => SpecProjection::Concat(sep@),
            Projection::All => SpecProjection::All,
            Projection::Any => SpecProjection::Any,
            Projection::Nor => SpecProjection::Nor,
        }
    }
}

impl DeepView for Projection {
    type V = SpecProjection;

    open spec fn deep_view(&self) -> SpecProjection {
        self.view()
    }
}

/// One read query against one field: an optional inclusive time filter and
/// a projection. The result is labeled by `alias` when present, else by
/// `field`.
pub struct View {
    pub field: String,
    pub alias: Option<String>,
    pub range: Option<Range>,
    pub projection: Projection,
}

/// Mathematical model of a [`View`].
#[verifier::ext_equal]
pub struct SpecView {
    pub field: Seq<char>,
    pub alias: Option<Seq<char>>,
    pub range: Option<Range>,
    pub projection: SpecProjection,
}

impl vstd::prelude::View for View {
    type V = SpecView;

    open spec fn view(&self) -> SpecView {
        SpecView {
            field: self.field@,
            alias: match self.alias {
                Some(a) => Some(a@),
                None => None,
            },
            range: self.range,
            projection: self.projection@,
        }
    }
}

impl DeepView for View {
    type V = SpecView;

    open spec fn deep_view(&self) -> SpecView {
        self.view()
    }
}

/// The reason a typed aggregate rejected its input stream.
#[derive(Clone, Copy, PartialEq, Eq, Structural, Debug)]
pub enum Mismatch {
    /// `Sum` met a value that is not a number.
    NonNumericSum,
    /// `Avg` met a value that is not a number.
    NonNumericAvg,
    /// `Avg` over zero matching patches is undefined.
    EmptyAvg,
    /// `Concat` met a value that is not a string.
    NonStringConcat,
    /// `All` met a value that is not a boolean.
    NonBooleanAll,
    /// `Any` met a value that is not a boolean.
    NonBooleanAny,
    /// `Nor` met a value that is not a boolean.
    NonBooleanNor,
}

impl Mismatch {
    /// What [`Mismatch::message`] returns for each variant.
    pub open spec fn spec_message(self) -> Seq<char> {
        match self {
            Mismatch::NonNumericSum => "Cannot sum non-numeric value stream"@,
            Mismatch::NonNumericAvg => "Cannot average non-numeric value stream"@,
            Mismatch::EmptyAvg => "Cannot average an empty stream"@,
            Mismatch::NonStringConcat => "Cannot concat non-string value stream"@,
            Mismatch::NonBooleanAll => "Cannot apply conjunction to non-boolean value stream"@,
            Mismatch::NonBooleanAny => "Cannot apply disjunction to non-boolean value stream"@,
            Mismatch::NonBooleanNor => "Cannot apply joint denial to non-boolean value stream"@,
        }
    }

    /// A human-readable description of the mismatch.
    pub fn message(&self) -> (r: String)
        ensures
            r@ == self.spec_message(),
    {
        match self {
            Mismatch::NonNumericSum => String::from_str("Cannot sum non-numeric value stream"),
            Mismatch::NonNumericAvg => String::from_str("Cannot average non-numeric value stream"),
            Mismatch::EmptyAvg => String::from_str("Cannot average an empty stream"),
            Mismatch::NonStringConcat => String::from_str("Cannot concat non-string value stream"),
            Mismatch::NonBooleanAll => String::from_str(
                "Cannot apply conjunction to non-boolean value stream",
            ),
            Mismatch::NonBooleanAny => String::from_str(
                "Cannot apply disjunction to non-boolean value stream",
            ),
            Mismatch::NonBooleanNor => String::from_str(
                "Cannot apply joint denial to non-boolean value stream",
            ),
        }
    }
}

/// Why a request failed.
#[derive(Debug)]
pub enum QueryError {
    /// The entity id starts with the reserved prefix; rejected before any
    /// storage access.
    InvalidEntityId,
    /// A view referenced a field absent from the supplied patch map.
    FieldNotFound,
    /// A typed aggregate's input stream broke its homogeneity rule.
    TypeMismatch(Mismatch),
    /// The underlying log store failed; the message comes from the store.
    StorageError(String),
}

/// Mathematical model of a [`QueryError`].
#[verifier::ext_equal]
pub enum SpecQueryError {
    InvalidEntityId,
    FieldNotFound,
    TypeMismatch(Mismatch),
    StorageError(Seq<char>),
}

impl vstd::prelude::View for QueryError {
    type V = SpecQueryError;

    open spec fn view(&self) -> SpecQueryError {
        match self {
            QueryError::InvalidEntityId => SpecQueryError::InvalidEntityId,
            QueryError::FieldNotFound => SpecQueryError::FieldNotFound,
            QueryError::TypeMismatch(m) => SpecQueryError::TypeMismatch(*m),
            QueryError::StorageError(s) => SpecQueryError::StorageError(s@),
        }
    }
}

impl DeepView for QueryError {
    type V = SpecQueryError;

    open spec fn deep_view(&self) -> SpecQueryError {
        self.view()
    }
}

impl QueryError {
    /// What [`QueryError::message`] returns for each variant.
    pub open spec fn spec_message(self) -> Seq<char> {
        match self {
            QueryError::InvalidEntityId => "Entity id must not start with the reserved prefix"@,
            QueryError::FieldNotFound => "Unable to find patches"@,
            QueryError::TypeMismatch(m) => m.spec_message(),
            QueryError::StorageError(s) => s@,
        }
    }

    /// A human-readable description of the error.
    pub fn message(&self) -> (r: String)
        ensures
            r@ == self.spec_message(),
    {
        match self {
            QueryError::InvalidEntityId => String::from_str(
                "Entity id must not start with the reserved prefix",
            ),
            QueryError::FieldNotFound => String::from_str("Unable to find patches"),
            QueryError::TypeMismatch(m) => m.message(),
            QueryError::StorageError(s) => s.clone(),
        }
    }
}

/// The result a single view projects: each projection yields its own shape.
#[derive(Debug)]
pub enum Projected {
    /// `Latest` over zero matches.
    Null,
    /// `Latest`: the last matching value.
    One(Val),
    /// `Collect`: every matching value, in arrival order.
    Many(Vec<Val>),
    /// `Sum`: the arithmetic sum of the matching numbers.
    Num(i128),
    /// `Avg`: the exact average as numerator (the sum) and denominator
    /// (the count of matching patches).
    Ratio(i128, usize),
    /// `Concat`: the matching strings joined with the separator.
    Str(String),
    /// `All`, `Any`, `Nor`: the boolean reduction.
    Bool(bool),
}

/// Mathematical model of a [`Projected`].
#[verifier::ext_equal]
pub enum SpecProjected {
    Null,
    One(SpecVal),
    Many(Seq<SpecVal>),
    Num(int),
    Ratio(int, int),
    Str(Seq<char>),
    Bool(bool),
}

impl vstd::prelude::View for Projected {
    type V = SpecProjected;

    open spec fn view(&self) -> SpecProjected {
        match self {
            Projected::Null => SpecProjected::Null,
            Projected::One(v) => SpecProjected::One(v@),
            Projected::Many(vs) => SpecProjected::Many(vs.deep_view()),
            Projected::Num(n) => SpecProjected::Num(*n as int),
            Projected::Ratio(n, d) => SpecProjected::Ratio(*n as int, *d as int),
            Projected::Str(s) => SpecProjected::Str(s@),
            Projected::Bool(b) => SpecProjected::Bool(*b),
        }
    }
}

impl DeepView for Projected {
    type V = SpecProjected;

    open spec fn deep_view(&self) -> SpecProjected {
        self.view()
    }
}

/// What a whole view query answers: the labeled projection results, or the
/// first error met, in view order.
pub enum ViewResponse {
    Success(Vec<(String, Projected)>),
    Error(QueryError),
}

impl ViewResponse {
    /// Wraps a query result for the caller: `Ok` becomes `Success`, `Err`
    /// becomes `Error`.
    pub fn create(res: Result<Vec<(String, Projected)>, QueryError>) -> (r: Self)
        ensures
            match res {
                Ok(v) => r matches ViewResponse::Success(out) && out.deep_view() == v.deep_view(),
                Err(e) => r matches ViewResponse::Error(out) && out@ == e@,
            },
    {
        match res {
            Ok(v) => ViewResponse::Success(v),
            Err(e) => ViewResponse::Error(e),
        }
    }
}

/// Runtime configuration: the port to listen on and the storage connection
/// string.
pub struct Args {
    pub port: u16,
    pub redis: String,
}

} // verus!
