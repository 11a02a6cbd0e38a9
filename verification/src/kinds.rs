//! What a feedback site watches, and how much it has seen.

use vstd::prelude::*;

verus! {

/// The dynamic boundary that a feedback site is attached to.
#[derive(Clone, Copy, Debug, PartialEq, Eq, Structural, Hash, PartialOrd, Ord)]
pub enum TypedFeedbackSiteKind {
    PropertyGet,
    PropertySet,
    MethodCall,
    ClosureCall,
    ArrayElement,
    NumericFieldWrite,
    HelperReturn,
}

impl TypedFeedbackSiteKind {
    /// The kind that generated code denotes by `raw`; numbers that denote no
    /// kind stand for `PropertyGet`.
    pub open spec fn of_raw(raw: u32) -> TypedFeedbackSiteKind {
        if raw == 1 {
            TypedFeedbackSiteKind::PropertySet
        } else if raw == 2 {
            TypedFeedbackSiteKind::MethodCall
        } else if raw == 3 {
            TypedFeedbackSiteKind::ClosureCall
        } else if raw == 4 {
            TypedFeedbackSiteKind::ArrayElement
        } else if raw == 5 {
            TypedFeedbackSiteKind::NumericFieldWrite
        } else if raw == 6 {
            TypedFeedbackSiteKind::HelperReturn
        } else {
            TypedFeedbackSiteKind::PropertyGet
        }
    }

    /// The name under which the kind is reported.
    pub open spec fn name(self) -> Seq<char> {
        match self {
            TypedFeedbackSiteKind::PropertyGet => "property_get"@,
            TypedFeedbackSiteKind::PropertySet => "property_set"@,
            TypedFeedbackSiteKind::MethodCall => "method_call"@,
            TypedFeedbackSiteKind::ClosureCall => "closure_call"@,
            TypedFeedbackSiteKind::ArrayElement => "array_element"@,
            TypedFeedbackSiteKind::NumericFieldWrite => "numeric_field_write"@,
            TypedFeedbackSiteKind::HelperReturn => "helper_return"@,
        }
    }

    pub fn from_raw(raw: u32) -> (kind: Self)
        ensures
            kind == Self::of_raw(raw),
    {
        match raw {
            1 => TypedFeedbackSiteKind::PropertySet,
            2 => TypedFeedbackSiteKind::MethodCall,
            3 => TypedFeedbackSiteKind::ClosureCall,
            4 => TypedFeedbackSiteKind::ArrayElement,
            5 => TypedFeedbackSiteKind::NumericFieldWrite,
            6 => TypedFeedbackSiteKind::HelperReturn,
            _ => TypedFeedbackSiteKind::PropertyGet,
        }
    }

    pub fn as_str(self) -> (name: &'static str)
        ensures
            name@ == self.name(),
    {
        match self {
            TypedFeedbackSiteKind::PropertyGet => "property_get",
            TypedFeedbackSiteKind::PropertySet => "property_set",
            TypedFeedbackSiteKind::MethodCall => "method_call",
            TypedFeedbackSiteKind::ClosureCall => "closure_call",
            TypedFeedbackSiteKind::ArrayElement => "array_element",
            TypedFeedbackSiteKind::NumericFieldWrite => "numeric_field_write",
            TypedFeedbackSiteKind::HelperReturn => "helper_return",
        }
    }
}

/// How many different observations a feedback site has gathered.
#[derive(Clone, Copy, Debug, PartialEq, Eq, Structural, Hash, PartialOrd, Ord)]
pub enum TypedFeedbackState {
    Uninitialized,
    Monomorphic,
    Polymorphic,
    Megamorphic,
}

impl TypedFeedbackState {
    /// The name under which the state is reported.
    pub open spec fn name(self) -> Seq<char> {
        match self {
            TypedFeedbackState::Uninitialized => "uninitialized"@,
            TypedFeedbackState::Monomorphic => "monomorphic"@,
            TypedFeedbackState::Polymorphic => "polymorphic"@,
            TypedFeedbackState::Megamorphic => "megamorphic"@,
        }
    }

    pub fn as_str(self) -> (name: &'static str)
        ensures
            name@ == self.name(),
    {
        match self {
            TypedFeedbackState::Uninitialized => "uninitialized",
            TypedFeedbackState::Monomorphic => "monomorphic",
            TypedFeedbackState::Polymorphic => "polymorphic",
            TypedFeedbackState::Megamorphic => "megamorphic",
        }
    }
}

} // verus!
