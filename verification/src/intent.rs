//! Intent scopes and the message envelope that is signed.

use vstd::prelude::*;

verus! {

/// Purpose tag of a signed message. Every scope has a numeric code of its own;
/// a code, once given out, is never given to another scope.
#[derive(Clone, Copy, Debug, PartialEq, Eq, Structural)]
pub enum IntentScope {
    ProcessData,
}

/// A scope together with how it was arrived at.
#[derive(Clone, Copy, Debug, PartialEq, Eq, Structural)]
pub struct ResolvedIntent {
    /// The scope that is signed.
    pub scope: IntentScope,
    /// Whether the code named no scope, so that `scope` is the default.
    pub defaulted: bool,
}

impl IntentScope {
    /// The numeric code of a scope.
    pub open spec fn spec_code(self) -> u8 {
        match self {
            IntentScope::ProcessData => 0u8,
        }
    }

    /// The scope that a code names, if it names one.
    pub open spec fn spec_from_code(code: u8) -> Option<IntentScope> {
        if code == 0 {
            Some(IntentScope::ProcessData)
        } else {
            None
        }
    }

    /// The scope that a code is signed as: the one it names, or `ProcessData`
    /// where it names none.
    pub open spec fn spec_resolve(code: u8) -> ResolvedIntent {
        match Self::spec_from_code(code) {
            Some(scope) => ResolvedIntent { scope, defaulted: false },
            None => ResolvedIntent { scope: IntentScope::ProcessData, defaulted: true },
        }
    }

    /// The numeric code of this scope.
    pub fn code(self) -> (code: u8)
        ensures
            code == self.spec_code(),
    {
        match self {
            IntentScope::ProcessData => 0u8,
        }
    }

    /// The scope with the given code, or nothing for a code that no scope has.
    pub fn from_code(code: u8) -> (scope: Option<IntentScope>)
        ensures
            scope == Self::spec_from_code(code),
    {
        if code == 0 {
            Some(IntentScope::ProcessData)
        } else {
            None
        }
    }

    /// Resolves a caller's code to the scope that is signed. An unknown code
    /// falls back to `ProcessData`, and the result says so.
    pub fn resolve(code: u8) -> (resolved: ResolvedIntent)
        ensures
            resolved == Self::spec_resolve(code),
    {
        match Self::from_code(code) {
            Some(scope) => ResolvedIntent { scope, defaulted: false },
            None => ResolvedIntent { scope: IntentScope::ProcessData, defaulted: true },
        }
    }

    /// A scope is found again from its code, and no two scopes share one.
    pub proof fn lemma_code_names_scope(self)
        ensures
            Self::spec_from_code(self.spec_code()) == Some(self),
            Self::spec_resolve(self.spec_code()) == (ResolvedIntent { scope: self, defaulted: false }),
    {
    }
}

/// The signed envelope over a payload of any shape.
#[derive(Clone, Debug, PartialEq, Eq)]
pub struct IntentMessage<T> {
    pub intent: IntentScope,
    pub timestamp_ms: u64,
    pub data: T,
}

/// The signed envelope over a payload of raw bytes.
#[derive(Clone, Debug, PartialEq, Eq)]
pub struct IntentMessageBytes {
    pub intent: IntentScope,
    pub timestamp_ms: u64,
    pub data: Vec<u8>,
}

/// What an envelope over raw bytes says.
pub struct IntentMessageView {
    pub intent: IntentScope,
    pub timestamp_ms: u64,
    pub data: Seq<u8>,
}

impl View for IntentMessageBytes {
    type V = IntentMessageView;

    open spec fn view(&self) -> IntentMessageView {
        IntentMessageView { intent: self.intent, timestamp_ms: self.timestamp_ms, data: self.data@ }
    }
}

} // verus!
