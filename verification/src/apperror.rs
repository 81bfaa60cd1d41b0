//! The error type for the crate's own rules.

use vstd::prelude::*;

verus! {

/// An error raised by the crate's own validation rules.
#[derive(Debug)]
pub enum AppError {
    /// An `Option` was `None` where `Some` was expected.
    NoneError,
    /// A rule was broken; the message names the offending input.
    WithMessage(String),
}

impl AppError {
    /// The full error text, as a spec-level function.
    pub open spec fn spec_message(self) -> Seq<char> {
        match self {
            AppError::NoneError => "AppError::NoneError: An 'Option::None' was unwrapped."@,
            AppError::WithMessage(m) => "AppError::WithMessage: '"@ + m@ + "'"@,
        }
    }

    /// The full error text shown to a caller.
    pub fn message(&self) -> (r: String)
        ensures
            r@ == self.spec_message(),
    {
        match self {
            AppError::NoneError => String::from_str(
                "AppError::NoneError: An 'Option::None' was unwrapped.",
            ),
            AppError::WithMessage(m) => {
                let mut s = String::from_str("AppError::WithMessage: '");
                s.append(m.as_str());
                s.append("'");
                assert(s@ =~= self.spec_message());
                s
            },
        }
    }
}

} // verus!
