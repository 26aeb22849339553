//! Why a provider's usage could not be had.

use vstd::prelude::*;

verus! {

/// Why a provider's usage could not be had.
#[derive(Debug)]
pub enum ProviderError {
    /// There are no credentials to ask with.
    NoCookies,
    /// The credentials were refused.
    AuthRequired,
    /// The provider could not be reached.
    Network(String),
    /// The provider's answer could not be read.
    Parse(String),
    /// Anything else.
    Other(String),
}

/// `ProviderError` as a mathematical value.
pub enum ErrorView {
    NoCookies,
    AuthRequired,
    Network(Seq<char>),
    Parse(Seq<char>),
    Other(Seq<char>),
}

impl View for ProviderError {
    type V = ErrorView;

    open spec fn view(&self) -> ErrorView {
        match *self {
            ProviderError::NoCookies => ErrorView::NoCookies,
            ProviderError::AuthRequired => ErrorView::AuthRequired,
            ProviderError::Network(s) => ErrorView::Network(s@),
            ProviderError::Parse(s) => ErrorView::Parse(s@),
            ProviderError::Other(s) => ErrorView::Other(s@),
        }
    }
}

} // verus!
