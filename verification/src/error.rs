//! What a request is answered where it is not granted.
use vstd::prelude::*;

verus! {

/// Why a request is not granted, with the text that explains it.
#[derive(Debug, Clone, PartialEq, Eq)]
pub enum AppError {
    BadRequest(String),
    Unauthorized(String),
    NotFound(String),
    Internal(String),
}

/// The model of an `AppError`.
pub enum AppErrorView {
    BadRequest(Seq<char>),
    Unauthorized(Seq<char>),
    NotFound(Seq<char>),
    Internal(Seq<char>),
}

impl View for AppError {
    type V = AppErrorView;

    open spec fn view(&self) -> AppErrorView {
        match self {
            AppError::BadRequest(text) => AppErrorView::BadRequest(text@),
            AppError::Unauthorized(text) => AppErrorView::Unauthorized(text@),
            AppError::NotFound(text) => AppErrorView::NotFound(text@),
            AppError::Internal(text) => AppErrorView::Internal(text@),
        }
    }
}

impl AppErrorView {
    /// The text that explains the error.
    pub open spec fn text(self) -> Seq<char> {
        match self {
            AppErrorView::BadRequest(text) => text,
            AppErrorView::Unauthorized(text) => text,
            AppErrorView::NotFound(text) => text,
            AppErrorView::Internal(text) => text,
        }
    }
}

impl AppError {
    /// The text that explains the error.
    pub fn to_text(&self) -> (r: String)
        ensures
            r@ == self@.text(),
    {
        match self {
            AppError::BadRequest(text) => text.clone(),
            AppError::Unauthorized(text) => text.clone(),
            AppError::NotFound(text) => text.clone(),
            AppError::Internal(text) => text.clone(),
        }
    }
}

} // verus!
