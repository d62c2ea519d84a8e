//! What can go wrong when an analysed image is written down.

use vstd::prelude::*;

verus! {

/// A failure, with the text that says what happened.
#[derive(Debug, PartialEq, Eq)]
pub enum ImageAnalysisError {
    /// The database refused a request or could not be reached.
    DatabaseError { error: String },
    /// A tag could not be turned into an embedding, or its embedding is no vector.
    ClipEncodingError { error: String },
}

/// A failure with its text as a sequence of characters.
pub enum ErrorView {
    DatabaseError { error: Seq<char> },
    ClipEncodingError { error: Seq<char> },
}

impl View for ImageAnalysisError {
    type V = ErrorView;

    open spec fn view(&self) -> ErrorView {
        match self {
            ImageAnalysisError::DatabaseError { error } => ErrorView::DatabaseError {
                error: error@,
            },
            ImageAnalysisError::ClipEncodingError { error } => ErrorView::ClipEncodingError {
                error: error@,
            },
        }
    }
}

/// A result with nothing in it but success or the failure's view.
pub open spec fn unit_result(r: Result<(), ImageAnalysisError>) -> Result<(), ErrorView> {
    match r {
        Ok(()) => Ok(()),
        Err(e) => Err(e@),
    }
}

/// A yes or no, or the failure's view.
pub open spec fn bool_result(r: Result<bool, ImageAnalysisError>) -> Result<bool, ErrorView> {
    match r {
        Ok(b) => Ok(b),
        Err(e) => Err(e@),
    }
}

/// A failure is of one kind or the other and holds its text; a result is a success
/// exactly when its view is.
pub proof fn law_error_views(error: String, failure: ImageAnalysisError, flag: bool)
    ensures
        (ImageAnalysisError::DatabaseError { error })@ == (ErrorView::DatabaseError {
            error: error@,
        }),
        (ImageAnalysisError::ClipEncodingError { error })@ == (ErrorView::ClipEncodingError {
            error: error@,
        }),
        unit_result(Ok(())) is Ok,
        unit_result(Err(failure)) == Err::<(), ErrorView>(failure@),
        bool_result(Ok(flag)) == Ok::<bool, ErrorView>(flag),
        bool_result(Err(failure)) == Err::<bool, ErrorView>(failure@),
{
}

} // verus!
