//! Error types for SQL parsing and translation.

use vstd::prelude::*;

verus! {

/// Error category for SQL translation errors.
#[derive(Debug, Clone, Copy, PartialEq, Eq, Structural)]
pub enum ErrorCategory {
    /// Invalid SQL syntax.
    Syntax,
    /// Unsupported SQL feature.
    Unsupported,
    /// Error during translation to RQL.
    Translation,
}

/// The text a category is displayed as.
pub open spec fn category_text(c: ErrorCategory) -> Seq<char> {
    match c {
        ErrorCategory::Syntax => "Syntax error"@,
        ErrorCategory::Unsupported => "Unsupported feature"@,
        ErrorCategory::Translation => "Translation error"@,
    }
}

impl ErrorCategory {
    /// The human-readable name of the category.
    pub fn display_string(&self) -> (s: String)
        ensures
            s@ == category_text(*self),
    {
        match self {
            ErrorCategory::Syntax => String::from_str("Syntax error"),
            ErrorCategory::Unsupported => String::from_str("Unsupported feature"),
            ErrorCategory::Translation => String::from_str("Translation error"),
        }
    }
}

/// Text that can become an error message or suggestion.
pub trait IntoMessage: Sized {
    /// The characters the value stands for.
    spec fn message_view(&self) -> Seq<char>;

    /// Turns the value into an owned message.
    fn into_message(self) -> (s: String)
        ensures
            s@ == self.message_view(),
    ;
}

impl<'a> IntoMessage for &'a str {
    open spec fn message_view(&self) -> Seq<char> {
        (**self)@
    }

    fn into_message(self) -> (s: String) {
        String::from_str(self)
    }
}

impl IntoMessage for String {
    open spec fn message_view(&self) -> Seq<char> {
        self@
    }

    fn into_message(self) -> (s: String) {
        self
    }
}

/// Error returned by SQL parsing and translation operations.
#[derive(Debug)]
pub struct SqlError {
    /// The category of the error.
    pub category: ErrorCategory,
    /// Human-readable error message.
    pub message: String,
    /// Character position in the SQL string where the error occurred (if known).
    pub position: Option<usize>,
    /// Suggestion for fixing the error (if available).
    pub suggestion: Option<String>,
}

/// The mathematical model of an error.
pub struct SpecSqlError {
    pub category: ErrorCategory,
    pub message: Seq<char>,
    pub position: Option<usize>,
    pub suggestion: Option<Seq<char>>,
}

/// An error of the given category with no position and no suggestion.
pub open spec fn plain_error(category: ErrorCategory, message: Seq<char>) -> SpecSqlError {
    SpecSqlError { category, message, position: None, suggestion: None }
}

impl View for SqlError {
    type V = SpecSqlError;

    open spec fn view(&self) -> SpecSqlError {
        SpecSqlError {
            category: self.category,
            message: self.message@,
            position: self.position,
            suggestion: match self.suggestion {
                Some(s) => Some(s@),
                None => None,
            },
        }
    }
}

/// The text `SQL Error: <category>: <message>` that an error is displayed as.
pub open spec fn error_text(e: SpecSqlError) -> Seq<char> {
    "SQL Error: "@ + category_text(e.category) + ": "@ + e.message
}

impl SqlError {
    /// Creates an error of the given category from an owned message.
    pub fn new(category: ErrorCategory, message: String) -> (e: SqlError)
        ensures
            e@ == plain_error(category, message@),
    {
        SqlError { category, message, position: None, suggestion: None }
    }

    /// Creates a new syntax error.
    pub fn syntax<M: IntoMessage>(message: M) -> (e: SqlError)
        ensures
            e@ == plain_error(ErrorCategory::Syntax, message.message_view()),
    {
        SqlError::new(ErrorCategory::Syntax, message.into_message())
    }

    /// Creates a new unsupported feature error.
    pub fn unsupported<M: IntoMessage>(message: M) -> (e: SqlError)
        ensures
            e@ == plain_error(ErrorCategory::Unsupported, message.message_view()),
    {
        SqlError::new(ErrorCategory::Unsupported, message.into_message())
    }

    /// Creates a new translation error.
    pub fn translation<M: IntoMessage>(message: M) -> (e: SqlError)
        ensures
            e@ == plain_error(ErrorCategory::Translation, message.message_view()),
    {
        SqlError::new(ErrorCategory::Translation, message.into_message())
    }

    /// Adds position information to the error.
    pub fn with_position(self, position: usize) -> (e: SqlError)
        ensures
            e@ == (SpecSqlError { position: Some(position), ..self@ }),
    {
        let mut e = self;
        e.position = Some(position);
        e
    }

    /// Adds a suggestion to the error.
    pub fn with_suggestion<M: IntoMessage>(self, suggestion: M) -> (e: SqlError)
        ensures
            e@ == (SpecSqlError { suggestion: Some(suggestion.message_view()), ..self@ }),
    {
        let mut e = self;
        e.suggestion = Some(suggestion.into_message());
        e
    }

    /// The text the error is displayed as: `SQL Error: <category>: <message>`.
    pub fn display_string(&self) -> (s: String)
        ensures
            s@ == error_text(self@),
    {
        let s = String::from_str("SQL Error: ");
        let s = s.concat(self.category.display_string().as_str());
        let s = s.concat(": ");
        s.concat(self.message.as_str())
    }
}

} // verus!
