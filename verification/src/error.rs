//! Errors of statement generation and their texts.

use vstd::prelude::*;

use crate::text::push_char;

verus! {

/// `std::io::Error`, carried through as the cause of a failed read or write.
#[verifier::external_type_specification]
#[verifier::external_body]
pub struct ExIoError(std::io::Error);

/// `serde_json::Error`, carried through as the cause of a failed JSON parse.
#[verifier::external_type_specification]
#[verifier::external_body]
pub struct ExJsonError(serde_json::Error);

/// One failed check: the field that failed and why.
#[derive(Clone, Debug, PartialEq, Eq)]
pub struct ValidationError {
    pub field: &'static str,
    pub message: String,
}

impl View for ValidationError {
    type V = (Seq<char>, Seq<char>);

    open spec fn view(&self) -> (Seq<char>, Seq<char>) {
        (self.field@, self.message@)
    }
}

impl ValidationError {
    /// A failed check on `field`, with `message`.
    pub fn new(field: &'static str, message: &str) -> (r: Self)
        ensures
            r.field == field,
            r.message@ == message@,
            r@ == (field@, message@),
    {
        ValidationError { field, message: message.to_owned() }
    }
}

/// All the checks that failed, in the order in which they were made.
#[derive(Clone, Debug, PartialEq, Eq)]
pub struct ValidationErrors(pub Vec<ValidationError>);

/// The (field, message) pairs of a list of failed checks.
pub open spec fn errors_view(errors: Seq<ValidationError>) -> Seq<(Seq<char>, Seq<char>)> {
    errors.map_values(|e: ValidationError| e@)
}

impl View for ValidationErrors {
    type V = Seq<(Seq<char>, Seq<char>)>;

    open spec fn view(&self) -> Seq<(Seq<char>, Seq<char>)> {
        errors_view(self.0@)
    }
}

/// The text of one failed check: its field, a space, its message.
pub open spec fn error_entry_text(e: (Seq<char>, Seq<char>)) -> Seq<char> {
    e.0 + seq![' '] + e.1
}

/// The texts of the failed checks, separated by `"; "`.
pub open spec fn errors_text(errors: Seq<(Seq<char>, Seq<char>)>) -> Seq<char>
    decreases errors.len(),
{
    if errors.len() == 0 {
        seq![]
    } else if errors.len() == 1 {
        error_entry_text(errors[0])
    } else {
        errors_text(errors.drop_last()) + seq![';', ' '] + error_entry_text(errors.last())
    }
}

impl ValidationErrors {
    /// Wraps the failed checks.
    pub fn new(errors: Vec<ValidationError>) -> (r: Self)
        ensures
            r.0@ == errors@,
    {
        ValidationErrors(errors)
    }

    /// Whether no check failed.
    pub fn is_empty(&self) -> (r: bool)
        ensures
            r == (self.0@.len() == 0),
    {
        self.0.is_empty()
    }

    /// The text of the failed checks: `"<field> <message>"` for each, joined by `"; "`.
    pub fn describe(&self) -> (r: String)
        ensures
            r@ == errors_text(self@),
    {
        let mut out = String::new();
        let n = self.0.len();
        for i in 0..n
            invariant
                n == self.0@.len(),
                out@ == errors_text(self@.take(i as int)),
        {
            let ghost before = self@.take(i as int);
            if i > 0 {
                push_char(&mut out, ';');
                push_char(&mut out, ' ');
            }
            let e = &self.0[i];
            out.append(e.field);
            push_char(&mut out, ' ');
            out.append(e.message.as_str());
            proof {
                let after = self@.take(i + 1);
                assert(after.drop_last() =~= before);
                assert(after.last() == self@[i as int]);
                if i == 0 {
                    assert(out@ =~= error_entry_text(after[0]));
                } else {
                    assert(out@ =~= errors_text(before) + seq![';', ' '] + error_entry_text(after.last()));
                }
            }
        }
        proof {
            assert(self@.take(n as int) =~= self@);
        }
        out
    }
}

/// Why a statement PDF could not be made.
#[derive(Debug)]
pub enum StatementPdfError {
    /// A file could not be read or written.
    Io(std::io::Error),
    /// The statement JSON could not be parsed.
    Json(serde_json::Error),
    /// The statement failed validation.
    Validation(ValidationErrors),
    /// The document template did not compile; the diagnostics as text.
    Typst(String),
    /// The compiled document could not be exported; the diagnostics as text.
    Pdf(String),
    /// An asset that the statement names does not exist.
    AssetNotFound { path: String },
}

/// The text of an error, as its `Display` gives it.
pub open spec fn pdf_error_text(e: &StatementPdfError) -> Seq<char> {
    match e {
        StatementPdfError::Io(_) => "failed to read or write file"@,
        StatementPdfError::Json(_) => "failed to parse statement JSON"@,
        StatementPdfError::Validation(errors) => "statement validation failed: "@ + errors_text(errors@),
        StatementPdfError::Typst(msg) => "Typst compilation failed:\n"@ + msg@,
        StatementPdfError::Pdf(msg) => "PDF export failed: "@ + msg@,
        StatementPdfError::AssetNotFound { path } => "asset not found: "@ + path@,
    }
}

impl StatementPdfError {
    /// The text of the error.
    pub fn describe(&self) -> (r: String)
        ensures
            r@ == pdf_error_text(self),
    {
        match self {
            StatementPdfError::Io(_) => String::from_str("failed to read or write file"),
            StatementPdfError::Json(_) => String::from_str("failed to parse statement JSON"),
            StatementPdfError::Validation(errors) => {
                let mut out = String::from_str("statement validation failed: ");
                let detail = errors.describe();
                out.append(detail.as_str());
                out
            },
            StatementPdfError::Typst(msg) => {
                let mut out = String::from_str("Typst compilation failed:\n");
                out.append(msg.as_str());
                out
            },
            StatementPdfError::Pdf(msg) => {
                let mut out = String::from_str("PDF export failed: ");
                out.append(msg.as_str());
                out
            },
            StatementPdfError::AssetNotFound { path } => {
                let mut out = String::from_str("asset not found: ");
                out.append(path.as_str());
                out
            },
        }
    }
}

/// The text of the failed checks is empty exactly when no check failed.
pub proof fn law_errors_text_empty_iff_none(errors: Seq<(Seq<char>, Seq<char>)>)
    ensures
        errors_text(errors).len() == 0 <==> errors.len() == 0,
{
    if errors.len() == 1 {
        assert(error_entry_text(errors[0]).len() >= 1);
    } else if errors.len() > 1 {
        let t = errors_text(errors.drop_last()) + seq![';', ' '] + error_entry_text(errors.last());
        assert(t.len() >= 2);
    }
}

} // verus!
