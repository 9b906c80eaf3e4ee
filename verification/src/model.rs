//! The statement that a caller hands in, and the view of it that the document
//! template reads.

use vstd::prelude::*;

use crate::calendar::StatementDate;

verus! {

/// To whom the statement is addressed.
#[derive(Clone, Debug)]
pub struct RecipientInput {
    pub position: String,
    pub company_name: String,
    pub full_name: String,
}

/// Who makes the statement.
#[derive(Clone, Debug)]
pub struct ApplicantInput {
    pub department: String,
    pub full_name: String,
}

/// The signature under the statement: an image, a printed name, or both.
#[derive(Clone, Debug)]
pub struct SignatureInput {
    pub image_path: Option<String>,
    pub signer_name: Option<String>,
}

/// A statement as the caller hands it in.
#[derive(Clone, Debug)]
pub struct StatementInput {
    pub statement_number: String,
    pub recipient: RecipientInput,
    pub applicant: ApplicantInput,
    pub body: String,
    pub date: StatementDate,
    pub signature: Option<SignatureInput>,
}

/// An image that the document embeds, by its path inside the document.
#[derive(Clone, Debug)]
pub struct ImageView {
    pub path: String,
}

/// The signature as the document shows it.
#[derive(Clone, Debug)]
pub struct SignatureView {
    pub image: Option<ImageView>,
    pub signer_name: Option<String>,
}

/// The statement as the document template reads it.
#[derive(Clone, Debug)]
pub struct StatementView {
    pub statement_number: String,
    pub recipient: RecipientInput,
    pub applicant: ApplicantInput,
    pub body: String,
    pub date: String,
    pub signature: Option<SignatureView>,
    pub stamp: ImageView,
}

/// The view of a signature: its image path becomes an image of the document.
pub open spec fn signature_view_spec(signature: Option<SignatureInput>) -> Option<SignatureView> {
    match signature {
        Some(s) => Some(
            SignatureView {
                image: match s.image_path {
                    Some(p) => Some(ImageView { path: p }),
                    None => None,
                },
                signer_name: s.signer_name,
            },
        ),
        None => None,
    }
}

impl StatementInput {
    /// `view` is the view of this statement with the stamp at `stamp_path`: the
    /// texts are kept as they are, the date is written `dd.mm.yyyy`.
    pub open spec fn is_view(self, stamp_path: Seq<char>, view: StatementView) -> bool {
        &&& view.statement_number == self.statement_number
        &&& view.recipient == self.recipient
        &&& view.applicant == self.applicant
        &&& view.body == self.body
        &&& view.date@ == self.date.dmy_text()
        &&& view.signature == signature_view_spec(self.signature)
        &&& view.stamp.path@ == stamp_path
    }

    /// The view of this statement, with the stamp image at `stamp_path`.
    pub fn into_view(self, stamp_path: String) -> (view: StatementView)
        ensures
            self.is_view(stamp_path@, view),
            view.stamp.path == stamp_path,
    {
        let date = self.date.format_dmy();
        let signature = match self.signature {
            Some(s) => Some(
                SignatureView {
                    image: match s.image_path {
                        Some(p) => Some(ImageView { path: p }),
                        None => None,
                    },
                    signer_name: s.signer_name,
                },
            ),
            None => None,
        };
        StatementView {
            statement_number: self.statement_number,
            recipient: self.recipient,
            applicant: self.applicant,
            body: self.body,
            date,
            signature,
            stamp: ImageView { path: stamp_path },
        }
    }
}

/// The view of a statement keeps every text of it as it is: the same
/// number, recipient, applicant and body; a signature exactly when the
/// statement has one, with the same signer name, and an image exactly when the
/// statement names an image path, at that path, each whatever the other holds;
/// the stamp at the path given for it.
pub proof fn law_view_keeps_statement(input: StatementInput, stamp_path: Seq<char>, view: StatementView)
    requires
        input.is_view(stamp_path, view),
    ensures
        view.statement_number == input.statement_number,
        view.recipient == input.recipient,
        view.applicant == input.applicant,
        view.body == input.body,
        view.stamp.path@ == stamp_path,
        view.signature is Some <==> input.signature is Some,
        input.signature matches Some(sig) ==> view.signature->0.signer_name == sig.signer_name,
        input.signature matches Some(sig) ==> (view.signature->0.image is Some
            <==> sig.image_path is Some),
        input.signature matches Some(sig) ==> (sig.image_path matches Some(p)
            ==> view.signature->0.image->0.path == p),
{
}

} // verus!
