//! The checks that a statement must pass before a document is made of it.

use vstd::prelude::*;

use crate::error::{errors_view, ValidationError, ValidationErrors};
use crate::model::StatementInput;
use crate::text::{is_blank, is_blank_text};

verus! {

/// The most chars that a statement body may have.
pub const MAX_BODY_CHARS: usize = 4000;

/// The failure that a blank `value` of `field` gives: none when it is not blank.
pub open spec fn blank_check(field: Seq<char>, value: Seq<char>, message: Seq<char>) -> Seq<
    (Seq<char>, Seq<char>),
> {
    if is_blank(value) {
        seq![(field, message)]
    } else {
        seq![]
    }
}

/// The failures of the body-length check.
pub open spec fn body_length_check(body: Seq<char>) -> Seq<(Seq<char>, Seq<char>)> {
    if body.len() > MAX_BODY_CHARS {
        seq![("body"@, "must be at most 4000 characters"@)]
    } else {
        seq![]
    }
}

/// The failures of the signer-name check: a signer name, where one is given,
/// must not be blank.
pub open spec fn signer_name_check(input: StatementInput) -> Seq<(Seq<char>, Seq<char>)> {
    match input.signature {
        Some(sig) => match sig.signer_name {
            Some(name) => blank_check(
                "signature.signer_name"@,
                name@,
                "must not be blank when present"@,
            ),
            None => seq![],
        },
        None => seq![],
    }
}

/// Every check that `input` fails, as (field, message), in the order in which
/// the checks are made.
pub open spec fn statement_errors(input: StatementInput) -> Seq<(Seq<char>, Seq<char>)> {
    blank_check("statement_number"@, input.statement_number@, "must not be empty"@)
        + blank_check("recipient.position"@, input.recipient.position@, "must not be empty"@)
        + blank_check(
        "recipient.company_name"@,
        input.recipient.company_name@,
        "must not be empty"@,
    ) + blank_check("recipient.full_name"@, input.recipient.full_name@, "must not be empty"@)
        + blank_check("applicant.department"@, input.applicant.department@, "must not be empty"@)
        + blank_check("applicant.full_name"@, input.applicant.full_name@, "must not be empty"@)
        + blank_check("body"@, input.body@, "must not be empty"@) + body_length_check(input.body@)
        + signer_name_check(input)
}

/// Whether `input` passes every check.
pub open spec fn is_valid_statement(input: StatementInput) -> bool {
    statement_errors(input).len() == 0
}

/// Adds a failure of `field` with `message` to `errors` when `value` is blank
/// (empty or white space only).
pub fn require_non_blank(
    errors: &mut Vec<ValidationError>,
    field: &'static str,
    value: &str,
    message: &'static str,
)
    ensures
        errors_view(final(errors)@) == errors_view(old(errors)@) + blank_check(
            field@,
            value@,
            message@,
        ),
{
    let ghost before = errors@;
    if is_blank_text(value) {
        errors.push(ValidationError::new(field, message));
        assert(errors_view(errors@) =~= errors_view(before) + seq![(field@, message@)]);
    } else {
        assert(errors_view(errors@) =~= errors_view(before) + seq![]);
    }
}

/// Checks a statement: `Ok` when every check passes, else every failure, in
/// the order of the checks.
pub fn validate_statement(input: &StatementInput) -> (r: Result<(), ValidationErrors>)
    ensures
        r is Ok <==> is_valid_statement(*input),
        r matches Err(e) ==> e@ == statement_errors(*input),
{
    let mut errors: Vec<ValidationError> = Vec::new();
    assert(errors_view(errors@) =~= seq![]);
    require_non_blank(&mut errors, "statement_number", input.statement_number.as_str(), "must not be empty");
    require_non_blank(&mut errors, "recipient.position", input.recipient.position.as_str(), "must not be empty");
    require_non_blank(&mut errors, "recipient.company_name", input.recipient.company_name.as_str(), "must not be empty");
    require_non_blank(&mut errors, "recipient.full_name", input.recipient.full_name.as_str(), "must not be empty");
    require_non_blank(&mut errors, "applicant.department", input.applicant.department.as_str(), "must not be empty");
    require_non_blank(&mut errors, "applicant.full_name", input.applicant.full_name.as_str(), "must not be empty");
    require_non_blank(&mut errors, "body", input.body.as_str(), "must not be empty");
    let ghost before_length = errors@;
    if input.body.as_str().unicode_len() > MAX_BODY_CHARS {
        errors.push(ValidationError::new("body", "must be at most 4000 characters"));
    }
    assert(errors_view(errors@) =~= errors_view(before_length) + body_length_check(input.body@));
    let ghost before_signer = errors@;
    match &input.signature {
        Some(signature) => match &signature.signer_name {
            Some(signer_name) => {
                require_non_blank(
                    &mut errors,
                    "signature.signer_name",
                    signer_name.as_str(),
                    "must not be blank when present",
                );
            },
            None => {},
        },
        None => {},
    }
    assert(errors_view(errors@) =~= errors_view(before_signer) + signer_name_check(*input));
    assert(errors_view(errors@) =~= statement_errors(*input));
    if errors.is_empty() {
        Ok(())
    } else {
        Err(ValidationErrors::new(errors))
    }
}

// ---------------------------------------------------------------------------
// What the checks report, field by field.

/// A failure list holds a failure of `field` with `message`.
pub open spec fn reports(errors: Seq<(Seq<char>, Seq<char>)>, field: Seq<char>, message: Seq<char>) -> bool {
    errors.contains((field, message))
}

proof fn lemma_contains_concat(
    a: Seq<(Seq<char>, Seq<char>)>,
    b: Seq<(Seq<char>, Seq<char>)>,
    x: (Seq<char>, Seq<char>),
)
    ensures
        (a + b).contains(x) <==> (a.contains(x) || b.contains(x)),
{
    if a.contains(x) {
        let i = choose|i: int| 0 <= i < a.len() && a[i] == x;
        assert((a + b)[i] == x);
    }
    if b.contains(x) {
        let i = choose|i: int| 0 <= i < b.len() && b[i] == x;
        assert((a + b)[a.len() + i] == x);
    }
    if (a + b).contains(x) {
        let i = choose|i: int| 0 <= i < (a + b).len() && (a + b)[i] == x;
        if i < a.len() {
            assert(a[i] == x);
        } else {
            assert(b[i - a.len()] == x);
        }
    }
}

proof fn lemma_singleton_contains(e: (Seq<char>, Seq<char>), x: (Seq<char>, Seq<char>))
    ensures
        seq![e].contains(x) <==> e == x,
        !Seq::<(Seq<char>, Seq<char>)>::empty().contains(x),
{
    if e == x {
        assert(seq![e][0] == x);
    }
}

/// Whether the statement's signature names a signer and that name is blank.
pub open spec fn signer_name_blank(input: StatementInput) -> bool {
    input.signature matches Some(sig) && sig.signer_name matches Some(name) && is_blank(name@)
}

/// The failures of a statement, part by part, and the field names that tell
/// them apart.
proof fn lemma_errors_contain(input: StatementInput, x: (Seq<char>, Seq<char>))
    ensures
        statement_errors(input).contains(x) <==> (
            (is_blank(input.statement_number@) && x == ("statement_number"@, "must not be empty"@))
            || (is_blank(input.recipient.position@) && x == ("recipient.position"@, "must not be empty"@))
            || (is_blank(input.recipient.company_name@) && x == ("recipient.company_name"@, "must not be empty"@))
            || (is_blank(input.recipient.full_name@) && x == ("recipient.full_name"@, "must not be empty"@))
            || (is_blank(input.applicant.department@) && x == ("applicant.department"@, "must not be empty"@))
            || (is_blank(input.applicant.full_name@) && x == ("applicant.full_name"@, "must not be empty"@))
            || (is_blank(input.body@) && x == ("body"@, "must not be empty"@))
            || (input.body@.len() > MAX_BODY_CHARS && x == ("body"@, "must be at most 4000 characters"@))
            || (signer_name_blank(input) && x == ("signature.signer_name"@, "must not be blank when present"@))
        ),
{
    let empty = "must not be empty"@;
    let p1 = blank_check("statement_number"@, input.statement_number@, empty);
    let p2 = blank_check("recipient.position"@, input.recipient.position@, empty);
    let p3 = blank_check("recipient.company_name"@, input.recipient.company_name@, empty);
    let p4 = blank_check("recipient.full_name"@, input.recipient.full_name@, empty);
    let p5 = blank_check("applicant.department"@, input.applicant.department@, empty);
    let p6 = blank_check("applicant.full_name"@, input.applicant.full_name@, empty);
    let p7 = blank_check("body"@, input.body@, empty);
    let p8 = body_length_check(input.body@);
    let p9 = signer_name_check(input);
    lemma_contains_concat(p1, p2, x);
    lemma_contains_concat(p1 + p2, p3, x);
    lemma_contains_concat(p1 + p2 + p3, p4, x);
    lemma_contains_concat(p1 + p2 + p3 + p4, p5, x);
    lemma_contains_concat(p1 + p2 + p3 + p4 + p5, p6, x);
    lemma_contains_concat(p1 + p2 + p3 + p4 + p5 + p6, p7, x);
    lemma_contains_concat(p1 + p2 + p3 + p4 + p5 + p6 + p7, p8, x);
    lemma_contains_concat(p1 + p2 + p3 + p4 + p5 + p6 + p7 + p8, p9, x);
    lemma_singleton_contains(("statement_number"@, empty), x);
    lemma_singleton_contains(("recipient.position"@, empty), x);
    lemma_singleton_contains(("recipient.company_name"@, empty), x);
    lemma_singleton_contains(("recipient.full_name"@, empty), x);
    lemma_singleton_contains(("applicant.department"@, empty), x);
    lemma_singleton_contains(("applicant.full_name"@, empty), x);
    lemma_singleton_contains(("body"@, empty), x);
    lemma_singleton_contains(("body"@, "must be at most 4000 characters"@), x);
    lemma_singleton_contains(("signature.signer_name"@, "must not be blank when present"@), x);
}

proof fn lemma_literals_differ()
    ensures
        "statement_number"@.len() == 16,
        "recipient.position"@.len() == 18,
        "recipient.company_name"@.len() == 22,
        "recipient.full_name"@.len() == 19,
        "applicant.department"@.len() == 20,
        "applicant.full_name"@.len() == 19,
        "body"@.len() == 4,
        "signature.signer_name"@.len() == 21,
        "recipient.full_name"@ != "applicant.full_name"@,
        "must not be empty"@.len() == 17,
        "must be at most 4000 characters"@.len() == 31,
        "must not be blank when present"@.len() == 30,
{
    reveal_strlit("statement_number");
    reveal_strlit("recipient.position");
    reveal_strlit("recipient.company_name");
    reveal_strlit("recipient.full_name");
    reveal_strlit("applicant.department");
    reveal_strlit("applicant.full_name");
    reveal_strlit("body");
    reveal_strlit("signature.signer_name");
    reveal_strlit("must not be empty");
    reveal_strlit("must be at most 4000 characters");
    reveal_strlit("must not be blank when present");
    assert("recipient.full_name"@[0] != "applicant.full_name"@[0]);
}

/// Each required field is reported as empty exactly when its own value is
/// blank (empty or white space only), whatever the other fields hold.
pub proof fn law_required_fields_reported(input: StatementInput)
    ensures
        reports(statement_errors(input), "statement_number"@, "must not be empty"@)
            <==> is_blank(input.statement_number@),
        reports(statement_errors(input), "recipient.position"@, "must not be empty"@)
            <==> is_blank(input.recipient.position@),
        reports(statement_errors(input), "recipient.company_name"@, "must not be empty"@)
            <==> is_blank(input.recipient.company_name@),
        reports(statement_errors(input), "recipient.full_name"@, "must not be empty"@)
            <==> is_blank(input.recipient.full_name@),
        reports(statement_errors(input), "applicant.department"@, "must not be empty"@)
            <==> is_blank(input.applicant.department@),
        reports(statement_errors(input), "applicant.full_name"@, "must not be empty"@)
            <==> is_blank(input.applicant.full_name@),
        reports(statement_errors(input), "body"@, "must not be empty"@) <==> is_blank(input.body@),
{
    lemma_literals_differ();
    lemma_errors_contain(input, ("statement_number"@, "must not be empty"@));
    lemma_errors_contain(input, ("recipient.position"@, "must not be empty"@));
    lemma_errors_contain(input, ("recipient.company_name"@, "must not be empty"@));
    lemma_errors_contain(input, ("recipient.full_name"@, "must not be empty"@));
    lemma_errors_contain(input, ("applicant.department"@, "must not be empty"@));
    lemma_errors_contain(input, ("applicant.full_name"@, "must not be empty"@));
    lemma_errors_contain(input, ("body"@, "must not be empty"@));
}

/// A body is reported as too long exactly when it has more than 4000 chars.
pub proof fn law_long_body_reported(input: StatementInput)
    ensures
        reports(statement_errors(input), "body"@, "must be at most 4000 characters"@)
            <==> input.body@.len() > 4000,
{
    lemma_literals_differ();
    lemma_errors_contain(input, ("body"@, "must be at most 4000 characters"@));
}

/// A signer name is reported exactly when the signature names a signer and
/// that name is blank, whether or not the signature has an image.
pub proof fn law_blank_signer_name_reported(input: StatementInput)
    ensures
        reports(statement_errors(input), "signature.signer_name"@, "must not be blank when present"@)
            <==> (input.signature matches Some(sig) && sig.signer_name matches Some(name)
            && is_blank(name@)),
{
    lemma_literals_differ();
    lemma_errors_contain(input, ("signature.signer_name"@, "must not be blank when present"@));
}

/// A statement passes exactly when every required field holds more than
/// white space, the body has at most 4000 chars, and a signer name, where one
/// is given, is not blank.
pub proof fn law_valid_statement(input: StatementInput)
    ensures
        is_valid_statement(input) <==> (!is_blank(input.statement_number@) && !is_blank(
            input.recipient.position@,
        ) && !is_blank(input.recipient.company_name@) && !is_blank(input.recipient.full_name@)
            && !is_blank(input.applicant.department@) && !is_blank(input.applicant.full_name@)
            && !is_blank(input.body@) && input.body@.len() <= 4000 && !(input.signature matches Some(
            sig) && sig.signer_name matches Some(name) && is_blank(name@))),
{
    law_required_fields_reported(input);
    law_long_body_reported(input);
    law_blank_signer_name_reported(input);
    let errs = statement_errors(input);
    if errs.len() > 0 {
        lemma_errors_contain(input, errs[0]);
        assert(errs.contains(errs[0]));
    }
}

} // verus!
