//! From a checked statement to the parts of its document: the view that the
//! template reads and the images that it embeds.

use vstd::prelude::*;

use vstd::string::StringSliceAdditionalSpecFns;

use crate::assets::{entries_map, AssetMap};
use crate::error::StatementPdfError;
use crate::model::{StatementInput, StatementView};
use crate::paths::{join_spec, resolve_asset_path};
use crate::text::push_char;
use crate::validation::{is_valid_statement, statement_errors, validate_statement};

verus! {

/// The images that come with a statement: the stamp, and the signature images
/// by the path that the statement names them with.
#[derive(Clone, Debug)]
pub struct StatementAssets {
    pub stamp_png: Option<Vec<u8>>,
    pub signature_images: AssetMap,
}

impl Default for StatementAssets {
    fn default() -> (r: Self)
        ensures
            r.stamp_png is None,
            r.signature_images@ == Map::<Seq<char>, Seq<u8>>::empty(),
    {
        StatementAssets { stamp_png: None, signature_images: AssetMap::new() }
    }
}

/// The path inside the document at which the stamp image is kept.
pub open spec fn stamp_asset_path() -> Seq<char> {
    "/stamp.png"@
}

/// What a document is made of: the view of the statement and the images it
/// embeds, by their paths inside the document.
#[derive(Debug)]
pub struct TypstDocument {
    pub view: StatementView,
    pub assets: AssetMap,
}

/// `doc` is the document of `statement` with `assets`, whose stamp is `stamp`.
pub open spec fn is_document_of(
    statement: StatementInput,
    signature_images: Map<Seq<char>, Seq<u8>>,
    stamp: Seq<u8>,
    doc: TypstDocument,
) -> bool {
    &&& statement.is_view(stamp_asset_path(), doc.view)
    &&& doc.assets@ == signature_images.insert(stamp_asset_path(), stamp)
}

/// The parts of the document of `statement`: its view with the stamp at
/// `/stamp.png`, and the signature images with the stamp added there. The
/// stamp must have been loaded.
pub fn build_document(statement: StatementInput, assets: StatementAssets) -> (doc: TypstDocument)
    requires
        assets.stamp_png is Some,
    ensures
        is_document_of(statement, assets.signature_images@, assets.stamp_png->0@, doc),
{
    let StatementAssets { stamp_png, signature_images } = assets;
    let stamp = match stamp_png {
        Some(bytes) => bytes,
        None => Vec::new(),
    };
    let view = statement.into_view(String::from_str("/stamp.png"));
    let mut document_assets = signature_images;
    let _ = document_assets.insert(String::from_str("/stamp.png"), stamp);
    TypstDocument { view, assets: document_assets }
}

/// The checks and the document building that come before compilation: a
/// statement that fails a check gives every failure; one that passes gives the
/// parts of its document. A statement that passes needs its stamp loaded.
pub fn prepare_document(statement: StatementInput, assets: StatementAssets) -> (r: Result<
    TypstDocument,
    StatementPdfError,
>)
    requires
        is_valid_statement(statement) ==> assets.stamp_png is Some,
    ensures
        r is Ok <==> is_valid_statement(statement),
        r matches Err(e) ==> e matches StatementPdfError::Validation(errors) && errors@
            == statement_errors(statement),
        r matches Ok(doc) ==> is_document_of(
            statement,
            assets.signature_images@,
            assets.stamp_png->0@,
            doc,
        ),
{
    match validate_statement(&statement) {
        Err(errors) => Err(StatementPdfError::Validation(errors)),
        Ok(()) => Ok(build_document(statement, assets)),
    }
}

/// Where the assets of a statement read from a file are found: the stamp
/// next to the file, and the signature image, if the statement names one, by
/// the path that names it and the place that it is read from.
#[derive(Clone, Debug)]
pub struct FileAssetPlan {
    pub stamp_path: String,
    pub signature_image: Option<(String, String)>,
}

/// The assets to read for `statement`, whose file lies in `base_dir`.
pub fn plan_file_assets(statement: &StatementInput, base_dir: &str) -> (r: FileAssetPlan)
    ensures
        r.stamp_path@ == join_spec(base_dir@, "stamp.png"@),
        r.signature_image is Some <==> (statement.signature matches Some(sig)
            && sig.image_path is Some),
        r.signature_image matches Some(pair) ==> (statement.signature matches Some(sig)
            && sig.image_path matches Some(p) && pair.0@ == p@ && pair.1@ == join_spec(
            base_dir@,
            p@,
        )),
{
    let stamp_path = resolve_asset_path(base_dir, "stamp.png");
    let signature_image = match &statement.signature {
        Some(signature) => match &signature.image_path {
            Some(image_path) => {
                let full = resolve_asset_path(base_dir, image_path.as_str());
                Some((image_path.clone(), full))
            },
            None => None,
        },
        None => None,
    };
    FileAssetPlan { stamp_path, signature_image }
}

/// The path that Typst gives a file of the document: `VirtualPath::new(path)`
/// as a rooted path.
pub uninterp spec fn typst_rooted_path(path: Seq<char>) -> Seq<char>;

/// `VirtualPath::new(path).as_rooted_path()` of Typst: the path from the root
/// of the document, its components normalised.
#[verifier::external_body]
fn rooted_virtual_path(path: &str) -> (r: String)
    ensures
        r@ == typst_rooted_path(path@),
{
    typst::syntax::VirtualPath::new(path).as_rooted_path().to_string_lossy().into_owned()
}

/// The path of the statement data inside the document.
pub open spec fn statement_json_path() -> Seq<char> {
    "/statement.json"@
}

/// The entries of the document's file table, in the order in which they are
/// written: the statement data first, then the assets in the order of their
/// paths, each at its Typst path.
pub open spec fn file_table_entries(json: Seq<u8>, assets: Seq<(Seq<char>, Seq<u8>)>) -> Seq<
    (Seq<char>, Seq<u8>),
> {
    seq![(typst_rooted_path(statement_json_path()), json)] + assets.map_values(
        |e: (Seq<char>, Seq<u8>)| (typst_rooted_path(e.0), e.1),
    )
}

/// The file table of a document: the statement data at `/statement.json` and
/// each asset at its Typst path; where two paths meet, the later write wins.
pub fn document_files(statement_json: &str, assets: AssetMap) -> (r: AssetMap)
    ensures
        r@ == entries_map(file_table_entries(statement_json.spec_bytes(), assets.entries_spec())),
{
    let ghost source = assets.entries_spec();
    let ghost table = file_table_entries(statement_json.spec_bytes(), source);
    let mut files = AssetMap::new();
    let json_path = rooted_virtual_path("/statement.json");
    let json = statement_json.as_bytes_vec();
    let _ = files.insert(json_path, json);
    proof {
        assert(table.take(1) =~= seq![table[0]]);
        assert(seq![table[0]].drop_last() =~= seq![]);
        assert(entries_map(seq![table[0]].drop_last()) == Map::<Seq<char>, Seq<u8>>::empty());
        assert(entries_map(seq![table[0]]) == Map::<Seq<char>, Seq<u8>>::empty().insert(
            table[0].0,
            table[0].1,
        ));
        assert(files@ == entries_map(table.take(1)));
    }
    let mut rest = assets.into_entries();
    let n = rest.len();
    let mut i: usize = 0;
    while i < n
        invariant
            n == source.len(),
            i <= n,
            table == file_table_entries(statement_json.spec_bytes(), source),
            rest@.map_values(|e: (String, Vec<u8>)| (e.0@, e.1@)) == source.skip(i as int),
            files@ == entries_map(table.take(i + 1)),
        decreases n - i,
    {
        let ghost before = rest@.map_values(|e: (String, Vec<u8>)| (e.0@, e.1@));
        let ghost old_rest = rest@;
        assert(before.len() == n - i);
        assert(rest@.len() == before.len());
        assert(before[0] == source[i as int]);
        let (key, value) = rest.remove(0);
        assert(rest@ == old_rest.remove(0));
        assert(key@ == before[0].0 && value@ == before[0].1);
        let path = rooted_virtual_path(key.as_str());
        let _ = files.insert(path, value);
        proof {
            let ghost after = rest@.map_values(|e: (String, Vec<u8>)| (e.0@, e.1@));
            assert forall|j: int| 0 <= j < rest@.len() implies #[trigger] after[j] == source.skip(
                i + 1,
            )[j] by {
                assert(rest@[j] == old_rest[j + 1]);
                assert(before[j + 1] == source[i + 1 + j]);
            }
            assert(rest@.map_values(|e: (String, Vec<u8>)| (e.0@, e.1@)) =~= source.skip(i + 1));
            let t = table.take(i + 2);
            assert(t.drop_last() =~= table.take(i + 1));
            assert(t.last() == table[i + 1]);
            assert(table[i + 1] == (typst_rooted_path(source[i as int].0), source[i as int].1));
        }
        i = i + 1;
    }
    proof {
        assert(table.take(n + 1) =~= table);
    }
    files
}

/// A diagnostic of document compilation, as text: its message and its hints.
#[derive(Clone, Debug)]
pub struct DiagnosticText {
    pub message: String,
    pub hints: Vec<String>,
}

/// The hints of a diagnostic, each on a line of its own after `help: `.
pub open spec fn hints_text(hints: Seq<String>) -> Seq<char>
    decreases hints.len(),
{
    if hints.len() == 0 {
        seq![]
    } else {
        hints_text(hints.drop_last()) + "\nhelp: "@ + hints.last()@
    }
}

/// A diagnostic as text: its message, then its hints.
pub open spec fn diagnostic_text(d: DiagnosticText) -> Seq<char> {
    d.message@ + hints_text(d.hints@)
}

/// The diagnostics as text, one after the other, separated by line breaks.
pub open spec fn diagnostics_text(ds: Seq<DiagnosticText>) -> Seq<char>
    decreases ds.len(),
{
    if ds.len() == 0 {
        seq![]
    } else if ds.len() == 1 {
        diagnostic_text(ds[0])
    } else {
        diagnostics_text(ds.drop_last()) + seq!['\n'] + diagnostic_text(ds.last())
    }
}

fn format_diagnostic(d: &DiagnosticText) -> (r: String)
    ensures
        r@ == diagnostic_text(*d),
{
    let mut out = d.message.clone();
    let n = d.hints.len();
    for i in 0..n
        invariant
            n == d.hints@.len(),
            out@ == d.message@ + hints_text(d.hints@.take(i as int)),
    {
        out.append("\nhelp: ");
        out.append(d.hints[i].as_str());
        proof {
            let t = d.hints@.take(i + 1);
            assert(t.drop_last() =~= d.hints@.take(i as int));
            assert(t.last() == d.hints@[i as int]);
            assert(out@ =~= d.message@ + hints_text(t));
        }
    }
    assert(d.hints@.take(n as int) =~= d.hints@);
    out
}

/// The diagnostics of a failed compilation as one text.
pub fn format_diagnostics(diagnostics: &Vec<DiagnosticText>) -> (r: String)
    ensures
        r@ == diagnostics_text(diagnostics@),
{
    let mut out = String::new();
    let n = diagnostics.len();
    for i in 0..n
        invariant
            n == diagnostics@.len(),
            out@ == diagnostics_text(diagnostics@.take(i as int)),
    {
        let ghost before = diagnostics@.take(i as int);
        if i > 0 {
            push_char(&mut out, '\n');
        }
        let text = format_diagnostic(&diagnostics[i]);
        out.append(text.as_str());
        proof {
            let t = diagnostics@.take(i + 1);
            assert(t.drop_last() =~= before);
            assert(t.last() == diagnostics@[i as int]);
            if i == 0 {
                assert(out@ =~= diagnostic_text(t[0]));
            } else {
                assert(out@ =~= diagnostics_text(before) + seq!['\n'] + diagnostic_text(t.last()));
            }
        }
    }
    assert(diagnostics@.take(n as int) =~= diagnostics@);
    out
}

} // verus!
