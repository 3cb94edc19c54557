//! PDF documents: the filter that says which objects are kept when a
//! document is loaded, and how the text of its pages is put together.

use crate::errors::{AidenErrors, AppResult};
use crate::text::{concat, join_trimmed_lines, trimmed_lines};
use vstd::prelude::*;
use vstd::string::StringSliceAdditionalSpecFns;

verus! {

/// `lopdf::Object`: one object of a PDF document.
#[verifier::external_type_specification]
#[verifier::external_body]
pub struct ExObject(lopdf::Object);

/// The entries of a dictionary object: the object that stands under each
/// of its keys. Of any other object, nothing is stated.
pub uninterp spec fn dictionary_entries(object: lopdf::Object) -> Map<Seq<u8>, lopdf::Object>;

/// The keys of a dictionary object.
pub open spec fn dictionary_keys(object: lopdf::Object) -> Set<Seq<u8>> {
    dictionary_entries(object).dom()
}

/// Whether an object is a dictionary.
pub uninterp spec fn is_dictionary(object: lopdf::Object) -> bool;

/// The name under which a dictionary, or the dictionary of a stream,
/// gives its type, as `Dictionary::get_type` reads it; an empty name where
/// that call fails or the object is neither.
pub uninterp spec fn kind_of(object: lopdf::Object) -> Seq<u8>;

/// `Dictionary::get_type` of lopdf, on a dictionary and on the dictionary
/// of a stream, with an empty name where it fails or the object is
/// neither. The method of the object that names its type does the same:
/// it hands a dictionary and the dictionary of a stream to `get_type` and
/// fails on every other object.
#[verifier::external_body]
fn object_kind(object: &lopdf::Object) -> (name: Vec<u8>)
    ensures
        name@ == kind_of(*object),
{
    match object {
        lopdf::Object::Dictionary(d) => d.get_type().unwrap_or_default().to_vec(),
        lopdf::Object::Stream(s) => s.dict.get_type().unwrap_or_default().to_vec(),
        _ => Vec::new(),
    }
}

/// `Object::as_dict` of lopdf succeeds on a dictionary and on nothing else.
#[verifier::external_body]
fn is_dict(object: &lopdf::Object) -> (yes: bool)
    ensures
        yes == is_dictionary(*object),
{
    object.as_dict().is_ok()
}

/// `Dictionary::remove` of lopdf, on the dictionary that
/// `Object::as_dict_mut` gives: the entry under the key leaves the
/// dictionary, and every other entry stays as it is. Where the dictionary
/// has no such key, nothing changes. The type that the dictionary gives is
/// read from the entries under `Type` and `Linearized` alone, so removing
/// another key leaves it as it is.
#[verifier::external_body]
fn dict_remove(object: &mut lopdf::Object, key: &[u8])
    requires
        is_dictionary(*old(object)),
    ensures
        is_dictionary(*final(object)),
        dictionary_entries(*final(object)) == dictionary_entries(*old(object)).remove(key@),
        !dictionary_entries(*old(object)).dom().contains(key@) ==> *final(object) == *old(object),
        key@ != "Type".spec_bytes() && key@ != "Linearized".spec_bytes() ==> kind_of(*final(object))
            == kind_of(*old(object)),
{
    if let Ok(d) = object.as_dict_mut() {
        d.remove(key);
    }
}

/// `Dictionary::is_empty` of lopdf, on the dictionary that
/// `Object::as_dict` gives: whether it has no key.
#[verifier::external_body]
fn dict_is_empty(object: &lopdf::Object) -> (yes: bool)
    requires
        is_dictionary(*object),
    ensures
        yes == (dictionary_entries(*object).dom() == Set::<Seq<u8>>::empty()),
{
    match object.as_dict() {
        Ok(d) => d.is_empty(),
        Err(_) => false,
    }
}

/// `Clone::clone` of `lopdf::Object`: the copy equals the object.
#[verifier::external_body]
fn clone_object(object: &lopdf::Object) -> (copy: lopdf::Object)
    ensures
        copy == *object,
{
    object.clone()
}

/// Whether objects of this type are left out of a loaded document.
pub open spec fn is_ignored_type(name: Seq<u8>) -> bool {
    ||| name == "Length".spec_bytes()
    ||| name == "BBox".spec_bytes()
    ||| name == "FormType".spec_bytes()
    ||| name == "Matrix".spec_bytes()
    ||| name == "Type".spec_bytes()
    ||| name == "XObject".spec_bytes()
    ||| name == "Subtype".spec_bytes()
    ||| name == "Filter".spec_bytes()
    ||| name == "ColorSpace".spec_bytes()
    ||| name == "Width".spec_bytes()
    ||| name == "Height".spec_bytes()
    ||| name == "BitsPerComponent".spec_bytes()
    ||| name == "Length1".spec_bytes()
    ||| name == "Length2".spec_bytes()
    ||| name == "Length3".spec_bytes()
    ||| name == "PTEX.FileName".spec_bytes()
    ||| name == "PTEX.PageNumber".spec_bytes()
    ||| name == "PTEX.InfoDict".spec_bytes()
    ||| name == "FontDescriptor".spec_bytes()
    ||| name == "ExtGState".spec_bytes()
    ||| name == "MediaBox".spec_bytes()
    ||| name == "Annot".spec_bytes()
}

/// The keys that are taken out of every dictionary that is kept.
pub open spec fn stripped_keys() -> Set<Seq<u8>> {
    set![
        "Producer".spec_bytes(),
        "ModDate".spec_bytes(),
        "Creator".spec_bytes(),
        "ProcSet".spec_bytes(),
        "Procset".spec_bytes(),
        "XObject".spec_bytes(),
        "MediaBox".spec_bytes(),
        "Annots".spec_bytes(),
    ]
}

fn bytes_eq(a: &[u8], b: &[u8]) -> (same: bool)
    ensures
        same == (a@ == b@),
{
    if a.len() != b.len() {
        return false;
    }
    let mut i: usize = 0;
    while i < a.len()
        invariant
            a.len() == b.len(),
            i <= a.len(),
            a@.take(i as int) == b@.take(i as int),
        decreases a.len() - i,
    {
        if a[i] != b[i] {
            return false;
        }
        i = i + 1;
        assert(a@.take(i as int) =~= a@.take(i as int - 1).push(a@[i as int - 1]));
        assert(b@.take(i as int) =~= b@.take(i as int - 1).push(b@[i as int - 1]));
    }
    assert(a@.take(i as int) =~= a@);
    assert(b@.take(i as int) =~= b@);
    true
}

/// Whether objects of the type with this name are left out of a loaded
/// document.
pub fn is_ignored(name: &[u8]) -> (yes: bool)
    ensures
        yes == is_ignored_type(name@),
{
    bytes_eq(name, "Length".as_bytes()) || bytes_eq(name, "BBox".as_bytes()) || bytes_eq(
        name,
        "FormType".as_bytes(),
    ) || bytes_eq(name, "Matrix".as_bytes()) || bytes_eq(name, "Type".as_bytes()) || bytes_eq(
        name,
        "XObject".as_bytes(),
    ) || bytes_eq(name, "Subtype".as_bytes()) || bytes_eq(name, "Filter".as_bytes()) || bytes_eq(
        name,
        "ColorSpace".as_bytes(),
    ) || bytes_eq(name, "Width".as_bytes()) || bytes_eq(name, "Height".as_bytes()) || bytes_eq(
        name,
        "BitsPerComponent".as_bytes(),
    ) || bytes_eq(name, "Length1".as_bytes()) || bytes_eq(name, "Length2".as_bytes()) || bytes_eq(
        name,
        "Length3".as_bytes(),
    ) || bytes_eq(name, "PTEX.FileName".as_bytes()) || bytes_eq(name, "PTEX.PageNumber".as_bytes())
        || bytes_eq(name, "PTEX.InfoDict".as_bytes()) || bytes_eq(name, "FontDescriptor".as_bytes())
        || bytes_eq(name, "ExtGState".as_bytes()) || bytes_eq(name, "MediaBox".as_bytes()) || bytes_eq(
        name,
        "Annot".as_bytes(),
    )
}

/// None of the keys that are stripped is one of the two from which the
/// type of a dictionary is read.
proof fn lemma_stripped_keys_keep_kind()
    ensures
        forall|key: Seq<u8>| #[trigger]
            stripped_keys().contains(key) ==> key != "Type".spec_bytes() && key != "Linearized".spec_bytes(),
{
    broadcast use vstd::string::is_ascii_spec_bytes;

    reveal_strlit("Type");
    reveal_strlit("Linearized");
    reveal_strlit("Producer");
    reveal_strlit("ModDate");
    reveal_strlit("Creator");
    reveal_strlit("ProcSet");
    reveal_strlit("Procset");
    reveal_strlit("XObject");
    reveal_strlit("MediaBox");
    reveal_strlit("Annots");
    assert(vstd::string::is_ascii("Type"));
    assert(vstd::string::is_ascii("Linearized"));
    assert(vstd::string::is_ascii("Producer"));
    assert(vstd::string::is_ascii("ModDate"));
    assert(vstd::string::is_ascii("Creator"));
    assert(vstd::string::is_ascii("ProcSet"));
    assert(vstd::string::is_ascii("Procset"));
    assert(vstd::string::is_ascii("XObject"));
    assert(vstd::string::is_ascii("MediaBox"));
    assert(vstd::string::is_ascii("Annots"));
    assert("Type".spec_bytes().len() == 4);
    assert("Linearized".spec_bytes().len() == 10);
    assert("Producer".spec_bytes().len() == 8);
    assert("ModDate".spec_bytes().len() == 7);
    assert("Creator".spec_bytes().len() == 7);
    assert("ProcSet".spec_bytes().len() == 7);
    assert("Procset".spec_bytes().len() == 7);
    assert("XObject".spec_bytes().len() == 7);
    assert("MediaBox".spec_bytes().len() == 8);
    assert("Annots".spec_bytes().len() == 6);
}

/// Decides whether an object of a document is kept while the document is
/// loaded. An object of an ignored type is dropped as it is. A dictionary
/// loses the entries under the keys that carry no text, keeps every other
/// entry as it is, and is dropped if none is left. Any other object is
/// kept as it is, and so is a dictionary that has none of these keys. The
/// type that the object gives is never changed.
pub fn filter_func(object_id: (u32, u16), object: &mut lopdf::Object) -> (kept: Option<
    ((u32, u16), lopdf::Object),
>)
    ensures
        kind_of(*final(object)) == kind_of(*old(object)),
        is_dictionary(*final(object)) == is_dictionary(*old(object)),
        is_ignored_type(kind_of(*old(object))) || !is_dictionary(*old(object)) ==> *final(object)
            == *old(object),
        !is_ignored_type(kind_of(*old(object))) && is_dictionary(*old(object)) ==> dictionary_entries(
            *final(object),
        ) == dictionary_entries(*old(object)).remove_keys(stripped_keys()),
        dictionary_keys(*old(object)).disjoint(stripped_keys()) ==> *final(object) == *old(object),
        kept is None <==> is_ignored_type(kind_of(*old(object))) || (is_dictionary(*old(object))
            && dictionary_keys(*old(object)).subset_of(stripped_keys())),
        kept is Some ==> kept.unwrap() == (object_id, *final(object)),
{
    let name = object_kind(object);
    if is_ignored(name.as_slice()) {
        return None;
    }
    if is_dict(object) {
        proof {
            lemma_stripped_keys_keep_kind();
            assert(stripped_keys().contains("Producer".spec_bytes()));
            assert(stripped_keys().contains("ModDate".spec_bytes()));
            assert(stripped_keys().contains("Creator".spec_bytes()));
            assert(stripped_keys().contains("ProcSet".spec_bytes()));
            assert(stripped_keys().contains("Procset".spec_bytes()));
            assert(stripped_keys().contains("XObject".spec_bytes()));
            assert(stripped_keys().contains("MediaBox".spec_bytes()));
            assert(stripped_keys().contains("Annots".spec_bytes()));
        }
        dict_remove(object, "Producer".as_bytes());
        dict_remove(object, "ModDate".as_bytes());
        dict_remove(object, "Creator".as_bytes());
        dict_remove(object, "ProcSet".as_bytes());
        dict_remove(object, "Procset".as_bytes());
        dict_remove(object, "XObject".as_bytes());
        dict_remove(object, "MediaBox".as_bytes());
        dict_remove(object, "Annots".as_bytes());
        assert(dictionary_entries(*object) =~= dictionary_entries(*old(object)).remove_keys(stripped_keys()));
        if dict_is_empty(object) {
            assert(dictionary_keys(*old(object)).subset_of(stripped_keys())) by {
                assert forall|k: Seq<u8>| dictionary_keys(*old(object)).contains(k) implies stripped_keys().contains(
                    k,
                ) by {
                    if !stripped_keys().contains(k) {
                        assert(dictionary_keys(*object).contains(k));
                    }
                }
            }
            return None;
        }
        assert(!dictionary_keys(*old(object)).subset_of(stripped_keys())) by {
            if dictionary_keys(*old(object)).subset_of(stripped_keys()) {
                assert(dictionary_keys(*object) =~= Set::<Seq<u8>>::empty());
            }
        }
    }
    Some((object_id, clone_object(object)))
}

/// `lopdf::Document`: a loaded PDF document.
#[verifier::external_type_specification]
#[verifier::external_body]
pub struct ExDocument(lopdf::Document);

/// The numbers of the pages of a document, ascending.
pub uninterp spec fn pages_of(document: lopdf::Document) -> Seq<u32>;

/// The text that `Document::extract_text` reads from one page of a
/// document, or `None` where it fails on the page.
pub uninterp spec fn page_text_of(document: lopdf::Document, page: u32) -> Option<Seq<char>>;

/// `Document::load_mem_with_options` of lopdf, with `filter_func` as the
/// filter of the load: a document, or the failure as its text. The reader
/// may parse on several threads and applies the filter to documents that
/// are not encrypted only, so nothing is stated of the document that
/// comes back.
#[verifier::external_body]
fn load_filtered(bytes: &[u8]) -> (document: Result<lopdf::Document, String>) {
    let options = lopdf::LoadOptions::with_filter(filter_func);
    lopdf::Document::load_mem_with_options(bytes, options).map_err(|e| e.to_string())
}

/// `Document::get_pages` of lopdf: the numbers of the pages, which the
/// map that it returns holds in ascending order.
#[verifier::external_body]
fn page_numbers(document: &lopdf::Document) -> (pages: Vec<u32>)
    ensures
        pages@ == pages_of(*document),
{
    document.get_pages().keys().copied().collect()
}

/// `Document::extract_text` of lopdf on one page: its text, or nothing
/// where the call fails.
#[verifier::external_body]
fn page_text(document: &lopdf::Document, page: u32) -> (text: Option<String>)
    ensures
        match text {
            Some(t) => Some(t@),
            None => None,
        } == page_text_of(*document, page),
{
    document.extract_text(&[page]).ok()
}

/// The text of one page as it enters the text of the document: its lines,
/// each without the white space at its end, with nothing between them. A
/// page that cannot be read gives nothing.
pub open spec fn page_part(document: lopdf::Document, page: u32) -> Seq<char> {
    match page_text_of(document, page) {
        Some(raw) => trimmed_lines(raw),
        None => Seq::empty(),
    }
}

/// The text of a document: the texts of its pages, in the order of the
/// pages, with nothing between them.
pub open spec fn document_text(document: lopdf::Document) -> Seq<char> {
    concat(pages_of(document).map_values(|page: u32| page_part(document, page)))
}

/// Reads the text of PDF documents.
#[derive(Debug)]
pub struct LoPdfProcessor;

impl LoPdfProcessor {
    /// The text of a loaded document.
    pub fn text_of(document: &lopdf::Document) -> (text: String)
        ensures
            text@ == document_text(*document),
    {
        let pages = page_numbers(document);
        let ghost part = |page: u32| page_part(*document, page);
        let mut text = String::new();
        let mut i: usize = 0;
        assert(text@ =~= concat(pages@.take(0).map_values(part)));
        while i < pages.len()
            invariant
                i <= pages.len(),
                pages@ == pages_of(*document),
                part == (|page: u32| page_part(*document, page)),
                text@ == concat(pages@.take(i as int).map_values(part)),
            decreases pages.len() - i,
        {
            match page_text(document, pages[i]) {
                Some(raw) => {
                    let joined = join_trimmed_lines(raw.as_str());
                    text.append(joined.as_str());
                },
                None => {},
            }
            i = i + 1;
            proof {
                let seen = pages@.take(i as int).map_values(part);
                assert(seen.drop_last() =~= pages@.take(i as int - 1).map_values(part));
                assert(seen.last() == page_part(*document, pages@[i as int - 1]));
                assert(text@ =~= concat(seen));
            }
        }
        assert(pages@.take(i as int) =~= pages@);
        text
    }

    /// Extracts the text from the bytes of a PDF file: the text of the
    /// document that the reader loads from them. Which document that is,
    /// and whether there is one, the reader decides; where it fails, the
    /// failure is a PDF error.
    pub fn extract_text(bytes: &[u8]) -> (text: AppResult<String>)
        ensures
            text is Ok ==> exists|document: lopdf::Document| text->Ok_0@ == #[trigger] document_text(document),
            text is Err ==> text->Err_0 is LoPdfError,
    {
        match load_filtered(bytes) {
            Ok(document) => Ok(LoPdfProcessor::text_of(&document)),
            Err(message) => Err(AidenErrors::LoPdfError(message)),
        }
    }
}

} // verus!
