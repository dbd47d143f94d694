//! The boundary to the `lopdf` document store: trusted declarations for
//! the handful of `lopdf` operations the assembly consumes, the
//! conversions from this library's object model into `lopdf` values, and
//! the document assembly itself.
//!
//! The store's contents are modeled by uninterpreted names: the abstract
//! value an `lopdf` object stands for, and a document's version, object
//! table, trailer and highest assigned number. Each trusted wrapper
//! states over those names what the `lopdf` source shows the call does;
//! a stream's bytes (encoding, compression) are not modeled.

use vstd::prelude::*;

use crate::builder::{ContentBuilder, ContentOps};
use crate::factories::{
    catalog, font, page, pages, resources, spec_catalog, spec_font, spec_page, spec_pages,
    spec_resources,
};
use crate::objects::{
    dict_deep_wf, entries_view, lemma_entries_view_is_map, lemma_values_view_is_map, value_deep_wf,
    values_view, Dict, ObjectId, SpecValue, Value,
};
use crate::PDF_VERSION;

verus! {

#[verifier::external_type_specification]
#[verifier::external_body]
pub struct ExDocument(lopdf::Document);

#[verifier::external_type_specification]
#[verifier::external_body]
pub struct ExLopdfObject(lopdf::Object);

#[verifier::external_type_specification]
#[verifier::external_body]
pub struct ExLopdfDictionary(lopdf::Dictionary);

#[verifier::external_type_specification]
#[verifier::external_body]
pub struct ExLopdfStream(lopdf::Stream);

#[verifier::external_type_specification]
#[verifier::external_body]
pub struct ExLopdfOperation(lopdf::content::Operation);

#[verifier::external_type_specification]
#[verifier::external_body]
pub struct ExLopdfError(lopdf::Error);

/// The abstract value an `lopdf::Object` stands for; a stream's bytes
/// and dictionary are not modeled.
pub uninterp spec fn lopdf_object_view(object: lopdf::Object) -> SpecValue;

/// The entries an `lopdf::Dictionary` holds, in insertion order.
pub uninterp spec fn lopdf_dict_view(dictionary: lopdf::Dictionary) -> Seq<(Seq<char>, SpecValue)>;

/// The header version of a document.
pub uninterp spec fn doc_version(doc: lopdf::Document) -> Seq<char>;

/// The objects a document's store holds, by identifier.
pub uninterp spec fn doc_objects(doc: lopdf::Document) -> Map<ObjectId, SpecValue>;

/// The entries of a document's trailer dictionary.
pub uninterp spec fn doc_trailer(doc: lopdf::Document) -> Map<Seq<char>, SpecValue>;

/// The highest object number the document has assigned.
pub uninterp spec fn doc_max_id(doc: lopdf::Document) -> int;

/// An object table with nothing in it.
pub open spec fn no_objects() -> Map<ObjectId, SpecValue> {
    Map::empty()
}

/// A trailer with nothing in it.
pub open spec fn no_trailer() -> Map<Seq<char>, SpecValue> {
    Map::empty()
}

/// The error the assembly reports: the content-stream encoder rejected
/// the assembled operations. With the encoder this library relies on,
/// that cannot happen, and `assemble_document` proves it never returns
/// this error.
#[derive(Debug, PartialEq, Eq, Structural)]
pub enum AssembleError {
    Encoding,
}

/// Relies on `lopdf::Document::with_version`: a fresh document at the
/// given header version, with no objects, an empty trailer and no
/// identifiers assigned.
#[verifier::external_body]
fn document_with_version(version: &str) -> (doc: lopdf::Document)
    ensures
        doc_version(doc) == version@,
        doc_objects(doc) == no_objects(),
        doc_trailer(doc) == no_trailer(),
        doc_max_id(doc) == 0,
{
    lopdf::Document::with_version(version)
}

/// A fresh, empty document at version `PDF_VERSION`.
pub fn document() -> (doc: lopdf::Document)
    ensures
        doc_version(doc) == PDF_VERSION@,
        doc_objects(doc) == no_objects(),
        doc_trailer(doc) == no_trailer(),
        doc_max_id(doc) == 0,
{
    document_with_version(PDF_VERSION)
}

/// Relies on `lopdf::Document::new_object_id`: assigns the next object
/// number, at generation zero, without storing a value under it.
#[verifier::external_body]
fn new_object_id(doc: &mut lopdf::Document) -> (id: ObjectId)
    requires
        doc_max_id(*old(doc)) < u32::MAX as int,
    ensures
        id.0 as int == doc_max_id(*old(doc)) + 1,
        id.1 == 0,
        doc_max_id(*final(doc)) == doc_max_id(*old(doc)) + 1,
        doc_objects(*final(doc)) == doc_objects(*old(doc)),
        doc_trailer(*final(doc)) == doc_trailer(*old(doc)),
        doc_version(*final(doc)) == doc_version(*old(doc)),
{
    doc.new_object_id()
}

/// Relies on `lopdf::Document::add_object`: stores the object under the
/// next object number, at generation zero, and returns that identifier.
#[verifier::external_body]
fn add_object(doc: &mut lopdf::Document, object: lopdf::Object) -> (id: ObjectId)
    requires
        doc_max_id(*old(doc)) < u32::MAX as int,
    ensures
        id.0 as int == doc_max_id(*old(doc)) + 1,
        id.1 == 0,
        doc_max_id(*final(doc)) == doc_max_id(*old(doc)) + 1,
        doc_objects(*final(doc)) == doc_objects(*old(doc)).insert(id, lopdf_object_view(object)),
        doc_trailer(*final(doc)) == doc_trailer(*old(doc)),
        doc_version(*final(doc)) == doc_version(*old(doc)),
{
    doc.add_object(object)
}

/// Relies on `lopdf::Document::set_object`: stores the object under the
/// given identifier, replacing any earlier value there.
#[verifier::external_body]
fn set_object(doc: &mut lopdf::Document, id: ObjectId, object: lopdf::Object)
    ensures
        doc_objects(*final(doc)) == doc_objects(*old(doc)).insert(id, lopdf_object_view(object)),
        doc_max_id(*final(doc)) == doc_max_id(*old(doc)),
        doc_trailer(*final(doc)) == doc_trailer(*old(doc)),
        doc_version(*final(doc)) == doc_version(*old(doc)),
{
    doc.set_object(id, object)
}

/// Relies on `lopdf::Dictionary::set` on the document's trailer: sets the
/// named trailer entry to a reference to the given identifier, replacing
/// any earlier value under that name.
#[verifier::external_body]
fn trailer_set(doc: &mut lopdf::Document, key: &str, id: ObjectId)
    ensures
        doc_trailer(*final(doc)) == doc_trailer(*old(doc)).insert(
            key@,
            SpecValue::Reference(id),
        ),
        doc_objects(*final(doc)) == doc_objects(*old(doc)),
        doc_max_id(*final(doc)) == doc_max_id(*old(doc)),
        doc_version(*final(doc)) == doc_version(*old(doc)),
{
    doc.trailer.set(key, id)
}

/// Relies on `lopdf::Document::compress`: compresses stream contents in
/// place, object by object, ignoring per-stream errors. The set of stored
/// objects and their modeled values, the trailer, the version and the
/// assigned numbers are unchanged (a stream's bytes are not modeled).
#[verifier::external_body]
fn compress(doc: &mut lopdf::Document)
    ensures
        doc_objects(*final(doc)) == doc_objects(*old(doc)),
        doc_trailer(*final(doc)) == doc_trailer(*old(doc)),
        doc_max_id(*final(doc)) == doc_max_id(*old(doc)),
        doc_version(*final(doc)) == doc_version(*old(doc)),
{
    doc.compress()
}

/// Relies on `lopdf::Object::Integer`: an integer object.
#[verifier::external_body]
fn lopdf_integer(value: i64) -> (r: lopdf::Object)
    ensures
        lopdf_object_view(r) == SpecValue::Integer(value as int),
{
    lopdf::Object::Integer(value)
}

/// Relies on `From<&str> for lopdf::Object`: a name object with the
/// string's bytes.
#[verifier::external_body]
fn lopdf_name(name: &str) -> (r: lopdf::Object)
    ensures
        lopdf_object_view(r) == SpecValue::Name(name@),
{
    lopdf::Object::from(name)
}

/// Relies on `lopdf::Object::string_literal`: a literal-format string
/// object with the string's bytes.
#[verifier::external_body]
fn lopdf_text(text: &str) -> (r: lopdf::Object)
    ensures
        lopdf_object_view(r) == SpecValue::Text(text@),
{
    lopdf::Object::string_literal(text)
}

/// Relies on `lopdf::Object::Reference`: an indirect reference.
#[verifier::external_body]
fn lopdf_reference(id: ObjectId) -> (r: lopdf::Object)
    ensures
        lopdf_object_view(r) == SpecValue::Reference(id),
{
    lopdf::Object::Reference(id)
}

/// Relies on `lopdf::Object::Array`: an array object holding the given
/// items in order.
#[verifier::external_body]
fn lopdf_array(items: Vec<lopdf::Object>) -> (r: lopdf::Object)
    ensures
        lopdf_object_view(r) == SpecValue::Array(
            items@.map_values(|x: lopdf::Object| lopdf_object_view(x)),
        ),
{
    lopdf::Object::Array(items)
}

/// Relies on `lopdf::Object::Dictionary`: a dictionary object.
#[verifier::external_body]
fn lopdf_dictionary_object(dictionary: lopdf::Dictionary) -> (r: lopdf::Object)
    ensures
        lopdf_object_view(r) == SpecValue::Dict(lopdf_dict_view(dictionary)),
{
    lopdf::Object::Dictionary(dictionary)
}

/// Relies on `lopdf::Dictionary::new`: an empty dictionary.
#[verifier::external_body]
fn lopdf_dictionary_new() -> (r: lopdf::Dictionary)
    ensures
        lopdf_dict_view(r) == Seq::<(Seq<char>, SpecValue)>::empty(),
{
    lopdf::Dictionary::new()
}

/// Relies on `lopdf::Dictionary::set`: stores the value under the key;
/// when the key is not yet present, the entry is appended in order (an
/// existing key would be replaced in place, which this contract leaves
/// unstated).
#[verifier::external_body]
fn lopdf_dictionary_set(dictionary: &mut lopdf::Dictionary, key: &str, value: lopdf::Object)
    ensures
        (forall|j: int|
            0 <= j < lopdf_dict_view(*old(dictionary)).len()
                ==> lopdf_dict_view(*old(dictionary))[j].0 != key@) ==> lopdf_dict_view(
            *final(dictionary),
        ) == lopdf_dict_view(*old(dictionary)).push((key@, lopdf_object_view(value))),
{
    dictionary.set(key, value)
}

/// Relies on `lopdf::content::Operation::new`: an operation with the
/// given operator and operands.
#[verifier::external_body]
fn lopdf_operation(operator: &str, operands: Vec<lopdf::Object>) -> lopdf::content::Operation {
    lopdf::content::Operation::new(operator, operands)
}

/// Relies on `lopdf::content::Content::encode`: the encoded bytes of the
/// operations. Encoding writes only into an in-memory buffer, whose
/// writes cannot fail, and no other error path exists, so it always
/// succeeds.
#[verifier::external_body]
fn encode_operations(operations: Vec<lopdf::content::Operation>) -> (r: Result<
    Vec<u8>,
    lopdf::Error,
>)
    ensures
        r is Ok,
{
    lopdf::content::Content { operations }.encode()
}

/// Relies on `lopdf::Stream::new`: a stream object with the given
/// dictionary (to which it adds the stream's Length entry) and data.
#[verifier::external_body]
fn lopdf_stream(dict: lopdf::Dictionary, data: Vec<u8>) -> lopdf::Stream {
    lopdf::Stream::new(dict, data)
}

/// Relies on `lopdf::Object::Stream`: a stream as an object; its bytes
/// are not modeled.
#[verifier::external_body]
fn lopdf_stream_object(stream: lopdf::Stream) -> (r: lopdf::Object)
    ensures
        lopdf_object_view(r) == SpecValue::Stream,
{
    lopdf::Object::Stream(stream)
}

/// Converts an object of this library's model into the `lopdf` value it
/// stands for. The value equation holds for deeply well-formed inputs;
/// a dictionary with a repeated key would have the repetition collapsed
/// by `lopdf`'s map.
#[verifier::loop_isolation(false)]
fn to_lopdf_object(o: &Value) -> (r: lopdf::Object)
    ensures
        value_deep_wf(*o) ==> lopdf_object_view(r) == o@,
    decreases *o,
{
    match o {
        Value::Integer(i) => lopdf_integer(*i),
        Value::Name(s) => lopdf_name(s.as_str()),
        Value::Text(s) => lopdf_text(s.as_str()),
        Value::Reference(id) => lopdf_reference(*id),
        Value::Array(items) => {
            let ghost f = |x: lopdf::Object| lopdf_object_view(x);
            let mut out: Vec<lopdf::Object> = Vec::new();
            let mut i: usize = 0;
            proof {
                assert(out@.map_values(f) =~= values_view(items@.take(0)));
            }
            while i < items.len()
                invariant
                    i <= items.len(),
                    value_deep_wf(*o) ==> out@.map_values(f) == values_view(
                        items@.take(i as int),
                    ),
                decreases items.len() - i,
            {
                proof {
                    vstd::std_specs::vec::axiom_vec_index_decreases(*items, i as int);
                }
                let ghost prev = out@;
                out.push(to_lopdf_object(&items[i]));
                i = i + 1;
                proof {
                    if value_deep_wf(*o) {
                        let k = i as int - 1;
                        assert(value_deep_wf(items@[k]));
                        lemma_values_view_is_map(items@.take(k));
                        lemma_values_view_is_map(items@.take(k + 1));
                        assert(items@.take(k + 1) =~= items@.take(k).push(items@[k]));
                        assert(items@.take(k + 1).map_values(|x: Value| crate::objects::value_view(x))
                            =~= items@.take(k).map_values(|x: Value| crate::objects::value_view(x))
                                .push(items@[k]@));
                        assert(out@.map_values(f) =~= prev.map_values(f).push(
                            lopdf_object_view(out@[k]),
                        ));
                    }
                }
            }
            let r = lopdf_array(out);
            proof {
                if value_deep_wf(*o) {
                    assert(items@.take(items@.len() as int) =~= items@);
                }
            }
            r
        },
        Value::Dict(d) => lopdf_dictionary_object(to_lopdf_dictionary(d)),
    }
}

/// Converts a dictionary of this library's model into the `lopdf`
/// dictionary it stands for. The value equation holds for deeply
/// well-formed inputs; a repeated key would have the repetition
/// collapsed by `lopdf`'s map.
#[verifier::loop_isolation(false)]
pub fn to_lopdf_dictionary(d: &Dict) -> (r: lopdf::Dictionary)
    ensures
        dict_deep_wf(*d) ==> lopdf_dict_view(r) == d@,
    decreases *d,
{
    let mut out = lopdf_dictionary_new();
    let mut i: usize = 0;
    proof {
        assert(entries_view(d.entries@.take(0)) =~= Seq::<(Seq<char>, SpecValue)>::empty());
    }
    while i < d.entries.len()
        invariant
            i <= d.entries.len(),
            dict_deep_wf(*d) ==> lopdf_dict_view(out) == entries_view(d.entries@.take(i as int)),
        decreases d.entries.len() - i,
    {
        let ghost k = i as int;
        let ghost prev = out;
        proof {
            if dict_deep_wf(*d) {
                assert(value_deep_wf(d.entries@[k].value));
                lemma_entries_view_is_map(d.entries@);
                lemma_entries_view_is_map(d.entries@.take(k));
                assert forall|j: int| 0 <= j < lopdf_dict_view(out).len() implies lopdf_dict_view(
                    out,
                )[j].0 != d.entries@[k].key@ by {
                    assert(lopdf_dict_view(out)[j] == (d.entries@[j].key@, d.entries@[j].value@));
                    assert(d@[j].0 != d@[k].0);
                }
            }
        }
        let value = to_lopdf_object(&d.entries[i].value);
        lopdf_dictionary_set(&mut out, d.entries[i].key.as_str(), value);
        i = i + 1;
        proof {
            if dict_deep_wf(*d) {
                lemma_entries_view_is_map(d.entries@.take(k));
                lemma_entries_view_is_map(d.entries@.take(k + 1));
                assert(d.entries@.take(k + 1) =~= d.entries@.take(k).push(d.entries@[k]));
                assert(entries_view(d.entries@.take(k + 1)) =~= entries_view(
                    d.entries@.take(k),
                ).push((d.entries@[k].key@, d.entries@[k].value@)));
            }
        }
    }
    proof {
        assert(d.entries@.take(d.entries@.len() as int) =~= d.entries@);
    }
    out
}

/// Converts a content value of this library's model into the `lopdf`
/// operations it stands for. The operations feed the content-stream
/// encoder, whose output is not modeled, so nothing is stated of them.
pub fn to_lopdf_operations(c: &ContentOps) -> Vec<lopdf::content::Operation> {
    let mut operations: Vec<lopdf::content::Operation> = Vec::new();
    let mut i: usize = 0;
    while i < c.operations.len()
        invariant
            i <= c.operations.len(),
        decreases c.operations.len() - i,
    {
        let mut operands: Vec<lopdf::Object> = Vec::new();
        let mut j: usize = 0;
        while j < c.operations[i].operands.len()
            invariant
                i < c.operations.len(),
                j <= c.operations[i as int].operands.len(),
            decreases c.operations[i as int].operands@.len() - j,
        {
            operands.push(to_lopdf_object(&c.operations[i].operands[j]));
            j = j + 1;
        }
        operations.push(lopdf_operation(c.operations[i].operator.as_str(), operands));
        i = i + 1;
    }
    operations
}

/// The object table of the assembled one-page document: the objects are
/// registered in dependency order, so the pages node holds the reserved
/// number 1, and font, resources, content stream, page and catalog hold
/// the numbers 2 to 6 — exactly one of each.
pub open spec fn spec_assembled_objects(font_family: Seq<char>) -> Map<ObjectId, SpecValue> {
    no_objects().insert(
        (2u32, 0u16),
        SpecValue::Dict(spec_font(font_family)),
    ).insert((3u32, 0u16), SpecValue::Dict(spec_resources((2u32, 0u16)))).insert(
        (4u32, 0u16),
        SpecValue::Stream,
    ).insert((5u32, 0u16), SpecValue::Dict(spec_page((1u32, 0u16), (4u32, 0u16)))).insert(
        (1u32, 0u16),
        SpecValue::Dict(spec_pages((5u32, 0u16), (3u32, 0u16))),
    ).insert((6u32, 0u16), SpecValue::Dict(spec_catalog((1u32, 0u16))))
}

/// The trailer of the assembled document: its root points at the catalog.
pub open spec fn spec_assembled_trailer() -> Map<Seq<char>, SpecValue> {
    no_trailer().insert("Root"@, SpecValue::Reference((6u32, 0u16)))
}

/// Assembles the one-page document: registers font, resources, content
/// stream, page, pages and catalog in dependency order, points the
/// trailer root at the catalog, and compresses the result. The builder
/// configuration is complete by construction and the encoder cannot
/// fail, so assembly always succeeds, with exactly the object graph
/// `spec_assembled_objects` describes.
pub fn assemble_document(
    font_family: &str,
    font_size: u16,
    position: (u32, u32),
    fragments: &Vec<&str>,
) -> (r: Result<lopdf::Document, AssembleError>)
    ensures
        r is Ok,
        r matches Ok(doc) ==> doc_version(doc) == PDF_VERSION@,
        r matches Ok(doc) ==> doc_objects(doc) == spec_assembled_objects(font_family@),
        r matches Ok(doc) ==> doc_trailer(doc) == spec_assembled_trailer(),
{
    let mut builder = ContentBuilder::new().font("F1", font_size).position(position);
    let mut i: usize = 0;
    while i < fragments.len()
        invariant
            i <= fragments.len(),
            builder@.font_resource is Some,
            builder@.font_size is Some,
            builder@.position is Some,
        decreases fragments.len() - i,
    {
        builder = builder.text(fragments[i]);
        i = i + 1;
    }
    let content = match builder.build() {
        Ok(c) => c,
        Err(_) => unreached(),
    };
    let encoded = match encode_operations(to_lopdf_operations(&content)) {
        Ok(bytes) => bytes,
        Err(_) => unreached(),
    };
    let mut doc = document();
    let pages_id = new_object_id(&mut doc);
    proof {
        assert(pages_id =~= (1u32, 0u16));
    }
    let font_id = add_object(
        &mut doc,
        lopdf_dictionary_object(to_lopdf_dictionary(&font(font_family))),
    );
    proof {
        assert(font_id =~= (2u32, 0u16));
    }
    let resources_id = add_object(
        &mut doc,
        lopdf_dictionary_object(to_lopdf_dictionary(&resources(font_id))),
    );
    proof {
        assert(resources_id =~= (3u32, 0u16));
    }
    let content_id = add_object(
        &mut doc,
        lopdf_stream_object(lopdf_stream(lopdf_dictionary_new(), encoded)),
    );
    proof {
        assert(content_id =~= (4u32, 0u16));
    }
    let page_id = add_object(
        &mut doc,
        lopdf_dictionary_object(to_lopdf_dictionary(&page(pages_id, content_id))),
    );
    proof {
        assert(page_id =~= (5u32, 0u16));
    }
    set_object(
        &mut doc,
        pages_id,
        lopdf_dictionary_object(to_lopdf_dictionary(&pages(page_id, resources_id))),
    );
    let catalog_id = add_object(
        &mut doc,
        lopdf_dictionary_object(to_lopdf_dictionary(&catalog(pages_id))),
    );
    proof {
        assert(catalog_id =~= (6u32, 0u16));
    }
    trailer_set(&mut doc, "Root", catalog_id);
    compress(&mut doc);
    proof {
        assert(doc_objects(doc) =~= spec_assembled_objects(font_family@));
        assert(doc_trailer(doc) =~= spec_assembled_trailer());
    }
    Ok(doc)
}

} // verus!
