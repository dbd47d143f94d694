//! Object factories: pure constructors for the Font, Resources, Page,
//! Pages and Catalog dictionaries of a one-page document.

use vstd::prelude::*;

use crate::objects::{
    dict_deep_wf, entries_view, lemma_entries_view_is_map, lemma_values_view_is_map, value_deep_wf,
    value_view, Dict, Entry, ObjectId, SpecValue, Value,
};

verus! {

/// Left edge of the media box, in points.
pub const MEDIA_BOX_X0: i64 = 0;

/// Bottom edge of the media box, in points.
pub const MEDIA_BOX_Y0: i64 = 0;

/// Right edge of the media box, in points.
pub const MEDIA_BOX_X1: i64 = 595;

/// Top edge of the media box, in points.
pub const MEDIA_BOX_Y1: i64 = 842;

/// The value `font(base)` returns.
pub open spec fn spec_font(base: Seq<char>) -> Seq<(Seq<char>, SpecValue)> {
    seq![
        ("Type"@, SpecValue::Name("Font"@)),
        ("Subtype"@, SpecValue::Name("Type1"@)),
        ("BaseFont"@, SpecValue::Name(base)),
    ]
}

/// The value `resources(font_id)` returns: a single font slot keyed "F1".
pub open spec fn spec_resources(font_id: ObjectId) -> Seq<(Seq<char>, SpecValue)> {
    seq![
        ("Font"@, SpecValue::Dict(seq![("F1"@, SpecValue::Reference(font_id))])),
    ]
}

/// The value `page(pages_id, content_id)` returns.
pub open spec fn spec_page(pages_id: ObjectId, content_id: ObjectId) -> Seq<
    (Seq<char>, SpecValue),
> {
    seq![
        ("Type"@, SpecValue::Name("Page"@)),
        ("Parent"@, SpecValue::Reference(pages_id)),
        ("Contents"@, SpecValue::Reference(content_id)),
    ]
}

/// The fixed media box: an ISO-A4-like rectangle in points.
pub open spec fn spec_media_box() -> Seq<SpecValue> {
    seq![
        SpecValue::Integer(MEDIA_BOX_X0 as int),
        SpecValue::Integer(MEDIA_BOX_Y0 as int),
        SpecValue::Integer(MEDIA_BOX_X1 as int),
        SpecValue::Integer(MEDIA_BOX_Y1 as int),
    ]
}

/// The value `pages(page_id, resources_id)` returns: one kid, count one,
/// and the fixed media box.
pub open spec fn spec_pages(page_id: ObjectId, resources_id: ObjectId) -> Seq<
    (Seq<char>, SpecValue),
> {
    seq![
        ("Type"@, SpecValue::Name("Pages"@)),
        ("Kids"@, SpecValue::Array(seq![SpecValue::Reference(page_id)])),
        ("Count"@, SpecValue::Integer(1)),
        ("Resources"@, SpecValue::Reference(resources_id)),
        ("MediaBox"@, SpecValue::Array(spec_media_box())),
    ]
}

/// The value `catalog(pages_id)` returns.
pub open spec fn spec_catalog(pages_id: ObjectId) -> Seq<(Seq<char>, SpecValue)> {
    seq![
        ("Type"@, SpecValue::Name("Catalog"@)),
        ("Pages"@, SpecValue::Reference(pages_id)),
    ]
}

/// The keys this library writes are pairwise distinct wherever they share
/// a dictionary.
proof fn lemma_keys_distinct()
    ensures
        "Type"@ != "Subtype"@,
        "Type"@ != "BaseFont"@,
        "Subtype"@ != "BaseFont"@,
        "Type"@ != "Parent"@,
        "Type"@ != "Contents"@,
        "Parent"@ != "Contents"@,
        "Type"@ != "Kids"@,
        "Type"@ != "Count"@,
        "Type"@ != "Resources"@,
        "Type"@ != "MediaBox"@,
        "Kids"@ != "Count"@,
        "Kids"@ != "Resources"@,
        "Kids"@ != "MediaBox"@,
        "Count"@ != "Resources"@,
        "Count"@ != "MediaBox"@,
        "Resources"@ != "MediaBox"@,
        "Type"@ != "Pages"@,
{
    reveal_strlit("Type");
    reveal_strlit("Subtype");
    reveal_strlit("BaseFont");
    reveal_strlit("Parent");
    reveal_strlit("Contents");
    reveal_strlit("Kids");
    reveal_strlit("Count");
    reveal_strlit("Resources");
    reveal_strlit("MediaBox");
    reveal_strlit("Pages");
    assert("Type"@.len() == 4);
    assert("Subtype"@.len() == 7);
    assert("BaseFont"@.len() == 8);
    assert("Parent"@.len() == 6);
    assert("Contents"@.len() == 8);
    assert("Kids"@.len() == 4);
    assert("Count"@.len() == 5);
    assert("Resources"@.len() == 9);
    assert("MediaBox"@.len() == 8);
    assert("Pages"@.len() == 5);
    assert("Type"@[0] == 'T');
    assert("Kids"@[0] == 'K');
}

/// Builds the font dictionary: Type=Font, Subtype=Type1, BaseFont as given.
/// The base font name is not validated; an unknown name fails only at
/// render time, outside this library.
pub fn font(base: &str) -> (d: Dict)
    ensures
        d@ == spec_font(base@),
        d.wf(),
        dict_deep_wf(d),
{
    let mut entries: Vec<Entry> = Vec::new();
    entries.push(Entry { key: "Type".to_owned(), value: Value::Name("Font".to_owned()) });
    entries.push(Entry { key: "Subtype".to_owned(), value: Value::Name("Type1".to_owned()) });
    entries.push(Entry { key: "BaseFont".to_owned(), value: Value::Name(base.to_owned()) });
    let d = Dict { entries };
    proof {
        lemma_entries_view_is_map(d.entries@);
        assert(d@ =~= spec_font(base@));
        lemma_keys_distinct();
        assert forall|i: int| 0 <= i < d.entries@.len() implies value_deep_wf(
            d.entries@[i].value,
        ) by {
            assert(d.entries@[i].value is Name);
        }
    }
    d
}

/// Builds the resources dictionary: a single-entry font map whose only
/// key is "F1", mapped to the given font identifier.
pub fn resources(font_id: ObjectId) -> (d: Dict)
    ensures
        d@ == spec_resources(font_id),
        d.wf(),
        dict_deep_wf(d),
{
    let mut font_map: Vec<Entry> = Vec::new();
    font_map.push(Entry { key: "F1".to_owned(), value: Value::Reference(font_id) });
    let mut entries: Vec<Entry> = Vec::new();
    entries.push(
        Entry { key: "Font".to_owned(), value: Value::Dict(Dict { entries: font_map }) },
    );
    let d = Dict { entries };
    proof {
        lemma_entries_view_is_map(d.entries@);
        lemma_entries_view_is_map(d.entries@[0].value->Dict_0.entries@);
        assert(entries_view(d.entries@[0].value->Dict_0.entries@) =~= seq![
            ("F1"@, SpecValue::Reference(font_id)),
        ]);
        assert(d@ =~= spec_resources(font_id));
        assert(value_deep_wf(d.entries@[0].value)) by {
            let inner = d.entries@[0].value->Dict_0;
            assert(inner.entries@[0].value is Reference);
            assert(dict_deep_wf(inner));
        }
    }
    d
}

/// Builds the page dictionary: Type=Page, with its parent and contents
/// references. The back-reference (the parent listing this page among its
/// kids) is the caller's duty.
pub fn page(pages_id: ObjectId, content_id: ObjectId) -> (d: Dict)
    ensures
        d@ == spec_page(pages_id, content_id),
        d.wf(),
        dict_deep_wf(d),
{
    let mut entries: Vec<Entry> = Vec::new();
    entries.push(Entry { key: "Type".to_owned(), value: Value::Name("Page".to_owned()) });
    entries.push(Entry { key: "Parent".to_owned(), value: Value::Reference(pages_id) });
    entries.push(Entry { key: "Contents".to_owned(), value: Value::Reference(content_id) });
    let d = Dict { entries };
    proof {
        lemma_entries_view_is_map(d.entries@);
        assert(d@ =~= spec_page(pages_id, content_id));
        lemma_keys_distinct();
        assert forall|i: int| 0 <= i < d.entries@.len() implies value_deep_wf(
            d.entries@[i].value,
        ) by {
            assert(d.entries@[i].value is Name || d.entries@[i].value is Reference);
        }
    }
    d
}

/// Builds the pages dictionary: exactly one kid, Count=1, the given
/// resources reference, and the fixed media box.
pub fn pages(page_id: ObjectId, resources_id: ObjectId) -> (d: Dict)
    ensures
        d@ == spec_pages(page_id, resources_id),
        d.wf(),
        dict_deep_wf(d),
{
    let mut kids: Vec<Value> = Vec::new();
    kids.push(Value::Reference(page_id));
    let mut media_box: Vec<Value> = Vec::new();
    media_box.push(Value::Integer(MEDIA_BOX_X0));
    media_box.push(Value::Integer(MEDIA_BOX_Y0));
    media_box.push(Value::Integer(MEDIA_BOX_X1));
    media_box.push(Value::Integer(MEDIA_BOX_Y1));
    let mut entries: Vec<Entry> = Vec::new();
    entries.push(Entry { key: "Type".to_owned(), value: Value::Name("Pages".to_owned()) });
    entries.push(Entry { key: "Kids".to_owned(), value: Value::Array(kids) });
    entries.push(Entry { key: "Count".to_owned(), value: Value::Integer(1) });
    entries.push(Entry { key: "Resources".to_owned(), value: Value::Reference(resources_id) });
    entries.push(Entry { key: "MediaBox".to_owned(), value: Value::Array(media_box) });
    let d = Dict { entries };
    proof {
        lemma_entries_view_is_map(d.entries@);
        lemma_values_view_is_map(d.entries@[1].value->Array_0@);
        lemma_values_view_is_map(d.entries@[4].value->Array_0@);
        assert(value_view(d.entries@[1].value)->Array_0 =~= seq![SpecValue::Reference(page_id)]);
        assert(value_view(d.entries@[4].value)->Array_0 =~= spec_media_box());
        assert(d@ =~= spec_pages(page_id, resources_id));
        lemma_keys_distinct();
        let kids_items = d.entries@[1].value->Array_0@;
        assert forall|j: int| 0 <= j < kids_items.len() implies value_deep_wf(
            #[trigger] kids_items[j],
        ) by {
            assert(kids_items[j] is Reference);
        }
        assert(value_deep_wf(d.entries@[1].value));
        let box_items = d.entries@[4].value->Array_0@;
        assert forall|j: int| 0 <= j < box_items.len() implies value_deep_wf(
            #[trigger] box_items[j],
        ) by {
            assert(box_items[j] is Integer);
        }
        assert(value_deep_wf(d.entries@[4].value));
        assert forall|i: int| 0 <= i < d.entries@.len() implies value_deep_wf(
            d.entries@[i].value,
        ) by {
            assert(i == 1 || i == 4 || d.entries@[i].value is Name
                || d.entries@[i].value is Integer || d.entries@[i].value is Reference);
        }
    }
    d
}

/// Builds the catalog dictionary: Type=Catalog with the pages reference.
pub fn catalog(pages_id: ObjectId) -> (d: Dict)
    ensures
        d@ == spec_catalog(pages_id),
        d.wf(),
        dict_deep_wf(d),
{
    let mut entries: Vec<Entry> = Vec::new();
    entries.push(Entry { key: "Type".to_owned(), value: Value::Name("Catalog".to_owned()) });
    entries.push(Entry { key: "Pages".to_owned(), value: Value::Reference(pages_id) });
    let d = Dict { entries };
    proof {
        lemma_entries_view_is_map(d.entries@);
        assert(d@ =~= spec_catalog(pages_id));
        lemma_keys_distinct();
        assert forall|i: int| 0 <= i < d.entries@.len() implies value_deep_wf(
            d.entries@[i].value,
        ) by {
            assert(d.entries@[i].value is Name || d.entries@[i].value is Reference);
        }
    }
    d
}

/// Law: `font` is pure: any two results built from the same base font
/// name have the same mathematical value.
pub proof fn lemma_font_deterministic(d1: Dict, d2: Dict, base: Seq<char>)
    requires
        d1@ == spec_font(base),
        d2@ == spec_font(base),
    ensures
        d1@ == d2@,
{
}

/// Law: `resources` is pure: any two results built from the same font
/// identifier have the same mathematical value.
pub proof fn lemma_resources_deterministic(d1: Dict, d2: Dict, font_id: ObjectId)
    requires
        d1@ == spec_resources(font_id),
        d2@ == spec_resources(font_id),
    ensures
        d1@ == d2@,
{
}

/// Law: `page` is pure: any two results built from the same identifiers
/// have the same mathematical value.
pub proof fn lemma_page_deterministic(
    d1: Dict,
    d2: Dict,
    pages_id: ObjectId,
    content_id: ObjectId,
)
    requires
        d1@ == spec_page(pages_id, content_id),
        d2@ == spec_page(pages_id, content_id),
    ensures
        d1@ == d2@,
{
}

/// Law: `pages` is pure: any two results built from the same identifiers
/// have the same mathematical value.
pub proof fn lemma_pages_deterministic(
    d1: Dict,
    d2: Dict,
    page_id: ObjectId,
    resources_id: ObjectId,
)
    requires
        d1@ == spec_pages(page_id, resources_id),
        d2@ == spec_pages(page_id, resources_id),
    ensures
        d1@ == d2@,
{
}

/// Law: `catalog` is pure: any two results built from the same pages
/// identifier have the same mathematical value.
pub proof fn lemma_catalog_deterministic(d1: Dict, d2: Dict, pages_id: ObjectId)
    requires
        d1@ == spec_catalog(pages_id),
        d2@ == spec_catalog(pages_id),
    ensures
        d1@ == d2@,
{
}

} // verus!
