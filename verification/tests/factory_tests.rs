use example_pdf::{catalog, font, page, pages, resources, Dict, Entry, Value};

fn name_entry(key: &str, name: &str) -> Entry {
    Entry { key: key.to_string(), value: Value::Name(name.to_string()) }
}

fn ref_entry(key: &str, id: (u32, u16)) -> Entry {
    Entry { key: key.to_string(), value: Value::Reference(id) }
}

#[test]
fn font_dictionary_structure() {
    let d = font("Courier");
    let expected = Dict {
        entries: vec![
            name_entry("Type", "Font"),
            name_entry("Subtype", "Type1"),
            name_entry("BaseFont", "Courier"),
        ],
    };
    assert_eq!(d, expected);
}

#[test]
fn font_accepts_any_base_font_name() {
    let d = font("NoSuchFont");
    assert_eq!(d.entries[2], name_entry("BaseFont", "NoSuchFont"));
}

#[test]
fn resources_is_a_single_entry_map_keyed_f1() {
    for id in [(7u32, 0u16), (42, 3), (u32::MAX, u16::MAX)] {
        let d = resources(id);
        assert_eq!(d.entries.len(), 1);
        assert_eq!(d.entries[0].key, "Font");
        let inner = match &d.entries[0].value {
            Value::Dict(inner) => inner,
            other => panic!("expected a nested dictionary, got {:?}", other),
        };
        assert_eq!(inner.entries.len(), 1);
        assert_eq!(inner.entries[0], ref_entry("F1", id));
    }
}

#[test]
fn page_dictionary_structure() {
    let d = page((1, 0), (2, 0));
    let expected = Dict {
        entries: vec![
            name_entry("Type", "Page"),
            ref_entry("Parent", (1, 0)),
            ref_entry("Contents", (2, 0)),
        ],
    };
    assert_eq!(d, expected);
}

#[test]
fn pages_reports_count_one_single_kid_and_fixed_media_box() {
    for (page_id, resources_id) in [((3u32, 0u16), (4u32, 0u16)), ((9, 2), (1, 1))] {
        let d = pages(page_id, resources_id);
        assert_eq!(d.entries.len(), 5);
        assert_eq!(d.entries[0], name_entry("Type", "Pages"));
        assert_eq!(
            d.entries[1],
            Entry {
                key: "Kids".to_string(),
                value: Value::Array(vec![Value::Reference(page_id)]),
            },
        );
        assert_eq!(
            d.entries[2],
            Entry { key: "Count".to_string(), value: Value::Integer(1) },
        );
        assert_eq!(d.entries[3], ref_entry("Resources", resources_id));
        assert_eq!(
            d.entries[4],
            Entry {
                key: "MediaBox".to_string(),
                value: Value::Array(vec![
                    Value::Integer(0),
                    Value::Integer(0),
                    Value::Integer(595),
                    Value::Integer(842),
                ]),
            },
        );
    }
}

#[test]
fn catalog_dictionary_structure() {
    let d = catalog((5, 0));
    let expected = Dict {
        entries: vec![name_entry("Type", "Catalog"), ref_entry("Pages", (5, 0))],
    };
    assert_eq!(d, expected);
}

#[test]
fn factories_are_idempotent() {
    assert_eq!(font("Courier"), font("Courier"));
    assert_eq!(resources((7, 0)), resources((7, 0)));
    assert_eq!(page((1, 0), (2, 0)), page((1, 0), (2, 0)));
    assert_eq!(pages((3, 0), (4, 0)), pages((3, 0), (4, 0)));
    assert_eq!(catalog((5, 0)), catalog((5, 0)));
}
