use example_pdf::{assemble_document, document};

#[test]
fn document_carries_the_fixed_version() {
    let doc = document();
    assert_eq!(doc.version, "1.5");
}

#[test]
fn end_to_end_courier_good_bye() {
    let fragments = vec!["good bye"];
    let mut doc = assemble_document("Courier", 48, (100, 600), &fragments).unwrap();

    // Follow the graph from the trailer root.
    let root_id = doc.trailer.get(b"Root").unwrap().as_reference().unwrap();
    let catalog = doc.get_object(root_id).unwrap().as_dict().unwrap();
    assert_eq!(catalog.get(b"Type").unwrap().as_name().unwrap(), b"Catalog");
    let pages_id = catalog.get(b"Pages").unwrap().as_reference().unwrap();

    let pages = doc.get_object(pages_id).unwrap().as_dict().unwrap();
    assert_eq!(pages.get(b"Type").unwrap().as_name().unwrap(), b"Pages");
    assert_eq!(pages.get(b"Count").unwrap().as_i64().unwrap(), 1);
    let kids = pages.get(b"Kids").unwrap().as_array().unwrap();
    assert_eq!(kids.len(), 1);
    let page_id = kids[0].as_reference().unwrap();
    let media_box: Vec<i64> = pages
        .get(b"MediaBox")
        .unwrap()
        .as_array()
        .unwrap()
        .iter()
        .map(|o| o.as_i64().unwrap())
        .collect();
    assert_eq!(media_box, vec![0, 0, 595, 842]);

    let page = doc.get_object(page_id).unwrap().as_dict().unwrap();
    assert_eq!(page.get(b"Type").unwrap().as_name().unwrap(), b"Page");
    assert_eq!(page.get(b"Parent").unwrap().as_reference().unwrap(), pages_id);
    let content_id = page.get(b"Contents").unwrap().as_reference().unwrap();

    let resources_id = pages.get(b"Resources").unwrap().as_reference().unwrap();
    let resources = doc.get_object(resources_id).unwrap().as_dict().unwrap();
    let font_map = resources.get(b"Font").unwrap().as_dict().unwrap();
    assert_eq!(font_map.len(), 1);
    let font_id = font_map.get(b"F1").unwrap().as_reference().unwrap();
    let font = doc.get_object(font_id).unwrap().as_dict().unwrap();
    assert_eq!(font.get(b"Type").unwrap().as_name().unwrap(), b"Font");
    assert_eq!(font.get(b"Subtype").unwrap().as_name().unwrap(), b"Type1");
    assert_eq!(font.get(b"BaseFont").unwrap().as_name().unwrap(), b"Courier");

    // The decoded content stream is the fixed five-operation sequence.
    let stream = doc.get_object(content_id).unwrap().as_stream().unwrap();
    let bytes = stream.decompressed_content().unwrap();
    let content = lopdf::content::Content::decode(&bytes).unwrap();
    let operators: Vec<&str> =
        content.operations.iter().map(|op| op.operator.as_str()).collect();
    assert_eq!(operators, vec!["BT", "Tf", "Td", "Tj", "ET"]);
    assert_eq!(content.operations[1].operands[0].as_name().unwrap(), b"F1");
    assert_eq!(content.operations[1].operands[1].as_i64().unwrap(), 48);
    assert_eq!(content.operations[2].operands[0].as_i64().unwrap(), 100);
    assert_eq!(content.operations[2].operands[1].as_i64().unwrap(), 600);
    assert_eq!(content.operations[3].operands[0].as_str().unwrap(), b"good bye");

    // Exactly one object of each kind.
    assert_eq!(doc.objects.len(), 6);
    let mut catalogs = 0;
    let mut pages_nodes = 0;
    let mut page_nodes = 0;
    let mut fonts = 0;
    let mut streams = 0;
    for object in doc.objects.values() {
        match object {
            lopdf::Object::Stream(_) => streams += 1,
            lopdf::Object::Dictionary(d) => match d.get(b"Type") {
                Ok(t) => match t.as_name().unwrap() {
                    b"Catalog" => catalogs += 1,
                    b"Pages" => pages_nodes += 1,
                    b"Page" => page_nodes += 1,
                    b"Font" => fonts += 1,
                    _ => {}
                },
                Err(_) => {}
            },
            _ => {}
        }
    }
    assert_eq!(
        (catalogs, pages_nodes, page_nodes, fonts, streams),
        (1, 1, 1, 1, 1),
    );

    // Saving succeeds and writes a non-empty artifact.
    let mut out: Vec<u8> = Vec::new();
    doc.save_to(&mut out).unwrap();
    assert!(!out.is_empty());
}

#[test]
fn assemble_accepts_multiple_fragments() {
    let fragments = vec!["Hello World!", "Hello World!"];
    let mut doc = assemble_document("Courier", 48, (100, 600), &fragments).unwrap();
    let root_id = doc.trailer.get(b"Root").unwrap().as_reference().unwrap();
    let catalog = doc.get_object(root_id).unwrap().as_dict().unwrap();
    let pages_id = catalog.get(b"Pages").unwrap().as_reference().unwrap();
    let pages = doc.get_object(pages_id).unwrap().as_dict().unwrap();
    let kids = pages.get(b"Kids").unwrap().as_array().unwrap();
    let page_id = kids[0].as_reference().unwrap();
    let page = doc.get_object(page_id).unwrap().as_dict().unwrap();
    let content_id = page.get(b"Contents").unwrap().as_reference().unwrap();
    let stream = doc.get_object(content_id).unwrap().as_stream().unwrap();
    let bytes = stream.decompressed_content().unwrap();
    let content = lopdf::content::Content::decode(&bytes).unwrap();
    assert_eq!(
        content.operations[3].operands[0].as_str().unwrap(),
        b"Hello World!Hello World!",
    );
}
