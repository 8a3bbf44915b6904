use pdfgen::content::Text;
use pdfgen::hierarchy::{Catalog, Font, PageTree};
use pdfgen::name::Name;
use pdfgen::number::{Number, Position, Rectangle};
use pdfgen::obj_id::IdManager;
use pdfgen::object::Object;
use pdfgen::page::Page;
use pdfgen::writer::PdfWriter;

#[test]
fn simple_catalog() {
    let mut id_manager = IdManager::new();
    let page_tree = PageTree::new(id_manager.create_id(), None);
    let catalog = Catalog::new(id_manager.create_id(), page_tree);

    let mut writer = Vec::default();
    catalog.write_content(&mut writer);

    let output = String::from_utf8(writer).unwrap();
    assert_eq!(output, "<< /Type /Catalog \n/Pages 1 0 R >>\n");
}

#[test]
fn simple_page_tree() {
    let mut id_manager = IdManager::new();
    let page_tree = PageTree::new(id_manager.create_id(), None);

    let mut writer = Vec::new();
    page_tree.write_content(&mut writer);

    let output = String::from_utf8(writer).unwrap();
    assert_eq!(output, "<< /Type /Pages \n/Kids []\n/Count 0 >>\n");
}

#[test]
fn page_tree_with_kids() {
    let mut id_manager = IdManager::new();
    let mut page_tree = PageTree::new(id_manager.create_id(), None);

    page_tree.add_page(id_manager.create_id());
    page_tree.add_page(id_manager.create_id());
    page_tree.add_page(id_manager.create_id());

    let mut writer = Vec::new();
    page_tree.write_content(&mut writer);

    let output = String::from_utf8(writer).unwrap();
    assert_eq!(
        output,
        "<< /Type /Pages \n/Kids [2 0 R\n       3 0 R\n       4 0 R]\n/Count 3 >>\n"
    );
}

#[test]
fn child_page_tree_names_parent_and_media_box() {
    let mut id_manager = IdManager::new();
    let root = PageTree::new(id_manager.create_id(), None);
    let rect = Rectangle::new(Position::origin(), Position::new(Number::from_u32(10), Number::from_u32(20)));
    let child = PageTree::with_mediabox(id_manager.create_id(), Some(&root), rect);
    let mut writer = Vec::new();
    child.write_content(&mut writer);
    assert_eq!(
        String::from_utf8(writer).unwrap(),
        "<< /Type /Pages \n/Parent 1 0 R\n/MediaBox [0 0 10 20]\n/Kids []\n/Count 0 >>\n"
    );
}

#[test]
fn named_font_object() {
    let mut id_manager = IdManager::new();
    let font = Font::named(
        b"TestName".to_vec(),
        id_manager.create_id(),
        b"Type1".to_vec(),
        b"Helvetica".to_vec(),
    );
    let mut writer = Vec::default();
    font.write_content(&mut writer);
    assert_eq!(
        String::from_utf8(writer).unwrap(),
        "<< /Type /Font \n/Subtype /Type1 \n/BaseFont /Helvetica \n/Name /TestName \n>>\n"
    );
}

#[test]
fn font_object() {
    let mut id_manager = IdManager::new();
    let font = Font::new(id_manager.create_id(), b"Type1".to_vec(), b"Helvetica".to_vec());

    let mut writer = Vec::default();
    let _ = font.write_def(&mut writer);
    let _ = font.write_content(&mut writer);
    let _ = font.write_end(&mut writer);

    let output = String::from_utf8_lossy(&writer);
    assert_eq!(
        output,
        "1 0 obj\n<< /Type /Font \n/Subtype /Type1 \n/BaseFont /Helvetica \n>>\nendobj\n"
    );
}

#[test]
fn basic_page() {
    let mut id_manager = IdManager::new();
    let mut page = Page::new(
        id_manager.create_id(),
        id_manager.create_id(),
        id_manager.create_id(),
    );
    page.set_mediabox(Rectangle::new(
        Position::origin(),
        Position::new(Number::from_u32(100), Number::from_u32(100)),
    ));

    let mut writer = PdfWriter::new();
    let resolved = writer.write_page(&page, &mut id_manager);
    assert!(resolved.is_empty());

    let output = String::from_utf8(writer.into_inner()).unwrap();
    assert_eq!(
        output,
        "1 0 obj\n<< /Type /Page \n/Parent 3 0 R\n/Resources <<  >>\n/MediaBox [0 0 100 100]>>\nendobj\n\n\n"
    );
}

#[test]
fn default_text() {
    let txt = Text::builder()
        .at(Position::origin())
        .build()
        .to_bytes(&Name::from_static(b"BiHDef"));

    let output = String::from_utf8_lossy(&txt);
    assert_eq!(output, "BT\n/DeviceRGB cs\n0 0 0 sc\n/BiHDef 12 Tf\n0 0 Td\n() Tj\nET\n");
}

#[test]
fn custom_text() {
    let txt = Text::builder()
        .with_content("This is")
        .with_expanded_content(" a custom text content.")
        .with_size(14)
        .at(Position::origin())
        .build()
        .to_bytes(&Name::from_static(b"CustomFnt"));

    let output = String::from_utf8_lossy(&txt);
    assert_eq!(
        output,
        "BT\n/DeviceRGB cs\n0 0 0 sc\n/CustomFnt 14 Tf\n0 0 Td\n(This is a custom text content.) Tj\nET\n"
    );
}
