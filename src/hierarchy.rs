//! The document hierarchy: catalog, page tree, pages with their resources, and fonts.

use vstd::prelude::*;
use vstd::string::StringSliceAdditionalSpecFns;
use crate::array::{refs_array_bytes, WriteArray};
use crate::bytes::{dec, push_dec, push_str};
use crate::identifier::{identifier_bytes, is_valid_identifier, Identifier};
use crate::number::Rectangle;
use crate::obj_id::{ref_bytes, ObjId};
use crate::object::{write_def_line, Object};

verus! {

/// The encoding of the identifier spelled by `s`.
pub open spec fn key(s: &str) -> Seq<u8> {
    identifier_bytes(s.spec_bytes())
}

/// A font object: its identifier, subtype and base font, and optionally the name it is known
/// by.
#[derive(Debug)]
pub struct Font {
    id: ObjId,
    subtype: Identifier,
    base_font: Identifier,
    name: Option<Identifier>,
}

/// The unescaped bytes of an optional identifier.
pub open spec fn opt_view(name: Option<Identifier>) -> Option<Seq<u8>> {
    match name {
        Some(n) => Some(n@),
        None => None,
    }
}

impl Font {
    /// The identifier of the font object.
    pub closed spec fn spec_font_id(&self) -> ObjId {
        self.id
    }

    /// The subtype, unescaped.
    pub closed spec fn spec_subtype(&self) -> Seq<u8> {
        self.subtype@
    }

    /// The base font, unescaped.
    pub closed spec fn spec_base_font(&self) -> Seq<u8> {
        self.base_font@
    }

    /// The name, unescaped, if the font has one.
    pub closed spec fn spec_name(&self) -> Option<Seq<u8>> {
        opt_view(self.name)
    }

    /// A font with identifier `id`, subtype `subtype` and base font `base_font`.
    pub fn new(id: ObjId, subtype: Vec<u8>, base_font: Vec<u8>) -> (r: Self)
        requires
            is_valid_identifier(subtype@),
            is_valid_identifier(base_font@),
        ensures
            r.spec_obj_id() == id.spec_id(),
            r.spec_subtype() == subtype@,
            r.spec_base_font() == base_font@,
            r.spec_name() == None::<Seq<u8>>,
            r.content() == font_bytes(subtype@, base_font@, None),
    {
        Font {
            id,
            subtype: Identifier::new(subtype),
            base_font: Identifier::new(base_font),
            name: None,
        }
    }

    /// A font like `new` gives that is also known by `name`.
    pub fn named(name: Vec<u8>, id: ObjId, subtype: Vec<u8>, base_font: Vec<u8>) -> (r: Self)
        requires
            is_valid_identifier(name@),
            is_valid_identifier(subtype@),
            is_valid_identifier(base_font@),
        ensures
            r.spec_obj_id() == id.spec_id(),
            r.spec_subtype() == subtype@,
            r.spec_base_font() == base_font@,
            r.spec_name() == Some(name@),
            r.content() == font_bytes(subtype@, base_font@, Some(name@)),
    {
        Font {
            id,
            subtype: Identifier::new(subtype),
            base_font: Identifier::new(base_font),
            name: Some(Identifier::new(name)),
        }
    }

    /// The identifier of the font object.
    pub fn obj_ref(&self) -> (r: ObjId)
        ensures
            r.spec_id() == self.spec_obj_id(),
    {
        self.id.clone()
    }
}

/// The optional `/Name` line of a font.
pub open spec fn font_name_line(name: Option<Seq<u8>>) -> Seq<u8> {
    match name {
        Some(n) => key("Name") + identifier_bytes(n) + "\n".spec_bytes(),
        None => Seq::empty(),
    }
}

/// The dictionary of a font with subtype `subtype`, base font `base` and optional name `name`.
pub open spec fn font_bytes(subtype: Seq<u8>, base: Seq<u8>, name: Option<Seq<u8>>) -> Seq<u8> {
    "<< ".spec_bytes() + key("Type") + key("Font") + "\n".spec_bytes()
        + key("Subtype") + identifier_bytes(subtype) + "\n".spec_bytes()
        + key("BaseFont") + identifier_bytes(base) + "\n".spec_bytes()
        + font_name_line(name) + ">>".spec_bytes() + "\n".spec_bytes()
}

impl Object for Font {
    open spec fn spec_obj_id(&self) -> u64 {
        self.spec_font_id().spec_id()
    }

    open spec fn content(&self) -> Seq<u8> {
        font_bytes(self.spec_subtype(), self.spec_base_font(), self.spec_name())
    }

    fn write_def(&self, out: &mut Vec<u8>) -> (n: usize) {
        write_def_line(&self.id, out)
    }

    fn write_content(&self, out: &mut Vec<u8>) -> (n: usize) {
        let ghost start = out@;
        let first = out.len();
        proof {
            reveal_strlit("Type");
            vstd::string::is_ascii_spec_bytes("Type");
            reveal_strlit("Font");
            vstd::string::is_ascii_spec_bytes("Font");
            reveal_strlit("Subtype");
            vstd::string::is_ascii_spec_bytes("Subtype");
            reveal_strlit("BaseFont");
            vstd::string::is_ascii_spec_bytes("BaseFont");
        }
        push_str(out, "<< ");
        Identifier::from_str("Type").write(out);
        Identifier::from_str("Font").write(out);
        push_str(out, "\n");
        Identifier::from_str("Subtype").write(out);
        self.subtype.write(out);
        push_str(out, "\n");
        Identifier::from_str("BaseFont").write(out);
        self.base_font.write(out);
        push_str(out, "\n");
        write_font_name_line(out, &self.name);
        push_str(out, ">>");
        push_str(out, "\n");
        assert(out@ =~= start + self.content());
        out.len() - first
    }
}

/// Appends the `/Name` line of a font, if it has a name.
fn write_font_name_line(out: &mut Vec<u8>, name: &Option<Identifier>)
    ensures
        final(out)@ == old(out)@ + font_name_line(opt_view(*name)),
{
    let ghost start = out@;
    match name {
        Some(n) => {
            proof {
                reveal_strlit("Name");
                vstd::string::is_ascii_spec_bytes("Name");
            }
            Identifier::from_str("Name").write(out);
            n.write(out);
            push_str(out, "\n");
        },
        None => {},
    }
    assert(out@ =~= start + font_name_line(opt_view(*name)));
}

/// The optional `/Parent` line of a page tree node.
pub open spec fn parent_line(parent: Option<u64>) -> Seq<u8> {
    match parent {
        Some(p) => key("Parent") + ref_bytes(p) + "\n".spec_bytes(),
        None => Seq::empty(),
    }
}

/// The optional `/MediaBox` line of a page tree node.
pub open spec fn mediabox_line(mediabox: Option<Rectangle>) -> Seq<u8> {
    match mediabox {
        Some(r) => key("MediaBox") + r.spec_bytes() + "\n".spec_bytes(),
        None => Seq::empty(),
    }
}

/// A node of the page tree: it lists its kids and counts its pages.
#[derive(Debug)]
pub struct PageTree {
    id: ObjId,
    parent: Option<ObjId>,
    kids: Vec<ObjId>,
    default_mediabox: Option<Rectangle>,
}

impl PageTree {
    /// The identifier of this node.
    pub closed spec fn spec_tree_id(&self) -> ObjId {
        self.id
    }

    /// The number of the parent node, if any.
    pub closed spec fn parent_id(&self) -> Option<u64> {
        parent_number(self.parent)
    }

    /// The default media box of the pages under this node, if any.
    pub closed spec fn spec_mediabox(&self) -> Option<Rectangle> {
        self.default_mediabox
    }

    /// The references of the kids, in order.
    pub closed spec fn kids(&self) -> Seq<ObjId> {
        self.kids@
    }

    /// A node with identifier `obj_id` and no kids, under `parent` if given.
    pub fn new(obj_id: ObjId, parent: Option<&PageTree>) -> (r: Self)
        ensures
            r.spec_obj_id() == obj_id.spec_id(),
            r.kids() == Seq::<ObjId>::empty(),
            r.spec_mediabox() == None::<Rectangle>,
            r.parent_id() == match parent {
                Some(p) => Some(p.spec_obj_id()),
                None => None,
            },
            r.content() == tree_bytes(
                match parent {
                    Some(p) => Some(p.spec_obj_id()),
                    None => None,
                },
                None,
                Seq::empty(),
            ),
    {
        let parent_id = match parent {
            Some(p) => Some(p.obj_ref()),
            None => None,
        };
        PageTree { id: obj_id, parent: parent_id, kids: Vec::new(), default_mediabox: None }
    }

    /// A node like `new` gives, with a default media box for its pages.
    pub fn with_mediabox(obj_id: ObjId, parent: Option<&PageTree>, mediabox: Rectangle) -> (r: Self)
        ensures
            r.spec_obj_id() == obj_id.spec_id(),
            r.kids() == Seq::<ObjId>::empty(),
            r.content() == tree_bytes(
                match parent {
                    Some(p) => Some(p.spec_obj_id()),
                    None => None,
                },
                Some(mediabox),
                Seq::empty(),
            ),
    {
        let mut page_tree = Self::new(obj_id, parent);
        page_tree.default_mediabox = Some(mediabox);
        page_tree
    }

    /// Adds a page as the last kid.
    pub fn add_page(&mut self, page: ObjId)
        ensures
            final(self).kids() == old(self).kids().push(page),
            final(self).spec_obj_id() == old(self).spec_obj_id(),
            final(self).parent_id() == old(self).parent_id(),
            final(self).spec_mediabox() == old(self).spec_mediabox(),
            final(self).content() == tree_bytes(
                old(self).parent_id(),
                old(self).spec_mediabox(),
                old(self).kids().push(page),
            ),
    {
        self.kids.push(page);
    }

    /// The identifier of this node.
    pub fn obj_ref(&self) -> (r: ObjId)
        ensures
            r.spec_id() == self.spec_obj_id(),
    {
        self.id.clone()
    }

    /// Sets the default media box of the pages under this node.
    pub fn set_page_size(&mut self, rect: Rectangle)
        ensures
            final(self).kids() == old(self).kids(),
            final(self).spec_obj_id() == old(self).spec_obj_id(),
            final(self).parent_id() == old(self).parent_id(),
            final(self).spec_mediabox() == Some(rect),
            final(self).content() == tree_bytes(old(self).parent_id(), Some(rect), old(self).kids()),
    {
        self.default_mediabox = Some(rect);
    }
}

/// The dictionary of a page tree node.
pub open spec fn tree_bytes(parent: Option<u64>, mediabox: Option<Rectangle>, kids: Seq<ObjId>) -> Seq<u8> {
    tree_head() + parent_line(parent) + mediabox_line(mediabox) + tree_tail(kids)
}

/// The opening of a page tree dictionary.
pub open spec fn tree_head() -> Seq<u8> {
    "<< ".spec_bytes() + key("Type") + key("Pages") + "\n".spec_bytes()
}

/// The kids and count of a page tree dictionary, and its end.
pub open spec fn tree_tail(kids: Seq<ObjId>) -> Seq<u8> {
    key("Kids") + refs_array_bytes(kids, 6) + "\n".spec_bytes() + key("Count") + dec(kids.len())
        + " >>".spec_bytes() + "\n".spec_bytes()
}

/// The number of the optional parent.
pub open spec fn parent_number(parent: Option<ObjId>) -> Option<u64> {
    match parent {
        Some(p) => Some(p.spec_id()),
        None => None,
    }
}

impl Object for PageTree {
    open spec fn spec_obj_id(&self) -> u64 {
        self.spec_tree_id().spec_id()
    }

    open spec fn content(&self) -> Seq<u8> {
        tree_bytes(self.parent_id(), self.spec_mediabox(), self.kids())
    }

    fn write_def(&self, out: &mut Vec<u8>) -> (n: usize) {
        write_def_line(&self.id, out)
    }

    fn write_content(&self, out: &mut Vec<u8>) -> (n: usize) {
        let ghost start = out@;
        let first = out.len();
        write_tree_head(out);
        write_parent_line(out, &self.parent);
        write_mediabox_line(out, &self.default_mediabox);
        write_tree_tail(out, &self.kids);
        assert(out@ =~= start + self.content());
        out.len() - first
    }
}

/// Appends the opening of a page tree dictionary.
fn write_tree_head(out: &mut Vec<u8>)
    ensures
        final(out)@ == old(out)@ + tree_head(),
{
    let ghost start = out@;
    proof {
        reveal_strlit("Type");
        vstd::string::is_ascii_spec_bytes("Type");
        reveal_strlit("Pages");
        vstd::string::is_ascii_spec_bytes("Pages");
    }
    push_str(out, "<< ");
    Identifier::from_str("Type").write(out);
    Identifier::from_str("Pages").write(out);
    push_str(out, "\n");
    assert(out@ =~= start + tree_head());
}

/// Appends the `/Parent` line, if there is a parent.
fn write_parent_line(out: &mut Vec<u8>, parent: &Option<ObjId>)
    ensures
        final(out)@ == old(out)@ + parent_line(parent_number(*parent)),
{
    let ghost start = out@;
    match parent {
        Some(parent) => {
            proof {
                reveal_strlit("Parent");
                vstd::string::is_ascii_spec_bytes("Parent");
            }
            Identifier::from_str("Parent").write(out);
            parent.write_ref(out);
            push_str(out, "\n");
        },
        None => {},
    }
    assert(out@ =~= start + parent_line(parent_number(*parent)));
}

/// Appends the `/MediaBox` line, if there is a media box.
fn write_mediabox_line(out: &mut Vec<u8>, mediabox: &Option<Rectangle>)
    ensures
        final(out)@ == old(out)@ + mediabox_line(*mediabox),
{
    let ghost start = out@;
    match mediabox {
        Some(rect) => {
            proof {
                reveal_strlit("MediaBox");
                vstd::string::is_ascii_spec_bytes("MediaBox");
            }
            Identifier::from_str("MediaBox").write(out);
            rect.write(out);
            push_str(out, "\n");
        },
        None => {},
    }
    assert(out@ =~= start + mediabox_line(*mediabox));
}

/// Appends the kids, the count and the end of a page tree dictionary.
fn write_tree_tail(out: &mut Vec<u8>, kids: &Vec<ObjId>)
    ensures
        final(out)@ == old(out)@ + tree_tail(kids@),
{
    let ghost start = out@;
    proof {
        reveal_strlit("Kids");
        vstd::string::is_ascii_spec_bytes("Kids");
        reveal_strlit("Count");
        vstd::string::is_ascii_spec_bytes("Count");
    }
    Identifier::from_str("Kids").write(out);
    kids.write_array(out, Some(6));
    push_str(out, "\n");
    Identifier::from_str("Count").write(out);
    push_dec(out, kids.len() as u64);
    push_str(out, " >>");
    push_str(out, "\n");
    assert(out@ =~= start + tree_tail(kids@));
}

/// The dictionary of a catalog whose page tree is object `pages`.
pub open spec fn catalog_bytes(pages: u64) -> Seq<u8> {
    "<< ".spec_bytes() + key("Type") + key("Catalog") + "\n".spec_bytes() + key("Pages")
        + ref_bytes(pages) + " >>".spec_bytes() + "\n".spec_bytes()
}

/// The root of the document hierarchy; it holds the root of the page tree.
#[derive(Debug)]
pub struct Catalog {
    id: ObjId,
    root_page_tree: PageTree,
}

impl Catalog {
    /// The identifier of the catalog.
    pub closed spec fn spec_catalog_id(&self) -> ObjId {
        self.id
    }

    /// The root page tree.
    pub closed spec fn spec_page_tree(&self) -> PageTree {
        self.root_page_tree
    }

    /// A catalog with identifier `obj_ref` over `root_page_tree`.
    pub fn new(obj_ref: ObjId, root_page_tree: PageTree) -> (r: Self)
        ensures
            r.spec_obj_id() == obj_ref.spec_id(),
            r.spec_page_tree() == root_page_tree,
            r.content() == catalog_bytes(root_page_tree.spec_obj_id()),
    {
        Catalog { id: obj_ref, root_page_tree }
    }

    /// The identifier of the catalog.
    pub fn obj_ref(&self) -> (r: ObjId)
        ensures
            r.spec_id() == self.spec_obj_id(),
    {
        self.id.clone()
    }

    /// The root page tree.
    pub fn page_tree(&self) -> (r: &PageTree)
        ensures
            *r == self.spec_page_tree(),
    {
        &self.root_page_tree
    }

    /// Adds a page as the last kid of the root page tree.
    pub fn add_page(&mut self, page: ObjId)
        ensures
            final(self).spec_obj_id() == old(self).spec_obj_id(),
            final(self).spec_page_tree().kids() == old(self).spec_page_tree().kids().push(page),
            final(self).spec_page_tree().spec_obj_id() == old(self).spec_page_tree().spec_obj_id(),
            final(self).spec_page_tree().parent_id() == old(self).spec_page_tree().parent_id(),
            final(self).spec_page_tree().spec_mediabox() == old(self).spec_page_tree().spec_mediabox(),
            final(self).spec_page_tree().content() == tree_bytes(
                old(self).spec_page_tree().parent_id(),
                old(self).spec_page_tree().spec_mediabox(),
                old(self).spec_page_tree().kids().push(page),
            ),
    {
        self.root_page_tree.add_page(page);
    }
}

impl Object for Catalog {
    open spec fn spec_obj_id(&self) -> u64 {
        self.spec_catalog_id().spec_id()
    }

    open spec fn content(&self) -> Seq<u8> {
        catalog_bytes(self.spec_page_tree().spec_obj_id())
    }

    fn write_def(&self, out: &mut Vec<u8>) -> (n: usize) {
        write_def_line(&self.id, out)
    }

    fn write_content(&self, out: &mut Vec<u8>) -> (n: usize) {
        let ghost start = out@;
        let first = out.len();
        proof {
            reveal_strlit("Type");
            vstd::string::is_ascii_spec_bytes("Type");
            reveal_strlit("Catalog");
            vstd::string::is_ascii_spec_bytes("Catalog");
            reveal_strlit("Pages");
            vstd::string::is_ascii_spec_bytes("Pages");
        }
        push_str(out, "<< ");
        Identifier::from_str("Type").write(out);
        Identifier::from_str("Catalog").write(out);
        push_str(out, "\n");
        Identifier::from_str("Pages").write(out);
        self.root_page_tree.obj_ref().write_ref(out);
        push_str(out, " >>");
        push_str(out, "\n");
        assert(out@ =~= start + self.content());
        out.len() - first
    }
}

} // verus!
