//! A document: the catalog, its page tree, the pages and the fonts, written in one pass.

use vstd::prelude::*;
use vstd::string::StringSliceAdditionalSpecFns;
use crate::hierarchy::{tree_bytes, Catalog, Font, PageTree};
use crate::identifier::is_valid_identifier;
use crate::number::Rectangle;
use crate::obj_id::{IdManager, ObjId};
use crate::object::Object;
use crate::page::{image_count, lemma_resolves_unique, resolved, Page};
use crate::writer::{
    blocks_concat, blocks_laid_out, eof_bytes, group_tails, header_bytes, image_bodies, image_ids,
    lemma_tight_push, offsets_of, tight, PdfWriter,
};
use crate::xref::{md5_digest, offsets_bytes, table_bytes, trailer_bytes};

verus! {

/// The number of resource entries over all of `pages`.
pub open spec fn entries_total(pages: Seq<Page>) -> nat
    decreases pages.len(),
{
    if pages.len() == 0 {
        0
    } else {
        entries_total(pages.drop_last()) + pages.last().spec_resources().entries().len()
    }
}

/// The number of images over all of `pages`.
pub open spec fn images_total(pages: Seq<Page>) -> nat
    decreases pages.len(),
{
    if pages.len() == 0 {
        0
    } else {
        images_total(pages.drop_last()) + image_count(pages.last().spec_resources().entries())
    }
}

/// The number of `pages` whose content stream holds operations.
pub open spec fn drawn_total(pages: Seq<Page>) -> nat
    decreases pages.len(),
{
    if pages.len() == 0 {
        0
    } else {
        drawn_total(pages.drop_last()) + if pages.last().spec_contents().ops().len() > 0 {
            1nat
        } else {
            0nat
        }
    }
}

/// The identifiers of the objects page `p` contributes when the allocator stands at `next`:
/// the page, then its images.
pub open spec fn page_ids(p: Page, next: u64) -> Seq<u64> {
    let es = p.spec_resources().entries();
    seq![p.spec_id().spec_id()] + image_ids(es, resolved(es, next))
}

/// The bodies of the objects page `p` contributes when the allocator stands at `next`.
pub open spec fn page_bodies(p: Page, next: u64) -> Seq<Seq<u8>> {
    let es = p.spec_resources().entries();
    seq![p.content(resolved(es, next))] + image_bodies(es, resolved(es, next))
}

/// The identifiers of the objects of all `pages`, images taking identifiers from `next` on.
pub open spec fn pages_ids(pages: Seq<Page>, next: u64) -> Seq<u64>
    decreases pages.len(),
{
    if pages.len() == 0 {
        Seq::empty()
    } else {
        pages_ids(pages.drop_last(), next) + page_ids(
            pages.last(),
            (next + images_total(pages.drop_last())) as u64,
        )
    }
}

/// The bodies of the objects of all `pages`.
pub open spec fn pages_bodies(pages: Seq<Page>, next: u64) -> Seq<Seq<u8>>
    decreases pages.len(),
{
    if pages.len() == 0 {
        Seq::empty()
    } else {
        pages_bodies(pages.drop_last(), next) + page_bodies(
            pages.last(),
            (next + images_total(pages.drop_last())) as u64,
        )
    }
}

/// What follows the `endobj` lines of the objects of all `pages`.
pub open spec fn pages_tails(pages: Seq<Page>) -> Seq<Seq<u8>>
    decreases pages.len(),
{
    if pages.len() == 0 {
        Seq::empty()
    } else {
        pages_tails(pages.drop_last()) + group_tails(
            image_count(pages.last().spec_resources().entries()),
        )
    }
}

/// What follows the `endobj` lines of the content streams of `pages` that hold operations:
/// one blank line each.
pub open spec fn drawn_tails(pages: Seq<Page>) -> Seq<Seq<u8>>
    decreases pages.len(),
{
    if pages.len() == 0 {
        Seq::empty()
    } else {
        drawn_tails(pages.drop_last()) + if pages.last().spec_contents().ops().len() > 0 {
            seq!["\n".spec_bytes()]
        } else {
            Seq::empty()
        }
    }
}

/// What follows the `endobj` lines of `fonts`: one blank line each.
pub open spec fn font_tails(fonts: Seq<Font>) -> Seq<Seq<u8>> {
    Seq::new(fonts.len(), |_i: int| "\n".spec_bytes())
}

/// The identifiers of the content streams of `pages` that hold operations.
pub open spec fn drawn_ids(pages: Seq<Page>) -> Seq<u64>
    decreases pages.len(),
{
    if pages.len() == 0 {
        Seq::empty()
    } else {
        drawn_ids(pages.drop_last()) + if pages.last().spec_contents().ops().len() > 0 {
            seq![pages.last().spec_contents().spec_obj_id()]
        } else {
            Seq::empty()
        }
    }
}

/// The bodies of the content streams of `pages` that hold operations.
pub open spec fn drawn_bodies(pages: Seq<Page>) -> Seq<Seq<u8>>
    decreases pages.len(),
{
    if pages.len() == 0 {
        Seq::empty()
    } else {
        drawn_bodies(pages.drop_last()) + if pages.last().spec_contents().ops().len() > 0 {
            seq![pages.last().spec_contents().content()]
        } else {
            Seq::empty()
        }
    }
}

/// The identifiers of `fonts`.
pub open spec fn font_ids(fonts: Seq<Font>) -> Seq<u64> {
    Seq::new(fonts.len(), |i: int| fonts[i].spec_obj_id())
}

/// The bodies of `fonts`.
pub open spec fn font_bodies(fonts: Seq<Font>) -> Seq<Seq<u8>> {
    Seq::new(fonts.len(), |i: int| fonts[i].content())
}

/// The identifiers of every object of `d`, in write order.
pub open spec fn doc_ids(d: Document) -> Seq<u64> {
    seq![d.spec_catalog().spec_obj_id(), d.spec_catalog().spec_page_tree().spec_obj_id()]
        + pages_ids(d.spec_pages(), d.next_id()) + drawn_ids(d.spec_pages()) + font_ids(d.spec_fonts())
}

/// The bodies of every object of `d`, in write order.
pub open spec fn doc_bodies(d: Document) -> Seq<Seq<u8>> {
    seq![d.spec_catalog().content(), d.spec_catalog().spec_page_tree().content()]
        + pages_bodies(d.spec_pages(), d.next_id()) + drawn_bodies(d.spec_pages()) + font_bodies(
        d.spec_fonts(),
    )
}

/// What follows the `endobj` line of every object of `d`, in write order.
pub open spec fn doc_tails(d: Document) -> Seq<Seq<u8>> {
    seq!["\n".spec_bytes(), "\n".spec_bytes()] + pages_tails(d.spec_pages()) + drawn_tails(
        d.spec_pages(),
    ) + font_tails(d.spec_fonts())
}

/// The bytes of the file that `d` is written as: header, every object block, the table of
/// their offsets, the trailer and the end-of-file marker.
pub open spec fn document_bytes(d: Document) -> Seq<u8> {
    let body = header_bytes() + blocks_concat(doc_ids(d), doc_bodies(d), doc_tails(d));
    let offs = offsets_of(doc_ids(d), doc_bodies(d), doc_tails(d), header_bytes().len());
    body + table_bytes(offs) + trailer_bytes(
        body.len() as usize,
        offs.len() as usize,
        d.spec_catalog().spec_obj_id(),
        md5_digest(offsets_bytes(offs)),
    ) + eof_bytes()
}

/// Writing is deterministic: the bytes depend on the document model alone, so two documents
/// with the same catalog, pages, fonts and allocator state are written identically, and so is
/// one document written twice.
pub proof fn lemma_write_deterministic(a: Document, b: Document)
    requires
        a.spec_catalog() == b.spec_catalog(),
        a.spec_pages() == b.spec_pages(),
        a.spec_fonts() == b.spec_fonts(),
        a.next_id() == b.next_id(),
    ensures
        document_bytes(a) == document_bytes(b),
{
}

/// Counting images never yields more than the entries.
proof fn lemma_image_count_bound(es: Seq<crate::page::ResourceEntry>)
    ensures
        image_count(es) <= es.len(),
    decreases es.len(),
{
    if es.len() > 0 {
        lemma_image_count_bound(es.drop_last());
    }
}

/// Over a prefix of the pages, images never outnumber entries.
proof fn lemma_images_total_bound(pages: Seq<Page>)
    ensures
        images_total(pages) <= entries_total(pages),
    decreases pages.len(),
{
    if pages.len() > 0 {
        lemma_images_total_bound(pages.drop_last());
        lemma_image_count_bound(pages.last().spec_resources().entries());
    }
}

/// One cohesive document of any number of pages.
pub struct Document {
    catalog: Catalog,
    id_manager: IdManager,
    pages: Vec<Page>,
    fonts: Vec<Font>,
}

/// Configures a [`Document`] before it is created, such as its default page size.
pub struct Builder {
    id_manager: IdManager,
    page_size: Option<Rectangle>,
}

impl Builder {
    /// The next identifier the built document will hand out first.
    pub closed spec fn next_id(&self) -> u64 {
        self.id_manager.next()
    }

    /// The default page size, if set.
    pub closed spec fn page_size(&self) -> Option<Rectangle> {
        self.page_size
    }

    /// Sets the default page size of the document.
    pub fn with_page_size(self, media_box: Rectangle) -> (r: Self)
        ensures
            r.next_id() == self.next_id(),
            r.page_size() == Some(media_box),
    {
        Builder { id_manager: self.id_manager, page_size: Some(media_box) }
    }

    /// The configured document: catalog and root page tree take the first two identifiers.
    pub fn build(self) -> (r: Document)
        requires
            self.next_id() + 2 < u64::MAX,
        ensures
            r.spec_pages().len() == 0,
            r.spec_fonts().len() == 0,
            r.spec_catalog().spec_obj_id() == self.next_id(),
            r.spec_catalog().spec_page_tree().spec_obj_id() == self.next_id() + 1,
            r.next_id() == self.next_id() + 2,
            r.spec_catalog().spec_page_tree().content() == tree_bytes(None, self.page_size(), Seq::empty()),
            r.spec_catalog().spec_page_tree().kids() == Seq::<ObjId>::empty(),
            r.spec_catalog().spec_page_tree().parent_id() == None::<u64>,
            r.spec_catalog().spec_page_tree().spec_mediabox() == self.page_size(),
    {
        let mut id_manager = self.id_manager;
        let catalog_id = id_manager.create_id();
        let mut root_page_tree = PageTree::new(id_manager.create_id(), None);
        match self.page_size {
            Some(rect) => root_page_tree.set_page_size(rect),
            None => {},
        }
        let catalog = Catalog::new(catalog_id, root_page_tree);
        Document { catalog, id_manager, pages: Vec::new(), fonts: Vec::new() }
    }
}

impl Document {
    /// The pages, in order.
    pub closed spec fn spec_pages(&self) -> Seq<Page> {
        self.pages@
    }

    /// The fonts, in order.
    pub closed spec fn spec_fonts(&self) -> Seq<Font> {
        self.fonts@
    }

    /// The catalog.
    pub closed spec fn spec_catalog(&self) -> Catalog {
        self.catalog
    }

    /// The next identifier the document hands out.
    pub closed spec fn next_id(&self) -> u64 {
        self.id_manager.next()
    }

    /// An empty document: the catalog is object 1, the root page tree object 2.
    pub fn new() -> (r: Self)
        ensures
            r.spec_pages().len() == 0,
            r.spec_fonts().len() == 0,
            r.spec_catalog().spec_obj_id() == 1,
            r.spec_catalog().spec_page_tree().spec_obj_id() == 2,
            r.next_id() == 3,
            r.spec_catalog().spec_page_tree().content() == tree_bytes(None, None, Seq::empty()),
            r.spec_catalog().spec_page_tree().kids() == Seq::<ObjId>::empty(),
            r.spec_catalog().spec_page_tree().parent_id() == None::<u64>,
            r.spec_catalog().spec_page_tree().spec_mediabox() == None::<Rectangle>,
            r.spec_catalog().content() == crate::hierarchy::catalog_bytes(2),
    {
        Self::builder().build()
    }

    /// A builder for a document with no default page size.
    pub fn builder() -> (r: Builder)
        ensures
            r.next_id() == 1,
            r.page_size() == None::<Rectangle>,
    {
        Builder { id_manager: IdManager::new(), page_size: None }
    }

    /// Creates a new page at the end of the document and returns it.
    pub fn create_page(&mut self) -> (r: &mut Page)
        requires
            old(self).next_id() + 2 < u64::MAX,
        ensures
            r.spec_id().spec_id() == old(self).next_id(),
            r.spec_contents().spec_id().spec_id() == old(self).next_id() + 1,
            r.spec_contents().ops().len() == 0,
            r.spec_resources().entries().len() == 0,
            r.spec_resources().counter() == 0,
            final(self).next_id() == old(self).next_id() + 2,
            final(self).spec_pages() == old(self).spec_pages().push(*final(r)),
            final(self).spec_fonts() == old(self).spec_fonts(),
            final(self).spec_catalog().spec_obj_id() == old(self).spec_catalog().spec_obj_id(),
            final(self).spec_catalog().spec_page_tree().spec_obj_id() == old(
                self,
            ).spec_catalog().spec_page_tree().spec_obj_id(),
            r.spec_parent().spec_id() == old(self).spec_catalog().spec_page_tree().spec_obj_id(),
            r.spec_media_box() == None::<Rectangle>,
            final(self).spec_catalog().spec_page_tree().kids() == old(
                self,
            ).spec_catalog().spec_page_tree().kids().push(r.spec_id()),
            final(self).spec_catalog().spec_page_tree().parent_id() == old(
                self,
            ).spec_catalog().spec_page_tree().parent_id(),
            final(self).spec_catalog().spec_page_tree().spec_mediabox() == old(
                self,
            ).spec_catalog().spec_page_tree().spec_mediabox(),
            final(self).spec_catalog().spec_page_tree().content() == tree_bytes(
                old(self).spec_catalog().spec_page_tree().parent_id(),
                old(self).spec_catalog().spec_page_tree().spec_mediabox(),
                old(self).spec_catalog().spec_page_tree().kids().push(r.spec_id()),
            ),
    {
        let id = self.id_manager.create_id();
        let contents_id = self.id_manager.create_id();
        self.catalog.add_page(id.clone());
        let parent = self.catalog.page_tree().obj_ref();
        self.pages.push(Page::new(id, contents_id, parent));
        let n = self.pages.len();
        &mut self.pages[n - 1]
    }

    /// Creates a font known by `name`, with the given subtype and base font, and returns its
    /// identifier.
    pub fn create_font(&mut self, name: Vec<u8>, subtype: Vec<u8>, base_font: Vec<u8>) -> (r: ObjId)
        requires
            old(self).next_id() + 1 < u64::MAX,
            is_valid_identifier(name@),
            is_valid_identifier(subtype@),
            is_valid_identifier(base_font@),
        ensures
            r.spec_id() == old(self).next_id(),
            final(self).next_id() == old(self).next_id() + 1,
            final(self).spec_fonts().len() == old(self).spec_fonts().len() + 1,
            final(self).spec_fonts().last().spec_obj_id() == r.spec_id(),
            final(self).spec_fonts().last().content() == crate::hierarchy::font_bytes(
                subtype@,
                base_font@,
                Some(name@),
            ),
            final(self).spec_fonts().drop_last() == old(self).spec_fonts(),
            final(self).spec_pages() == old(self).spec_pages(),
            final(self).spec_catalog() == old(self).spec_catalog(),
    {
        let id = self.id_manager.create_id();
        let font = Font::named(name, id.clone(), subtype, base_font);
        self.fonts.push(font);
        assert(self.fonts@.drop_last() =~= old(self).fonts@);
        id
    }

    /// The last page created, if any.
    pub fn current_page(&mut self) -> (r: Option<&mut Page>)
        ensures
            old(self).spec_pages().len() == 0 <==> r is None,
            r is Some ==> *r->0 == old(self).spec_pages().last() && final(self).spec_pages()
                == old(self).spec_pages().update(
                old(self).spec_pages().len() - 1,
                *final(r->0),
            ),
            r is None ==> final(self).spec_pages() == old(self).spec_pages(),
            final(self).spec_fonts() == old(self).spec_fonts(),
            final(self).next_id() == old(self).next_id(),
    {
        let n = self.pages.len();
        if n == 0 {
            None
        } else {
            Some(&mut self.pages[n - 1])
        }
    }

    /// The whole document: header, catalog, page tree, each page followed by its images, the
    /// content streams that hold operations, the fonts, then the cross-reference table, the
    /// trailer and the end-of-file marker.
    #[verifier::rlimit(60)]
    pub fn write(&self) -> (r: Vec<u8>)
        requires
            self.next_id() + entries_total(self.spec_pages()) < u64::MAX,
        ensures
            r@ == document_bytes(*self),
            exists|offs: Seq<usize>, ids: Seq<u64>, bodies: Seq<Seq<u8>>, tails: Seq<Seq<u8>>, x: usize| {
                &&& blocks_laid_out(r@, offs, ids, bodies, tails)
                &&& offs.len() == 2 + self.spec_pages().len() + images_total(self.spec_pages())
                    + drawn_total(self.spec_pages()) + self.spec_fonts().len()
                &&& ids[0] == self.spec_catalog().spec_obj_id()
                &&& bodies[0] == self.spec_catalog().content()
                &&& ids[1] == self.spec_catalog().spec_page_tree().spec_obj_id()
                &&& bodies[1] == self.spec_catalog().spec_page_tree().content()
                &&& offs[0] == header_bytes().len()
                &&& x <= r@.len()
                &&& r@ == r@.subrange(0, x as int) + table_bytes(offs) + trailer_bytes(
                    x,
                    offs.len() as usize,
                    self.spec_catalog().spec_obj_id(),
                    md5_digest(offsets_bytes(offs)),
                ) + eof_bytes()
                &&& r@.subrange(0, header_bytes().len() as int) == header_bytes()
            },
    {
        let mut w = self.start();
        let mut id_manager = self.id_manager.clone();
        self.write_pages(&mut w, &mut id_manager);
        self.write_streams(&mut w);
        self.write_fonts(&mut w);
        proof {
            crate::writer::lemma_one_entry_per_object(&w);
            assert(w.ids() =~= doc_ids(*self));
            assert(w.bodies() =~= doc_bodies(*self));
            assert(w.tails() =~= doc_tails(*self));
        }
        self.finish(w)
    }

    /// A writer that has emitted the header, the catalog and the root page tree.
    fn start(&self) -> (w: PdfWriter)
        ensures
            started(w, self),
            tight(w.spec_output(), w.offsets(), w.ids(), w.bodies(), w.tails(), header_bytes()),
            w.ids() == seq![self.spec_catalog().spec_obj_id(), self.spec_catalog().spec_page_tree().spec_obj_id()],
            w.bodies() == seq![self.spec_catalog().content(), self.spec_catalog().spec_page_tree().content()],
            w.tails() == seq!["\n".spec_bytes(), "\n".spec_bytes()],
    {
        let mut w = PdfWriter::new();
        w.write_header();
        w.write_object(&self.catalog);
        w.write_object(self.catalog.page_tree());
        proof {
            crate::writer::lemma_one_entry_per_object(&w);
            assert(w.spec_output().subrange(0, header_bytes().len() as int) =~= header_bytes());
            assert(w.ids()[0] == self.catalog.spec_obj_id());
            assert(w.ids()[1] == self.catalog.spec_page_tree().spec_obj_id());
            assert(w.bodies()[0] == self.catalog.content());
            assert(w.bodies()[1] == self.catalog.spec_page_tree().content());
            crate::writer::lemma_header_len();
            assert(w.offsets()[0] == header_bytes().len());
        }
        proof {
            let h = header_bytes();
            let nl = "\n".spec_bytes();
            assert(tight(h, Seq::empty(), Seq::empty(), Seq::empty(), Seq::empty(), h)) by {
                assert(h + blocks_concat(Seq::empty(), Seq::empty(), Seq::empty()) =~= h);
            }
            lemma_tight_push(h, Seq::empty(), Seq::empty(), Seq::empty(), Seq::empty(), h, self.catalog.spec_obj_id(), self.catalog.content(), nl);
            let h1 = h + crate::object::block_bytes(self.catalog.spec_obj_id(), self.catalog.content());
            let o1 = Seq::<usize>::empty().push(h.len() as usize);
            let i1 = Seq::<u64>::empty().push(self.catalog.spec_obj_id());
            let b1 = Seq::<Seq<u8>>::empty().push(self.catalog.content());
            let t1 = Seq::<Seq<u8>>::empty().push(nl);
            lemma_tight_push(h1, o1, i1, b1, t1, h, self.catalog.spec_page_tree().spec_obj_id(), self.catalog.spec_page_tree().content(), nl);
            assert(w.ids() =~= i1.push(self.catalog.spec_page_tree().spec_obj_id()));
            assert(tight(w.spec_output(), w.offsets(), w.ids(), w.bodies(), w.tails(), h));
        }
        proof {
            assert(w.ids() =~= seq![self.spec_catalog().spec_obj_id(), self.spec_catalog().spec_page_tree().spec_obj_id()]);
            assert(w.bodies() =~= seq![self.spec_catalog().content(), self.spec_catalog().spec_page_tree().content()]);
            assert(w.tails() =~= seq!["\n".spec_bytes(), "\n".spec_bytes()]);
        }
        w
    }

    /// Emits the cross-reference table, the trailer and the end-of-file marker after the
    /// objects `w` has written, and returns every byte.
    fn finish(&self, w: PdfWriter) -> (r: Vec<u8>)
        requires
            started(w, self),
            tight(w.spec_output(), w.offsets(), w.ids(), w.bodies(), w.tails(), header_bytes()),
        ensures
            r@ == w.spec_output() + table_bytes(w.offsets()) + trailer_bytes(
                w.spec_output().len() as usize,
                w.offsets().len() as usize,
                self.spec_catalog().spec_obj_id(),
                md5_digest(offsets_bytes(w.offsets())),
            ) + eof_bytes(),
            ({
                let x = w.spec_output().len() as usize;
                &&& blocks_laid_out(r@, w.offsets(), w.ids(), w.bodies(), w.tails())
                &&& x <= r@.len()
                &&& r@ == r@.subrange(0, x as int) + table_bytes(w.offsets()) + trailer_bytes(
                    x,
                    w.offsets().len() as usize,
                    self.spec_catalog().spec_obj_id(),
                    md5_digest(offsets_bytes(w.offsets())),
                ) + eof_bytes()
                &&& r@.subrange(0, header_bytes().len() as int) == header_bytes()
            }),
    {
        let mut w = w;
        let ghost start = w;
        proof {
            crate::writer::lemma_output_fits(&w);
            crate::writer::lemma_one_entry_per_object(&w);
        }
        let ghost body_end = w.spec_output();
        w.write_crt();
        let ghost with_table = w.spec_output();
        let root = self.catalog.obj_ref();
        w.write_trailer(&root);
        let ghost with_trailer = w.spec_output();
        w.write_eof();
        proof {
            let x = body_end.len() as usize;
            crate::writer::lemma_blocks(&w);
            assert(w.offsets() == start.offsets());
            assert(w.table_offset()->0 == x);
            assert(with_table == body_end + table_bytes(start.offsets()));
            assert(with_trailer == with_table + trailer_bytes(
                x,
                start.offsets().len() as usize,
                self.spec_catalog().spec_obj_id(),
                md5_digest(offsets_bytes(start.offsets())),
            ));
            assert(w.spec_output() == with_trailer + eof_bytes());
            assert(w.spec_output().subrange(0, x as int) =~= body_end);
            assert(w.spec_output().subrange(0, header_bytes().len() as int) =~= body_end.subrange(0, header_bytes().len() as int));
        }
        w.into_inner()
    }

    /// Writes every page, each followed by its images.
    #[verifier::rlimit(60)]
    fn write_pages(&self, w: &mut PdfWriter, id_manager: &mut IdManager)
        requires
            started(*old(w), self),
            old(id_manager).next() == self.next_id(),
            self.next_id() + entries_total(self.spec_pages()) < u64::MAX,
            tight(old(w).spec_output(), old(w).offsets(), old(w).ids(), old(w).bodies(), old(w).tails(), header_bytes()),
        ensures
            started(*final(w), self),
            tight(final(w).spec_output(), final(w).offsets(), final(w).ids(), final(w).bodies(), final(w).tails(), header_bytes()),
            final(w).ids() == old(w).ids() + pages_ids(self.spec_pages(), self.next_id()),
            final(w).bodies() == old(w).bodies() + pages_bodies(self.spec_pages(), self.next_id()),
            final(w).tails() == old(w).tails() + pages_tails(self.spec_pages()),
            final(w).offsets().len() == old(w).offsets().len() + self.spec_pages().len() + images_total(self.spec_pages()),
    {
        let ghost n0 = w.offsets().len();
        let mut i: usize = 0;
        while i < self.pages.len()
            invariant
                i <= self.pages@.len(),
                started(*w, self),
                w.offsets().len() == n0 + i + images_total(self.pages@.subrange(0, i as int)),
                id_manager.next() == self.id_manager.next() + images_total(self.pages@.subrange(0, i as int)),
                self.id_manager.next() + entries_total(self.pages@) < u64::MAX,
                tight(w.spec_output(), w.offsets(), w.ids(), w.bodies(), w.tails(), header_bytes()),
                w.ids() == old(w).ids() + pages_ids(self.pages@.subrange(0, i as int), self.id_manager.next()),
                w.bodies() == old(w).bodies() + pages_bodies(self.pages@.subrange(0, i as int), self.id_manager.next()),
                w.tails() == old(w).tails() + pages_tails(self.pages@.subrange(0, i as int)),
            decreases self.pages@.len() - i,
        {
            proof {
                let s = self.pages@.subrange(0, i as int + 1);
                assert(s.drop_last() =~= self.pages@.subrange(0, i as int));
                lemma_entries_prefix(self.pages@, i as int);
                lemma_images_total_bound(self.pages@.subrange(0, i as int));
            }
            let ghost before = *w;
            let ghost next_before = id_manager.next();
            let ids = w.write_page(&self.pages[i], id_manager);
            proof {
                let p = self.pages@[i as int];
                let es = p.spec_resources().entries();
                lemma_resolves_unique(es, ids@, next_before);
                lemma_pages_step(
                    self.pages@,
                    i as int,
                    self.id_manager.next(),
                    old(w).ids(),
                    old(w).bodies(),
                    before.ids(),
                    before.bodies(),
                    w.ids(),
                    w.bodies(),
                    ids@,
                );
                lemma_pages_tails_step(self.pages@, i as int, old(w).tails(), before.tails(), w.tails());
                crate::writer::lemma_image_ids_len(self.pages@[i as int].spec_resources().entries(), ids@);
                crate::writer::lemma_one_entry_per_object(w);
                assert(w.ids().subrange(0, before.ids().len() as int) =~= before.ids());
                assert(w.bodies().subrange(0, before.bodies().len() as int) =~= before.bodies());
                assert(w.tails().subrange(0, before.tails().len() as int) =~= before.tails());
                assert(w.offsets().subrange(0, before.offsets().len() as int) =~= before.offsets());
                assert(w.spec_output().subrange(0, before.spec_output().len() as int) =~= before.spec_output());
                lemma_started_extends(before, *w, self);
            }
            i += 1;
        }
        assert(self.pages@.subrange(0, self.pages@.len() as int) =~= self.pages@);
    }

    /// Writes the content stream of every page that holds operations.
    fn write_streams(&self, w: &mut PdfWriter)
        requires
            started(*old(w), self),
            tight(old(w).spec_output(), old(w).offsets(), old(w).ids(), old(w).bodies(), old(w).tails(), header_bytes()),
        ensures
            started(*final(w), self),
            tight(final(w).spec_output(), final(w).offsets(), final(w).ids(), final(w).bodies(), final(w).tails(), header_bytes()),
            final(w).ids() == old(w).ids() + drawn_ids(self.spec_pages()),
            final(w).bodies() == old(w).bodies() + drawn_bodies(self.spec_pages()),
            final(w).tails() == old(w).tails() + drawn_tails(self.spec_pages()),
            final(w).offsets().len() == old(w).offsets().len() + drawn_total(self.spec_pages()),
    {
        let ghost n0 = w.offsets().len();
        let mut j: usize = 0;
        while j < self.pages.len()
            invariant
                j <= self.pages@.len(),
                started(*w, self),
                w.offsets().len() == n0 + drawn_total(self.pages@.subrange(0, j as int)),
                tight(w.spec_output(), w.offsets(), w.ids(), w.bodies(), w.tails(), header_bytes()),
                w.ids() == old(w).ids() + drawn_ids(self.pages@.subrange(0, j as int)),
                w.bodies() == old(w).bodies() + drawn_bodies(self.pages@.subrange(0, j as int)),
                w.tails() == old(w).tails() + drawn_tails(self.pages@.subrange(0, j as int)),
            decreases self.pages@.len() - j,
        {
            proof {
                let s = self.pages@.subrange(0, j as int + 1);
                assert(s.drop_last() =~= self.pages@.subrange(0, j as int));
            }
            let ghost before = *w;
            let cs = self.pages[j].content_stream();
            let ghost s = self.pages@.subrange(0, j as int + 1);
            assert(s.last() == self.pages@[j as int]);
            if !cs.is_empty() {
                w.write_object(cs);
                proof {
                    lemma_tight_push(before.spec_output(), before.offsets(), before.ids(), before.bodies(), before.tails(), header_bytes(), cs.spec_obj_id(), cs.content(), "\n".spec_bytes());
                    assert(w.tails() =~= old(w).tails() + drawn_tails(s));
                    assert(w.ids() =~= old(w).ids() + drawn_ids(s));
                    assert(w.bodies() =~= old(w).bodies() + drawn_bodies(s));
                    crate::writer::lemma_one_entry_per_object(w);
                    assert(w.ids().subrange(0, before.ids().len() as int) =~= before.ids());
                assert(w.bodies().subrange(0, before.bodies().len() as int) =~= before.bodies());
                assert(w.tails().subrange(0, before.tails().len() as int) =~= before.tails());
                assert(w.offsets().subrange(0, before.offsets().len() as int) =~= before.offsets());
                assert(w.spec_output().subrange(0, before.spec_output().len() as int) =~= before.spec_output());
                lemma_started_extends(before, *w, self);
                }
            }
            proof {
                assert(w.ids() =~= old(w).ids() + drawn_ids(s));
                assert(w.bodies() =~= old(w).bodies() + drawn_bodies(s));
                assert(w.tails() =~= old(w).tails() + drawn_tails(s));
            }
            j += 1;
        }
        assert(self.pages@.subrange(0, self.pages@.len() as int) =~= self.pages@);
    }

    /// Writes every font.
    #[verifier::rlimit(60)]
    fn write_fonts(&self, w: &mut PdfWriter)
        requires
            started(*old(w), self),
            tight(old(w).spec_output(), old(w).offsets(), old(w).ids(), old(w).bodies(), old(w).tails(), header_bytes()),
        ensures
            started(*final(w), self),
            tight(final(w).spec_output(), final(w).offsets(), final(w).ids(), final(w).bodies(), final(w).tails(), header_bytes()),
            final(w).ids() == old(w).ids() + font_ids(self.spec_fonts()),
            final(w).bodies() == old(w).bodies() + font_bodies(self.spec_fonts()),
            final(w).tails() == old(w).tails() + font_tails(self.spec_fonts()),
            final(w).offsets().len() == old(w).offsets().len() + self.spec_fonts().len(),
    {
        let ghost n0 = w.offsets().len();
        let mut k: usize = 0;
        while k < self.fonts.len()
            invariant
                k <= self.fonts@.len(),
                started(*w, self),
                w.offsets().len() == n0 + k,
                tight(w.spec_output(), w.offsets(), w.ids(), w.bodies(), w.tails(), header_bytes()),
                w.ids() == old(w).ids() + font_ids(self.fonts@.subrange(0, k as int)),
                w.bodies() == old(w).bodies() + font_bodies(self.fonts@.subrange(0, k as int)),
                w.tails() == old(w).tails() + font_tails(self.fonts@.subrange(0, k as int)),
            decreases self.fonts@.len() - k,
        {
            let ghost before = *w;
            w.write_object(&self.fonts[k]);
            proof {
                let f = self.fonts@[k as int];
                lemma_tight_push(before.spec_output(), before.offsets(), before.ids(), before.bodies(), before.tails(), header_bytes(), f.spec_obj_id(), f.content(), "\n".spec_bytes());
                assert(w.tails() =~= old(w).tails() + font_tails(self.fonts@.subrange(0, k as int + 1)));
                assert(w.ids() =~= old(w).ids() + font_ids(self.fonts@.subrange(0, k as int + 1)));
                assert(w.bodies() =~= old(w).bodies() + font_bodies(self.fonts@.subrange(0, k as int + 1)));
                crate::writer::lemma_one_entry_per_object(w);
                assert(w.ids().subrange(0, before.ids().len() as int) =~= before.ids());
                assert(w.bodies().subrange(0, before.bodies().len() as int) =~= before.bodies());
                assert(w.tails().subrange(0, before.tails().len() as int) =~= before.tails());
                assert(w.offsets().subrange(0, before.offsets().len() as int) =~= before.offsets());
                assert(w.spec_output().subrange(0, before.spec_output().len() as int) =~= before.spec_output());
                lemma_started_extends(before, *w, self);
            }
            k += 1;
        }
        assert(self.fonts@.subrange(0, self.fonts@.len() as int) =~= self.fonts@);
    }
}

/// `a` is a prefix of `b`.
spec fn is_prefix<T>(a: Seq<T>, b: Seq<T>) -> bool {
    a.len() <= b.len() && b.subrange(0, a.len() as int) == a
}

/// The writer has emitted the header, then the catalog and the root page tree of `d`, and
/// can take more objects.
spec fn started(w: PdfWriter, d: &Document) -> bool {
    &&& w.wf()
    &&& w.table_offset() is None
    &&& w.offsets().len() >= 2
    &&& w.ids().len() == w.offsets().len()
    &&& w.bodies().len() == w.offsets().len()
    &&& w.tails().len() == w.offsets().len()
    &&& w.ids()[0] == d.spec_catalog().spec_obj_id()
    &&& w.bodies()[0] == d.spec_catalog().content()
    &&& w.ids()[1] == d.spec_catalog().spec_page_tree().spec_obj_id()
    &&& w.bodies()[1] == d.spec_catalog().spec_page_tree().content()
    &&& w.offsets()[0] == header_bytes().len()
    &&& w.spec_output().len() >= header_bytes().len()
    &&& w.spec_output().subrange(0, header_bytes().len() as int) == header_bytes()
}

/// A writer that only appended to a started one is still started.
proof fn lemma_started_extends(a: PdfWriter, b: PdfWriter, d: &Document)
    requires
        started(a, d),
        b.wf(),
        b.table_offset() is None,
        b.ids().len() == b.offsets().len(),
        b.bodies().len() == b.offsets().len(),
        b.tails().len() == b.offsets().len(),
        is_prefix(a.ids(), b.ids()),
        is_prefix(a.bodies(), b.bodies()),
        is_prefix(a.offsets(), b.offsets()),
        is_prefix(a.spec_output(), b.spec_output()),
    ensures
        started(b, d),
{
    assert(b.ids()[0] == b.ids().subrange(0, a.ids().len() as int)[0]);
    assert(b.ids()[1] == b.ids().subrange(0, a.ids().len() as int)[1]);
    assert(b.bodies()[0] == b.bodies().subrange(0, a.bodies().len() as int)[0]);
    assert(b.bodies()[1] == b.bodies().subrange(0, a.bodies().len() as int)[1]);
    assert(b.offsets()[0] == b.offsets().subrange(0, a.offsets().len() as int)[0]);
    assert(b.spec_output().subrange(0, header_bytes().len() as int) =~= b.spec_output().subrange(
        0,
        a.spec_output().len() as int,
    ).subrange(0, header_bytes().len() as int));
}

/// Writing page `i` extends the identifiers and bodies of the first `i` pages to those of the
/// first `i + 1`.
proof fn lemma_pages_step(
    pages: Seq<Page>,
    i: int,
    next: u64,
    ids0: Seq<u64>,
    bodies0: Seq<Seq<u8>>,
    ids_before: Seq<u64>,
    bodies_before: Seq<Seq<u8>>,
    ids_after: Seq<u64>,
    bodies_after: Seq<Seq<u8>>,
    r: Seq<ObjId>,
)
    requires
        0 <= i < pages.len(),
        ids_before == ids0 + pages_ids(pages.subrange(0, i), next),
        bodies_before == bodies0 + pages_bodies(pages.subrange(0, i), next),
        r == resolved(
            pages[i].spec_resources().entries(),
            (next + images_total(pages.subrange(0, i))) as u64,
        ),
        ids_after == ids_before.push(pages[i].spec_id().spec_id()) + image_ids(
            pages[i].spec_resources().entries(),
            r,
        ),
        bodies_after == bodies_before.push(pages[i].content(r)) + image_bodies(
            pages[i].spec_resources().entries(),
            r,
        ),
    ensures
        ids_after == ids0 + pages_ids(pages.subrange(0, i + 1), next),
        bodies_after == bodies0 + pages_bodies(pages.subrange(0, i + 1), next),
{
    let s = pages.subrange(0, i + 1);
    assert(s.drop_last() =~= pages.subrange(0, i));
    assert(s.last() == pages[i]);
    assert(ids_after =~= ids0 + pages_ids(s, next));
    assert(bodies_after =~= bodies0 + pages_bodies(s, next));
}

/// Writing page `i` extends the tails of the first `i` pages to those of the first `i + 1`.
proof fn lemma_pages_tails_step(
    pages: Seq<Page>,
    i: int,
    tails0: Seq<Seq<u8>>,
    tails_before: Seq<Seq<u8>>,
    tails_after: Seq<Seq<u8>>,
)
    requires
        0 <= i < pages.len(),
        tails_before == tails0 + pages_tails(pages.subrange(0, i)),
        tails_after == tails_before + group_tails(image_count(pages[i].spec_resources().entries())),
    ensures
        tails_after == tails0 + pages_tails(pages.subrange(0, i + 1)),
{
    let s = pages.subrange(0, i + 1);
    assert(s.drop_last() =~= pages.subrange(0, i));
    assert(s.last() == pages[i]);
    assert(tails_after =~= tails0 + pages_tails(s));
}

/// The entries of the first `i + 1` pages are those of the first `i` and of page `i`, and no
/// more than those of all pages.
proof fn lemma_entries_prefix(pages: Seq<Page>, i: int)
    requires
        0 <= i < pages.len(),
    ensures
        entries_total(pages.subrange(0, i + 1)) == entries_total(pages.subrange(0, i))
            + pages[i].spec_resources().entries().len(),
        entries_total(pages.subrange(0, i + 1)) <= entries_total(pages),
    decreases pages.len(),
{
    let s = pages.subrange(0, i + 1);
    assert(s.drop_last() =~= pages.subrange(0, i));
    if i + 1 < pages.len() {
        lemma_entries_prefix(pages.drop_last(), i);
        assert(pages.drop_last().subrange(0, i + 1) =~= s);
        assert(pages.drop_last().subrange(0, i) =~= pages.subrange(0, i));
    } else {
        assert(s =~= pages);
    }
}

} // verus!
