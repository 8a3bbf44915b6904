//! Pages and their resource dictionaries.

use vstd::prelude::*;
use vstd::string::StringSliceAdditionalSpecFns;
use crate::bytes::{dec, push_dec, push_str};
use crate::content::{draw_image_bytes, ContentStream, Image, Text};
use crate::hierarchy::key;
use crate::identifier::Identifier;
use crate::name::{name_bytes, Name};
use crate::number::Rectangle;
use crate::obj_id::{lemma_obj_id_of, obj_id_of, ref_bytes, IdManager, ObjId};

verus! {

/// One named resource of a page.
#[derive(Debug)]
pub enum ResourceEntry {
    /// An image, written as an object of its own when the page is written.
    Image {
        /// The name the content stream paints it by.
        name: Name,
        /// The image.
        image: Image,
    },
    /// A font, written once for the whole document.
    Font {
        /// The name the content stream selects it by.
        name: Name,
        /// The font object.
        id: ObjId,
    },
}

/// Whether an entry is an image.
pub open spec fn is_image(e: ResourceEntry) -> bool {
    e is Image
}

/// The number of images among `es`.
pub open spec fn image_count(es: Seq<ResourceEntry>) -> nat
    decreases es.len(),
{
    if es.len() == 0 {
        0
    } else {
        image_count(es.drop_last()) + if is_image(es.last()) { 1nat } else { 0nat }
    }
}

/// The entry for `e` in the resource dictionary, referring to object `id`.
pub open spec fn entry_ref_bytes(e: ResourceEntry, id: u64) -> Seq<u8> {
    let (kind, name) = match e {
        ResourceEntry::Image { name, .. } => (key("XObject"), name@),
        ResourceEntry::Font { name, .. } => (key("Font"), name@),
    };
    kind + "<< ".spec_bytes() + name_bytes(name) + ref_bytes(id) + " >>".spec_bytes()
}

/// The entries of the resource dictionary, each referring to the matching identifier.
pub open spec fn entries_ref_bytes(es: Seq<ResourceEntry>, ids: Seq<ObjId>) -> Seq<u8>
    decreases es.len(),
{
    if es.len() == 0 || ids.len() == 0 {
        Seq::empty()
    } else {
        entries_ref_bytes(es.drop_last(), ids.drop_last()) + entry_ref_bytes(es.last(), ids.last().spec_id())
    }
}

/// The resource dictionary.
pub open spec fn resources_bytes(es: Seq<ResourceEntry>, ids: Seq<ObjId>) -> Seq<u8> {
    "<< ".spec_bytes() + entries_ref_bytes(es, ids) + " >>".spec_bytes()
}

/// `ids` resolve `es` from an allocator that stood at `next`: a font keeps its own
/// identifier, and the images get fresh identifiers from `next` on, in order.
pub open spec fn resolves(es: Seq<ResourceEntry>, ids: Seq<ObjId>, next: u64) -> bool {
    &&& ids.len() == es.len()
    &&& forall|i: int|
        0 <= i < es.len() ==> match #[trigger] es[i] {
            ResourceEntry::Image { .. } => ids[i].spec_id() == next + image_count(es.subrange(0, i)),
            ResourceEntry::Font { id, .. } => ids[i] == id,
        }
}

/// The identifiers that resolve `es` from an allocator standing at `next`.
pub open spec fn resolved(es: Seq<ResourceEntry>, next: u64) -> Seq<ObjId> {
    Seq::new(
        es.len(),
        |i: int|
            match es[i] {
                ResourceEntry::Image { .. } => obj_id_of((next + image_count(es.subrange(0, i))) as u64),
                ResourceEntry::Font { id, .. } => id,
            },
    )
}

/// Resolution is unique: the identifiers that resolve `es` are `resolved(es, next)`.
pub proof fn lemma_resolves_unique(es: Seq<ResourceEntry>, ids: Seq<ObjId>, next: u64)
    requires
        resolves(es, ids, next),
    ensures
        ids == resolved(es, next),
{
    let r = resolved(es, next);
    assert forall|i: int| 0 <= i < es.len() implies ids[i] == r[i] by {
        match es[i] {
            ResourceEntry::Image { .. } => {
                lemma_obj_id_of((next + image_count(es.subrange(0, i))) as u64, ids[i]);
            },
            ResourceEntry::Font { .. } => {},
        }
    }
    assert(ids =~= r);
}

/// The named resources a page's content refers to.
#[derive(Debug)]
pub struct Resources {
    counter: u64,
    entries: Vec<ResourceEntry>,
}

impl Resources {
    /// The entries, in the order they were added.
    pub closed spec fn entries(&self) -> Seq<ResourceEntry> {
        self.entries@
    }

    /// The number of names handed out so far.
    pub closed spec fn counter(&self) -> u64 {
        self.counter
    }

    /// No resources.
    pub fn new() -> (r: Self)
        ensures
            r.entries() == Seq::<ResourceEntry>::empty(),
            r.counter() == 0,
    {
        Resources { counter: 0, entries: Vec::new() }
    }

    /// A fresh name: `prefix` followed by the next number.
    fn create_name(&mut self, prefix: &str) -> (r: Name)
        requires
            old(self).counter() < u64::MAX,
            prefix.spec_bytes().len() > 0,
            !prefix.spec_bytes().contains(47u8),
        ensures
            final(self).counter() == old(self).counter() + 1,
            final(self).entries() == old(self).entries(),
            r@ == prefix.spec_bytes() + dec(final(self).counter() as nat),
    {
        self.counter = self.counter + 1;
        let mut v: Vec<u8> = Vec::new();
        push_str(&mut v, prefix);
        push_dec(&mut v, self.counter);
        proof {
            crate::number::lemma_dec_digits(self.counter as nat);
            assert forall|k: int| 0 <= k < v@.len() implies v@[k] != 47u8 by {
                if k < prefix.spec_bytes().len() {
                    assert(v@[k] == prefix.spec_bytes()[k]);
                } else {
                    assert(v@[k] == dec(self.counter as nat)[k - prefix.spec_bytes().len()]);
                }
            }
        }
        Name::new(v)
    }

    /// Adds an image under a fresh name `Im<n>` and returns the name.
    pub fn add_image(&mut self, image: Image) -> (r: Name)
        requires
            old(self).counter() < u64::MAX,
        ensures
            final(self).counter() == old(self).counter() + 1,
            final(self).entries().len() == old(self).entries().len() + 1,
            final(self).entries().drop_last() == old(self).entries(),
            final(self).entries().last() is Image,
            r@ == "Im".spec_bytes() + dec(final(self).counter() as nat),
            (match final(self).entries().last() {
                ResourceEntry::Image { name, .. } => name@ == r@,
                _ => false,
            }),
    {
        proof {
            reveal_strlit("Im");
            vstd::string::is_ascii_spec_bytes("Im");
        }
        let name = self.create_name("Im");
        let r = name.clone();
        self.entries.push(ResourceEntry::Image { name, image });
        assert(self.entries@.drop_last() =~= old(self).entries@);
        r
    }

    /// Adds a font under a fresh name `F<n>` and returns the name.
    pub fn add_font(&mut self, font_id: ObjId) -> (r: Name)
        requires
            old(self).counter() < u64::MAX,
        ensures
            final(self).counter() == old(self).counter() + 1,
            final(self).entries().len() == old(self).entries().len() + 1,
            final(self).entries().drop_last() == old(self).entries(),
            r@ == "F".spec_bytes() + dec(final(self).counter() as nat),
            (match final(self).entries().last() {
                ResourceEntry::Font { name, id } => name@ == r@ && id == font_id,
                _ => false,
            }),
    {
        proof {
            reveal_strlit("F");
            vstd::string::is_ascii_spec_bytes("F");
        }
        let name = self.create_name("F");
        let r = name.clone();
        self.entries.push(ResourceEntry::Font { name, id: font_id });
        assert(self.entries@.drop_last() =~= old(self).entries@);
        r
    }
}

impl Resources {
    /// Resolves the identifiers of the entries: a font keeps its own identifier, each image
    /// gets a fresh one from `id_manager`, in order.
    pub fn renderables(&self, id_manager: &mut IdManager) -> (r: Vec<ObjId>)
        requires
            old(id_manager).next() + self.entries().len() < u64::MAX,
        ensures
            resolves(self.entries(), r@, old(id_manager).next()),
            final(id_manager).next() == old(id_manager).next() + image_count(self.entries()),
    {
        let ghost next0 = id_manager.next();
        let ghost es = self.entries@;
        let mut ids: Vec<ObjId> = Vec::new();
        let mut i: usize = 0;
        while i < self.entries.len()
            invariant
                i <= es.len(),
                es == self.entries@,
                next0 + es.len() < u64::MAX,
                id_manager.next() == next0 + image_count(es.subrange(0, i as int)),
                image_count(es.subrange(0, i as int)) <= i,
                resolves(es.subrange(0, i as int), ids@, next0),
            decreases es.len() - i,
        {
            proof {
                let s = es.subrange(0, i as int + 1);
                assert(s.drop_last() =~= es.subrange(0, i as int));
            }
            let id = match &self.entries[i] {
                ResourceEntry::Image { .. } => id_manager.create_id(),
                ResourceEntry::Font { id, .. } => id.clone(),
            };
            ids.push(id);
            proof {
                let s = es.subrange(0, i as int + 1);
                assert forall|k: int| 0 <= k < s.len() implies match #[trigger] s[k] {
                    ResourceEntry::Image { .. } => ids@[k].spec_id() == next0 + image_count(s.subrange(0, k)),
                    ResourceEntry::Font { id, .. } => ids@[k] == id,
                } by {
                    if k < i {
                        assert(s[k] == es.subrange(0, i as int)[k]);
                        assert(s.subrange(0, k) =~= es.subrange(0, i as int).subrange(0, k));
                    } else {
                        assert(s.subrange(0, k) =~= es.subrange(0, i as int));
                    }
                }
            }
            i += 1;
        }
        assert(es.subrange(0, es.len() as int) =~= es);
        ids
    }

    /// The entry at `i`.
    pub fn entry(&self, i: usize) -> (r: &ResourceEntry)
        requires
            i < self.entries().len(),
        ensures
            *r == self.entries()[i as int],
    {
        &self.entries[i]
    }

    /// The number of entries.
    pub fn len(&self) -> (r: usize)
        ensures
            r == self.entries().len(),
    {
        self.entries.len()
    }

    /// Appends the resource dictionary, each entry referring to the matching identifier.
    pub fn write_dict(&self, out: &mut Vec<u8>, ids: &Vec<ObjId>) -> (n: usize)
        requires
            ids@.len() == self.entries().len(),
        ensures
            final(out)@ == old(out)@ + resources_bytes(self.entries(), ids@),
            n == resources_bytes(self.entries(), ids@).len(),
    {
        let ghost start = out@;
        let first = out.len();
        push_str(out, "<< ");
        let ghost head = out@;
        let mut i: usize = 0;
        while i < self.entries.len()
            invariant
                i <= self.entries@.len(),
                ids@.len() == self.entries@.len(),
                out@ == head + entries_ref_bytes(
                    self.entries@.subrange(0, i as int),
                    ids@.subrange(0, i as int),
                ),
            decreases self.entries@.len() - i,
        {
            write_entry_ref(out, &self.entries[i], &ids[i]);
            proof {
                let s = self.entries@.subrange(0, i as int + 1);
                let t = ids@.subrange(0, i as int + 1);
                assert(s.drop_last() =~= self.entries@.subrange(0, i as int));
                assert(t.drop_last() =~= ids@.subrange(0, i as int));
            }
            i += 1;
        }
        assert(self.entries@.subrange(0, self.entries@.len() as int) =~= self.entries@);
        assert(ids@.subrange(0, ids@.len() as int) =~= ids@);
        push_str(out, " >>");
        assert(out@ =~= start + resources_bytes(self.entries(), ids@));
        out.len() - first
    }
}

/// Appends one entry of a resource dictionary.
fn write_entry_ref(out: &mut Vec<u8>, e: &ResourceEntry, id: &ObjId)
    ensures
        final(out)@ == old(out)@ + entry_ref_bytes(*e, id.spec_id()),
{
    let ghost start = out@;
    let name = match e {
        ResourceEntry::Image { name, .. } => {
            proof {
                reveal_strlit("XObject");
                vstd::string::is_ascii_spec_bytes("XObject");
            }
            Identifier::from_str("XObject").write(out);
            name
        },
        ResourceEntry::Font { name, .. } => {
            proof {
                reveal_strlit("Font");
                vstd::string::is_ascii_spec_bytes("Font");
            }
            Identifier::from_str("Font").write(out);
            name
        },
    };
    push_str(out, "<< ");
    name.write(out);
    id.write_ref(out);
    push_str(out, " >>");
    assert(out@ =~= start + entry_ref_bytes(*e, id.spec_id()));
}

/// The opening of a page dictionary, with its parent.
pub open spec fn page_head(parent: u64) -> Seq<u8> {
    "<< ".spec_bytes() + key("Type") + key("Page") + "\n".spec_bytes() + key("Parent")
        + ref_bytes(parent) + "\n".spec_bytes()
}

/// The optional `/MediaBox` entry of a page.
pub open spec fn page_mediabox(media_box: Option<Rectangle>) -> Seq<u8> {
    match media_box {
        Some(r) => key("MediaBox") + r.spec_bytes(),
        None => Seq::empty(),
    }
}

/// The `/Contents` line of a page, present when its content stream holds operations.
pub open spec fn page_contents(cs: ContentStream) -> Seq<u8> {
    if cs.ops().len() == 0 {
        Seq::empty()
    } else {
        key("Contents") + ref_bytes(cs.spec_id().spec_id()) + "\n".spec_bytes()
    }
}

/// A page: a leaf of the page tree with its resources, media box and content stream.
#[derive(Debug)]
pub struct Page {
    id: ObjId,
    parent: ObjId,
    resources: Resources,
    media_box: Option<Rectangle>,
    contents: ContentStream,
}

impl Page {
    /// The identifier of the page object.
    pub closed spec fn spec_id(&self) -> ObjId {
        self.id
    }

    /// The resources of the page.
    pub closed spec fn spec_resources(&self) -> Resources {
        self.resources
    }

    /// The content stream of the page.
    pub closed spec fn spec_contents(&self) -> ContentStream {
        self.contents
    }

    /// The page tree node the page belongs to.
    pub closed spec fn spec_parent(&self) -> ObjId {
        self.parent
    }

    /// The media box of the page, if set.
    pub closed spec fn spec_media_box(&self) -> Option<Rectangle> {
        self.media_box
    }

    /// The body of the page object when its resources resolve to `ids`.
    #[verifier::opaque]
    pub open spec fn content(&self, ids: Seq<ObjId>) -> Seq<u8> {
        page_head(self.spec_parent().spec_id()) + key("Resources") + resources_bytes(
            self.spec_resources().entries(),
            ids,
        ) + "\n".spec_bytes() + page_mediabox(self.spec_media_box()) + page_contents(
            self.spec_contents(),
        ) + ">>".spec_bytes() + "\n".spec_bytes()
    }

    /// A blank page with identifier `id`, content stream `contents_id`, under `parent`.
    pub fn new(id: ObjId, contents_id: ObjId, parent: ObjId) -> (r: Self)
        ensures
            r.spec_id() == id,
            r.spec_resources().entries() == Seq::<ResourceEntry>::empty(),
            r.spec_resources().counter() == 0,
            r.spec_contents().ops() == Seq::<u8>::empty(),
            r.spec_contents().spec_id() == contents_id,
            r.spec_parent() == parent,
            r.spec_media_box() == None::<Rectangle>,
    {
        Page {
            id,
            parent,
            resources: Resources::new(),
            media_box: None,
            contents: ContentStream::new(contents_id),
        }
    }

    /// Sets the media box of the page.
    pub fn set_mediabox(&mut self, media_box: Rectangle)
        ensures
            final(self).spec_id() == old(self).spec_id(),
            final(self).spec_resources() == old(self).spec_resources(),
            final(self).spec_contents() == old(self).spec_contents(),
            final(self).spec_parent() == old(self).spec_parent(),
            final(self).spec_media_box() == Some(media_box),
    {
        self.media_box = Some(media_box);
    }

    /// The identifier of the page object.
    pub fn obj_ref(&self) -> (r: ObjId)
        ensures
            r == self.spec_id(),
    {
        self.id.clone()
    }

    /// Adds an image resource and the operations that paint it.
    pub fn add_image(&mut self, image: Image)
        requires
            old(self).spec_resources().counter() < u64::MAX,
        ensures
            final(self).spec_id() == old(self).spec_id(),
            final(self).spec_resources().counter() == old(self).spec_resources().counter() + 1,
            final(self).spec_resources().entries().len() == old(self).spec_resources().entries().len() + 1,
            final(self).spec_resources().entries().drop_last() == old(self).spec_resources().entries(),
            final(self).spec_resources().entries().last() is Image,
            final(self).spec_contents().spec_id() == old(self).spec_contents().spec_id(),
            final(self).spec_contents().ops() == old(self).spec_contents().ops() + draw_image_bytes(
                "Im".spec_bytes() + dec(final(self).spec_resources().counter() as nat),
                image.spec_transform(),
            ),
            final(self).spec_parent() == old(self).spec_parent(),
            final(self).spec_media_box() == old(self).spec_media_box(),
    {
        let transform = image.transform();
        let name = self.resources.add_image(image);
        self.contents.draw_image(&name, &transform);
        assert(transform.position.x@ == image.spec_transform().position.x@);
        assert(draw_image_bytes(name@, transform) =~= draw_image_bytes(name@, image.spec_transform()));
    }

    /// Adds a font resource and the operations that show `text` in it.
    pub fn add_text(&mut self, text: Text, font_id: ObjId)
        requires
            old(self).spec_resources().counter() < u64::MAX,
            text.wf(),
        ensures
            final(self).spec_id() == old(self).spec_id(),
            final(self).spec_resources().counter() == old(self).spec_resources().counter() + 1,
            final(self).spec_resources().entries().len() == old(self).spec_resources().entries().len() + 1,
            final(self).spec_resources().entries().drop_last() == old(self).spec_resources().entries(),
            final(self).spec_resources().entries().last() is Font,
            final(self).spec_contents().spec_id() == old(self).spec_contents().spec_id(),
            final(self).spec_contents().ops() == old(self).spec_contents().ops() + text.spec_bytes(
                "F".spec_bytes() + dec(final(self).spec_resources().counter() as nat),
            ),
            final(self).spec_parent() == old(self).spec_parent(),
            final(self).spec_media_box() == old(self).spec_media_box(),
    {
        let name = self.resources.add_font(font_id);
        self.contents.draw_text(&text, &name);
    }

    /// The content stream of the page.
    pub fn content_stream(&self) -> (r: &ContentStream)
        ensures
            *r == self.spec_contents(),
    {
        &self.contents
    }

    /// The resources of the page.
    pub fn resources(&self) -> (r: &Resources)
        ensures
            *r == self.spec_resources(),
    {
        &self.resources
    }

    /// Appends the body of the page object, its resources resolving to `ids`.
    #[verifier::rlimit(30)]
    pub fn write_content(&self, out: &mut Vec<u8>, ids: &Vec<ObjId>) -> (n: usize)
        requires
            ids@.len() == self.spec_resources().entries().len(),
        ensures
            final(out)@ == old(out)@ + self.content(ids@),
            n == self.content(ids@).len(),
    {
        let ghost start = out@;
        let first = out.len();
        write_page_head(out, &self.parent);
        let ghost after_head = out@;
        proof {
            reveal_strlit("Resources");
            vstd::string::is_ascii_spec_bytes("Resources");
        }
        Identifier::from_str("Resources").write(out);
        self.resources.write_dict(out, ids);
        push_str(out, "\n");
        assert(out@ =~= after_head + key("Resources") + resources_bytes(self.resources.entries(), ids@) + "\n".spec_bytes());
        let ghost after_resources = out@;
        write_page_mediabox(out, &self.media_box);
        write_page_contents(out, &self.contents);
        push_str(out, ">>");
        push_str(out, "\n");
        assert(out@ =~= after_resources + page_mediabox(self.media_box) + page_contents(self.contents) + ">>".spec_bytes() + "\n".spec_bytes());
        reveal(Page::content);
        assert(out@ =~= start + self.content(ids@));
        out.len() - first
    }
}

/// Appends the `/MediaBox` entry of a page, if it has one.
fn write_page_mediabox(out: &mut Vec<u8>, media_box: &Option<Rectangle>)
    ensures
        final(out)@ == old(out)@ + page_mediabox(*media_box),
{
    let ghost start = out@;
    match media_box {
        Some(rect) => {
            proof {
                reveal_strlit("MediaBox");
                vstd::string::is_ascii_spec_bytes("MediaBox");
            }
            Identifier::from_str("MediaBox").write(out);
            rect.write(out);
        },
        None => {},
    }
    assert(out@ =~= start + page_mediabox(*media_box));
}

/// Appends the `/Contents` line of a page, if its content stream holds operations.
fn write_page_contents(out: &mut Vec<u8>, contents: &ContentStream)
    ensures
        final(out)@ == old(out)@ + page_contents(*contents),
{
    let ghost start = out@;
    if !contents.is_empty() {
        proof {
            reveal_strlit("Contents");
            vstd::string::is_ascii_spec_bytes("Contents");
        }
        Identifier::from_str("Contents").write(out);
        contents.obj_ref().write_ref(out);
        push_str(out, "\n");
    }
    assert(out@ =~= start + page_contents(*contents));
}

/// Appends the opening of a page dictionary.
fn write_page_head(out: &mut Vec<u8>, parent: &ObjId)
    ensures
        final(out)@ == old(out)@ + page_head(parent.spec_id()),
{
    let ghost start = out@;
    proof {
        reveal_strlit("Type");
        vstd::string::is_ascii_spec_bytes("Type");
        reveal_strlit("Page");
        vstd::string::is_ascii_spec_bytes("Page");
        reveal_strlit("Parent");
        vstd::string::is_ascii_spec_bytes("Parent");
    }
    push_str(out, "<< ");
    Identifier::from_str("Type").write(out);
    Identifier::from_str("Page").write(out);
    push_str(out, "\n");
    Identifier::from_str("Parent").write(out);
    parent.write_ref(out);
    push_str(out, "\n");
    assert(out@ =~= start + page_head(parent.spec_id()));
}

} // verus!
