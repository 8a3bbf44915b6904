//! The incremental writer: it emits the header, object blocks, the cross-reference table, the
//! trailer and the end-of-file marker in one forward pass, noting the offset of every object
//! before its first byte goes out.

use vstd::prelude::*;
use vstd::string::StringSliceAdditionalSpecFns;
use crate::bytes::{push_bytes, push_str};
use crate::obj_id::{def_bytes, IdManager, ObjId};
use crate::page::{image_count, resolves, Page, ResourceEntry};
use crate::object::{block_bytes, def_line, end_line, framed, write_def_line, Object};
use crate::xref::{md5_digest, offsets_bytes, table_bytes, trailer_bytes, CrossReferenceTable};

verus! {

/// The header line that opens every document.
pub open spec fn header_bytes() -> Seq<u8> {
    "%PDF-2.0\n".spec_bytes()
}

/// The end-of-file marker.
pub open spec fn eof_bytes() -> Seq<u8> {
    "%%EOF".spec_bytes()
}

/// `out` holds, at `offset`, the block of object `id` with body `body`, followed by `tail`.
pub open spec fn block_at(out: Seq<u8>, offset: usize, id: u64, body: Seq<u8>, tail: Seq<u8>) -> bool {
    &&& offset + framed(id, body, tail).len() <= out.len()
    &&& out.subrange(offset as int, offset + framed(id, body, tail).len()) == framed(id, body, tail)
}

/// Every recorded offset starts the block of the matching object, and the blocks follow one
/// another in the order recorded without overlapping.
pub open spec fn blocks_laid_out(
    out: Seq<u8>,
    offsets: Seq<usize>,
    ids: Seq<u64>,
    bodies: Seq<Seq<u8>>,
    tails: Seq<Seq<u8>>,
) -> bool {
    &&& offsets.len() == ids.len()
    &&& offsets.len() == bodies.len()
    &&& offsets.len() == tails.len()
    &&& forall|i: int|
        0 <= i < offsets.len() ==> #[trigger] block_at(out, offsets[i], ids[i], bodies[i], tails[i])
    &&& forall|i: int, j: int|
        0 <= i < j < offsets.len() ==> offsets[i] + framed(ids[i], bodies[i], tails[i]).len()
            <= #[trigger] offsets[j] && #[trigger] offsets[i] < offsets[j]
}

/// Appending bytes keeps every block where it was.
proof fn lemma_blocks_extend(
    out: Seq<u8>,
    extra: Seq<u8>,
    offsets: Seq<usize>,
    ids: Seq<u64>,
    bodies: Seq<Seq<u8>>,
    tails: Seq<Seq<u8>>,
)
    requires
        blocks_laid_out(out, offsets, ids, bodies, tails),
    ensures
        blocks_laid_out(out + extra, offsets, ids, bodies, tails),
{
    assert forall|i: int| 0 <= i < offsets.len() implies #[trigger] block_at(
        out + extra,
        offsets[i],
        ids[i],
        bodies[i],
        tails[i],
    ) by {
        assert(block_at(out, offsets[i], ids[i], bodies[i], tails[i]));
        let b = framed(ids[i], bodies[i], tails[i]);
        assert((out + extra).subrange(offsets[i] as int, offsets[i] + b.len()) =~= out.subrange(
            offsets[i] as int,
            offsets[i] + b.len(),
        ));
    }
}

/// Appending a block at the end records it after all earlier ones.
proof fn lemma_blocks_push(
    out: Seq<u8>,
    offsets: Seq<usize>,
    ids: Seq<u64>,
    bodies: Seq<Seq<u8>>,
    tails: Seq<Seq<u8>>,
    id: u64,
    body: Seq<u8>,
    tail: Seq<u8>,
)
    requires
        blocks_laid_out(out, offsets, ids, bodies, tails),
        out.len() <= usize::MAX,
    ensures
        blocks_laid_out(
            out + framed(id, body, tail),
            offsets.push(out.len() as usize),
            ids.push(id),
            bodies.push(body),
            tails.push(tail),
        ),
{
    let b = framed(id, body, tail);
    let out2 = out + b;
    let offs2 = offsets.push(out.len() as usize);
    let ids2 = ids.push(id);
    let bodies2 = bodies.push(body);
    let tails2 = tails.push(tail);
    lemma_blocks_extend(out, b, offsets, ids, bodies, tails);
    assert(out2.subrange(out.len() as int, out.len() + b.len() as int) =~= b);
    assert forall|i: int| 0 <= i < offs2.len() implies #[trigger] block_at(
        out2,
        offs2[i],
        ids2[i],
        bodies2[i],
        tails2[i],
    ) by {
        if i < offsets.len() {
            assert(block_at(out2, offsets[i], ids[i], bodies[i], tails[i]));
        }
    }
    assert forall|i: int, j: int| 0 <= i < j < offs2.len() implies offs2[i] + framed(
        ids2[i],
        bodies2[i],
        tails2[i],
    ).len() <= #[trigger] offs2[j] && #[trigger] offs2[i] < offs2[j] by {
        if j < offsets.len() {
            assert(offsets[i] + framed(ids[i], bodies[i], tails[i]).len() <= offsets[j]);
        } else {
            assert(block_at(out, offsets[i], ids[i], bodies[i], tails[i]));
            assert(framed(ids[i], bodies[i], tails[i]).len() > 0) by {
                assert(def_line(ids[i]).len() > 0) by {
                    crate::bytes::lemma_dec_nonempty(ids[i] as nat);
                }
            }
        }
    }
}

/// Bytes appended right after the last block can be counted as part of that block's tail.
proof fn lemma_blocks_grow_last(
    out: Seq<u8>,
    extra: Seq<u8>,
    offsets: Seq<usize>,
    ids: Seq<u64>,
    bodies: Seq<Seq<u8>>,
    tails: Seq<Seq<u8>>,
)
    requires
        blocks_laid_out(out, offsets, ids, bodies, tails),
        offsets.len() > 0,
        offsets.last() + framed(ids.last(), bodies.last(), tails.last()).len() == out.len(),
    ensures
        blocks_laid_out(
            out + extra,
            offsets,
            ids,
            bodies,
            tails.update(tails.len() - 1, tails.last() + extra),
        ),
{
    let n = offsets.len() - 1;
    let tails2 = tails.update(n, tails.last() + extra);
    let out2 = out + extra;
    lemma_blocks_extend(out, extra, offsets, ids, bodies, tails);
    assert forall|i: int| 0 <= i < offsets.len() implies #[trigger] block_at(
        out2,
        offsets[i],
        ids[i],
        bodies[i],
        tails2[i],
    ) by {
        if i == n {
            assert(block_at(out, offsets[i], ids[i], bodies[i], tails[i]));
            let b = framed(ids[i], bodies[i], tails[i]);
            assert(framed(ids[i], bodies[i], tails2[i]) =~= b + extra);
            assert(out2.subrange(offsets[i] as int, offsets[i] + b.len() + extra.len()) =~= out.subrange(
                offsets[i] as int,
                offsets[i] + b.len(),
            ) + extra);
        } else {
            assert(block_at(out2, offsets[i], ids[i], bodies[i], tails[i]));
        }
    }
    assert forall|i: int, j: int| 0 <= i < j < offsets.len() implies offsets[i] + framed(
        ids[i],
        bodies[i],
        tails2[i],
    ).len() <= #[trigger] offsets[j] && #[trigger] offsets[i] < offsets[j] by {
        assert(offsets[i] + framed(ids[i], bodies[i], tails[i]).len() <= offsets[j]);
    }
}

/// The blocks of the image objects among `es`, each with its identifier from `ids`, one right
/// after another with no blank line between them.
pub open spec fn image_blocks(es: Seq<ResourceEntry>, ids: Seq<ObjId>) -> Seq<u8>
    decreases es.len(),
{
    if es.len() == 0 || ids.len() == 0 {
        Seq::empty()
    } else {
        image_blocks(es.drop_last(), ids.drop_last()) + match es.last() {
            ResourceEntry::Image { image, .. } => framed(ids.last().spec_id(), image.content(), Seq::empty()),
            ResourceEntry::Font { .. } => Seq::empty(),
        }
    }
}

/// The identifiers of the image objects among `es`.
pub open spec fn image_ids(es: Seq<ResourceEntry>, ids: Seq<ObjId>) -> Seq<u64>
    decreases es.len(),
{
    if es.len() == 0 || ids.len() == 0 {
        Seq::empty()
    } else {
        image_ids(es.drop_last(), ids.drop_last()) + match es.last() {
            ResourceEntry::Image { .. } => seq![ids.last().spec_id()],
            ResourceEntry::Font { .. } => Seq::empty(),
        }
    }
}

/// The bodies of the image objects among `es`.
pub open spec fn image_bodies(es: Seq<ResourceEntry>, ids: Seq<ObjId>) -> Seq<Seq<u8>>
    decreases es.len(),
{
    if es.len() == 0 || ids.len() == 0 {
        Seq::empty()
    } else {
        image_bodies(es.drop_last(), ids.drop_last()) + match es.last() {
            ResourceEntry::Image { image, .. } => seq![image.content()],
            ResourceEntry::Font { .. } => Seq::empty(),
        }
    }
}

/// Each image entry contributes one identifier.
pub proof fn lemma_image_ids_len(es: Seq<ResourceEntry>, ids: Seq<ObjId>)
    requires
        ids.len() == es.len(),
    ensures
        image_ids(es, ids).len() == image_count(es),
        image_bodies(es, ids).len() == image_count(es),
    decreases es.len(),
{
    if es.len() > 0 {
        lemma_image_ids_len(es.drop_last(), ids.drop_last());
    }
}

/// What follows the `endobj` lines of a page and its `k` images: a blank line after the page,
/// nothing between the images, and one newline closing the group.
pub open spec fn group_tails(k: nat) -> Seq<Seq<u8>> {
    Seq::new(
        k + 1,
        |i: int|
            (if i == 0 {
                "\n".spec_bytes()
            } else {
                Seq::empty()
            }) + (if i == k {
                "\n".spec_bytes()
            } else {
                Seq::empty()
            }),
    )
}

/// The blocks of objects `ids` with bodies `bodies` and tails `tails`, one after another.
pub open spec fn blocks_concat(ids: Seq<u64>, bodies: Seq<Seq<u8>>, tails: Seq<Seq<u8>>) -> Seq<u8>
    decreases ids.len(),
{
    if ids.len() == 0 || bodies.len() == 0 || tails.len() == 0 {
        Seq::empty()
    } else {
        blocks_concat(ids.drop_last(), bodies.drop_last(), tails.drop_last()) + framed(
            ids.last(),
            bodies.last(),
            tails.last(),
        )
    }
}

/// The offsets of those blocks when they follow `base` bytes.
pub open spec fn offsets_of(ids: Seq<u64>, bodies: Seq<Seq<u8>>, tails: Seq<Seq<u8>>, base: nat) -> Seq<usize>
    decreases ids.len(),
{
    if ids.len() == 0 || bodies.len() == 0 || tails.len() == 0 {
        Seq::empty()
    } else {
        offsets_of(ids.drop_last(), bodies.drop_last(), tails.drop_last(), base).push(
            (base + blocks_concat(ids.drop_last(), bodies.drop_last(), tails.drop_last()).len()) as usize,
        )
    }
}

/// `out` is `prefix` followed by the blocks, with nothing between them, and `offsets` are
/// where the blocks start.
pub open spec fn tight(
    out: Seq<u8>,
    offsets: Seq<usize>,
    ids: Seq<u64>,
    bodies: Seq<Seq<u8>>,
    tails: Seq<Seq<u8>>,
    prefix: Seq<u8>,
) -> bool {
    &&& ids.len() == bodies.len()
    &&& ids.len() == tails.len()
    &&& out == prefix + blocks_concat(ids, bodies, tails)
    &&& offsets == offsets_of(ids, bodies, tails, prefix.len())
}

/// Appending one block to a tight layout keeps it tight.
pub proof fn lemma_tight_push(
    out: Seq<u8>,
    offsets: Seq<usize>,
    ids: Seq<u64>,
    bodies: Seq<Seq<u8>>,
    tails: Seq<Seq<u8>>,
    prefix: Seq<u8>,
    id: u64,
    body: Seq<u8>,
    tail: Seq<u8>,
)
    requires
        tight(out, offsets, ids, bodies, tails, prefix),
    ensures
        tight(
            out + framed(id, body, tail),
            offsets.push(out.len() as usize),
            ids.push(id),
            bodies.push(body),
            tails.push(tail),
            prefix,
        ),
{
    assert(ids.push(id).drop_last() =~= ids);
    assert(bodies.push(body).drop_last() =~= bodies);
    assert(tails.push(tail).drop_last() =~= tails);
    assert(out + framed(id, body, tail) =~= prefix + blocks_concat(
        ids.push(id),
        bodies.push(body),
        tails.push(tail),
    ));
}

/// Bytes appended to a tight layout extend the tail of its last block.
pub proof fn lemma_tight_grow_last(
    out: Seq<u8>,
    offsets: Seq<usize>,
    ids: Seq<u64>,
    bodies: Seq<Seq<u8>>,
    tails: Seq<Seq<u8>>,
    prefix: Seq<u8>,
    extra: Seq<u8>,
)
    requires
        tight(out, offsets, ids, bodies, tails, prefix),
        ids.len() > 0,
    ensures
        tight(
            out + extra,
            offsets,
            ids,
            bodies,
            tails.update(tails.len() - 1, tails.last() + extra),
            prefix,
        ),
{
    let t2 = tails.update(tails.len() - 1, tails.last() + extra);
    assert(t2.drop_last() =~= tails.drop_last());
    assert(out + extra =~= prefix + blocks_concat(ids, bodies, t2));
}

/// Writes a document in one forward pass over a growing byte buffer, recording the offset of
/// every object in the cross-reference table before the object's first byte is emitted.
pub struct PdfWriter {
    /// Every byte emitted so far.
    inner: Vec<u8>,
    /// The number of bytes emitted so far: the position of the next byte.
    current_offset: usize,
    /// The offsets of the objects written, in write order.
    cross_reference_table: CrossReferenceTable,
    /// Where the cross-reference table starts, once it is written.
    xref_offset: Option<usize>,
    /// The identifiers of the objects written, in write order.
    ids: Ghost<Seq<u64>>,
    /// The bodies of the objects written, in write order.
    bodies: Ghost<Seq<Seq<u8>>>,
    /// What follows each object's `endobj` line, in write order.
    tails: Ghost<Seq<Seq<u8>>>,
}

impl PdfWriter {
    /// Every byte emitted so far.
    pub closed spec fn spec_output(&self) -> Seq<u8> {
        self.inner@
    }

    /// The offsets recorded in the cross-reference table, in write order.
    pub closed spec fn offsets(&self) -> Seq<usize> {
        self.cross_reference_table.view()
    }

    /// The identifiers of the objects written, in write order.
    pub closed spec fn ids(&self) -> Seq<u64> {
        self.ids@
    }

    /// The bodies of the objects written, in write order.
    pub closed spec fn bodies(&self) -> Seq<Seq<u8>> {
        self.bodies@
    }

    /// What follows each object's `endobj` line, in write order.
    pub closed spec fn tails(&self) -> Seq<Seq<u8>> {
        self.tails@
    }

    /// Where the cross-reference table starts, once it is written.
    pub closed spec fn table_offset(&self) -> Option<usize> {
        self.xref_offset
    }

    /// The writer's invariant: the cursor equals the number of bytes emitted, every recorded
    /// offset starts the block of its object, and a written table sits at its recorded offset
    /// after all object blocks.
    pub closed spec fn wf(&self) -> bool {
        &&& self.current_offset == self.inner@.len()
        &&& blocks_laid_out(self.inner@, self.offsets(), self.ids@, self.bodies@, self.tails@)
        &&& match self.xref_offset {
            Some(x) => {
                &&& x + table_bytes(self.offsets()).len() <= self.inner@.len()
                &&& self.inner@.subrange(x as int, x + table_bytes(self.offsets()).len())
                    == table_bytes(self.offsets())
            },
            None => true,
        }
    }

    /// A writer that has emitted nothing.
    pub fn new() -> (r: Self)
        ensures
            r.wf(),
            r.spec_output() == Seq::<u8>::empty(),
            r.offsets() == Seq::<usize>::empty(),
            r.ids() == Seq::<u64>::empty(),
            r.bodies() == Seq::<Seq<u8>>::empty(),
            r.tails() == Seq::<Seq<u8>>::empty(),
            r.table_offset() == None::<usize>,
    {
        PdfWriter {
            inner: Vec::new(),
            current_offset: 0,
            cross_reference_table: CrossReferenceTable::new(),
            xref_offset: None,
            ids: Ghost(Seq::empty()),
            bodies: Ghost(Seq::empty()),
            tails: Ghost(Seq::empty()),
        }
    }

    /// The bytes emitted so far.
    pub fn output(&self) -> (r: &Vec<u8>)
        ensures
            r@ == self.spec_output(),
    {
        &self.inner
    }

    /// Gives up the writer and returns the bytes it emitted.
    pub fn into_inner(self) -> (r: Vec<u8>)
        ensures
            r@ == self.spec_output(),
    {
        self.inner
    }

    /// The position of the next byte: the number of bytes emitted so far.
    pub fn current_offset(&self) -> (r: usize)
        requires
            self.wf(),
        ensures
            r == self.spec_output().len(),
    {
        self.current_offset
    }

    /// Appends raw bytes, keeping every recorded block in place.
    fn emit(&mut self, s: &str)
        requires
            old(self).wf(),
        ensures
            final(self).wf(),
            final(self).spec_output() == old(self).spec_output() + s.spec_bytes(),
            final(self).offsets() == old(self).offsets(),
            final(self).ids() == old(self).ids(),
            final(self).bodies() == old(self).bodies(),
            final(self).tails() == old(self).tails(),
            final(self).table_offset() == old(self).table_offset(),
    {
        let ghost before = self.inner@;
        push_str(&mut self.inner, s);
        self.current_offset = self.inner.len();
        proof {
            lemma_blocks_extend(before, s.spec_bytes(), self.offsets(), self.ids@, self.bodies@, self.tails@);
            if let Some(x) = self.xref_offset {
                let t = table_bytes(self.offsets());
                assert(self.inner@.subrange(x as int, x + t.len()) =~= before.subrange(
                    x as int,
                    x + t.len(),
                ));
            }
        }
    }

    /// Emits the header line. It must be the first thing written.
    pub fn write_header(&mut self)
        requires
            old(self).wf(),
            old(self).spec_output().len() == 0,
        ensures
            final(self).wf(),
            final(self).spec_output() == header_bytes(),
            final(self).offsets() == old(self).offsets(),
            final(self).ids() == old(self).ids(),
            final(self).bodies() == old(self).bodies(),
            final(self).tails() == old(self).tails(),
            final(self).table_offset() == old(self).table_offset(),
    {
        self.emit("%PDF-2.0\n");
        assert(self.inner@ =~= header_bytes());
    }

    /// Writes one object: records the current offset as a new table entry, then emits the
    /// definition line, the content, the `endobj` line and a blank separator line.
    pub fn write_object<O: Object>(&mut self, obj: &O)
        requires
            old(self).wf(),
            old(self).table_offset() is None,
        ensures
            final(self).wf(),
            final(self).spec_output() == old(self).spec_output() + block_bytes(
                obj.spec_obj_id(),
                obj.content(),
            ),
            final(self).offsets() == old(self).offsets().push(
                old(self).spec_output().len() as usize,
            ),
            final(self).ids() == old(self).ids().push(obj.spec_obj_id()),
            final(self).bodies() == old(self).bodies().push(obj.content()),
            final(self).tails() == old(self).tails().push("\n".spec_bytes()),
            final(self).table_offset() is None,
    {
        let ghost before = self.inner@;
        self.cross_reference_table.add_object(self.current_offset);
        obj.write_def(&mut self.inner);
        obj.write_content(&mut self.inner);
        obj.write_end(&mut self.inner);
        push_str(&mut self.inner, "\n");
        self.current_offset = self.inner.len();
        proof {
            let id = obj.spec_obj_id();
            let body = obj.content();
            let tail = "\n".spec_bytes();
            assert(self.inner@ =~= before + framed(id, body, tail));
            self.ids@ = self.ids@.push(id);
            self.bodies@ = self.bodies@.push(body);
            self.tails@ = self.tails@.push(tail);
            lemma_blocks_push(before, old(self).offsets(), old(self).ids@, old(self).bodies@, old(self).tails@, id, body, tail);
        }
    }

    /// Writes one object with identifier `id` and body `body`, followed by `tail`, recording
    /// its offset first.
    fn write_body(&mut self, id: &ObjId, body: &Vec<u8>, tail: &str)
        requires
            old(self).wf(),
            old(self).table_offset() is None,
        ensures
            final(self).wf(),
            final(self).spec_output() == old(self).spec_output() + framed(id.spec_id(), body@, tail.spec_bytes()),
            final(self).offsets() == old(self).offsets().push(old(self).spec_output().len() as usize),
            final(self).ids() == old(self).ids().push(id.spec_id()),
            final(self).bodies() == old(self).bodies().push(body@),
            final(self).tails() == old(self).tails().push(tail.spec_bytes()),
            final(self).table_offset() is None,
    {
        let ghost before = self.inner@;
        self.cross_reference_table.add_object(self.current_offset);
        write_def_line(id, &mut self.inner);
        push_bytes(&mut self.inner, body.as_slice());
        push_str(&mut self.inner, "endobj\n");
        push_str(&mut self.inner, tail);
        self.current_offset = self.inner.len();
        proof {
            assert(self.inner@ =~= before + framed(id.spec_id(), body@, tail.spec_bytes()));
            self.ids@ = self.ids@.push(id.spec_id());
            self.bodies@ = self.bodies@.push(body@);
            self.tails@ = self.tails@.push(tail.spec_bytes());
            lemma_blocks_push(before, old(self).offsets(), old(self).ids@, old(self).bodies@, old(self).tails@, id.spec_id(), body@, tail.spec_bytes());
        }
    }

    /// Writes a page: resolves the identifiers of its resources from `id_manager` (fresh ones
    /// for images), writes the page object followed by a blank line, then each image as an
    /// object of its own with no blank line between them, and one newline closing the group.
    /// Each offset is recorded as its object's bytes go out. Returns the resolved identifiers.
    pub fn write_page(&mut self, page: &Page, id_manager: &mut IdManager) -> (ids: Vec<ObjId>)
        requires
            old(self).wf(),
            old(self).table_offset() is None,
            old(id_manager).next() + page.spec_resources().entries().len() < u64::MAX,
        ensures
            final(self).wf(),
            final(self).table_offset() is None,
            resolves(page.spec_resources().entries(), ids@, old(id_manager).next()),
            final(id_manager).next() == old(id_manager).next() + image_count(
                page.spec_resources().entries(),
            ),
            final(self).spec_output() == old(self).spec_output() + block_bytes(
                page.spec_id().spec_id(),
                page.content(ids@),
            ) + image_blocks(page.spec_resources().entries(), ids@) + "\n".spec_bytes(),
            final(self).ids() == old(self).ids().push(page.spec_id().spec_id()) + image_ids(
                page.spec_resources().entries(),
                ids@,
            ),
            final(self).bodies() == old(self).bodies().push(page.content(ids@)) + image_bodies(
                page.spec_resources().entries(),
                ids@,
            ),
            final(self).tails() == old(self).tails() + group_tails(
                image_count(page.spec_resources().entries()),
            ),
            final(self).offsets().len() > old(self).offsets().len(),
            final(self).offsets().subrange(0, old(self).offsets().len() as int) == old(self).offsets(),
            final(self).offsets()[old(self).offsets().len() as int] == old(self).spec_output().len(),
            final(self).offsets().len() == final(self).ids().len(),
            forall|prefix: Seq<u8>|
                tight(old(self).spec_output(), old(self).offsets(), old(self).ids(), old(self).bodies(), old(self).tails(), prefix)
                    ==> #[trigger] tight(final(self).spec_output(), final(self).offsets(), final(self).ids(), final(self).bodies(), final(self).tails(), prefix),
    {
        let res = page.resources();
        let ids = res.renderables(id_manager);
        let mut body: Vec<u8> = Vec::new();
        page.write_content(&mut body, &ids);
        self.write_body(&page.obj_ref(), &body, "\n");
        assert(self.offsets().subrange(0, old(self).offsets().len() as int) =~= old(self).offsets());
        proof {
            assert forall|prefix: Seq<u8>|
                tight(old(self).spec_output(), old(self).offsets(), old(self).ids(), old(self).bodies(), old(self).tails(), prefix)
                    implies #[trigger] tight(self.spec_output(), self.offsets(), self.ids(), self.bodies(), self.tails(), prefix) by {
                lemma_tight_push(old(self).spec_output(), old(self).offsets(), old(self).ids(), old(self).bodies(), old(self).tails(), prefix, page.spec_id().spec_id(), body@, "\n".spec_bytes());
            }
        }
        let ghost off0 = old(self).offsets();
        let ghost mid_out = self.inner@;
        let ghost mid_ids = self.ids@;
        let ghost mid_bodies = self.bodies@;
        let ghost mid_tails = self.tails@;
        let ghost es = res.entries();
        let mut i: usize = 0;
        while i < res.len()
            invariant
                i <= es.len(),
                es == res.entries(),
                ids@.len() == es.len(),
                self.wf(),
                self.table_offset() is None,
                self.inner@ == mid_out + image_blocks(es.subrange(0, i as int), ids@.subrange(0, i as int)),
                self.ids@ == mid_ids + image_ids(es.subrange(0, i as int), ids@.subrange(0, i as int)),
                self.bodies@ == mid_bodies + image_bodies(es.subrange(0, i as int), ids@.subrange(0, i as int)),
                self.tails@ == mid_tails + Seq::new(image_count(es.subrange(0, i as int)), |_j: int| Seq::<u8>::empty()),
                mid_tails == old(self).tails().push("\n".spec_bytes()),
                self.offsets().len() > off0.len(),
                self.offsets().subrange(0, off0.len() as int) == off0,
                self.offsets()[off0.len() as int] == old(self).spec_output().len(),
                self.offsets().last() + framed(self.ids@.last(), self.bodies@.last(), self.tails@.last()).len() == self.inner@.len(),
                forall|prefix: Seq<u8>|
                    tight(old(self).spec_output(), old(self).offsets(), old(self).ids(), old(self).bodies(), old(self).tails(), prefix)
                        ==> #[trigger] tight(self.spec_output(), self.offsets(), self.ids(), self.bodies(), self.tails(), prefix),
            decreases es.len() - i,
        {
            let ghost before_out = self.inner@;
            let ghost before_ids = self.ids@;
            let ghost before_bodies = self.bodies@;
            let ghost before_tails = self.tails@;
            let ghost before_offs = self.offsets();
            match res.entry(i) {
                ResourceEntry::Image { image, .. } => {
                    let mut b: Vec<u8> = Vec::new();
                    image.write_content(&mut b);
                    self.write_body(&ids[i], &b, "");
                    proof {
                        reveal_strlit("");
                        assert("".spec_bytes() =~= Seq::<u8>::empty());
                        assert forall|prefix: Seq<u8>|
                            tight(old(self).spec_output(), old(self).offsets(), old(self).ids(), old(self).bodies(), old(self).tails(), prefix)
                                implies #[trigger] tight(self.spec_output(), self.offsets(), self.ids(), self.bodies(), self.tails(), prefix) by {
                            lemma_tight_push(before_out, before_offs, before_ids, before_bodies, before_tails, prefix, ids@[i as int].spec_id(), b@, "".spec_bytes());
                        }
                    }
                },
                ResourceEntry::Font { .. } => {},
            }
            proof {
                reveal_strlit("");
                assert("".spec_bytes() =~= Seq::<u8>::empty());
                let s = es.subrange(0, i as int + 1);
                let t = ids@.subrange(0, i as int + 1);
                assert(s.drop_last() =~= es.subrange(0, i as int));
                assert(t.drop_last() =~= ids@.subrange(0, i as int));
                assert(s.last() == es[i as int]);
                assert(t.last() == ids@[i as int]);
                assert(self.inner@ =~= mid_out + image_blocks(s, t));
                assert(self.ids@ =~= mid_ids + image_ids(s, t));
                assert(self.bodies@ =~= mid_bodies + image_bodies(s, t));
                assert(self.tails@ =~= mid_tails + Seq::new(image_count(s), |_j: int| Seq::<u8>::empty()));
                assert(self.offsets().subrange(0, off0.len() as int) =~= before_offs.subrange(0, off0.len() as int));
                assert(self.offsets()[off0.len() as int] == before_offs[off0.len() as int]);
            }
            i += 1;
        }
        assert(es.subrange(0, es.len() as int) =~= es);
        assert(ids@.subrange(0, ids@.len() as int) =~= ids@);
        let ghost before_out = self.inner@;
        let ghost before_tails = self.tails@;
        proof {
            assert forall|prefix: Seq<u8>|
                tight(old(self).spec_output(), old(self).offsets(), old(self).ids(), old(self).bodies(), old(self).tails(), prefix)
                    implies #[trigger] tight(before_out, self.offsets(), self.ids@, self.bodies@, before_tails, prefix) by {
                assert(tight(self.spec_output(), self.offsets(), self.ids(), self.bodies(), self.tails(), prefix));
            }
        }
        push_str(&mut self.inner, "\n");
        self.current_offset = self.inner.len();
        proof {
            let nl = "\n".spec_bytes();
            let k = image_count(es);
            lemma_blocks_grow_last(before_out, nl, self.offsets(), self.ids@, self.bodies@, before_tails);
            self.tails@ = before_tails.update(before_tails.len() - 1, before_tails.last() + nl);
            assert(self.tails@ =~= old(self).tails() + group_tails(k));
            assert forall|prefix: Seq<u8>|
                tight(old(self).spec_output(), old(self).offsets(), old(self).ids(), old(self).bodies(), old(self).tails(), prefix)
                    implies #[trigger] tight(self.spec_output(), self.offsets(), self.ids(), self.bodies(), self.tails(), prefix) by {
                lemma_tight_grow_last(before_out, self.offsets(), self.ids@, self.bodies@, before_tails, prefix, nl);
            }
            lemma_one_entry_per_object(self);
        }
        ids
    }

    /// Emits the cross-reference table and remembers where it starts. No object can be added
    /// after this.
    pub fn write_crt(&mut self)
        requires
            old(self).wf(),
            old(self).table_offset() is None,
        ensures
            final(self).wf(),
            final(self).spec_output() == old(self).spec_output() + table_bytes(old(self).offsets()),
            final(self).table_offset() == Some(old(self).spec_output().len() as usize),
            final(self).offsets() == old(self).offsets(),
            final(self).ids() == old(self).ids(),
            final(self).bodies() == old(self).bodies(),
            final(self).tails() == old(self).tails(),
    {
        let ghost before = self.inner@;
        let at = self.current_offset;
        self.cross_reference_table.write(&mut self.inner);
        self.current_offset = self.inner.len();
        self.xref_offset = Some(at);
        proof {
            let t = table_bytes(self.offsets());
            lemma_blocks_extend(before, t, self.offsets(), self.ids@, self.bodies@, self.tails@);
            assert(self.inner@.subrange(at as int, at + t.len()) =~= t);
        }
    }

    /// Emits the trailer: table size, root reference, the identifier pair derived from the
    /// offsets, and the offset of the table itself.
    pub fn write_trailer(&mut self, root: &ObjId)
        requires
            old(self).wf(),
            old(self).table_offset() is Some,
        ensures
            final(self).wf(),
            final(self).spec_output() == old(self).spec_output() + trailer_bytes(
                old(self).table_offset()->0,
                old(self).offsets().len() as usize,
                root.spec_id(),
                md5_digest(offsets_bytes(old(self).offsets())),
            ),
            final(self).offsets() == old(self).offsets(),
            final(self).ids() == old(self).ids(),
            final(self).bodies() == old(self).bodies(),
            final(self).tails() == old(self).tails(),
            final(self).table_offset() == old(self).table_offset(),
    {
        let ghost before = self.inner@;
        let id = self.cross_reference_table.offsets_hash();
        let at = match self.xref_offset {
            Some(x) => x,
            None => 0,
        };
        let size = self.cross_reference_table.len();
        self.cross_reference_table.write_trailer(&mut self.inner, at, size, root, &id);
        self.current_offset = self.inner.len();
        proof {
            let tr = trailer_bytes(at, size, root.spec_id(), id@);
            lemma_blocks_extend(before, tr, self.offsets(), self.ids@, self.bodies@, self.tails@);
            let t = table_bytes(self.offsets());
            assert(self.inner@.subrange(at as int, at + t.len()) =~= before.subrange(
                at as int,
                at + t.len(),
            ));
        }
    }

    /// Emits the end-of-file marker.
    pub fn write_eof(&mut self)
        requires
            old(self).wf(),
        ensures
            final(self).wf(),
            final(self).spec_output() == old(self).spec_output() + eof_bytes(),
            final(self).offsets() == old(self).offsets(),
            final(self).ids() == old(self).ids(),
            final(self).bodies() == old(self).bodies(),
            final(self).tails() == old(self).tails(),
            final(self).table_offset() == old(self).table_offset(),
    {
        self.emit("%%EOF");
    }
}

/// Every offset in the cross-reference table is the position of the first byte of its
/// object's `<id> 0 obj` line: reading from there yields that object's identifier.
pub proof fn lemma_offsets_locate_definitions(w: &PdfWriter)
    requires
        w.wf(),
    ensures
        w.offsets().len() == w.ids().len(),
        forall|i: int|
            0 <= i < w.offsets().len() ==> {
                let off = #[trigger] w.offsets()[i];
                let d = def_bytes(w.ids()[i]);
                &&& off + d.len() <= w.spec_output().len()
                &&& w.spec_output().subrange(off as int, off + d.len()) == d
            },
{
    assert forall|i: int| 0 <= i < w.offsets().len() implies {
        let off = #[trigger] w.offsets()[i];
        let d = def_bytes(w.ids()[i]);
        &&& off + d.len() <= w.spec_output().len()
        &&& w.spec_output().subrange(off as int, off + d.len()) == d
    } by {
        let off = w.offsets()[i];
        let b = framed(w.ids()[i], w.bodies()[i], w.tails()[i]);
        let d = def_bytes(w.ids()[i]);
        assert(block_at(w.spec_output(), off, w.ids()[i], w.bodies()[i], w.tails()[i]));
        assert(b.subrange(0, d.len() as int) =~= d);
        assert(w.spec_output().subrange(off as int, off + d.len()) =~= b.subrange(0, d.len() as int));
    }
}

/// There is exactly one table entry per object written: each entry starts a distinct block
/// holding the object's `endobj` line right after its body, and the blocks lie one after
/// another without overlapping.
pub proof fn lemma_one_entry_per_object(w: &PdfWriter)
    requires
        w.wf(),
    ensures
        w.offsets().len() == w.ids().len(),
        w.offsets().len() == w.bodies().len(),
        w.offsets().len() == w.tails().len(),
        forall|i: int|
            0 <= i < w.offsets().len() ==> {
                let b = framed(w.ids()[i], w.bodies()[i], w.tails()[i]);
                let k: int = def_line(w.ids()[i]).len() + w.bodies()[i].len() as int;
                let off = #[trigger] w.offsets()[i];
                &&& off + b.len() <= w.spec_output().len()
                &&& w.spec_output().subrange(off as int, off + b.len()) == b
                &&& b.subrange(k, k + end_line().len()) == end_line()
            },
        forall|i: int, j: int|
            0 <= i < j < w.offsets().len() ==> w.offsets()[i] + framed(
                w.ids()[i],
                w.bodies()[i],
                w.tails()[i],
            ).len() <= #[trigger] w.offsets()[j] && #[trigger] w.offsets()[i] < w.offsets()[j],
{
    assert forall|i: int| 0 <= i < w.offsets().len() implies {
        let b = framed(w.ids()[i], w.bodies()[i], w.tails()[i]);
        let k: int = def_line(w.ids()[i]).len() + w.bodies()[i].len() as int;
        let off = #[trigger] w.offsets()[i];
        &&& off + b.len() <= w.spec_output().len()
        &&& w.spec_output().subrange(off as int, off + b.len()) == b
        &&& b.subrange(k, k + end_line().len()) == end_line()
    } by {
        let b = framed(w.ids()[i], w.bodies()[i], w.tails()[i]);
        let k: int = def_line(w.ids()[i]).len() + w.bodies()[i].len() as int;
        assert(block_at(w.spec_output(), w.offsets()[i], w.ids()[i], w.bodies()[i], w.tails()[i]));
        assert(b.subrange(k, k + end_line().len()) =~= end_line());
    }
}

/// The recorded offsets, identifiers, bodies and tails describe the blocks of the output.
pub proof fn lemma_blocks(w: &PdfWriter)
    requires
        w.wf(),
    ensures
        blocks_laid_out(w.spec_output(), w.offsets(), w.ids(), w.bodies(), w.tails()),
{
}

/// The output always fits the address space: its length is a cursor value.
pub proof fn lemma_output_fits(w: &PdfWriter)
    requires
        w.wf(),
    ensures
        w.spec_output().len() <= usize::MAX,
{
}

/// The header line is nine bytes long.
pub proof fn lemma_header_len()
    ensures
        header_bytes().len() == 9,
{
    reveal_strlit("%PDF-2.0\n");
    vstd::string::is_ascii_spec_bytes("%PDF-2.0\n");
}

} // verus!
