//! Typed builders for each object kind. Each checks its required fields when
//! finished and hands back the object's body bytes, which the document then
//! stores under the object's identifier.
use vstd::prelude::*;
use crate::bytes::{lit, nat_digits, push_bytes, push_lit, push_nat, push_real, real_bytes};
use crate::document::{ObjectId, PdfError};

verus! {

/// A rectangle with `x1 < x2` and `y1 < y2`, in thousandths of a unit.
#[derive(Clone, Copy, Debug, PartialEq, Eq, Structural)]
pub struct Rect {
    pub x1: i64,
    pub y1: i64,
    pub x2: i64,
    pub y2: i64,
}

impl Rect {
    pub open spec fn valid(&self) -> bool {
        self.x1 < self.x2 && self.y1 < self.y2
    }

    /// A rectangle from two corners; one without area is refused.
    pub fn new(x1: i64, y1: i64, x2: i64, y2: i64) -> (r: Result<Rect, PdfError>)
        ensures
            x1 < x2 && y1 < y2 ==> r == Ok::<Rect, PdfError>(Rect { x1, y1, x2, y2 }),
            !(x1 < x2 && y1 < y2) ==> r == Err::<Rect, PdfError>(PdfError::DegenerateRect),
    {
        if x1 < x2 && y1 < y2 {
            Ok(Rect { x1, y1, x2, y2 })
        } else {
            Err(PdfError::DegenerateRect)
        }
    }
}

/// A reference to an indirect object.
pub open spec fn ref_bytes(id: ObjectId) -> Seq<u8> {
    nat_digits(id.num as nat) + lit(" 0 R")
}

pub open spec fn rect_bytes(r: Rect) -> Seq<u8> {
    seq![91u8] + real_bytes(r.x1 as int) + seq![32u8] + real_bytes(r.y1 as int) + seq![32u8]
        + real_bytes(r.x2 as int) + seq![32u8] + real_bytes(r.y2 as int) + seq![93u8]
}

pub(crate) fn push_ref(out: &mut Vec<u8>, id: ObjectId)
    ensures
        final(out)@ == old(out)@ + ref_bytes(id),
{
    push_nat(out, id.num as u64);
    push_lit(out, " 0 R");
    assert(out@ =~= old(out)@ + ref_bytes(id));
}

pub(crate) fn push_rect_bytes(out: &mut Vec<u8>, r: Rect)
    ensures
        final(out)@ == old(out)@ + rect_bytes(r),
{
    out.push(91u8);
    push_real(out, r.x1);
    out.push(32u8);
    push_real(out, r.y1);
    out.push(32u8);
    push_real(out, r.x2);
    out.push(32u8);
    push_real(out, r.y2);
    out.push(93u8);
    assert(out@ =~= old(out)@ + rect_bytes(r));
}

/// The body of the catalog, the root of the document.
pub open spec fn catalog_bytes(pages: ObjectId) -> Seq<u8> {
    lit("<< /Type /Catalog /Pages ") + ref_bytes(pages) + lit(" >>")
}

/// The catalog's body, naming the root of the page tree.
pub fn catalog(pages: ObjectId) -> (r: Vec<u8>)
    ensures
        r@ == catalog_bytes(pages),
{
    let mut out: Vec<u8> = Vec::new();
    push_lit(&mut out, "<< /Type /Catalog /Pages ");
    push_ref(&mut out, pages);
    push_lit(&mut out, " >>");
    assert(out@ =~= catalog_bytes(pages));
    out
}

/// The body of a font among the built-in ones, by its base name.
pub open spec fn font_bytes(base: Seq<u8>) -> Seq<u8> {
    lit("<< /Type /Font /Subtype /Type1 /BaseFont /") + base + lit(" >>")
}

/// The body of a built-in font, by its base name.
pub fn type1_font(base: &Vec<u8>) -> (r: Vec<u8>)
    ensures
        r@ == font_bytes(base@),
{
    let mut out: Vec<u8> = Vec::new();
    push_lit(&mut out, "<< /Type /Font /Subtype /Type1 /BaseFont /");
    push_bytes(&mut out, base.as_slice());
    push_lit(&mut out, " >>");
    assert(out@ =~= font_bytes(base@));
    out
}

/// The body of a stream object with no filter.
pub open spec fn stream_bytes(data: Seq<u8>) -> Seq<u8> {
    lit("<< /Length ") + nat_digits(data.len()) + lit(" >>\nstream\n") + data + lit(
        "\nendstream",
    )
}

/// The body of a stream object holding `data`, such as a finished content
/// stream.
pub fn stream(data: &Vec<u8>) -> (r: Vec<u8>)
    ensures
        r@ == stream_bytes(data@),
{
    let mut out: Vec<u8> = Vec::new();
    push_lit(&mut out, "<< /Length ");
    push_nat(&mut out, data.len() as u64);
    push_lit(&mut out, " >>\nstream\n");
    push_bytes(&mut out, data.as_slice());
    push_lit(&mut out, "\nendstream");
    assert(out@ =~= stream_bytes(data@));
    out
}

/// A child of a page-tree node: a page, or a node with its own leaf count.
#[derive(Clone, Copy, Debug, PartialEq, Eq, Structural)]
pub enum Kid {
    Page(ObjectId),
    Node(ObjectId, u64),
}

/// The number of leaf pages below a list of children.
pub open spec fn leaves(kids: Seq<Kid>) -> nat
    decreases kids.len(),
{
    if kids.len() == 0 {
        0
    } else {
        leaves(kids.drop_last()) + match kids.last() {
            Kid::Page(_) => 1nat,
            Kid::Node(_, n) => n as nat,
        }
    }
}

pub open spec fn kid_id(k: Kid) -> ObjectId {
    match k {
        Kid::Page(id) => id,
        Kid::Node(id, _) => id,
    }
}

/// The references of the children, each preceded by a space.
pub open spec fn kids_bytes(kids: Seq<Kid>) -> Seq<u8>
    decreases kids.len(),
{
    if kids.len() == 0 {
        seq![]
    } else {
        kids_bytes(kids.drop_last()) + seq![32u8] + ref_bytes(kid_id(kids.last()))
    }
}

/// A page-tree node: its ordered children and the count of leaf pages below.
pub struct PageTree {
    kids: Vec<Kid>,
    count: u64,
}

pub open spec fn tree_bytes(parent: Option<ObjectId>, kids: Seq<Kid>, count: nat) -> Seq<u8> {
    lit("<< /Type /Pages") + match parent {
        Some(p) => lit(" /Parent ") + ref_bytes(p),
        None => seq![],
    } + lit(" /Kids [") + kids_bytes(kids) + lit(" ] /Count ") + nat_digits(count) + lit(" >>")
}

impl PageTree {
    pub closed spec fn kids(&self) -> Seq<Kid> {
        self.kids@
    }

    pub closed spec fn count(&self) -> nat {
        self.count as nat
    }

    /// The count is the number of leaf pages below the node.
    pub open spec fn wf(&self) -> bool {
        self.count() == leaves(self.kids())
    }

    pub fn new() -> (r: PageTree)
        ensures
            r.wf(),
            r.kids() == Seq::<Kid>::empty(),
            r.count() == 0,
    {
        PageTree { kids: Vec::new(), count: 0 }
    }

    pub fn leaf_count(&self) -> (r: u64)
        ensures
            r == self.count(),
    {
        self.count
    }

    /// Adds a page as the last child; the count grows by one.
    pub fn push_page(&mut self, id: ObjectId)
        requires
            old(self).wf(),
            old(self).count() < u64::MAX,
        ensures
            final(self).wf(),
            final(self).kids() == old(self).kids().push(Kid::Page(id)),
            final(self).count() == old(self).count() + 1,
    {
        self.kids.push(Kid::Page(id));
        self.count = self.count + 1;
        assert(self.kids@.drop_last() =~= old(self).kids@);
    }

    /// Adds a node as the last child; the count grows by that node's count.
    pub fn push_node(&mut self, id: ObjectId, node: &PageTree)
        requires
            old(self).wf(),
            node.wf(),
            old(self).count() + node.count() <= u64::MAX,
        ensures
            final(self).wf(),
            final(self).kids() == old(self).kids().push(Kid::Node(id, node.count() as u64)),
            final(self).count() == old(self).count() + node.count(),
    {
        self.kids.push(Kid::Node(id, node.count));
        self.count = self.count + node.count;
        assert(self.kids@.drop_last() =~= old(self).kids@);
    }

    /// The node's body, with its parent when it is not the root.
    pub fn finish(&self, parent: Option<ObjectId>) -> (r: Vec<u8>)
        ensures
            r@ == tree_bytes(parent, self.kids(), self.count()),
    {
        let mut out: Vec<u8> = Vec::new();
        push_lit(&mut out, "<< /Type /Pages");
        match parent {
            Some(p) => {
                push_lit(&mut out, " /Parent ");
                push_ref(&mut out, p);
            },
            None => {},
        }
        push_lit(&mut out, " /Kids [");
        let ghost open_at = out@;
        let mut i: usize = 0;
        while i < self.kids.len()
            invariant
                i <= self.kids@.len(),
                out@ == open_at + kids_bytes(self.kids@.subrange(0, i as int)),
            decreases self.kids@.len() - i,
        {
            out.push(32u8);
            let id = match self.kids[i] {
                Kid::Page(id) => id,
                Kid::Node(id, _) => id,
            };
            push_ref(&mut out, id);
            i = i + 1;
            assert(self.kids@.subrange(0, i as int).drop_last() =~= self.kids@.subrange(0, i - 1 as int));
            assert(out@ =~= open_at + kids_bytes(self.kids@.subrange(0, i as int)));
        }
        assert(self.kids@.subrange(0, self.kids@.len() as int) =~= self.kids@);
        push_lit(&mut out, " ] /Count ");
        push_nat(&mut out, self.count);
        push_lit(&mut out, " >>");
        assert(out@ =~= tree_bytes(parent, self.kids(), self.count()));
        out
    }
}

} // verus!
