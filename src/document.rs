//! Object identifiers, the document that owns every finished object, and the
//! serializer that writes the objects with their cross-reference table.
use vstd::prelude::*;
use crate::bytes::{digit, lit, nat_digits, pad10, zeros, push_bytes, push_lit, push_nat, push_pad10};

verus! {

/// The identifier of an indirect object: a positive integer.
#[derive(Clone, Copy, Debug, PartialEq, Eq, Structural)]
pub struct ObjectId {
    pub num: u32,
}

/// What can go wrong while a document is built.
#[derive(Clone, Copy, Debug, PartialEq, Eq, Structural)]
pub enum PdfError {
    /// The document was already serialized.
    Finished,
    /// The identifier was never handed out by this document.
    UnallocatedId,
    /// An object was already stored under the identifier.
    DuplicateObject,
    /// No further identifier fits the identifier range.
    IdSpaceExhausted,
    /// No catalog was named, or it was never stored.
    MissingRoot,
    /// A required field of an object was not set.
    MissingField,
    /// A sub-builder of the object is still open.
    UnfinishedChildObject,
    /// A rectangle with no area.
    DegenerateRect,
    /// An image with no pixels.
    EmptyImage,
    /// A source format that has no compression filter here.
    UnsupportedFormat,
    /// A pixel buffer whose length does not match its dimensions.
    PixelDataMismatch,
    /// A derived size that does not fit the number range.
    OutOfRange,
    /// A stored object refers to an identifier with no object stored.
    MissingReference,
}

/// Where a document is in its life: still taking objects, or serialized.
#[derive(Clone, Copy, Debug, PartialEq, Eq, Structural)]
pub enum DocState {
    Building,
    Finished,
}

/// A document under construction. Slot `k` holds the finished body of the
/// object numbered `k + 1`, or nothing while that identifier is a placeholder.
/// Beside each slot stand the identifiers its object refers to.
pub struct Document {
    slots: Vec<Option<Vec<u8>>>,
    links: Vec<Vec<ObjectId>>,
    root: Option<u32>,
    state: DocState,
}

pub open spec fn body_view(o: Option<Vec<u8>>) -> Option<Seq<u8>> {
    match o {
        Some(v) => Some(v@),
        None => None,
    }
}

/// The file header: version line and a comment of four high bytes.
pub open spec fn header() -> Seq<u8> {
    lit("%PDF-1.7\n%") + seq![128u8, 128u8, 128u8, 128u8] + lit("\n\n")
}

/// The line that opens the object numbered `num`.
pub open spec fn obj_head(num: nat) -> Seq<u8> {
    nat_digits(num) + lit(" 0 obj\n")
}

/// One object as it stands in the output.
pub open spec fn frame(num: nat, body: Seq<u8>) -> Seq<u8> {
    obj_head(num) + body + lit("\nendobj\n\n")
}

/// The output of the first `k` slots, in ascending identifier order; empty
/// slots write nothing.
pub open spec fn objects_section(b: Seq<Option<Seq<u8>>>, k: nat) -> Seq<u8>
    decreases k,
{
    if k == 0 || k > b.len() {
        seq![]
    } else {
        objects_section(b, (k - 1) as nat) + match b[k - 1] {
            Some(body) => frame(k, body),
            None => seq![],
        }
    }
}

/// The byte offset at which slot `k` is written.
pub open spec fn offset_of(b: Seq<Option<Seq<u8>>>, k: nat) -> nat {
    header().len() + objects_section(b, k).len()
}

/// The entry of the free-list head, and of every identifier without object.
pub open spec fn free_entry() -> Seq<u8> {
    lit("0000000000 65535 f\r\n")
}

/// The cross-reference entry of slot `k`.
pub open spec fn xref_entry(b: Seq<Option<Seq<u8>>>, k: nat) -> Seq<u8> {
    match b[k as int] {
        Some(_) => pad10(offset_of(b, k)) + lit(" 00000 n\r\n"),
        None => free_entry(),
    }
}

/// The cross-reference entries of the first `k` slots.
pub open spec fn xref_entries(b: Seq<Option<Seq<u8>>>, k: nat) -> Seq<u8>
    decreases k,
{
    if k == 0 || k > b.len() {
        seq![]
    } else {
        xref_entries(b, (k - 1) as nat) + xref_entry(b, (k - 1) as nat)
    }
}

/// The cross-reference section: its subsection line, then one entry for the
/// identifier zero and one for each slot.
pub open spec fn xref_section(b: Seq<Option<Seq<u8>>>) -> Seq<u8> {
    lit("xref\n0 ") + nat_digits(b.len() + 1) + lit("\n") + free_entry() + xref_entries(b, b.len())
}

/// The trailer: object count, root reference and the offset of the
/// cross-reference section.
pub open spec fn trailer(b: Seq<Option<Seq<u8>>>, root: nat) -> Seq<u8> {
    lit("trailer\n<< /Size ") + nat_digits(b.len() + 1) + lit(" /Root ") + nat_digits(root)
        + lit(" 0 R >>\nstartxref\n") + nat_digits(offset_of(b, b.len())) + lit("\n%%EOF")
}

/// The whole output of a document with slots `b` and catalog `root`.
pub open spec fn document_bytes(b: Seq<Option<Seq<u8>>>, root: nat) -> Seq<u8> {
    header() + objects_section(b, b.len()) + xref_section(b) + trailer(b, root)
}

/// The number a run of decimal digits spells.
pub open spec fn decimal_value(s: Seq<u8>) -> nat
    decreases s.len(),
{
    if s.len() == 0 {
        0
    } else {
        decimal_value(s.drop_last()) * 10 + (s.last() - 48) as nat
    }
}

proof fn lemma_value_of_digits(n: nat)
    ensures
        decimal_value(nat_digits(n)) == n,
    decreases n,
{
    if n >= 10 {
        lemma_value_of_digits(n / 10);
        assert(nat_digits(n).drop_last() =~= nat_digits(n / 10));
        assert(nat_digits(n).last() == digit(n % 10));
        assert(digit(n % 10) == 48 + n % 10);
        assert(nat_digits(n).len() > 0);
        assert(decimal_value(nat_digits(n)) == decimal_value(nat_digits(n).drop_last()) * 10 + (
        nat_digits(n).last() - 48) as nat);
    } else {
        assert(nat_digits(n).drop_last() =~= Seq::<u8>::empty());
        assert(nat_digits(n).last() == digit(n));
        assert(digit(n) == 48 + n);
        assert(decimal_value(nat_digits(n)) == decimal_value(nat_digits(n).drop_last()) * 10 + (
        nat_digits(n).last() - 48) as nat);
        assert(decimal_value(Seq::<u8>::empty()) == 0);
    }
}

proof fn lemma_leading_zeros(k: nat, d: Seq<u8>)
    ensures
        decimal_value(zeros(k) + d) == decimal_value(d),
    decreases k + d.len(),
{
    if d.len() == 0 {
        assert(zeros(k) + d =~= zeros(k));
        if k > 0 {
            assert(zeros(k).drop_last() =~= zeros((k - 1) as nat) + d);
            lemma_leading_zeros((k - 1) as nat, d);
        }
    } else {
        assert((zeros(k) + d).drop_last() =~= zeros(k) + d.drop_last());
        lemma_leading_zeros(k, d.drop_last());
    }
}

/// Reading back a padded cross-reference offset gives the offset.
pub proof fn lemma_decode_pad10(n: nat)
    ensures
        decimal_value(pad10(n)) == n,
{
    lemma_value_of_digits(n);
    let d = nat_digits(n);
    if d.len() < 10 {
        lemma_leading_zeros((10 - d.len()) as nat, d);
    }
}

proof fn lemma_slice_of_prefix(s: Seq<u8>, p: Seq<u8>, a: int, len: int)
    requires
        p.len() <= s.len(),
        s.subrange(0, p.len() as int) == p,
        0 <= a,
        a + len <= p.len(),
        0 <= len,
    ensures
        s.subrange(a, a + len) == p.subrange(a, a + len),
{
    assert forall|i: int| 0 <= i < len implies #[trigger] s.subrange(a, a + len)[i] == p.subrange(a, a + len)[i] by {
        assert(s[a + i] == s.subrange(0, p.len() as int)[a + i]);
    }
    assert(s.subrange(a, a + len) =~= p.subrange(a, a + len));
}

proof fn lemma_objects_prefix(b: Seq<Option<Seq<u8>>>, k: nat, m: nat)
    requires
        k <= m <= b.len(),
    ensures
        objects_section(b, k).len() <= objects_section(b, m).len(),
        objects_section(b, m).subrange(0, objects_section(b, k).len() as int) == objects_section(
            b,
            k,
        ),
    decreases m - k,
{
    if k == m {
        assert(objects_section(b, m).subrange(0, objects_section(b, k).len() as int) =~= objects_section(b, k));
    } else {
        lemma_objects_prefix(b, k, (m - 1) as nat);
        assert(objects_section(b, m).subrange(0, objects_section(b, k).len() as int) =~= objects_section(b, (m - 1) as nat).subrange(0, objects_section(b, k).len() as int));
    }
}

proof fn lemma_xref_prefix(b: Seq<Option<Seq<u8>>>, k: nat, m: nat)
    requires
        k <= m <= b.len(),
    ensures
        xref_entries(b, k).len() <= xref_entries(b, m).len(),
        xref_entries(b, m).subrange(0, xref_entries(b, k).len() as int) == xref_entries(b, k),
    decreases m - k,
{
    if k == m {
        assert(xref_entries(b, m).subrange(0, xref_entries(b, k).len() as int) =~= xref_entries(b, k));
    } else {
        lemma_xref_prefix(b, k, (m - 1) as nat);
        assert(xref_entries(b, m).subrange(0, xref_entries(b, k).len() as int) =~= xref_entries(b, (m - 1) as nat).subrange(0, xref_entries(b, k).len() as int));
    }
}

/// The cross-reference table locates every stored object: the entry of slot
/// `k` stands after the entries of the slots before it, its first ten bytes
/// read back as a number give an offset, and the output at that offset
/// begins with the line that opens object `k + 1`.
pub proof fn lemma_xref_locates_objects(b: Seq<Option<Seq<u8>>>, root: nat, k: nat)
    requires
        k < b.len(),
        b[k as int] is Some,
    ensures
        ({
            let table = xref_entries(b, b.len());
            let at = xref_entries(b, k).len();
            let entry = pad10(offset_of(b, k)) + lit(" 00000 n\r\n");
            let off = offset_of(b, k);
            let out = document_bytes(b, root);
            &&& table.subrange(at as int, (at + entry.len()) as int) == entry
            &&& decimal_value(pad10(off)) == off
            &&& out.subrange(off as int, (off + obj_head(k + 1).len()) as int) == obj_head(k + 1)
        }),
{
    let table = xref_entries(b, b.len());
    let at = xref_entries(b, k).len();
    let entry = xref_entry(b, k);
    lemma_xref_prefix(b, k + 1, b.len());
    assert(xref_entries(b, k + 1) == xref_entries(b, k) + entry);
    lemma_slice_of_prefix(table, xref_entries(b, k + 1), at as int, entry.len() as int);
    assert(xref_entries(b, k + 1).subrange(at as int, (at + entry.len()) as int) =~= entry);
    lemma_decode_pad10(offset_of(b, k));
    lemma_objects_prefix(b, k + 1, b.len());
    let off = offset_of(b, k);
    let out = document_bytes(b, root);
    let head = obj_head(k + 1);
    let body = b[k as int]->0;
    assert(objects_section(b, k + 1) == objects_section(b, k) + frame(k + 1, body));
    let pre = header() + objects_section(b, k + 1);
    assert(out.subrange(0, pre.len() as int) =~= pre) by {
        assert(out == header() + objects_section(b, b.len()) + xref_section(b) + trailer(b, root));
        assert forall|i: int| 0 <= i < pre.len() implies #[trigger] out[i] == pre[i] by {
            if i >= header().len() {
                assert(objects_section(b, b.len())[i - header().len()] == objects_section(b, b.len()).subrange(0, objects_section(b, k + 1).len() as int)[i - header().len()]);
            }
        }
    }
    lemma_slice_of_prefix(out, pre, off as int, head.len() as int);
    assert(pre.subrange(off as int, (off + head.len()) as int) =~= head);
}

/// Serialization is a function of the stored objects and the root alone:
/// two documents with the same objects under the same identifiers and the
/// same root produce the same bytes.
pub proof fn lemma_deterministic(d1: Document, d2: Document)
    requires
        d1.bodies() == d2.bodies(),
        d1.root() == d2.root(),
        d1.has_root(),
    ensures
        document_bytes(d1.bodies(), d1.root()->0) == document_bytes(d2.bodies(), d2.root()->0),
{
}

/// Writes the header and every stored object, and collects the
/// cross-reference entries of the slots.
fn write_objects(slots: &Vec<Option<Vec<u8>>>, out: &mut Vec<u8>, xref: &mut Vec<u8>)
    requires
        old(out)@.len() == 0,
        old(xref)@.len() == 0,
    ensures
        final(out)@ == header() + objects_section(slots@.map_values(|o: Option<Vec<u8>>| body_view(o)), slots@.len()),
        final(xref)@ == xref_entries(slots@.map_values(|o: Option<Vec<u8>>| body_view(o)), slots@.len()),
{
    let ghost b = slots@.map_values(|o: Option<Vec<u8>>| body_view(o));
    push_lit(out, "%PDF-1.7\n%");
    out.push(128u8);
    out.push(128u8);
    out.push(128u8);
    out.push(128u8);
    push_lit(out, "\n\n");
    assert(out@ =~= header());
    let n = slots.len();
    let mut k: usize = 0;
    while k < n
        invariant
            n == slots@.len(),
            b == slots@.map_values(|o: Option<Vec<u8>>| body_view(o)),
            k <= n,
            out@ == header() + objects_section(b, k as nat),
            xref@ == xref_entries(b, k as nat),
        decreases n - k,
    {
        let ghost before = out@;
        let ghost xbefore = xref@;
        assert(b[k as int] == body_view(slots@[k as int]));
        match &slots[k] {
            Some(body) => {
                let off = out.len();
                push_pad10(xref, off as u64);
                push_lit(xref, " 00000 n\r\n");
                push_nat(out, (k + 1) as u64);
                push_lit(out, " 0 obj\n");
                push_bytes(out, body.as_slice());
                push_lit(out, "\nendobj\n\n");
                assert(out@ =~= before + frame((k + 1) as nat, body@));
                assert(xref@ =~= xbefore + xref_entry(b, k as nat));
            },
            None => {
                push_lit(xref, "0000000000 65535 f\r\n");
                assert(out@ =~= before + Seq::<u8>::empty());
            },
        }
        k = k + 1;
    }
}

/// The output of a document with these slots and this catalog.
fn serialize(slots: &Vec<Option<Vec<u8>>>, root: u32) -> (r: Vec<u8>)
    requires
        slots@.len() < u32::MAX,
    ensures
        r@ == document_bytes(slots@.map_values(|o: Option<Vec<u8>>| body_view(o)), root as nat),
{
    let ghost b = slots@.map_values(|o: Option<Vec<u8>>| body_view(o));
    let mut out: Vec<u8> = Vec::new();
    let mut xref: Vec<u8> = Vec::new();
    write_objects(slots, &mut out, &mut xref);
    let n = slots.len();
    let xref_start = out.len();
    let ghost body_part = out@;
    push_lit(&mut out, "xref\n0 ");
    push_nat(&mut out, (n + 1) as u64);
    push_lit(&mut out, "\n");
    push_lit(&mut out, "0000000000 65535 f\r\n");
    push_bytes(&mut out, xref.as_slice());
    assert(out@ =~= body_part + xref_section(b));
    let ghost table_part = out@;
    push_lit(&mut out, "trailer\n<< /Size ");
    push_nat(&mut out, (n + 1) as u64);
    push_lit(&mut out, " /Root ");
    push_nat(&mut out, root as u64);
    push_lit(&mut out, " 0 R >>\nstartxref\n");
    push_nat(&mut out, xref_start as u64);
    push_lit(&mut out, "\n%%EOF");
    assert(out@ =~= table_part + trailer(b, root as nat));
    assert(out@ =~= document_bytes(b, root as nat));
    out
}

/// A list of one reference.
pub fn refs1(a: ObjectId) -> (r: Vec<ObjectId>)
    ensures
        r@ == seq![a],
{
    let mut r: Vec<ObjectId> = Vec::new();
    r.push(a);
    assert(r@ =~= seq![a]);
    r
}

/// A list of three references.
pub fn refs3(a: ObjectId, b: ObjectId, c: ObjectId) -> (r: Vec<ObjectId>)
    ensures
        r@ == seq![a, b, c],
{
    let mut r: Vec<ObjectId> = Vec::new();
    r.push(a);
    r.push(b);
    r.push(c);
    assert(r@ =~= seq![a, b, c]);
    r
}

/// Whether an object is stored under `id`.
pub open spec fn stored(b: Seq<Option<Seq<u8>>>, id: ObjectId) -> bool {
    1 <= id.num <= b.len() && b[id.num - 1] is Some
}

/// Whether every reference of every stored object names a stored object.
pub open spec fn refs_resolve(b: Seq<Option<Seq<u8>>>, refs: Seq<Seq<ObjectId>>) -> bool {
    forall|k: int, j: int|
        0 <= k < b.len() && b[k] is Some && 0 <= j < refs[k].len() ==> stored(b, #[trigger] refs[k][j])
}

/// Checks that every reference of every stored object names a stored object.
fn check_refs(slots: &Vec<Option<Vec<u8>>>, links: &Vec<Vec<ObjectId>>) -> (r: bool)
    requires
        slots@.len() == links@.len(),
    ensures
        r == refs_resolve(
            slots@.map_values(|o: Option<Vec<u8>>| body_view(o)),
            links@.map_values(|v: Vec<ObjectId>| v@),
        ),
{
    let ghost b = slots@.map_values(|o: Option<Vec<u8>>| body_view(o));
    let ghost refs = links@.map_values(|v: Vec<ObjectId>| v@);
    let n = slots.len();
    let mut k: usize = 0;
    while k < n
        invariant
            n == slots@.len(),
            n == links@.len(),
            b == slots@.map_values(|o: Option<Vec<u8>>| body_view(o)),
            refs == links@.map_values(|v: Vec<ObjectId>| v@),
            k <= n,
            forall|k2: int, j: int|
                0 <= k2 < k && b[k2] is Some && 0 <= j < refs[k2].len() ==> stored(b, #[trigger] refs[k2][j]),
        decreases n - k,
    {
        assert(b[k as int] == body_view(slots@[k as int]));
        if slots[k].is_some() {
            let ids = &links[k];
            assert(refs[k as int] == ids@);
            let mut j: usize = 0;
            while j < ids.len()
                invariant
                    n == slots@.len(),
                    b == slots@.map_values(|o: Option<Vec<u8>>| body_view(o)),
                    k < n,
                    refs == links@.map_values(|v: Vec<ObjectId>| v@),
                    n == links@.len(),
                    b[k as int] is Some,
                    refs[k as int] == ids@,
                    j <= ids@.len(),
                    forall|j2: int| 0 <= j2 < j ==> stored(b, #[trigger] refs[k as int][j2]),
                decreases ids@.len() - j,
            {
                let id = ids[j];
                if id.num == 0 || id.num as usize > n {
                    assert(!stored(b, refs[k as int][j as int]));
                    return false;
                }
                assert(b[id.num - 1] == body_view(slots@[id.num - 1]));
                if slots[(id.num - 1) as usize].is_none() {
                    assert(!stored(b, refs[k as int][j as int]));
                    return false;
                }
                j = j + 1;
            }
        }
        k = k + 1;
    }
    true
}

impl Document {
    /// The references each slot's object makes, as recorded when it was stored.
    pub closed spec fn references(&self) -> Seq<Seq<ObjectId>> {
        self.links@.map_values(|v: Vec<ObjectId>| v@)
    }

    /// The object bodies by slot: slot `k` belongs to identifier `k + 1`.
    pub closed spec fn bodies(&self) -> Seq<Option<Seq<u8>>> {
        self.slots@.map_values(|o: Option<Vec<u8>>| body_view(o))
    }

    /// The identifier of the catalog, once named.
    pub closed spec fn root(&self) -> Option<nat> {
        match self.root {
            Some(r) => Some(r as nat),
            None => None,
        }
    }

    pub closed spec fn state(&self) -> DocState {
        self.state
    }

    /// Identifiers fit in `u32`, and a named root was handed out.
    pub closed spec fn wf(&self) -> bool {
        &&& self.slots@.len() < u32::MAX
        &&& self.links@.len() == self.slots@.len()
        &&& match self.root {
            Some(r) => 1 <= r <= self.slots@.len(),
            None => true,
        }
    }

    /// Every slot has its list of references.
    pub proof fn lemma_lengths(&self)
        requires
            self.wf(),
        ensures
            self.references().len() == self.bodies().len(),
    {
    }

    /// Whether `id` was handed out by this document.
    pub open spec fn allocated(&self, id: ObjectId) -> bool {
        1 <= id.num <= self.bodies().len()
    }

    /// An empty document, taking objects.
    pub fn new() -> (r: Document)
        ensures
            r.wf(),
            r.bodies() == Seq::<Option<Seq<u8>>>::empty(),
            r.references() == Seq::<Seq<ObjectId>>::empty(),
            r.root() == None::<nat>,
            r.state() == DocState::Building,
    {
        let r = Document {
            slots: Vec::new(),
            links: Vec::new(),
            root: None,
            state: DocState::Building,
        };
        assert(r.bodies() =~= Seq::<Option<Seq<u8>>>::empty());
        assert(r.references() =~= Seq::<Seq<ObjectId>>::empty());
        r
    }

    pub fn state_of(&self) -> (r: DocState)
        ensures
            r == self.state(),
    {
        self.state
    }

    /// Hands out the next identifier, one more than the last, starting at 1,
    /// and reserves an empty slot for it.
    pub fn allocate(&mut self) -> (r: Result<ObjectId, PdfError>)
        requires
            old(self).wf(),
        ensures
            final(self).wf(),
            old(self).state() == DocState::Finished ==> r == Err::<ObjectId, PdfError>(
                PdfError::Finished,
            ) && *final(self) == *old(self),
            old(self).state() == DocState::Building && old(self).bodies().len() + 1 >= u32::MAX
                ==> r == Err::<ObjectId, PdfError>(PdfError::IdSpaceExhausted) && *final(self)
                == *old(self),
            old(self).state() == DocState::Building && old(self).bodies().len() + 1 < u32::MAX
                ==> r == Ok::<ObjectId, PdfError>(
                ObjectId { num: (old(self).bodies().len() + 1) as u32 },
            ) && final(self).bodies() == old(self).bodies().push(None) && final(self).references()
                == old(self).references().push(Seq::<ObjectId>::empty()) && final(self).root()
                == old(self).root() && final(self).state() == DocState::Building,
    {
        if self.state == DocState::Finished {
            return Err(PdfError::Finished);
        }
        if self.slots.len() + 1 >= u32::MAX as usize {
            return Err(PdfError::IdSpaceExhausted);
        }
        self.slots.push(None);
        self.links.push(Vec::new());
        assert(self.bodies() =~= old(self).bodies().push(None));
        assert(self.references() =~= old(self).references().push(Seq::<ObjectId>::empty()));
        Ok(ObjectId { num: self.slots.len() as u32 })
    }

    /// Stores the finished body of the object `id`, with the identifiers it
    /// refers to.
    pub fn insert(&mut self, id: ObjectId, body: Vec<u8>, refs: Vec<ObjectId>) -> (r: Result<
        (),
        PdfError,
    >)
        requires
            old(self).wf(),
        ensures
            final(self).wf(),
            r is Err ==> *final(self) == *old(self),
            old(self).state() == DocState::Finished ==> r == Err::<(), PdfError>(
                PdfError::Finished,
            ),
            old(self).state() == DocState::Building && !old(self).allocated(id) ==> r == Err::<
                (),
                PdfError,
            >(PdfError::UnallocatedId),
            old(self).state() == DocState::Building && old(self).allocated(id) && old(
                self,
            ).bodies()[id.num - 1] is Some ==> r == Err::<(), PdfError>(
                PdfError::DuplicateObject,
            ),
            old(self).state() == DocState::Building && old(self).allocated(id) && old(
                self,
            ).bodies()[id.num - 1] is None ==> r == Ok::<(), PdfError>(()) && final(self).bodies()
                == old(self).bodies().update(id.num - 1, Some(body@)) && final(self).references()
                == old(self).references().update(id.num - 1, refs@) && final(self).root() == old(
                self,
            ).root() && final(self).state() == DocState::Building,
    {
        if self.state == DocState::Finished {
            return Err(PdfError::Finished);
        }
        if id.num == 0 || id.num as usize > self.slots.len() {
            return Err(PdfError::UnallocatedId);
        }
        let k = (id.num - 1) as usize;
        if self.slots[k].is_some() {
            return Err(PdfError::DuplicateObject);
        }
        self.slots.set(k, Some(body));
        let ghost refs_view = refs@;
        self.links.set(k, refs);
        assert(self.bodies() =~= old(self).bodies().update(id.num - 1, Some(body@)));
        assert(self.references() =~= old(self).references().update(id.num - 1, refs_view));
        Ok(())
    }

    /// Names the catalog object.
    pub fn set_root(&mut self, id: ObjectId) -> (r: Result<(), PdfError>)
        requires
            old(self).wf(),
        ensures
            final(self).wf(),
            r is Err ==> *final(self) == *old(self),
            old(self).state() == DocState::Finished ==> r == Err::<(), PdfError>(
                PdfError::Finished,
            ),
            old(self).state() == DocState::Building && !old(self).allocated(id) ==> r == Err::<
                (),
                PdfError,
            >(PdfError::UnallocatedId),
            old(self).state() == DocState::Building && old(self).allocated(id) ==> r == Ok::<
                (),
                PdfError,
            >(()) && final(self).bodies() == old(self).bodies() && final(self).references() == old(
                self,
            ).references() && final(self).root() == Some(
                id.num as nat,
            ) && final(self).state() == DocState::Building,
    {
        if self.state == DocState::Finished {
            return Err(PdfError::Finished);
        }
        if id.num == 0 || id.num as usize > self.slots.len() {
            return Err(PdfError::UnallocatedId);
        }
        self.root = Some(id.num);
        Ok(())
    }

    /// Whether the document can be serialized: a catalog is named and stored.
    pub open spec fn has_root(&self) -> bool {
        &&& self.root() is Some
        &&& 1 <= self.root()->0 <= self.bodies().len()
        &&& self.bodies()[self.root()->0 - 1] is Some
    }

    /// Serializes every stored object in ascending identifier order, then the
    /// cross-reference table and the trailer. The document is inert afterwards.
    /// A reference to an identifier with no stored object is refused.
    pub fn finish(&mut self) -> (r: Result<Vec<u8>, PdfError>)
        requires
            old(self).wf(),
        ensures
            final(self).wf(),
            final(self).bodies() == old(self).bodies(),
            final(self).references() == old(self).references(),
            final(self).root() == old(self).root(),
            r is Err ==> *final(self) == *old(self),
            old(self).state() == DocState::Finished ==> r == Err::<Vec<u8>, PdfError>(
                PdfError::Finished,
            ),
            old(self).state() == DocState::Building && !old(self).has_root() ==> r == Err::<
                Vec<u8>,
                PdfError,
            >(PdfError::MissingRoot),
            old(self).state() == DocState::Building && old(self).has_root() && !refs_resolve(
                old(self).bodies(),
                old(self).references(),
            ) ==> r == Err::<Vec<u8>, PdfError>(PdfError::MissingReference),
            old(self).state() == DocState::Building && old(self).has_root() && refs_resolve(
                old(self).bodies(),
                old(self).references(),
            ) ==> r is Ok && r->Ok_0@
                == document_bytes(old(self).bodies(), old(self).root()->0) && final(self).state()
                == DocState::Finished,
    {
        if self.state == DocState::Finished {
            return Err(PdfError::Finished);
        }
        let root: u32 = match self.root {
            Some(r) => r,
            None => {
                return Err(PdfError::MissingRoot);
            },
        };
        if self.slots[(root - 1) as usize].is_none() {
            return Err(PdfError::MissingRoot);
        }
        if !check_refs(&self.slots, &self.links) {
            return Err(PdfError::MissingReference);
        }
        let out = serialize(&self.slots, root);
        self.state = DocState::Finished;
        Ok(out)
    }
}

} // verus!
