//! The content-stream encoder: an append-only log of drawing operators that
//! is written out in program order.
use vstd::prelude::*;
use crate::bytes::{lit, nat_digits, push_bytes, push_lit, push_real, real_bytes};

verus! {

/// How path segments are joined.
#[derive(Clone, Copy, Debug, PartialEq, Eq, Structural)]
pub enum LineJoin {
    Miter,
    Round,
    Bevel,
}

/// How open path ends are drawn.
#[derive(Clone, Copy, Debug, PartialEq, Eq, Structural)]
pub enum LineCap {
    Butt,
    Round,
    Square,
}

/// One drawing operator with its operands. Coordinates, widths, sizes and
/// color components are fixed-point values in thousandths of a unit, stored
/// as given.
#[derive(Debug)]
pub enum Op {
    SaveState,
    RestoreState,
    SetLineWidth(i64),
    SetLineJoin(LineJoin),
    SetLineCap(LineCap),
    SetStrokeRgb(i64, i64, i64),
    SetFillRgb(i64, i64, i64),
    MoveTo(i64, i64),
    LineTo(i64, i64),
    CubicTo(i64, i64, i64, i64, i64, i64),
    Stroke,
    Fill,
    /// Post-multiplies the transformation matrix `[a b c d e f]`.
    Transform(i64, i64, i64, i64, i64, i64),
    BeginText,
    EndText,
    /// Selects a font resource by name at a size.
    SetFont(Vec<u8>, i64),
    NextLine(i64, i64),
    /// Shows a literal text string.
    Show(Vec<u8>),
    /// Paints the image resource of that name.
    XObject(Vec<u8>),
}

/// A real operand followed by a space.
pub open spec fn num(v: i64) -> Seq<u8> {
    real_bytes(v as int) + seq![32u8]
}

/// A name operand followed by a space.
pub open spec fn name_operand(n: Seq<u8>) -> Seq<u8> {
    seq![47u8] + n + seq![32u8]
}

pub open spec fn join_code(j: LineJoin) -> nat {
    match j {
        LineJoin::Miter => 0,
        LineJoin::Round => 1,
        LineJoin::Bevel => 2,
    }
}

pub open spec fn cap_code(c: LineCap) -> nat {
    match c {
        LineCap::Butt => 0,
        LineCap::Round => 1,
        LineCap::Square => 2,
    }
}

/// The bytes of one operator: its operands, each followed by a space, then
/// the opcode and a newline.
pub open spec fn op_bytes(op: Op) -> Seq<u8> {
    match op {
        Op::SaveState => lit("q\n"),
        Op::RestoreState => lit("Q\n"),
        Op::SetLineWidth(w) => num(w) + lit("w\n"),
        Op::SetLineJoin(j) => nat_digits(join_code(j)) + lit(" j\n"),
        Op::SetLineCap(c) => nat_digits(cap_code(c)) + lit(" J\n"),
        Op::SetStrokeRgb(r, g, b) => num(r) + num(g) + num(b) + lit("RG\n"),
        Op::SetFillRgb(r, g, b) => num(r) + num(g) + num(b) + lit("rg\n"),
        Op::MoveTo(x, y) => num(x) + num(y) + lit("m\n"),
        Op::LineTo(x, y) => num(x) + num(y) + lit("l\n"),
        Op::CubicTo(x1, y1, x2, y2, x3, y3) => num(x1) + num(y1) + num(x2) + num(y2) + num(x3)
            + num(y3) + lit("c\n"),
        Op::Stroke => lit("S\n"),
        Op::Fill => lit("f\n"),
        Op::Transform(a, b, c, d, e, f) => num(a) + num(b) + num(c) + num(d) + num(e) + num(f)
            + lit("cm\n"),
        Op::BeginText => lit("BT\n"),
        Op::EndText => lit("ET\n"),
        Op::SetFont(n, s) => name_operand(n@) + num(s) + lit("Tf\n"),
        Op::NextLine(x, y) => num(x) + num(y) + lit("Td\n"),
        Op::Show(t) => seq![40u8] + crate::bytes::escaped(t@) + seq![41u8] + lit(" Tj\n"),
        Op::XObject(n) => name_operand(n@) + lit("Do\n"),
    }
}

/// The bytes of a sequence of operators, in order.
pub open spec fn ops_bytes(ops: Seq<Op>) -> Seq<u8>
    decreases ops.len(),
{
    if ops.len() == 0 {
        seq![]
    } else {
        ops_bytes(ops.drop_last()) + op_bytes(ops.last())
    }
}

/// Operators are written in program order: the bytes of two runs of
/// operators, one after the other, are the bytes of the first run followed
/// by those of the second.
pub proof fn lemma_program_order(a: Seq<Op>, b: Seq<Op>)
    ensures
        ops_bytes(a + b) == ops_bytes(a) + ops_bytes(b),
    decreases b.len(),
{
    if b.len() == 0 {
        assert(a + b =~= a);
        assert(ops_bytes(b) =~= Seq::<u8>::empty());
        assert(ops_bytes(a) + ops_bytes(b) =~= ops_bytes(a));
    } else {
        lemma_program_order(a, b.drop_last());
        assert((a + b).drop_last() =~= a + b.drop_last());
        assert((a + b).last() == b.last());
        assert(ops_bytes(a + b) =~= ops_bytes(a) + ops_bytes(b));
    }
}

fn push_num(out: &mut Vec<u8>, v: i64)
    ensures
        final(out)@ == old(out)@ + num(v),
{
    push_real(out, v);
    out.push(32u8);
    assert(out@ =~= old(out)@ + num(v));
}

fn push_name_operand(out: &mut Vec<u8>, n: &Vec<u8>)
    ensures
        final(out)@ == old(out)@ + name_operand(n@),
{
    out.push(47u8);
    push_bytes(out, n.as_slice());
    out.push(32u8);
    assert(out@ =~= old(out)@ + name_operand(n@));
}

/// Appends the bytes of one operator.
pub fn write_op(out: &mut Vec<u8>, op: &Op)
    ensures
        final(out)@ == old(out)@ + op_bytes(*op),
{
    let ghost start = out@;
    match op {
        Op::SaveState => push_lit(out, "q\n"),
        Op::RestoreState => push_lit(out, "Q\n"),
        Op::SetLineWidth(w) => {
            push_num(out, *w);
            push_lit(out, "w\n");
        },
        Op::SetLineJoin(j) => {
            let code: u8 = match j {
                LineJoin::Miter => 48,
                LineJoin::Round => 49,
                LineJoin::Bevel => 50,
            };
            out.push(code);
            push_lit(out, " j\n");
            assert(nat_digits(join_code(*j)) =~= seq![code]);
        },
        Op::SetLineCap(c) => {
            let code: u8 = match c {
                LineCap::Butt => 48,
                LineCap::Round => 49,
                LineCap::Square => 50,
            };
            out.push(code);
            push_lit(out, " J\n");
            assert(nat_digits(cap_code(*c)) =~= seq![code]);
        },
        Op::SetStrokeRgb(r, g, b) => {
            push_num(out, *r);
            push_num(out, *g);
            push_num(out, *b);
            push_lit(out, "RG\n");
        },
        Op::SetFillRgb(r, g, b) => {
            push_num(out, *r);
            push_num(out, *g);
            push_num(out, *b);
            push_lit(out, "rg\n");
        },
        Op::MoveTo(x, y) => {
            push_num(out, *x);
            push_num(out, *y);
            push_lit(out, "m\n");
        },
        Op::LineTo(x, y) => {
            push_num(out, *x);
            push_num(out, *y);
            push_lit(out, "l\n");
        },
        Op::CubicTo(x1, y1, x2, y2, x3, y3) => {
            push_num(out, *x1);
            push_num(out, *y1);
            push_num(out, *x2);
            push_num(out, *y2);
            push_num(out, *x3);
            push_num(out, *y3);
            push_lit(out, "c\n");
        },
        Op::Stroke => push_lit(out, "S\n"),
        Op::Fill => push_lit(out, "f\n"),
        Op::Transform(a, b, c, d, e, f) => {
            push_num(out, *a);
            push_num(out, *b);
            push_num(out, *c);
            push_num(out, *d);
            push_num(out, *e);
            push_num(out, *f);
            push_lit(out, "cm\n");
        },
        Op::BeginText => push_lit(out, "BT\n"),
        Op::EndText => push_lit(out, "ET\n"),
        Op::SetFont(n, s) => {
            push_name_operand(out, n);
            push_num(out, *s);
            push_lit(out, "Tf\n");
        },
        Op::NextLine(x, y) => {
            push_num(out, *x);
            push_num(out, *y);
            push_lit(out, "Td\n");
        },
        Op::Show(t) => {
            crate::bytes::push_text(out, t.as_slice());
            push_lit(out, " Tj\n");
        },
        Op::XObject(n) => {
            push_name_operand(out, n);
            push_lit(out, "Do\n");
        },
    }
    assert(out@ =~= start + op_bytes(*op));
}

/// A content stream under construction.
pub struct Content {
    ops: Vec<Op>,
}

impl Content {
    /// The operators issued so far, in order.
    pub closed spec fn ops(&self) -> Seq<Op> {
        self.ops@
    }

    pub fn new() -> (r: Content)
        ensures
            r.ops() == Seq::<Op>::empty(),
    {
        Content { ops: Vec::new() }
    }

    /// Appends one operator; its bytes follow those of the operators before.
    pub fn push(&mut self, op: Op)
        ensures
            final(self).ops() == old(self).ops().push(op),
            ops_bytes(final(self).ops()) == ops_bytes(old(self).ops()) + op_bytes(op),
    {
        self.ops.push(op);
        assert(self.ops@.drop_last() =~= old(self).ops@);
    }

    /// Whether every restore closes an earlier save and every save is closed.
    pub fn is_balanced(&self) -> (r: bool)
        ensures
            r == balanced_from(self.ops(), 0),
    {
        let mut depth: u64 = 0;
        let mut i: usize = 0;
        assert(self.ops@.subrange(0, self.ops@.len() as int) =~= self.ops@);
        while i < self.ops.len()
            invariant
                i <= self.ops@.len(),
                depth <= i,
                balanced_from(self.ops@, 0) == balanced_from(self.ops@.subrange(i as int, self.ops@.len() as int), depth as nat),
            decreases self.ops@.len() - i,
        {
            let ghost rest = self.ops@.subrange(i as int, self.ops@.len() as int);
            assert(rest.drop_first() =~= self.ops@.subrange(i + 1, self.ops@.len() as int));
            match &self.ops[i] {
                Op::SaveState => {
                    depth = depth + 1;
                },
                Op::RestoreState => {
                    if depth == 0 {
                        return false;
                    }
                    depth = depth - 1;
                },
                _ => {},
            }
            i = i + 1;
        }
        assert(self.ops@.subrange(i as int, self.ops@.len() as int) =~= Seq::<Op>::empty());
        depth == 0
    }

    /// The operator bytes, in the order the operators were issued. The
    /// stream is consumed: nothing can be added after it is written.
    pub fn finish(self) -> (r: Vec<u8>)
        ensures
            r@ == ops_bytes(self.ops()),
    {
        let mut out: Vec<u8> = Vec::new();
        let mut i: usize = 0;
        while i < self.ops.len()
            invariant
                i <= self.ops@.len(),
                out@ == ops_bytes(self.ops@.subrange(0, i as int)),
            decreases self.ops@.len() - i,
        {
            write_op(&mut out, &self.ops[i]);
            i = i + 1;
            assert(self.ops@.subrange(0, i as int).drop_last() =~= self.ops@.subrange(0, i - 1 as int));
        }
        assert(self.ops@.subrange(0, self.ops@.len() as int) =~= self.ops@);
        out
    }
}

/// Whether the operators, run from a save depth of `depth`, never restore
/// below zero and end at depth zero.
pub open spec fn balanced_from(ops: Seq<Op>, depth: nat) -> bool
    decreases ops.len(),
{
    if ops.len() == 0 {
        depth == 0
    } else {
        match ops[0] {
            Op::SaveState => balanced_from(ops.drop_first(), depth + 1),
            Op::RestoreState => depth > 0 && balanced_from(ops.drop_first(), (depth - 1) as nat),
            _ => balanced_from(ops.drop_first(), depth),
        }
    }
}

} // verus!
