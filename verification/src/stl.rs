//! STL serialisation: byte-exact binary and character-exact ASCII output.
//!
//! A scalar arrives here already encoded — its 32-bit IEEE pattern for the
//! binary variant and its decimal text for the ASCII variant.  Producing
//! those encodings from a floating-point number is the caller's business;
//! everything about how they are laid out in the output is specified and
//! verified here.

use vstd::prelude::*;
use crate::error::StlError;

verus! {

/// One real number of the mesh, in both serialised forms: `bits` is the
/// little-endian 32-bit pattern the binary format stores, `text` the decimal
/// rendering the ASCII format prints.
#[derive(Clone, Debug)]
pub struct Scalar {
    pub bits: u32,
    pub text: String,
}

pub ghost struct ScalarModel {
    pub bits: u32,
    pub text: Seq<char>,
}

impl View for Scalar {
    type V = ScalarModel;

    open spec fn view(&self) -> ScalarModel {
        ScalarModel { bits: self.bits, text: self.text@ }
    }
}

impl Scalar {
    pub fn new(bits: u32, text: String) -> (r: Scalar)
        ensures
            r@ == (ScalarModel { bits, text: text@ }),
    {
        Scalar { bits, text }
    }
}

/// A 3-component value of the mesh: a vertex or a normal.
#[derive(Clone, Debug)]
pub struct Vector {
    pub x: Scalar,
    pub y: Scalar,
    pub z: Scalar,
}

pub ghost struct VectorModel {
    pub x: ScalarModel,
    pub y: ScalarModel,
    pub z: ScalarModel,
}

impl View for Vector {
    type V = VectorModel;

    open spec fn view(&self) -> VectorModel {
        VectorModel { x: self.x@, y: self.y@, z: self.z@ }
    }
}

/// A triangle record: three ordered vertices and the outward unit normal
/// that was derived from them when the triangle was built.
#[derive(Clone, Debug)]
pub struct Triangle {
    pub a: Vector,
    pub b: Vector,
    pub c: Vector,
    pub normal: Vector,
}

pub ghost struct TriangleModel {
    pub a: VectorModel,
    pub b: VectorModel,
    pub c: VectorModel,
    pub normal: VectorModel,
}

impl View for Triangle {
    type V = TriangleModel;

    open spec fn view(&self) -> TriangleModel {
        TriangleModel { a: self.a@, b: self.b@, c: self.c@, normal: self.normal@ }
    }
}

impl Triangle {
    /// Assemble a triangle record from its vertices and its already-derived
    /// normal.
    pub fn init(a: Vector, b: Vector, c: Vector, normal: Vector) -> (r: Triangle)
        ensures
            r@ == (TriangleModel { a: a@, b: b@, c: c@, normal: normal@ }),
    {
        Triangle { a, b, c, normal }
    }

    /// The derived normal, as stored at construction.
    pub fn normal(&self) -> (r: &Vector)
        ensures
            r@ == self@.normal,
    {
        &self.normal
    }
}

/// A whole mesh: a name and its ordered triangle sequence.  The order is the
/// emission order and nothing else; it is what makes the output reproducible.
pub struct STL {
    pub name: String,
    pub triangles: Vec<Triangle>,
}

pub ghost struct StlModel {
    pub name: Seq<char>,
    pub triangles: Seq<TriangleModel>,
}

/// The models of a triangle sequence.
pub open spec fn triangle_models(s: Seq<Triangle>) -> Seq<TriangleModel> {
    s.map_values(|t: Triangle| t@)
}

impl View for STL {
    type V = StlModel;

    open spec fn view(&self) -> StlModel {
        StlModel { name: self.name@, triangles: triangle_models(self.triangles@) }
    }
}

impl STL {
    /// An empty mesh under the given name.
    pub fn init(name: String) -> (r: STL)
        ensures
            r@.name == name@,
            r@.triangles.len() == 0,
    {
        STL { name, triangles: Vec::new() }
    }

    /// Append one triangle; the sequence keeps its order.
    pub fn push_triangle(&mut self, t: Triangle)
        ensures
            final(self)@.name == old(self)@.name,
            final(self)@.triangles =~= old(self)@.triangles.push(t@),
    {
        self.triangles.push(t);
        proof {
            assert(triangle_models(self.triangles@) =~= triangle_models(
                old(self).triangles@,
            ).push(t@));
        }
    }
}

// ---------------------------------------------------------------------------
// Binary layout
// ---------------------------------------------------------------------------

/// The four little-endian bytes of a 32-bit value.
pub open spec fn le4(x: u32) -> Seq<u8> {
    seq![
        (x & 0xff) as u8,
        ((x >> 8) & 0xff) as u8,
        ((x >> 16) & 0xff) as u8,
        ((x >> 24) & 0xff) as u8,
    ]
}

/// 12 bytes: the three coordinates' 32-bit patterns, little-endian.
pub open spec fn vector_bytes(v: VectorModel) -> Seq<u8> {
    le4(v.x.bits) + le4(v.y.bits) + le4(v.z.bits)
}

/// One 50-byte record: normal, vertices a, b, c, and the two-byte zero
/// attribute field.
pub open spec fn triangle_bytes(t: TriangleModel) -> Seq<u8> {
    vector_bytes(t.normal) + vector_bytes(t.a) + vector_bytes(t.b) + vector_bytes(t.c) + seq![
        0u8,
        0u8,
    ]
}

pub open spec fn triangles_bytes(ts: Seq<TriangleModel>, i: int) -> Seq<u8>
    decreases ts.len() - i,
{
    if i < 0 || i >= ts.len() {
        Seq::empty()
    } else {
        triangle_bytes(ts[i]) + triangles_bytes(ts, i + 1)
    }
}

/// The 80-byte all-zero header.
pub open spec fn header80() -> Seq<u8> {
    Seq::new(80, |i: int| 0u8)
}

/// The full binary stream: header, 32-bit little-endian triangle count, then
/// the 50-byte records in sequence.
pub open spec fn stl_bytes(m: StlModel) -> Seq<u8> {
    header80() + le4(m.triangles.len() as u32) + triangles_bytes(m.triangles, 0)
}

/// Append the four little-endian bytes of `x`.
fn push_le4(out: &mut Vec<u8>, x: u32)
    ensures
        final(out)@ == old(out)@ + le4(x),
{
    proof {
        assert((x & 0xff) < 256 && ((x >> 8) & 0xff) < 256 && ((x >> 16) & 0xff) < 256 && ((x
            >> 24) & 0xff) < 256) by (bit_vector);
    }
    out.push((x & 0xff) as u8);
    out.push(((x >> 8) & 0xff) as u8);
    out.push(((x >> 16) & 0xff) as u8);
    out.push(((x >> 24) & 0xff) as u8);
    proof {
        assert(out@ =~= old(out)@ + le4(x));
    }
}

impl Vector {
    /// The 12-byte binary form of this vector.
    pub fn to_binary(&self) -> (r: Vec<u8>)
        ensures
            r@ == vector_bytes(self@),
    {
        let mut out: Vec<u8> = Vec::new();
        push_le4(&mut out, self.x.bits);
        push_le4(&mut out, self.y.bits);
        push_le4(&mut out, self.z.bits);
        proof {
            assert(out@ =~= vector_bytes(self@));
        }
        out
    }
}

/// Append one triangle's 50-byte record.
fn push_triangle_bytes(out: &mut Vec<u8>, t: &Triangle)
    ensures
        final(out)@ == old(out)@ + triangle_bytes(t@),
{
    push_le4(out, t.normal.x.bits);
    push_le4(out, t.normal.y.bits);
    push_le4(out, t.normal.z.bits);
    push_le4(out, t.a.x.bits);
    push_le4(out, t.a.y.bits);
    push_le4(out, t.a.z.bits);
    push_le4(out, t.b.x.bits);
    push_le4(out, t.b.y.bits);
    push_le4(out, t.b.z.bits);
    push_le4(out, t.c.x.bits);
    push_le4(out, t.c.y.bits);
    push_le4(out, t.c.z.bits);
    out.push(0);
    out.push(0);
    proof {
        assert(out@ =~= old(out)@ + triangle_bytes(t@));
    }
}

impl Triangle {
    /// The 50-byte binary record of this triangle.
    pub fn to_binary(&self) -> (r: Vec<u8>)
        ensures
            r@ == triangle_bytes(self@),
    {
        let mut out: Vec<u8> = Vec::new();
        push_triangle_bytes(&mut out, self);
        proof {
            assert(Seq::<u8>::empty() + triangle_bytes(self@) =~= triangle_bytes(self@));
        }
        out
    }
}

impl STL {
    /// The full binary stream of the mesh.  A triangle count that does not
    /// fit the format's 32-bit count field is a configuration error.
    pub fn to_binary(&self) -> (r: Result<Vec<u8>, StlError>)
        ensures
            r is Ok <==> self@.triangles.len() <= u32::MAX,
            r is Ok ==> r->Ok_0@ == stl_bytes(self@),
            r is Err ==> r->Err_0 == StlError::InvalidConfiguration,
    {
        if self.triangles.len() as u64 > u32::MAX as u64 {
            return Err(StlError::InvalidConfiguration);
        }
        let count: u32 = self.triangles.len() as u32;
        let mut out: Vec<u8> = Vec::new();
        let mut j: usize = 0;
        while j < 80
            invariant
                j <= 80,
                out@.len() == j,
                forall|k: int| 0 <= k < j ==> out@[k] == 0u8,
            decreases 80 - j,
        {
            out.push(0);
            j += 1;
        }
        proof {
            assert(out@ =~= header80());
        }
        push_le4(&mut out, count);
        let ghost head = header80() + le4(count);
        assert(out@ =~= head);
        let ghost ts = self@.triangles;
        let mut i: usize = 0;
        while i < self.triangles.len()
            invariant
                i <= self.triangles.len(),
                ts == triangle_models(self.triangles@),
                ts.len() == self.triangles@.len(),
                out@ + triangles_bytes(ts, i as int) == head + triangles_bytes(ts, 0),
            decreases self.triangles@.len() - i,
        {
            let ghost before = out@;
            push_triangle_bytes(&mut out, &self.triangles[i]);
            proof {
                assert(ts[i as int] == self.triangles@[i as int]@);
                assert((before + triangle_bytes(ts[i as int])) + triangles_bytes(ts, i + 1)
                    =~= before + (triangle_bytes(ts[i as int]) + triangles_bytes(ts, i + 1)));
                assert(triangle_bytes(ts[i as int]) + triangles_bytes(ts, i + 1)
                    == triangles_bytes(ts, i as int));
            }
            i += 1;
        }
        proof {
            assert(triangles_bytes(ts, ts.len() as int) =~= Seq::empty());
            assert(out@ + triangles_bytes(ts, ts.len() as int) =~= out@);
            assert(out@ =~= stl_bytes(self@));
        }
        Ok(out)
    }
}

// ---------------------------------------------------------------------------
// ASCII layout
// ---------------------------------------------------------------------------

/// `"x y z"`: the three coordinate texts joined by single spaces.
pub open spec fn vector_ascii(v: VectorModel) -> Seq<char> {
    v.x.text + " "@ + v.y.text + " "@ + v.z.text
}

/// One facet block, exactly as the ASCII grammar prints it.
pub open spec fn triangle_ascii(t: TriangleModel) -> Seq<char> {
    "facet normal "@ + vector_ascii(t.normal) + "\n  outer loop\n"@ + "    vertex "@
        + vector_ascii(t.a) + "\n"@ + "    vertex "@ + vector_ascii(t.b) + "\n"@ + "    vertex "@
        + vector_ascii(t.c) + "\n"@ + "  endloop\nendfacet\n"@
}

/// The facet blocks from index `i` on, each followed by one newline.
pub open spec fn triangles_ascii(ts: Seq<TriangleModel>, i: int) -> Seq<char>
    decreases ts.len() - i,
{
    if i < 0 || i >= ts.len() {
        Seq::empty()
    } else {
        triangle_ascii(ts[i]) + "\n"@ + triangles_ascii(ts, i + 1)
    }
}

/// The full ASCII text of a mesh.
pub open spec fn stl_ascii(m: StlModel) -> Seq<char> {
    "solid "@ + m.name + "\n"@ + triangles_ascii(m.triangles, 0) + "endsolid "@ + m.name + "\n"@
}

impl Vector {
    /// The ASCII form `"x y z"`.
    pub fn to_ascii(&self) -> (r: String)
        ensures
            r@ == vector_ascii(self@),
    {
        let mut r = String::new();
        r.append(self.x.text.as_str());
        r.append(" ");
        r.append(self.y.text.as_str());
        r.append(" ");
        r.append(self.z.text.as_str());
        proof {
            assert(r@ =~= vector_ascii(self@));
        }
        r
    }
}

impl Triangle {
    /// The facet block of this triangle.
    pub fn to_ascii(&self) -> (r: String)
        ensures
            r@ == triangle_ascii(self@),
    {
        let mut r = String::new();
        r.append("facet normal ");
        let n = self.normal.to_ascii();
        r.append(n.as_str());
        r.append("\n  outer loop\n");
        r.append("    vertex ");
        let a = self.a.to_ascii();
        r.append(a.as_str());
        r.append("\n");
        r.append("    vertex ");
        let b = self.b.to_ascii();
        r.append(b.as_str());
        r.append("\n");
        r.append("    vertex ");
        let c = self.c.to_ascii();
        r.append(c.as_str());
        r.append("\n");
        r.append("  endloop\nendfacet\n");
        proof {
            assert(r@ =~= triangle_ascii(self@));
        }
        r
    }
}

impl STL {
    /// The full ASCII text of the mesh: the `solid` line, one facet block
    /// per triangle each followed by a newline, and the `endsolid` line.
    pub fn to_ascii(&self) -> (r: String)
        ensures
            r@ == stl_ascii(self@),
    {
        let mut r = String::new();
        r.append("solid ");
        r.append(self.name.as_str());
        r.append("\n");
        let ghost head = "solid "@ + self@.name + "\n"@;
        proof {
            assert(r@ =~= head);
        }
        let ghost ts = self@.triangles;
        let mut i: usize = 0;
        while i < self.triangles.len()
            invariant
                i <= self.triangles.len(),
                ts == triangle_models(self.triangles@),
                ts.len() == self.triangles@.len(),
                r@ + triangles_ascii(ts, i as int) == head + triangles_ascii(ts, 0),
            decreases self.triangles@.len() - i,
        {
            let ghost before = r@;
            let block = self.triangles[i].to_ascii();
            r.append(block.as_str());
            r.append("\n");
            proof {
                assert(ts[i as int] == self.triangles@[i as int]@);
                assert(r@ =~= before + (triangle_ascii(ts[i as int]) + "\n"@));
                assert((before + (triangle_ascii(ts[i as int]) + "\n"@)) + triangles_ascii(
                    ts,
                    i + 1,
                ) =~= before + ((triangle_ascii(ts[i as int]) + "\n"@) + triangles_ascii(
                    ts,
                    i + 1,
                )));
                assert((triangle_ascii(ts[i as int]) + "\n"@) + triangles_ascii(ts, i + 1)
                    =~= triangles_ascii(ts, i as int));
            }
            i += 1;
        }
        proof {
            assert(triangles_ascii(ts, ts.len() as int) =~= Seq::empty());
            assert(r@ + triangles_ascii(ts, ts.len() as int) =~= r@);
        }
        r.append("endsolid ");
        r.append(self.name.as_str());
        r.append("\n");
        proof {
            assert(r@ =~= stl_ascii(self@));
        }
        r
    }
}

/// Determinism: serialisation is a function of the mesh's value alone — two
/// meshes with the same name and the same triangle models produce the
/// identical byte stream and the identical text, however and whenever each
/// was built.
pub proof fn lemma_serialisation_deterministic(m1: StlModel, m2: StlModel)
    requires
        m1.name == m2.name,
        m1.triangles == m2.triangles,
    ensures
        stl_bytes(m1) == stl_bytes(m2),
        stl_ascii(m1) == stl_ascii(m2),
{
    assert(m1 == m2);
}

// ---------------------------------------------------------------------------
// Binary decoding
// ---------------------------------------------------------------------------

/// A decoded 3-component value: the raw 32-bit patterns the stream stored.
#[derive(Clone, Copy, PartialEq, Eq, Structural, Debug)]
pub struct RawVector {
    pub x: u32,
    pub y: u32,
    pub z: u32,
}

/// A decoded triangle record.
#[derive(Clone, Copy, PartialEq, Eq, Structural, Debug)]
pub struct RawTriangle {
    pub normal: RawVector,
    pub a: RawVector,
    pub b: RawVector,
    pub c: RawVector,
}

/// The raw patterns a triangle model serialises to.
pub open spec fn raw_of(t: TriangleModel) -> RawTriangle {
    RawTriangle {
        normal: RawVector { x: t.normal.x.bits, y: t.normal.y.bits, z: t.normal.z.bits },
        a: RawVector { x: t.a.x.bits, y: t.a.y.bits, z: t.a.z.bits },
        b: RawVector { x: t.b.x.bits, y: t.b.y.bits, z: t.b.z.bits },
        c: RawVector { x: t.c.x.bits, y: t.c.y.bits, z: t.c.z.bits },
    }
}

/// The 32-bit value stored little-endian at `off`.
pub open spec fn u32_at(b: Seq<u8>, off: int) -> u32 {
    (b[off] as u32) | ((b[off + 1] as u32) << 8) | ((b[off + 2] as u32) << 16) | ((b[off + 3]
        as u32) << 24)
}

pub open spec fn raw_vector_at(b: Seq<u8>, off: int) -> RawVector {
    RawVector { x: u32_at(b, off), y: u32_at(b, off + 4), z: u32_at(b, off + 8) }
}

pub open spec fn raw_triangle_at(b: Seq<u8>, off: int) -> RawTriangle {
    RawTriangle {
        normal: raw_vector_at(b, off),
        a: raw_vector_at(b, off + 12),
        b: raw_vector_at(b, off + 24),
        c: raw_vector_at(b, off + 36),
    }
}

/// What a byte stream decodes to under the binary layout: `None` when the
/// stream is too short for its header or its length does not match its
/// count field; otherwise the count-field records, in order.
pub open spec fn binary_decoded(b: Seq<u8>) -> Option<Seq<RawTriangle>> {
    if b.len() < 84 {
        Option::None
    } else {
        let n = u32_at(b, 80) as int;
        if b.len() != 84 + 50 * n {
            Option::None
        } else {
            Option::Some(Seq::new(n as nat, |i: int| raw_triangle_at(b, 84 + 50 * i)))
        }
    }
}

/// Read the 32-bit value stored little-endian at `off`.
fn read_u32_at(bytes: &Vec<u8>, off: usize) -> (r: u32)
    requires
        off + 4 <= bytes@.len(),
    ensures
        r == u32_at(bytes@, off as int),
{
    let len = bytes.len();
    let b0 = bytes[off];
    let b1 = bytes[off + 1];
    let b2 = bytes[off + 2];
    let b3 = bytes[off + 3];
    (b0 as u32) | ((b1 as u32) << 8) | ((b2 as u32) << 16) | ((b3 as u32) << 24)
}

fn read_raw_vector(bytes: &Vec<u8>, off: usize) -> (r: RawVector)
    requires
        off + 12 <= bytes@.len(),
    ensures
        r == raw_vector_at(bytes@, off as int),
{
    let len = bytes.len();
    RawVector {
        x: read_u32_at(bytes, off),
        y: read_u32_at(bytes, off + 4),
        z: read_u32_at(bytes, off + 8),
    }
}

/// Decode a binary stream back into its triangle records, per the layout of
/// `stl_bytes`.  Rejects a stream whose length disagrees with its count
/// field.
pub fn decode_binary(bytes: &Vec<u8>) -> (r: Option<Vec<RawTriangle>>)
    ensures
        match r {
            Option::Some(v) => {
                &&& binary_decoded(bytes@) is Some
                &&& v@ == binary_decoded(bytes@)->0
            },
            Option::None => binary_decoded(bytes@) is None,
        },
{
    if bytes.len() < 84 {
        return Option::None;
    }
    let n = read_u32_at(bytes, 80);
    let n_sz = n as usize;
    if (bytes.len() - 84) / 50 != n_sz || (bytes.len() - 84) % 50 != 0 {
        proof {
            assert(bytes@.len() != 84 + 50 * (n as int)) by (nonlinear_arith)
                requires
                    bytes@.len() >= 84,
                    ((bytes@.len() - 84) as int) / 50 != n as int || ((bytes@.len() - 84) as int)
                        % 50 != 0,
            ;
        }
        return Option::None;
    }
    proof {
        assert(bytes@.len() == 84 + 50 * (n as int)) by (nonlinear_arith)
            requires
                bytes@.len() >= 84,
                ((bytes@.len() - 84) as int) / 50 == n as int,
                ((bytes@.len() - 84) as int) % 50 == 0,
        ;
    }
    let ghost expected = binary_decoded(bytes@)->0;
    let mut out: Vec<RawTriangle> = Vec::new();
    let mut i: usize = 0;
    while i < n_sz
        invariant
            i <= n_sz,
            n_sz == n as int,
            n == u32_at(bytes@, 80),
            bytes@.len() == 84 + 50 * (n as int),
            out@.len() == i,
            expected == binary_decoded(bytes@)->0,
            expected.len() == n as int,
            forall|j: int| 0 <= j < i ==> out@[j] == expected[j],
        decreases n_sz - i,
    {
        let blen = bytes.len();
        proof {
            assert(84 + 50 * (i as int) + 50 <= bytes@.len()) by (nonlinear_arith)
                requires
                    bytes@.len() == 84 + 50 * (n as int),
                    0 <= i < n as int,
            ;
        }
        let off: usize = 84 + 50 * i;
        let t = RawTriangle {
            normal: read_raw_vector(bytes, off),
            a: read_raw_vector(bytes, off + 12),
            b: read_raw_vector(bytes, off + 24),
            c: read_raw_vector(bytes, off + 36),
        };
        proof {
            assert(expected[i as int] == raw_triangle_at(bytes@, 84 + 50 * (i as int)));
            assert(off as int == 84 + 50 * (i as int));
            assert(t == raw_triangle_at(bytes@, 84 + 50 * (i as int)));
        }
        out.push(t);
        i += 1;
    }
    proof {
        assert(out@ =~= expected);
    }
    Option::Some(out)
}

// ---------------------------------------------------------------------------
// The binary round trip
// ---------------------------------------------------------------------------

proof fn lemma_triangle_bytes_len(t: TriangleModel)
    ensures
        triangle_bytes(t).len() == 50,
{
}

proof fn lemma_triangles_bytes_len(ts: Seq<TriangleModel>, i: int)
    requires
        0 <= i <= ts.len(),
    ensures
        triangles_bytes(ts, i).len() == 50 * (ts.len() - i),
    decreases ts.len() - i,
{
    if i < ts.len() {
        lemma_triangle_bytes_len(ts[i]);
        lemma_triangles_bytes_len(ts, i + 1);
    }
}

/// Reading four little-endian bytes back gives the value they encode.
proof fn lemma_u32_at_le4(b: Seq<u8>, off: int, x: u32)
    requires
        0 <= off,
        off + 4 <= b.len(),
        b[off] == le4(x)[0],
        b[off + 1] == le4(x)[1],
        b[off + 2] == le4(x)[2],
        b[off + 3] == le4(x)[3],
    ensures
        u32_at(b, off) == x,
{
    let b0 = b[off];
    let b1 = b[off + 1];
    let b2 = b[off + 2];
    let b3 = b[off + 3];
    assert((b0 as u32) | ((b1 as u32) << 8) | ((b2 as u32) << 16) | ((b3 as u32) << 24) == x)
        by (bit_vector)
        requires
            b0 == (x & 0xff) as u8,
            b1 == ((x >> 8) & 0xff) as u8,
            b2 == ((x >> 16) & 0xff) as u8,
            b3 == ((x >> 24) & 0xff) as u8,
    ;
}

/// A 50-byte window holding a record decodes to that record's raw patterns.
proof fn lemma_record_roundtrip(b: Seq<u8>, off: int, t: TriangleModel)
    requires
        0 <= off,
        off + 50 <= b.len(),
        forall|k: int| 0 <= k < 50 ==> b[off + k] == #[trigger] triangle_bytes(t)[k],
    ensures
        raw_triangle_at(b, off) == raw_of(t),
{
    assert(b[off + 0] == le4(t.normal.x.bits)[0]) by {
        assert(b[off + 0] == triangle_bytes(t)[0]);
        assert(triangle_bytes(t)[0] == le4(t.normal.x.bits)[0]);
    };
    assert(b[off + 1] == le4(t.normal.x.bits)[1]) by {
        assert(b[off + 1] == triangle_bytes(t)[1]);
        assert(triangle_bytes(t)[1] == le4(t.normal.x.bits)[1]);
    };
    assert(b[off + 2] == le4(t.normal.x.bits)[2]) by {
        assert(b[off + 2] == triangle_bytes(t)[2]);
        assert(triangle_bytes(t)[2] == le4(t.normal.x.bits)[2]);
    };
    assert(b[off + 3] == le4(t.normal.x.bits)[3]) by {
        assert(b[off + 3] == triangle_bytes(t)[3]);
        assert(triangle_bytes(t)[3] == le4(t.normal.x.bits)[3]);
    };
    assert(b[off + 4] == le4(t.normal.y.bits)[0]) by {
        assert(b[off + 4] == triangle_bytes(t)[4]);
        assert(triangle_bytes(t)[4] == le4(t.normal.y.bits)[0]);
    };
    assert(b[off + 5] == le4(t.normal.y.bits)[1]) by {
        assert(b[off + 5] == triangle_bytes(t)[5]);
        assert(triangle_bytes(t)[5] == le4(t.normal.y.bits)[1]);
    };
    assert(b[off + 6] == le4(t.normal.y.bits)[2]) by {
        assert(b[off + 6] == triangle_bytes(t)[6]);
        assert(triangle_bytes(t)[6] == le4(t.normal.y.bits)[2]);
    };
    assert(b[off + 7] == le4(t.normal.y.bits)[3]) by {
        assert(b[off + 7] == triangle_bytes(t)[7]);
        assert(triangle_bytes(t)[7] == le4(t.normal.y.bits)[3]);
    };
    assert(b[off + 8] == le4(t.normal.z.bits)[0]) by {
        assert(b[off + 8] == triangle_bytes(t)[8]);
        assert(triangle_bytes(t)[8] == le4(t.normal.z.bits)[0]);
    };
    assert(b[off + 9] == le4(t.normal.z.bits)[1]) by {
        assert(b[off + 9] == triangle_bytes(t)[9]);
        assert(triangle_bytes(t)[9] == le4(t.normal.z.bits)[1]);
    };
    assert(b[off + 10] == le4(t.normal.z.bits)[2]) by {
        assert(b[off + 10] == triangle_bytes(t)[10]);
        assert(triangle_bytes(t)[10] == le4(t.normal.z.bits)[2]);
    };
    assert(b[off + 11] == le4(t.normal.z.bits)[3]) by {
        assert(b[off + 11] == triangle_bytes(t)[11]);
        assert(triangle_bytes(t)[11] == le4(t.normal.z.bits)[3]);
    };
    assert(b[off + 12] == le4(t.a.x.bits)[0]) by {
        assert(b[off + 12] == triangle_bytes(t)[12]);
        assert(triangle_bytes(t)[12] == le4(t.a.x.bits)[0]);
    };
    assert(b[off + 13] == le4(t.a.x.bits)[1]) by {
        assert(b[off + 13] == triangle_bytes(t)[13]);
        assert(triangle_bytes(t)[13] == le4(t.a.x.bits)[1]);
    };
    assert(b[off + 14] == le4(t.a.x.bits)[2]) by {
        assert(b[off + 14] == triangle_bytes(t)[14]);
        assert(triangle_bytes(t)[14] == le4(t.a.x.bits)[2]);
    };
    assert(b[off + 15] == le4(t.a.x.bits)[3]) by {
        assert(b[off + 15] == triangle_bytes(t)[15]);
        assert(triangle_bytes(t)[15] == le4(t.a.x.bits)[3]);
    };
    assert(b[off + 16] == le4(t.a.y.bits)[0]) by {
        assert(b[off + 16] == triangle_bytes(t)[16]);
        assert(triangle_bytes(t)[16] == le4(t.a.y.bits)[0]);
    };
    assert(b[off + 17] == le4(t.a.y.bits)[1]) by {
        assert(b[off + 17] == triangle_bytes(t)[17]);
        assert(triangle_bytes(t)[17] == le4(t.a.y.bits)[1]);
    };
    assert(b[off + 18] == le4(t.a.y.bits)[2]) by {
        assert(b[off + 18] == triangle_bytes(t)[18]);
        assert(triangle_bytes(t)[18] == le4(t.a.y.bits)[2]);
    };
    assert(b[off + 19] == le4(t.a.y.bits)[3]) by {
        assert(b[off + 19] == triangle_bytes(t)[19]);
        assert(triangle_bytes(t)[19] == le4(t.a.y.bits)[3]);
    };
    assert(b[off + 20] == le4(t.a.z.bits)[0]) by {
        assert(b[off + 20] == triangle_bytes(t)[20]);
        assert(triangle_bytes(t)[20] == le4(t.a.z.bits)[0]);
    };
    assert(b[off + 21] == le4(t.a.z.bits)[1]) by {
        assert(b[off + 21] == triangle_bytes(t)[21]);
        assert(triangle_bytes(t)[21] == le4(t.a.z.bits)[1]);
    };
    assert(b[off + 22] == le4(t.a.z.bits)[2]) by {
        assert(b[off + 22] == triangle_bytes(t)[22]);
        assert(triangle_bytes(t)[22] == le4(t.a.z.bits)[2]);
    };
    assert(b[off + 23] == le4(t.a.z.bits)[3]) by {
        assert(b[off + 23] == triangle_bytes(t)[23]);
        assert(triangle_bytes(t)[23] == le4(t.a.z.bits)[3]);
    };
    assert(b[off + 24] == le4(t.b.x.bits)[0]) by {
        assert(b[off + 24] == triangle_bytes(t)[24]);
        assert(triangle_bytes(t)[24] == le4(t.b.x.bits)[0]);
    };
    assert(b[off + 25] == le4(t.b.x.bits)[1]) by {
        assert(b[off + 25] == triangle_bytes(t)[25]);
        assert(triangle_bytes(t)[25] == le4(t.b.x.bits)[1]);
    };
    assert(b[off + 26] == le4(t.b.x.bits)[2]) by {
        assert(b[off + 26] == triangle_bytes(t)[26]);
        assert(triangle_bytes(t)[26] == le4(t.b.x.bits)[2]);
    };
    assert(b[off + 27] == le4(t.b.x.bits)[3]) by {
        assert(b[off + 27] == triangle_bytes(t)[27]);
        assert(triangle_bytes(t)[27] == le4(t.b.x.bits)[3]);
    };
    assert(b[off + 28] == le4(t.b.y.bits)[0]) by {
        assert(b[off + 28] == triangle_bytes(t)[28]);
        assert(triangle_bytes(t)[28] == le4(t.b.y.bits)[0]);
    };
    assert(b[off + 29] == le4(t.b.y.bits)[1]) by {
        assert(b[off + 29] == triangle_bytes(t)[29]);
        assert(triangle_bytes(t)[29] == le4(t.b.y.bits)[1]);
    };
    assert(b[off + 30] == le4(t.b.y.bits)[2]) by {
        assert(b[off + 30] == triangle_bytes(t)[30]);
        assert(triangle_bytes(t)[30] == le4(t.b.y.bits)[2]);
    };
    assert(b[off + 31] == le4(t.b.y.bits)[3]) by {
        assert(b[off + 31] == triangle_bytes(t)[31]);
        assert(triangle_bytes(t)[31] == le4(t.b.y.bits)[3]);
    };
    assert(b[off + 32] == le4(t.b.z.bits)[0]) by {
        assert(b[off + 32] == triangle_bytes(t)[32]);
        assert(triangle_bytes(t)[32] == le4(t.b.z.bits)[0]);
    };
    assert(b[off + 33] == le4(t.b.z.bits)[1]) by {
        assert(b[off + 33] == triangle_bytes(t)[33]);
        assert(triangle_bytes(t)[33] == le4(t.b.z.bits)[1]);
    };
    assert(b[off + 34] == le4(t.b.z.bits)[2]) by {
        assert(b[off + 34] == triangle_bytes(t)[34]);
        assert(triangle_bytes(t)[34] == le4(t.b.z.bits)[2]);
    };
    assert(b[off + 35] == le4(t.b.z.bits)[3]) by {
        assert(b[off + 35] == triangle_bytes(t)[35]);
        assert(triangle_bytes(t)[35] == le4(t.b.z.bits)[3]);
    };
    assert(b[off + 36] == le4(t.c.x.bits)[0]) by {
        assert(b[off + 36] == triangle_bytes(t)[36]);
        assert(triangle_bytes(t)[36] == le4(t.c.x.bits)[0]);
    };
    assert(b[off + 37] == le4(t.c.x.bits)[1]) by {
        assert(b[off + 37] == triangle_bytes(t)[37]);
        assert(triangle_bytes(t)[37] == le4(t.c.x.bits)[1]);
    };
    assert(b[off + 38] == le4(t.c.x.bits)[2]) by {
        assert(b[off + 38] == triangle_bytes(t)[38]);
        assert(triangle_bytes(t)[38] == le4(t.c.x.bits)[2]);
    };
    assert(b[off + 39] == le4(t.c.x.bits)[3]) by {
        assert(b[off + 39] == triangle_bytes(t)[39]);
        assert(triangle_bytes(t)[39] == le4(t.c.x.bits)[3]);
    };
    assert(b[off + 40] == le4(t.c.y.bits)[0]) by {
        assert(b[off + 40] == triangle_bytes(t)[40]);
        assert(triangle_bytes(t)[40] == le4(t.c.y.bits)[0]);
    };
    assert(b[off + 41] == le4(t.c.y.bits)[1]) by {
        assert(b[off + 41] == triangle_bytes(t)[41]);
        assert(triangle_bytes(t)[41] == le4(t.c.y.bits)[1]);
    };
    assert(b[off + 42] == le4(t.c.y.bits)[2]) by {
        assert(b[off + 42] == triangle_bytes(t)[42]);
        assert(triangle_bytes(t)[42] == le4(t.c.y.bits)[2]);
    };
    assert(b[off + 43] == le4(t.c.y.bits)[3]) by {
        assert(b[off + 43] == triangle_bytes(t)[43]);
        assert(triangle_bytes(t)[43] == le4(t.c.y.bits)[3]);
    };
    assert(b[off + 44] == le4(t.c.z.bits)[0]) by {
        assert(b[off + 44] == triangle_bytes(t)[44]);
        assert(triangle_bytes(t)[44] == le4(t.c.z.bits)[0]);
    };
    assert(b[off + 45] == le4(t.c.z.bits)[1]) by {
        assert(b[off + 45] == triangle_bytes(t)[45]);
        assert(triangle_bytes(t)[45] == le4(t.c.z.bits)[1]);
    };
    assert(b[off + 46] == le4(t.c.z.bits)[2]) by {
        assert(b[off + 46] == triangle_bytes(t)[46]);
        assert(triangle_bytes(t)[46] == le4(t.c.z.bits)[2]);
    };
    assert(b[off + 47] == le4(t.c.z.bits)[3]) by {
        assert(b[off + 47] == triangle_bytes(t)[47]);
        assert(triangle_bytes(t)[47] == le4(t.c.z.bits)[3]);
    };
    lemma_u32_at_le4(b, off, t.normal.x.bits);
    lemma_u32_at_le4(b, off + 4, t.normal.y.bits);
    lemma_u32_at_le4(b, off + 8, t.normal.z.bits);
    lemma_u32_at_le4(b, off + 12, t.a.x.bits);
    lemma_u32_at_le4(b, off + 16, t.a.y.bits);
    lemma_u32_at_le4(b, off + 20, t.a.z.bits);
    lemma_u32_at_le4(b, off + 24, t.b.x.bits);
    lemma_u32_at_le4(b, off + 28, t.b.y.bits);
    lemma_u32_at_le4(b, off + 32, t.b.z.bits);
    lemma_u32_at_le4(b, off + 36, t.c.x.bits);
    lemma_u32_at_le4(b, off + 40, t.c.y.bits);
    lemma_u32_at_le4(b, off + 44, t.c.z.bits);
}

/// Record `i` occupies bytes `50 * (i - j)` on in the stream of records from
/// `j`.
proof fn lemma_records_index(ts: Seq<TriangleModel>, j: int, i: int, k: int)
    requires
        0 <= j <= i < ts.len(),
        0 <= k < 50,
    ensures
        triangles_bytes(ts, j)[50 * (i - j) + k] == triangle_bytes(ts[i])[k],
    decreases i - j,
{
    lemma_triangle_bytes_len(ts[j]);
    lemma_triangles_bytes_len(ts, j + 1);
    if j < i {
        lemma_records_index(ts, j + 1, i, k);
    }
}

/// Binary round trip: decoding the binary stream of a mesh recovers exactly
/// its triangle count and, for every triangle, the stored 32-bit patterns of
/// its normal and its three vertices.
pub proof fn lemma_binary_round_trip(m: StlModel)
    requires
        m.triangles.len() <= u32::MAX,
    ensures
        binary_decoded(stl_bytes(m)) is Some,
        binary_decoded(stl_bytes(m))->0.len() == m.triangles.len(),
        forall|i: int|
            0 <= i < m.triangles.len() ==> binary_decoded(stl_bytes(m))->0[i] == raw_of(
                #[trigger] m.triangles[i],
            ),
{
    let b = stl_bytes(m);
    let ts = m.triangles;
    let n = ts.len() as int;
    lemma_triangles_bytes_len(ts, 0);
    assert(b.len() == 84 + 50 * n);
    assert forall|k: int| 0 <= k < 4 implies b[80 + k] == #[trigger] le4(ts.len() as u32)[k] by {
    };
    lemma_u32_at_le4(b, 80, ts.len() as u32);
    assert(u32_at(b, 80) as int == n);
    assert(binary_decoded(b) is Some);
    let dec = binary_decoded(b)->0;
    assert(dec.len() == n);
    assert forall|i: int| 0 <= i < n implies dec[i] == raw_of(#[trigger] ts[i]) by {
        assert forall|k: int| 0 <= k < 50 implies b[84 + 50 * i + k] == #[trigger] triangle_bytes(
            ts[i],
        )[k] by {
            lemma_records_index(ts, 0, i, k);
            assert(b[84 + 50 * i + k] == triangles_bytes(ts, 0)[50 * i + k]);
        };
        lemma_record_roundtrip(b, 84 + 50 * i, ts[i]);
        assert(dec[i] == raw_triangle_at(b, 84 + 50 * i));
    };
}

} // verus!
