//! Counting occurrences of a pattern in serialised text.
//!
//! The ASCII output prints one `facet normal` line per triangle, and nothing
//! else in the text can spell those words as long as the injected pieces —
//! the mesh name and the coordinate texts — contain no `'f'`.  Decimal
//! renderings of finite numbers never do; a mesh name is free to, which is
//! why the counting law asks for an `'f'`-free name.

use vstd::prelude::*;
use crate::stl::{StlModel, TriangleModel, VectorModel, stl_ascii, triangle_ascii,
    triangles_ascii, vector_ascii};

verus! {

/// The pattern whose occurrences the ASCII law counts.
pub open spec fn facet_pattern() -> Seq<char> {
    "facet normal"@
}

/// `pat` occurs in `s` starting at position `i`.
pub open spec fn matches_at(s: Seq<char>, pat: Seq<char>, i: int) -> bool {
    0 <= i && i + pat.len() <= s.len() && s.subrange(i, i + pat.len()) == pat
}

/// How many positions at or after `i` start an occurrence of `pat`.
pub open spec fn count_from(s: Seq<char>, pat: Seq<char>, i: int) -> nat
    decreases s.len() - i,
{
    if i < 0 || i >= s.len() {
        0
    } else {
        (if matches_at(s, pat, i) {
            1nat
        } else {
            0
        }) + count_from(s, pat, i + 1)
    }
}

/// How many positions of `s` start an occurrence of `pat`.
pub open spec fn occurrences(s: Seq<char>, pat: Seq<char>) -> nat {
    count_from(s, pat, 0)
}

/// A text with no `'f'` at all.
pub open spec fn f_free(s: Seq<char>) -> bool {
    forall|j: int| 0 <= j < s.len() ==> s[j] != 'f'
}

/// A match must start on the pattern's first character.
proof fn lemma_match_head(s: Seq<char>, pat: Seq<char>, i: int)
    requires
        pat.len() >= 1,
        matches_at(s, pat, i),
    ensures
        s[i] == pat[0],
{
    assert(s.subrange(i, i + pat.len())[0] == s[i]);
}

/// No position in `[i, end)` can start a match: each either shows the wrong
/// first character or leaves too little room.  Counting skips the stretch.
proof fn lemma_count_skip(s: Seq<char>, pat: Seq<char>, i: int, end: int)
    requires
        pat.len() >= 1,
        0 <= i <= end <= s.len(),
        forall|j: int| i <= j < end ==> s[j] != pat[0] || j + pat.len() > s.len(),
    ensures
        count_from(s, pat, i) == count_from(s, pat, end),
    decreases end - i,
{
    if i < end {
        if matches_at(s, pat, i) {
            lemma_match_head(s, pat, i);
            assert(false);
        }
        lemma_count_skip(s, pat, i + 1, end);
    }
}

/// A text whose every position is excluded holds no occurrence at all.
proof fn lemma_count_none(s: Seq<char>, pat: Seq<char>)
    requires
        pat.len() >= 1,
        forall|j: int| 0 <= j < s.len() ==> s[j] != pat[0] || j + pat.len() > s.len(),
    ensures
        occurrences(s, pat) == 0,
{
    lemma_count_skip(s, pat, 0, s.len() as int);
}

/// Counting in the second part of a concatenation is counting there alone.
proof fn lemma_count_shift(a: Seq<char>, b: Seq<char>, pat: Seq<char>, j: int)
    requires
        0 <= j <= b.len(),
    ensures
        count_from(a + b, pat, a.len() + j) == count_from(b, pat, j),
    decreases b.len() - j,
{
    let s = a + b;
    if j < b.len() {
        assert(matches_at(s, pat, a.len() + j) == matches_at(b, pat, j)) by {
            if j + pat.len() <= b.len() {
                assert(s.subrange(a.len() + j, a.len() + j + pat.len()) =~= b.subrange(
                    j,
                    j + pat.len(),
                ));
            }
        };
        lemma_count_shift(a, b, pat, j + 1);
    }
}

/// Splitting at a newline: when `a` ends with `'\n'` and the pattern holds no
/// newline, no occurrence straddles the boundary, so the counts add up.
proof fn lemma_count_split(a: Seq<char>, b: Seq<char>, pat: Seq<char>)
    requires
        pat.len() >= 1,
        a.len() >= 1,
        a[a.len() - 1] == '\n',
        forall|k: int| 0 <= k < pat.len() ==> pat[k] != '\n',
    ensures
        occurrences(a + b, pat) == occurrences(a, pat) + occurrences(b, pat),
{
    lemma_count_split_from(a, b, pat, 0);
    lemma_count_shift(a, b, pat, 0);
}

proof fn lemma_count_split_from(a: Seq<char>, b: Seq<char>, pat: Seq<char>, i: int)
    requires
        pat.len() >= 1,
        a.len() >= 1,
        a[a.len() - 1] == '\n',
        forall|k: int| 0 <= k < pat.len() ==> pat[k] != '\n',
        0 <= i <= a.len(),
    ensures
        count_from(a + b, pat, i) == count_from(a, pat, i) + count_from(a + b, pat, a.len() as int),
    decreases a.len() - i,
{
    let s = a + b;
    if i < a.len() {
        if i + pat.len() <= a.len() {
            assert(matches_at(s, pat, i) == matches_at(a, pat, i)) by {
                assert(s.subrange(i, i + pat.len()) =~= a.subrange(i, i + pat.len()));
            };
        } else {
            assert(!matches_at(a, pat, i));
            if matches_at(s, pat, i) {
                let off = a.len() - 1 - i;
                assert(s.subrange(i, i + pat.len())[off] == s[a.len() - 1]);
                assert(pat[off] == '\n');
                assert(false);
            }
        }
        lemma_count_split_from(a, b, pat, i + 1);
    }
}

/// The pattern itself, followed by anything, is counted exactly once in its
/// own footprint: the words start at position 0, and every later start
/// within them shows a character other than `'f'`.
proof fn lemma_count_pattern_prefix(r: Seq<char>)
    ensures
        occurrences(facet_pattern() + r, facet_pattern()) == 1 + occurrences(r, facet_pattern()),
{
    let pat = facet_pattern();
    let s = pat + r;
    reveal_strlit("facet normal");
    assert(matches_at(s, pat, 0)) by {
        assert(s.subrange(0, pat.len() as int) =~= pat);
    };
    assert forall|j: int| 1 <= j < 12 implies s[j] != pat[0] || j + pat.len() > s.len() by {
        assert(s[j] == pat[j]);
    };
    lemma_count_skip(s, pat, 1, 12);
    lemma_count_shift(pat, r, pat, 0);
}

/// Concatenation keeps texts `'f'`-free.
proof fn lemma_f_free_concat(a: Seq<char>, b: Seq<char>)
    requires
        f_free(a),
        f_free(b),
    ensures
        f_free(a + b),
{
    assert forall|j: int| 0 <= j < (a + b).len() implies (a + b)[j] != 'f' by {
        if j < a.len() {
            assert((a + b)[j] == a[j]);
        } else {
            assert((a + b)[j] == b[j - a.len()]);
        }
    };
}

/// All coordinate texts of a serialised vector are `'f'`-free.
pub open spec fn vector_f_free(v: VectorModel) -> bool {
    f_free(v.x.text) && f_free(v.y.text) && f_free(v.z.text)
}

pub open spec fn triangle_f_free(t: TriangleModel) -> bool {
    vector_f_free(t.a) && vector_f_free(t.b) && vector_f_free(t.c) && vector_f_free(t.normal)
}

/// The injected texts of a mesh — its name and every coordinate text — are
/// `'f'`-free.  Decimal renderings of finite numbers always are.
pub open spec fn stl_f_free(m: StlModel) -> bool {
    &&& f_free(m.name)
    &&& forall|i: int| 0 <= i < m.triangles.len() ==> triangle_f_free(#[trigger] m.triangles[i])
}

proof fn lemma_vector_ascii_f_free(v: VectorModel)
    requires
        vector_f_free(v),
    ensures
        f_free(vector_ascii(v)),
{
    reveal_strlit(" ");
    lemma_f_free_concat(v.x.text, " "@);
    lemma_f_free_concat(v.x.text + " "@, v.y.text);
    lemma_f_free_concat(v.x.text + " "@ + v.y.text, " "@);
    lemma_f_free_concat(v.x.text + " "@ + v.y.text + " "@, v.z.text);
}

/// The pattern holds no newline and starts with `'f'`.
proof fn lemma_pattern_chars()
    ensures
        facet_pattern().len() == 12,
        forall|k: int| 0 <= k < 12 ==> #[trigger] facet_pattern()[k] != '\n',
        facet_pattern()[0] == 'f',
{
    reveal_strlit("facet normal");
}

/// The 13-character opening literal is the pattern plus one space.
proof fn lemma_pattern_space()
    ensures
        "facet normal "@ == facet_pattern() + " "@,
{
    reveal_strlit("facet normal ");
    reveal_strlit("facet normal");
    reveal_strlit(" ");
    assert("facet normal "@ =~= facet_pattern() + " "@);
}

/// One facet block followed by its newline and anything after it: the block
/// prints the pattern exactly once.
proof fn lemma_block_count(t: TriangleModel, rest: Seq<char>)
    requires
        triangle_f_free(t),
    ensures
        occurrences(triangle_ascii(t) + "\n"@ + rest, facet_pattern()) == 1 + occurrences(
            rest,
            facet_pattern(),
        ),
{
    let fp = facet_pattern();
    let nl = "\n"@;
    lemma_pattern_chars();
    reveal_strlit("\n");
    reveal_strlit(" ");
    reveal_strlit("facet normal ");
    reveal_strlit("\n  outer loop\n");
    reveal_strlit("    vertex ");
    reveal_strlit("  endloop\nendfacet\n");
    let tail1 = " "@ + vector_ascii(t.normal) + "\n  outer loop\n"@;
    let opening = "facet normal "@ + vector_ascii(t.normal) + "\n  outer loop\n"@;
    let vert_a = "    vertex "@ + vector_ascii(t.a) + nl;
    let vert_b = "    vertex "@ + vector_ascii(t.b) + nl;
    let vert_c = "    vertex "@ + vector_ascii(t.c) + nl;
    let closing = "  endloop\nendfacet\n"@ + nl;
    let after_vert_c = closing + rest;
    let after_vert_b = vert_c + after_vert_c;
    let after_vert_a = vert_b + after_vert_b;
    let after_opening = vert_a + after_vert_a;
    assert(triangle_ascii(t) + nl + rest =~= opening + after_opening);
    lemma_vector_ascii_f_free(t.normal);
    lemma_vector_ascii_f_free(t.a);
    lemma_vector_ascii_f_free(t.b);
    lemma_vector_ascii_f_free(t.c);
    // opening counts exactly one occurrence.
    lemma_pattern_space();
    assert(opening =~= fp + tail1);
    lemma_count_pattern_prefix(tail1);
    assert(f_free(" "@)) by {
        reveal_strlit(" ");
    };
    assert(f_free("\n  outer loop\n"@)) by {
        reveal_strlit("\n  outer loop\n");
    };
    lemma_f_free_concat(" "@, vector_ascii(t.normal));
    lemma_f_free_concat(" "@ + vector_ascii(t.normal), "\n  outer loop\n"@);
    assert(tail1 =~= (" "@ + vector_ascii(t.normal)) + "\n  outer loop\n"@);
    lemma_count_none(tail1, fp);
    assert(occurrences(opening, fp) == 1);
    // Each remaining piece ends with a newline and counts nothing.
    assert(opening[opening.len() - 1] == '\n');
    lemma_count_split(opening, after_opening, fp);
    assert(f_free("    vertex "@)) by {
        reveal_strlit("    vertex ");
    };
    assert(f_free(nl)) by {
        reveal_strlit("\n");
    };
    lemma_f_free_concat("    vertex "@, vector_ascii(t.a));
    lemma_f_free_concat("    vertex "@ + vector_ascii(t.a), nl);
    lemma_f_free_concat("    vertex "@, vector_ascii(t.b));
    lemma_f_free_concat("    vertex "@ + vector_ascii(t.b), nl);
    lemma_f_free_concat("    vertex "@, vector_ascii(t.c));
    lemma_f_free_concat("    vertex "@ + vector_ascii(t.c), nl);
    lemma_count_none(vert_a, fp);
    lemma_count_none(vert_b, fp);
    lemma_count_none(vert_c, fp);
    assert(vert_a[vert_a.len() - 1] == '\n');
    assert(vert_b[vert_b.len() - 1] == '\n');
    assert(vert_c[vert_c.len() - 1] == '\n');
    lemma_count_split(vert_a, after_vert_a, fp);
    lemma_count_split(vert_b, after_vert_b, fp);
    lemma_count_split(vert_c, after_vert_c, fp);
    // The closing piece holds one 'f', but too close to its end for a match.
    assert(closing.len() == 20);
    assert forall|j: int| 0 <= j < closing.len() implies closing[j] != 'f' || j + fp.len() > closing.len() by {
        if j < 19 {
            assert(closing[j] == ("  endloop\nendfacet\n"@)[j]);
        }
        if j <= 8 {
            assert(closing[j] != 'f');
        }
    };
    lemma_count_none(closing, fp);
    assert(closing[closing.len() - 1] == '\n');
    lemma_count_split(closing, rest, fp);
}

proof fn lemma_blocks_count(ts: Seq<TriangleModel>, i: int, footer: Seq<char>)
    requires
        0 <= i <= ts.len(),
        forall|j: int| 0 <= j < ts.len() ==> triangle_f_free(#[trigger] ts[j]),
        f_free(footer),
    ensures
        occurrences(triangles_ascii(ts, i) + footer, facet_pattern()) == ts.len() - i,
    decreases ts.len() - i,
{
    lemma_pattern_chars();
    if i == ts.len() {
        assert(triangles_ascii(ts, i) + footer =~= footer);
        lemma_count_none(footer, facet_pattern());
    } else {
        let nl = "\n"@;
        let block_rest = triangles_ascii(ts, i + 1) + footer;
        assert(triangles_ascii(ts, i) + footer =~= triangle_ascii(ts[i]) + nl + block_rest);
        lemma_block_count(ts[i], block_rest);
        lemma_blocks_count(ts, i + 1, footer);
    }
}

/// ASCII counting law: the serialised text contains the words `facet normal`
/// exactly once per triangle of the mesh — provided the mesh's own injected
/// texts cannot spell them, which an `'f'`-free name and `'f'`-free
/// coordinate texts guarantee.
pub proof fn lemma_ascii_facet_count(m: StlModel)
    requires
        stl_f_free(m),
    ensures
        occurrences(stl_ascii(m), facet_pattern()) == m.triangles.len(),
{
    let fp = facet_pattern();
    let nl = "\n"@;
    lemma_pattern_chars();
    reveal_strlit("\n");
    reveal_strlit("solid ");
    reveal_strlit("endsolid ");
    let header = "solid "@ + m.name + nl;
    let footer = "endsolid "@ + m.name + nl;
    assert(stl_ascii(m) =~= header + (triangles_ascii(m.triangles, 0) + footer));
    assert(f_free("solid "@)) by {
        reveal_strlit("solid ");
    };
    assert(f_free("endsolid "@)) by {
        reveal_strlit("endsolid ");
    };
    assert(f_free(nl)) by {
        reveal_strlit("\n");
    };
    lemma_f_free_concat("solid "@, m.name);
    lemma_f_free_concat("solid "@ + m.name, nl);
    lemma_f_free_concat("endsolid "@, m.name);
    lemma_f_free_concat("endsolid "@ + m.name, nl);
    lemma_count_none(header, fp);
    assert(header[header.len() - 1] == '\n');
    lemma_count_split(header, triangles_ascii(m.triangles, 0) + footer, fp);
    lemma_blocks_count(m.triangles, 0, footer);
}


} // verus!
