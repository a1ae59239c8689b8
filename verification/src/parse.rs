//! A whole mesh text read into a mesh.
//!
//! The text is read in two passes. The first counts the positions, normals
//! and texture coordinates that the text declares; the second reads every
//! line against those totals, so that a face may refer to entries that are
//! declared behind it. The first line in error ends the reading: nothing is
//! passed over, and no mesh is built from a part of the text.
//!
//! The library judges how a scalar is spelled and leaves its value to the
//! caller, who hands in the function that turns the token of a number into
//! the bit pattern that stands for it.

use vstd::prelude::*;
use crate::error::{MeshError, ParseError};
use crate::face::Face;
use crate::literal::is_number;
use crate::mesh::{Mesh, MeshView};
use crate::record::{
    lemma_face_record_admitted, line_tag, read_record, read_tag, record_at, Record, Tag, Totals,
};
use crate::scanner::{
    copy_of, first_token, lines, slice, split_lines, split_tokens, tokens, Span,
};
use crate::store::GeometryStore;

verus! {

/// What a text declares, line after line, with each scalar given by the span
/// of its token.
pub struct Outline {
    pub positions: Seq<[Span; 3]>,
    pub normals: Seq<[Span; 3]>,
    pub tex_coords: Seq<[Span; 2]>,
    pub faces: Seq<Face>,
}

impl Outline {
    /// The outline of a text that declares nothing.
    pub open spec fn empty() -> Outline {
        Outline {
            positions: Seq::empty(),
            normals: Seq::empty(),
            tex_coords: Seq::empty(),
            faces: Seq::empty(),
        }
    }

    /// The outline with one more record behind it.
    pub open spec fn with(self, record: Record) -> Outline {
        match record {
            Record::Position(at) => Outline { positions: self.positions.push(at), ..self },
            Record::Normal(at) => Outline { normals: self.normals.push(at), ..self },
            Record::TexCoord(at) => Outline { tex_coords: self.tex_coords.push(at), ..self },
            Record::Face(face) => Outline { faces: self.faces.push(face), ..self },
            Record::Ignored => self,
        }
    }
}

/// How many of the lines bear the tag.
pub open spec fn count_tag(text: Seq<u8>, lines: Seq<Span>, tag: Tag) -> nat
    decreases lines.len(),
{
    if lines.len() == 0 {
        0
    } else {
        count_tag(text, lines.drop_last(), tag) + if line_tag(text, tokens(text, lines.last()))
            == tag {
            1nat
        } else {
            0nat
        }
    }
}

/// How many positions, normals and texture coordinates the text declares:
/// the number of its lines with the tag `v`, `vn` and `vt`.
pub open spec fn totals_of(text: Seq<u8>) -> Totals {
    Totals {
        positions: count_tag(text, lines(text), Tag::Position) as usize,
        normals: count_tag(text, lines(text), Tag::Normal) as usize,
        tex_coords: count_tag(text, lines(text), Tag::TexCoord) as usize,
    }
}

/// What the lines declare, or the first of them that is in error: the kind
/// of the error and the one-based number of the line.
pub open spec fn gather(text: Seq<u8>, lines: Seq<Span>, totals: Totals) -> Result<
    Outline,
    (MeshError, int),
>
    decreases lines.len(),
{
    if lines.len() == 0 {
        Ok(Outline::empty())
    } else {
        match gather(text, lines.drop_last(), totals) {
            Err(e) => Err(e),
            Ok(outline) => match record_at(text, lines.last(), totals) {
                Err(kind) => Err((kind, lines.len() as int)),
                Ok(record) => Ok(outline.with(record)),
            },
        }
    }
}

/// What the text declares, or its first line in error.
pub open spec fn outline_of(text: Seq<u8>) -> Result<Outline, (MeshError, int)> {
    gather(text, lines(text), totals_of(text))
}

/// Whether `value` is what `number` made of the token at `at`.
pub open spec fn converts<F: Fn(&[u8]) -> u32>(number: F, text: Seq<u8>, at: Span, value: u32) -> bool {
    exists|token: &[u8]| token@ == at.of(text) && call_ensures(number, (token,), value)
}

/// Whether a mesh holds what the outline declares: the same faces, and for
/// each scalar what `number` made of its token.
pub open spec fn built_from<F: Fn(&[u8]) -> u32>(
    number: F,
    text: Seq<u8>,
    outline: Outline,
    mesh: MeshView,
) -> bool {
    &&& mesh.faces == outline.faces
    &&& mesh.store.positions.len() == outline.positions.len()
    &&& mesh.store.normals.len() == outline.normals.len()
    &&& mesh.store.tex_coords.len() == outline.tex_coords.len()
    &&& forall|i: int, k: int|
        0 <= i < outline.positions.len() && 0 <= k < 3 ==> converts(
            number,
            text,
            outline.positions[i][k],
            #[trigger] mesh.store.positions[i][k],
        )
    &&& forall|i: int, k: int|
        0 <= i < outline.normals.len() && 0 <= k < 3 ==> converts(
            number,
            text,
            outline.normals[i][k],
            #[trigger] mesh.store.normals[i][k],
        )
    &&& forall|i: int, k: int|
        0 <= i < outline.tex_coords.len() && 0 <= k < 2 ==> converts(
            number,
            text,
            outline.tex_coords[i][k],
            #[trigger] mesh.store.tex_coords[i][k],
        )
}

/// An error among the first lines of a text is the error of the text.
pub proof fn lemma_first_error_stands(text: Seq<u8>, lines: Seq<Span>, totals: Totals, j: int)
    requires
        0 <= j <= lines.len(),
        gather(text, lines.take(j), totals) is Err,
    ensures
        gather(text, lines, totals) == gather(text, lines.take(j), totals),
    decreases lines.len() - j,
{
    if j < lines.len() {
        assert(lines.take(j + 1).drop_last() =~= lines.take(j));
        lemma_first_error_stands(text, lines, totals, j + 1);
    } else {
        assert(lines.take(j) =~= lines);
    }
}

/// A line in error refuses the text: the text is in error at that line or
/// before it.
pub proof fn lemma_error_refuses(text: Seq<u8>, lines: Seq<Span>, totals: Totals, j: int)
    requires
        0 <= j < lines.len(),
        record_at(text, lines[j], totals) is Err,
    ensures
        gather(text, lines, totals) is Err,
        1 <= gather(text, lines, totals)->Err_0.1 <= j + 1,
    decreases lines.len(),
{
    lemma_error_line(text, lines.take(j + 1), totals);
    assert(lines.take(j + 1).drop_last() =~= lines.take(j));
    assert(lines.take(j + 1).last() == lines[j]);
    lemma_first_error_stands(text, lines, totals, j + 1);
}

/// The line of an error is one of the lines.
pub proof fn lemma_error_line(text: Seq<u8>, lines: Seq<Span>, totals: Totals)
    ensures
        gather(text, lines, totals) matches Err(e) ==> 1 <= e.1 <= lines.len() && record_at(
            text,
            lines[e.1 - 1],
            totals,
        ) == Err::<Record, MeshError>(e.0),
    decreases lines.len(),
{
    if lines.len() > 0 {
        lemma_error_line(text, lines.drop_last(), totals);
    }
}

/// No more lines bear a tag than there are lines.
pub proof fn lemma_count_tag_bound(text: Seq<u8>, lines: Seq<Span>, tag: Tag)
    ensures
        count_tag(text, lines, tag) <= lines.len(),
    decreases lines.len(),
{
    if lines.len() > 0 {
        lemma_count_tag_bound(text, lines.drop_last(), tag);
    }
}

fn count_in(text: &[u8], all: &Vec<Span>) -> (r: Totals)
    requires
        all@ == lines(text@),
        forall|j: int| 0 <= j < all.len() ==> (#[trigger] all@[j]).fits(text@.len()),
    ensures
        r == totals_of(text@),
{
    let mut r = Totals { positions: 0, normals: 0, tex_coords: 0 };
    let mut j: usize = 0;
    while j < all.len()
        invariant
            j <= all.len(),
            all@ == lines(text@),
            forall|j: int| 0 <= j < all.len() ==> (#[trigger] all@[j]).fits(text@.len()),
            r.positions == count_tag(text@, all@.take(j as int), Tag::Position),
            r.normals == count_tag(text@, all@.take(j as int), Tag::Normal),
            r.tex_coords == count_tag(text@, all@.take(j as int), Tag::TexCoord),
        decreases all.len() - j,
    {
        let tag = match first_token(text, all[j]) {
            Some(at) => read_tag(slice(text, at)),
            None => Tag::Other,
        };
        proof {
            let next = all@.take(j + 1);
            assert(next.drop_last() =~= all@.take(j as int));
            assert(next.last() == all@[j as int]);
            lemma_count_tag_bound(text@, all@.take(j as int), Tag::Position);
            lemma_count_tag_bound(text@, all@.take(j as int), Tag::Normal);
            lemma_count_tag_bound(text@, all@.take(j as int), Tag::TexCoord);
        }
        match tag {
            Tag::Position => {
                r.positions = r.positions + 1;
            },
            Tag::Normal => {
                r.normals = r.normals + 1;
            },
            Tag::TexCoord => {
                r.tex_coords = r.tex_coords + 1;
            },
            _ => {},
        }
        j += 1;
    }
    proof {
        assert(all@.take(j as int) =~= all@);
    }
    r
}

/// Counts the positions, normals and texture coordinates that a text
/// declares.
pub fn count_totals(text: &[u8]) -> (r: Totals)
    ensures
        r == totals_of(text@),
{
    let all = split_lines(text);
    count_in(text, &all)
}

fn convert<F: Fn(&[u8]) -> u32>(text: &[u8], at: Span, number: &F) -> (value: u32)
    requires
        at.fits(text@.len()),
        is_number(at.of(text@)),
        forall|token: &[u8]| is_number(token@) ==> call_requires(*number, (token,)),
    ensures
        converts(*number, text@, at, value),
{
    let token = slice(text, at);
    number(token)
}

fn convert2<F: Fn(&[u8]) -> u32>(text: &[u8], at: &[Span; 2], number: &F) -> (value: [u32; 2])
    requires
        forall|k: int| 0 <= k < 2 ==> (#[trigger] at[k]).fits(text@.len()) && is_number(at[k].of(text@)),
        forall|token: &[u8]| is_number(token@) ==> call_requires(*number, (token,)),
    ensures
        forall|k: int| 0 <= k < 2 ==> converts(*number, text@, at[k], #[trigger] value[k]),
{
    [convert(text, at[0], number), convert(text, at[1], number)]
}

fn convert3<F: Fn(&[u8]) -> u32>(text: &[u8], at: &[Span; 3], number: &F) -> (value: [u32; 3])
    requires
        forall|k: int| 0 <= k < 3 ==> (#[trigger] at[k]).fits(text@.len()) && is_number(at[k].of(text@)),
        forall|token: &[u8]| is_number(token@) ==> call_requires(*number, (token,)),
    ensures
        forall|k: int| 0 <= k < 3 ==> converts(*number, text@, at[k], #[trigger] value[k]),
{
    [convert(text, at[0], number), convert(text, at[1], number), convert(text, at[2], number)]
}

impl Mesh {
    /// Reads a mesh text.
    ///
    /// `number` is asked for the value of every scalar of the text, and only for
    /// tokens that spell a decimal number. Whether the text is
    /// accepted does not depend on what it answers: the first line in error, in
    /// the order of the text, decides, and it is handed back with its number and
    /// its bytes. A mesh is never built from a part of the text.
    #[verifier::rlimit(40)]
    pub fn parse<F: Fn(&[u8]) -> u32>(text: &[u8], number: F) -> (r: Result<Mesh, ParseError>)
        requires
            forall|token: &[u8]| is_number(token@) ==> call_requires(number, (token,)),
        ensures
            match r {
                Ok(mesh) => outline_of(text@) is Ok && built_from(
                    number,
                    text@,
                    outline_of(text@)->Ok_0,
                    mesh@,
                ) && mesh@.well_formed(),
                Err(e) => outline_of(text@) == Err::<Outline, (MeshError, int)>((e.kind, e.line as int))
                    && 1 <= e.line <= lines(text@).len() && e.content@ == lines(text@)[e.line
                    - 1].of(text@),
            },
    {
        let all = split_lines(text);
        let totals = count_in(text, &all);
        let mut store = GeometryStore::new();
        let mut faces: Vec<Face> = Vec::new();
        let ghost mut outline = Outline::empty();
        let mut j: usize = 0;
        while j < all.len()
            invariant
                j <= all.len(),
                all@ == lines(text@),
                totals == totals_of(text@),
                forall|j: int| 0 <= j < all.len() ==> (#[trigger] all@[j]).fits(text@.len()),
                forall|token: &[u8]| is_number(token@) ==> call_requires(number, (token,)),
                gather(text@, all@.take(j as int), totals) == Ok::<Outline, (MeshError, int)>(outline),
                built_from(number, text@, outline, MeshView { store: store@, faces: faces@ }),
                store@.positions.len() == count_tag(text@, all@.take(j as int), Tag::Position),
                store@.normals.len() == count_tag(text@, all@.take(j as int), Tag::Normal),
                store@.tex_coords.len() == count_tag(text@, all@.take(j as int), Tag::TexCoord),
                forall|f: int, k: int|
                    0 <= f < faces.len() && 0 <= k < faces@[f].corners().len() ==> totals.admits(
                        #[trigger] faces@[f].corners()[k],
                    ),
            decreases all.len() - j,
        {
            let line = all[j];
            let found = split_tokens(text, line);
            let record = read_record(text, &found, &totals);
            proof {
                let next = all@.take(j + 1);
                assert(next.drop_last() =~= all@.take(j as int));
                assert(next.last() == line);
            }
            match record {
                Err(kind) => {
                    proof {
                        lemma_first_error_stands(text@, all@, totals, j + 1);
                    }
                    return Err(ParseError { kind, line: j + 1, content: copy_of(text, line) });
                },
                Ok(Record::Position(at)) => {
                    let value = convert3(text, &at, &number);
                    store.push_position(value);
                    proof {
                        outline = outline.with(Record::Position(at));
                    }
                },
                Ok(Record::Normal(at)) => {
                    let value = convert3(text, &at, &number);
                    store.push_normal(value);
                    proof {
                        outline = outline.with(Record::Normal(at));
                    }
                },
                Ok(Record::TexCoord(at)) => {
                    let value = convert2(text, &at, &number);
                    store.push_tex_coord(value);
                    proof {
                        outline = outline.with(Record::TexCoord(at));
                    }
                },
                Ok(Record::Face(face)) => {
                    proof {
                        lemma_face_record_admitted(text@, found@, totals);
                        outline = outline.with(Record::Face(face));
                    }
                    faces.push(face);
                },
                Ok(Record::Ignored) => {},
            }
            j += 1;
        }
        proof {
            assert(all@.take(j as int) =~= all@);
            assert forall|f: int| 0 <= f < faces.len() implies (#[trigger] faces@[f]).within(
                store@,
            ) by {
                assert forall|k: int| 0 <= k < faces@[f].corners().len() implies store@.holds(
                    #[trigger] faces@[f].corners()[k],
                ) by {
                    assert(totals.admits(faces@[f].corners()[k]));
                }
            }
        }
        Ok(Mesh::of_held(store, faces))
    }
}

} // verus!
