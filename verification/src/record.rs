//! What a line of mesh text declares.
//!
//! The first token of a line is its tag: `v` declares a position of three
//! scalars, `vn` a normal of three, `vt` a texture coordinate of two, and `f`
//! a face of three or four corners. Tokens behind the scalars that a tag asks
//! for are passed over. A line with another tag, or with no token at all,
//! declares nothing and is never in error; this covers comments, whose tag
//! starts with `#`.
//!
//! A corner is spelled `position`, `position/texture`,
//! `position/texture/normal` or `position//normal`: up to three integers
//! between slashes, of which the second and the third may be left empty.
//! Indices count from one in the text and from zero in a [`FaceCorner`]. A
//! face may refer to entries that are declared further down: its indices are
//! held against the number of entries of the whole text.

use vstd::prelude::*;
use crate::error::MeshError;
use crate::face::{face_of, Face, FaceCorner};
use crate::literal::{
    index_among, integer_value, is_integer, is_number, read_index, spells_integer, spells_number,
};
use crate::scanner::{slice, split_tokens, tokens, Span};

verus! {

/// The byte `/`.
pub const SLASH: u8 = 0x2f;

/// The byte `f`.
pub const LOWER_F: u8 = 0x66;

/// The byte `n`.
pub const LOWER_N: u8 = 0x6e;

/// The byte `t`.
pub const LOWER_T: u8 = 0x74;

/// The byte `v`.
pub const LOWER_V: u8 = 0x76;

/// How many positions, normals and texture coordinates a text declares.
#[derive(Clone, Copy, Debug, PartialEq, Eq, Structural)]
pub struct Totals {
    pub positions: usize,
    pub normals: usize,
    pub tex_coords: usize,
}

/// The tag of a line.
#[derive(Clone, Copy, Debug, PartialEq, Eq, Structural)]
pub enum Tag {
    Position,
    Normal,
    TexCoord,
    Face,
    Other,
}

/// What a line declares. Scalars are given by the spans of their tokens.
#[derive(Clone, Copy, Debug, PartialEq, Eq)]
pub enum Record {
    Position([Span; 3]),
    Normal([Span; 3]),
    TexCoord([Span; 2]),
    Face(Face),
    Ignored,
}

impl Totals {
    /// Whether every index of the corner lies below the matching total.
    pub open spec fn admits(self, corner: FaceCorner) -> bool {
        &&& corner.position < self.positions
        &&& corner.texture matches Some(t) ==> t < self.tex_coords
        &&& corner.normal matches Some(n) ==> n < self.normals
    }
}

/// The tag that a token spells.
pub open spec fn tag_of(s: Seq<u8>) -> Tag {
    if s.len() == 1 && s[0] == LOWER_V {
        Tag::Position
    } else if s.len() == 2 && s[0] == LOWER_V && s[1] == LOWER_N {
        Tag::Normal
    } else if s.len() == 2 && s[0] == LOWER_V && s[1] == LOWER_T {
        Tag::TexCoord
    } else if s.len() == 1 && s[0] == LOWER_F {
        Tag::Face
    } else {
        Tag::Other
    }
}

/// The tag of a line with the given tokens.
pub open spec fn line_tag(text: Seq<u8>, tokens: Seq<Span>) -> Tag {
    if tokens.len() == 0 {
        Tag::Other
    } else {
        tag_of(tokens[0].of(text))
    }
}

/// Where the first slash at or behind `from` stands, or the end of `s`.
pub open spec fn slash_at(s: Seq<u8>, from: int) -> int
    decreases s.len() - from,
{
    if 0 <= from < s.len() && s[from] != SLASH {
        slash_at(s, from + 1)
    } else {
        from
    }
}

/// Whether `s` spells an index that may be left out.
pub open spec fn is_optional_integer(s: Seq<u8>) -> bool {
    s.len() == 0 || is_integer(s)
}

/// The first part of a corner: what stands before its first slash.
pub open spec fn first_part(s: Seq<u8>) -> Seq<u8> {
    s.subrange(0, slash_at(s, 0))
}

/// The second part of a corner: what stands between its first slash and its
/// second; `None` where it has no slash.
pub open spec fn second_part(s: Seq<u8>) -> Option<Seq<u8>> {
    let first = slash_at(s, 0);
    if first < s.len() {
        Some(s.subrange(first + 1, slash_at(s, first + 1)))
    } else {
        None
    }
}

/// The third part of a corner: what stands behind its second slash; `None`
/// where it has fewer than two.
pub open spec fn third_part(s: Seq<u8>) -> Option<Seq<u8>> {
    let first = slash_at(s, 0);
    let second = slash_at(s, first + 1);
    if first < s.len() && second < s.len() {
        Some(s.subrange(second + 1, s.len() as int))
    } else {
        None
    }
}

/// Whether `s` spells a corner.
pub open spec fn is_corner(s: Seq<u8>) -> bool {
    &&& is_integer(first_part(s))
    &&& second_part(s) matches Some(part) ==> is_optional_integer(part)
    &&& third_part(s) matches Some(part) ==> is_optional_integer(part)
}

/// The index that an optional part of a corner gives among `count` entries:
/// `Some(None)` where the part is missing or empty, `None` where it names no
/// entry.
pub open spec fn optional_index(part: Option<Seq<u8>>, count: nat) -> Option<Option<usize>> {
    match part {
        Some(s) if s.len() > 0 => match index_among(s, count) {
            Some(i) => Some(Some(i)),
            None => None,
        },
        _ => Some(None),
    }
}

/// The corner that a token gives in a text with the given totals.
pub open spec fn corner_of(s: Seq<u8>, totals: Totals) -> Result<FaceCorner, MeshError> {
    if !is_corner(s) {
        Err(MeshError::MalformedLine)
    } else {
        match (
            index_among(first_part(s), totals.positions as nat),
            optional_index(second_part(s), totals.tex_coords as nat),
            optional_index(third_part(s), totals.normals as nat),
        ) {
            (Some(position), Some(texture), Some(normal)) => Ok(
                FaceCorner { position, texture, normal },
            ),
            _ => Err(MeshError::DanglingReference),
        }
    }
}

/// The corner that the token at place `k` of a line gives.
pub open spec fn corner_at(text: Seq<u8>, tokens: Seq<Span>, totals: Totals, k: int) -> Result<
    FaceCorner,
    MeshError,
> {
    corner_of(tokens[k].of(text), totals)
}

/// The face that a line with the tag `f` declares. The number of corners is
/// judged first, then their spelling, then what they refer to.
pub open spec fn face_record(text: Seq<u8>, tokens: Seq<Span>, totals: Totals) -> Result<
    Face,
    MeshError,
> {
    if tokens.len() != 4 && tokens.len() != 5 {
        Err(MeshError::UnsupportedArity)
    } else if exists|k: int| 1 <= k < tokens.len() && !is_corner(#[trigger] tokens[k].of(text)) {
        Err(MeshError::MalformedLine)
    } else if exists|k: int|
        1 <= k < tokens.len() && (#[trigger] corner_at(text, tokens, totals, k)) is Err {
        Err(MeshError::DanglingReference)
    } else {
        Ok(
            face_of(
                Seq::new(
                    (tokens.len() - 1) as nat,
                    |k: int| corner_at(text, tokens, totals, k + 1)->Ok_0,
                ),
            )->0,
        )
    }
}

/// Whether the `n` tokens behind the tag are there and spell numbers.
pub open spec fn scalars_at(text: Seq<u8>, tokens: Seq<Span>, n: int) -> bool {
    tokens.len() > n && forall|k: int| 1 <= k <= n ==> is_number(#[trigger] tokens[k].of(text))
}

/// What a line with the given tokens declares.
pub open spec fn record_of(text: Seq<u8>, tokens: Seq<Span>, totals: Totals) -> Result<
    Record,
    MeshError,
> {
    match line_tag(text, tokens) {
        Tag::Position => if scalars_at(text, tokens, 3) {
            Ok(Record::Position([tokens[1], tokens[2], tokens[3]]))
        } else {
            Err(MeshError::MalformedLine)
        },
        Tag::Normal => if scalars_at(text, tokens, 3) {
            Ok(Record::Normal([tokens[1], tokens[2], tokens[3]]))
        } else {
            Err(MeshError::MalformedLine)
        },
        Tag::TexCoord => if scalars_at(text, tokens, 2) {
            Ok(Record::TexCoord([tokens[1], tokens[2]]))
        } else {
            Err(MeshError::MalformedLine)
        },
        Tag::Face => match face_record(text, tokens, totals) {
            Ok(face) => Ok(Record::Face(face)),
            Err(e) => Err(e),
        },
        Tag::Other => Ok(Record::Ignored),
    }
}

/// What a line of the text declares.
pub open spec fn record_at(text: Seq<u8>, line: Span, totals: Totals) -> Result<
    Record,
    MeshError,
> {
    record_of(text, tokens(text, line), totals)
}

/// A face whose corners are well spelled, one of which names the position
/// zero, a negative position or a position beyond those that the text
/// declares, is refused as dangling: no index is clamped or wrapped.
pub proof fn lemma_undeclared_position_dangles(
    text: Seq<u8>,
    tokens: Seq<Span>,
    totals: Totals,
    k: int,
)
    requires
        tokens.len() == 4 || tokens.len() == 5,
        forall|j: int| 1 <= j < tokens.len() ==> is_corner(#[trigger] tokens[j].of(text)),
        1 <= k < tokens.len(),
        integer_value(first_part(tokens[k].of(text))) < 1 || integer_value(
            first_part(tokens[k].of(text)),
        ) > totals.positions,
    ensures
        face_record(text, tokens, totals) == Err::<Face, MeshError>(MeshError::DanglingReference),
{
    assert(corner_at(text, tokens, totals, k) is Err);
}

/// A face that a line declares refers to entries below the totals.
pub proof fn lemma_face_record_admitted(text: Seq<u8>, tokens: Seq<Span>, totals: Totals)
    requires
        face_record(text, tokens, totals) is Ok,
    ensures
        forall|k: int|
            0 <= k < face_record(text, tokens, totals)->Ok_0.corners().len() ==> totals.admits(
                #[trigger] face_record(text, tokens, totals)->Ok_0.corners()[k],
            ),
{
    let face = face_record(text, tokens, totals)->Ok_0;
    assert forall|k: int| 0 <= k < face.corners().len() implies totals.admits(
        #[trigger] face.corners()[k],
    ) by {
        assert(corner_at(text, tokens, totals, k + 1) is Ok);
    }
}

/// The tag that a token spells.
pub fn read_tag(s: &[u8]) -> (r: Tag)
    ensures
        r == tag_of(s@),
{
    if s.len() == 1 && s[0] == LOWER_V {
        Tag::Position
    } else if s.len() == 2 && s[0] == LOWER_V && s[1] == LOWER_N {
        Tag::Normal
    } else if s.len() == 2 && s[0] == LOWER_V && s[1] == LOWER_T {
        Tag::TexCoord
    } else if s.len() == 1 && s[0] == LOWER_F {
        Tag::Face
    } else {
        Tag::Other
    }
}

fn find_slash(s: &[u8], from: usize) -> (r: usize)
    requires
        from <= s.len(),
    ensures
        r == slash_at(s@, from as int),
        from <= r <= s.len(),
{
    let mut at = from;
    while at < s.len() && s[at] != SLASH
        invariant
            from <= at <= s.len(),
            slash_at(s@, from as int) == slash_at(s@, at as int),
        decreases s.len() - at,
    {
        at += 1;
    }
    at
}

fn part<'a>(s: &'a [u8], from: usize, to: usize) -> (r: &'a [u8])
    requires
        from <= to <= s.len(),
    ensures
        r@ == s@.subrange(from as int, to as int),
{
    vstd::slice::slice_subrange(s, from, to)
}

fn read_optional_index(s: &[u8], count: usize) -> (r: Option<Option<usize>>)
    requires
        is_optional_integer(s@),
    ensures
        r == optional_index(Some(s@), count as nat),
{
    if s.len() == 0 {
        Some(None)
    } else {
        match read_index(s, count) {
            Some(i) => Some(Some(i)),
            None => None,
        }
    }
}

/// Reads a corner: `MalformedLine` where the token spells none,
/// `DanglingReference` where one of its indices is zero, negative or beyond
/// the entries that the text declares.
pub fn read_corner(s: &[u8], totals: &Totals) -> (r: Result<FaceCorner, MeshError>)
    ensures
        r == corner_of(s@, *totals),
{
    let first = find_slash(s, 0);
    let head = part(s, 0, first);
    if !spells_integer(head) {
        return Err(MeshError::MalformedLine);
    }
    let mut texture: Option<Option<usize>> = Some(None);
    let mut normal: Option<Option<usize>> = Some(None);
    if first < s.len() {
        let second = find_slash(s, first + 1);
        let middle = part(s, first + 1, second);
        if !(middle.len() == 0 || spells_integer(middle)) {
            return Err(MeshError::MalformedLine);
        }
        if second < s.len() {
            let tail = part(s, second + 1, s.len());
            if !(tail.len() == 0 || spells_integer(tail)) {
                return Err(MeshError::MalformedLine);
            }
            normal = read_optional_index(tail, totals.normals);
        }
        texture = read_optional_index(middle, totals.tex_coords);
    }
    match (read_index(head, totals.positions), texture, normal) {
        (Some(position), Some(texture), Some(normal)) => Ok(
            FaceCorner { position, texture, normal },
        ),
        _ => Err(MeshError::DanglingReference),
    }
}

fn is_malformed(r: &Result<FaceCorner, MeshError>) -> (b: bool)
    ensures
        b == (*r == Err::<FaceCorner, MeshError>(MeshError::MalformedLine)),
{
    match r {
        Err(MeshError::MalformedLine) => true,
        _ => false,
    }
}

/// Reads the face that a line with the tag `f` declares.
pub fn read_face(text: &[u8], tokens: &Vec<Span>, totals: &Totals) -> (r: Result<Face, MeshError>)
    requires
        forall|k: int| 0 <= k < tokens.len() ==> (#[trigger] tokens@[k]).fits(text@.len()),
    ensures
        r == face_record(text@, tokens@, *totals),
{
    let n = tokens.len();
    if n != 4 && n != 5 {
        return Err(MeshError::UnsupportedArity);
    }
    let r1 = read_corner(slice(text, tokens[1]), totals);
    let r2 = read_corner(slice(text, tokens[2]), totals);
    let r3 = read_corner(slice(text, tokens[3]), totals);
    let r4 = if n == 5 {
        Some(read_corner(slice(text, tokens[4]), totals))
    } else {
        None
    };
    proof {
        assert(r1 == corner_at(text@, tokens@, *totals, 1));
        assert(r2 == corner_at(text@, tokens@, *totals, 2));
        assert(r3 == corner_at(text@, tokens@, *totals, 3));
        assert(n == 5 ==> r4 == Some(corner_at(text@, tokens@, *totals, 4)));
    }
    let malformed = is_malformed(&r1) || is_malformed(&r2) || is_malformed(&r3) || match &r4 {
        Some(r) => is_malformed(r),
        None => false,
    };
    if malformed {
        proof {
            assert(!is_corner(tokens@[1].of(text@)) || !is_corner(tokens@[2].of(text@))
                || !is_corner(tokens@[3].of(text@)) || (n == 5 && !is_corner(
                tokens@[4].of(text@),
            )));
        }
        return Err(MeshError::MalformedLine);
    }
    match (r1, r2, r3, r4) {
        (Ok(c1), Ok(c2), Ok(c3), None) => {
            proof {
                let corners = Seq::new(
                    (tokens@.len() - 1) as nat,
                    |k: int| corner_at(text@, tokens@, *totals, k + 1)->Ok_0,
                );
                assert(corners[0] == c1 && corners[1] == c2 && corners[2] == c3);
            }
            Ok(Face::Tri(c1, c2, c3))
        },
        (Ok(c1), Ok(c2), Ok(c3), Some(Ok(c4))) => {
            proof {
                let corners = Seq::new(
                    (tokens@.len() - 1) as nat,
                    |k: int| corner_at(text@, tokens@, *totals, k + 1)->Ok_0,
                );
                assert(corners[0] == c1 && corners[1] == c2 && corners[2] == c3 && corners[3]
                    == c4);
            }
            Ok(Face::Quad(c1, c2, c3, c4))
        },
        _ => {
            proof {
                assert(corner_at(text@, tokens@, *totals, 1) is Err || corner_at(
                    text@,
                    tokens@,
                    *totals,
                    2,
                ) is Err || corner_at(text@, tokens@, *totals, 3) is Err || (n == 5 && corner_at(
                    text@,
                    tokens@,
                    *totals,
                    4,
                ) is Err));
            }
            Err(MeshError::DanglingReference)
        },
    }
}

fn scalars(text: &[u8], tokens: &Vec<Span>, n: usize) -> (r: bool)
    requires
        forall|k: int| 0 <= k < tokens.len() ==> (#[trigger] tokens@[k]).fits(text@.len()),
        n < usize::MAX,
    ensures
        r == scalars_at(text@, tokens@, n as int),
{
    if tokens.len() <= n {
        return false;
    }
    let mut k: usize = 1;
    while k <= n
        invariant
            1 <= k <= n + 1,
            n < tokens.len(),
            forall|k: int| 0 <= k < tokens.len() ==> (#[trigger] tokens@[k]).fits(text@.len()),
            forall|j: int| 1 <= j < k ==> is_number(#[trigger] tokens@[j].of(text@)),
        decreases n + 1 - k,
    {
        if !spells_number(slice(text, tokens[k])) {
            return false;
        }
        k += 1;
    }
    true
}

/// Reads what a line with the given tokens declares.
pub fn read_record(text: &[u8], tokens: &Vec<Span>, totals: &Totals) -> (r: Result<
    Record,
    MeshError,
>)
    requires
        forall|k: int| 0 <= k < tokens.len() ==> (#[trigger] tokens@[k]).fits(text@.len()),
    ensures
        r == record_of(text@, tokens@, *totals),
{
    if tokens.len() == 0 {
        return Ok(Record::Ignored);
    }
    match read_tag(slice(text, tokens[0])) {
        Tag::Position => if scalars(text, tokens, 3) {
            Ok(Record::Position([tokens[1], tokens[2], tokens[3]]))
        } else {
            Err(MeshError::MalformedLine)
        },
        Tag::Normal => if scalars(text, tokens, 3) {
            Ok(Record::Normal([tokens[1], tokens[2], tokens[3]]))
        } else {
            Err(MeshError::MalformedLine)
        },
        Tag::TexCoord => if scalars(text, tokens, 2) {
            Ok(Record::TexCoord([tokens[1], tokens[2]]))
        } else {
            Err(MeshError::MalformedLine)
        },
        Tag::Face => match read_face(text, tokens, totals) {
            Ok(face) => Ok(Record::Face(face)),
            Err(e) => Err(e),
        },
        Tag::Other => Ok(Record::Ignored),
    }
}

/// Reads what a line of the text declares.
pub fn read_line(text: &[u8], line: Span, totals: &Totals) -> (r: Result<Record, MeshError>)
    requires
        line.fits(text@.len()),
    ensures
        r == record_at(text@, line, *totals),
{
    let tokens = split_tokens(text, line);
    read_record(text, &tokens, totals)
}

} // verus!
