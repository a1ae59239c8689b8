use rust_opengl::error::MeshError;
use rust_opengl::face::{Face, FaceCorner};
use rust_opengl::literal::{spells_integer, spells_number};
use rust_opengl::parse::count_totals;
use rust_opengl::record::{read_corner, read_line, read_tag, Record, Tag, Totals};
use rust_opengl::scanner::{blank, copy_of, first_token, slice, split_lines, split_tokens, Span};

fn span(start: usize, end: usize) -> Span {
    Span { start, end }
}

fn whole(text: &[u8]) -> Span {
    span(0, text.len())
}

fn words(text: &str) -> Vec<String> {
    let text = text.as_bytes();
    split_tokens(text, whole(text))
        .iter()
        .map(|&at| String::from_utf8(copy_of(text, at)).unwrap())
        .collect()
}

#[test]
fn lines_end_at_line_feeds() {
    assert_eq!(split_lines(b""), vec![span(0, 0)]);
    assert_eq!(split_lines(b"ab"), vec![span(0, 2)]);
    assert_eq!(split_lines(b"ab\n"), vec![span(0, 2), span(3, 3)]);
    assert_eq!(split_lines(b"ab\n\ncd"), vec![span(0, 2), span(3, 3), span(4, 6)]);
    assert_eq!(split_lines(b"\n"), vec![span(0, 0), span(1, 1)]);
    assert_eq!(split_lines(b"a\r\nb"), vec![span(0, 2), span(3, 4)]);
}

#[test]
fn tokens_are_runs_between_blanks() {
    assert_eq!(words(""), Vec::<String>::new());
    assert_eq!(words(" \t \r"), Vec::<String>::new());
    assert_eq!(words("v"), vec!["v"]);
    assert_eq!(words("v 1 2 3"), vec!["v", "1", "2", "3"]);
    assert_eq!(words("  v\t\t1.5   -2e3 \r"), vec!["v", "1.5", "-2e3"]);
    assert_eq!(words("f 1/2/3 4//5"), vec!["f", "1/2/3", "4//5"]);
    let text = b"ab  cd\nef gh";
    assert_eq!(split_tokens(text, span(7, 12)), vec![span(7, 9), span(10, 12)]);
    assert_eq!(split_tokens(text, span(1, 5)), vec![span(1, 2), span(4, 5)]);
}

#[test]
fn only_space_tab_and_carriage_return_are_blank() {
    for b in 0..=255u8 {
        assert_eq!(blank(b), b == b' ' || b == b'\t' || b == b'\r');
    }
}

#[test]
fn first_token_is_the_first_of_the_tokens() {
    for text in ["", "   ", "v 1 2", "  vn\t1", "f", " \t x", "abc   "] {
        let text = text.as_bytes();
        assert_eq!(first_token(text, whole(text)), split_tokens(text, whole(text)).first().copied());
    }
    assert_eq!(first_token(b"  vn 1", span(0, 6)), Some(span(2, 4)));
    assert_eq!(first_token(b"  vn 1", span(3, 6)), Some(span(3, 4)));
}

#[test]
fn slices_and_copies_hold_the_bytes_of_a_span() {
    let text = b"v 12 345";
    assert_eq!(slice(text, span(2, 4)), b"12");
    assert_eq!(copy_of(text, span(5, 8)), b"345".to_vec());
    assert_eq!(slice(text, span(3, 3)), b"");
}

#[test]
fn numbers_are_spelled_in_decimal() {
    for s in [
        "0", "1", "-1", "+1", "12.5", "12.", ".5", "-.5", "+0.25", "1e5", "1E5", "1e+5", "1.5e-3",
        "-0", "007", "3.e2", ".5E1", "123456789012345678901234567890.5",
    ] {
        assert!(spells_number(s.as_bytes()), "{}", s);
        assert!(s.parse::<f32>().is_ok(), "{}", s);
    }
    for s in [
        "", "+", "-", ".", "-.", "e", "e5", "1e", "1e+", "1e-", ".e1", "1.5.2", "1,5", "1 ", " 1",
        "--1", "+-1", "1e5.", "1e1e1", "0x10", "nan", "inf", "-inf", "infinity", "1f", "1_0",
        "1/2", "v",
    ] {
        assert!(!spells_number(s.as_bytes()), "{}", s);
    }
}

#[test]
fn integers_are_a_sign_and_digits() {
    for s in ["0", "1", "-1", "+1", "0012", "123456789012345678901234567890"] {
        assert!(spells_integer(s.as_bytes()), "{}", s);
    }
    for s in ["", "+", "-", "1.", "1.0", "1e1", " 1", "1 ", "--1", "1-", "a", "1/2"] {
        assert!(!spells_integer(s.as_bytes()), "{}", s);
    }
}

#[test]
fn tags_are_told_apart() {
    assert_eq!(read_tag(b"v"), Tag::Position);
    assert_eq!(read_tag(b"vn"), Tag::Normal);
    assert_eq!(read_tag(b"vt"), Tag::TexCoord);
    assert_eq!(read_tag(b"f"), Tag::Face);
    for s in ["", "#", "# v", "V", "F", "vp", "vnn", "ff", "o", "g", "s", "usemtl", "mtllib", "#v"] {
        assert_eq!(read_tag(s.as_bytes()), Tag::Other, "{}", s);
    }
}

#[test]
fn corners_are_read_against_the_totals() {
    let totals = Totals { positions: 10, normals: 3, tex_coords: 2 };
    let ok = |p, t, n| Ok(FaceCorner { position: p, texture: t, normal: n });
    assert_eq!(read_corner(b"1", &totals), ok(0, None, None));
    assert_eq!(read_corner(b"10", &totals), ok(9, None, None));
    assert_eq!(read_corner(b"+3", &totals), ok(2, None, None));
    assert_eq!(read_corner(b"007", &totals), ok(6, None, None));
    assert_eq!(read_corner(b"2/1", &totals), ok(1, Some(0), None));
    assert_eq!(read_corner(b"2/2/3", &totals), ok(1, Some(1), Some(2)));
    assert_eq!(read_corner(b"2//3", &totals), ok(1, None, Some(2)));
    assert_eq!(read_corner(b"2/", &totals), ok(1, None, None));
    assert_eq!(read_corner(b"2//", &totals), ok(1, None, None));
    assert_eq!(read_corner(b"2/1/", &totals), ok(1, Some(0), None));
    for s in ["0", "11", "-1", "-0", "1/0", "1/3", "1/-1", "1//0", "1//4", "1/1/4", "0/9/9",
        "18446744073709551616", "99999999999999999999999999"] {
        assert_eq!(read_corner(s.as_bytes(), &totals), Err(MeshError::DanglingReference), "{}", s);
    }
    for s in ["", "/", "//", "/1", "x", "1/x", "1//x", "1/1/1/1", "1///", "1.0", "1/1.0", "1 ",
        "1/ 1", "1\\2"] {
        assert_eq!(read_corner(s.as_bytes(), &totals), Err(MeshError::MalformedLine), "{}", s);
    }
}

#[test]
fn lines_are_read_into_records() {
    let totals = Totals { positions: 4, normals: 1, tex_coords: 1 };
    let read = |s: &str| read_line(s.as_bytes(), whole(s.as_bytes()), &totals);
    assert_eq!(read("v 1 2 3"), Ok(Record::Position([span(2, 3), span(4, 5), span(6, 7)])));
    assert_eq!(read("v 1 2 3 4 x"), Ok(Record::Position([span(2, 3), span(4, 5), span(6, 7)])));
    assert_eq!(read(" vn  1 2 3"), Ok(Record::Normal([span(5, 6), span(7, 8), span(9, 10)])));
    assert_eq!(read("vt 1 2"), Ok(Record::TexCoord([span(3, 4), span(5, 6)])));
    assert_eq!(read("vt 1 2 x"), Ok(Record::TexCoord([span(3, 4), span(5, 6)])));
    assert_eq!(read(""), Ok(Record::Ignored));
    assert_eq!(read("# v 1"), Ok(Record::Ignored));
    assert_eq!(read("g all"), Ok(Record::Ignored));
    assert_eq!(read("v 1 2"), Err(MeshError::MalformedLine));
    assert_eq!(read("v 1 2 z"), Err(MeshError::MalformedLine));
    assert_eq!(read("vt 1"), Err(MeshError::MalformedLine));
    let c = |p| FaceCorner { position: p, texture: None, normal: None };
    assert_eq!(read("f 1 2 3"), Ok(Record::Face(Face::Tri(c(0), c(1), c(2)))));
    assert_eq!(read("f 4 3 2 1"), Ok(Record::Face(Face::Quad(c(3), c(2), c(1), c(0)))));
    assert_eq!(
        read("f 1/1/1 2 3"),
        Ok(Record::Face(Face::Tri(
            FaceCorner { position: 0, texture: Some(0), normal: Some(0) },
            c(1),
            c(2)
        )))
    );
    assert_eq!(read("f 1 2"), Err(MeshError::UnsupportedArity));
    assert_eq!(read("f 1 2 3 4 1"), Err(MeshError::UnsupportedArity));
    assert_eq!(read("f 1 2 3 x"), Err(MeshError::MalformedLine));
    assert_eq!(read("f 1 2 3 5"), Err(MeshError::DanglingReference));
    assert_eq!(read("f 5 2 3 x"), Err(MeshError::MalformedLine));
}

#[test]
fn totals_count_lines_by_tag() {
    let text = b"v 0 0 0\nvn 0 0 1\nv x\n# v 1 2 3\nvt 0 0\nvt 1 1\n v 1 1 1\nf 1 2 3\nvnn 1\n";
    assert_eq!(count_totals(text), Totals { positions: 3, normals: 1, tex_coords: 2 });
    assert_eq!(count_totals(b""), Totals { positions: 0, normals: 0, tex_coords: 0 });
}
