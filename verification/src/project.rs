//! The project root: the document model's top element, the whole-document
//! parser and the serializer. Whatever the parser accepts, the serializer
//! reproduces byte-for-byte.

use vstd::prelude::*;

use crate::directories::{
    parse_directories, ser_directories, wf_directories, write_directories, Directories,
};
use crate::file_name_disambiguation::{
    parse_file_name_disambiguation, ser_file_name_disambiguation, wf_file_name_disambiguation,
    write_file_name_disambiguation, FileNameDisambiguation,
};
use crate::files::{parse_files, ser_files, wf_files, write_files, Files};
use crate::filters::main::{parse_filters, ser_filters, wf_filters, write_filters, Filters};
use crate::images::{parse_images, ser_images, wf_images, write_images, Images};
use crate::layout_direction::{
    parse_layout_direction, ser_layout_direction, write_layout_direction, LayoutDirection,
};
use crate::numbers::{parse_u64, u64_dec, write_u64};
use crate::pages::{parse_pages, ser_pages, write_pages, Pages};
use crate::wire::{
    all_value_chars, expect, scan_value, subrange_join, ParseError, ParseErrorKind,
};

verus! {

/// A whole project file.
#[derive(Debug, Clone)]
pub struct ProjectXML {
    pub layout_direction: LayoutDirection,
    pub output_dir: String,
    pub version: u8,
    pub directories: Directories,
    pub files: Files,
    pub images: Images,
    pub pages: Pages,
    pub file_name_disambiguation: FileNameDisambiguation,
    pub filters: Filters,
}

pub open spec fn wf_project(v: ProjectXML) -> bool {
    &&& all_value_chars(v.output_dir@)
    &&& wf_directories(v.directories)
    &&& wf_files(v.files)
    &&& wf_images(v.images)
    &&& wf_file_name_disambiguation(v.file_name_disambiguation)
    &&& wf_filters(v.filters)
}

/// The canonical text of a whole project.
/// The root element's attributes.
pub open spec fn ser_project_attrs(ld: LayoutDirection, od: Seq<char>, ver: int) -> Seq<char> {
    "<project layoutDirection=\""@ + ser_layout_direction(ld) + "\" outputDirectory=\""@ + od
        + "\" version=\""@ + u64_dec(ver) + "\">"@
}

/// The root element's attribute head.
pub open spec fn ser_project_head(v: ProjectXML) -> Seq<char> {
    ser_project_attrs(v.layout_direction, v.output_dir@, v.version as int)
}

/// Parse the root element's attributes.
fn parse_project_attrs(s: &str, i: usize) -> (r: Result<
    ((LayoutDirection, String, u8), usize),
    ParseError,
>)
    requires
        i <= s@.len(),
    ensures
        match r {
            Ok(((ld, od, ver), j)) => {
                &&& i < j <= s@.len()
                &&& all_value_chars(od@)
                &&& s@.subrange(i as int, j as int) == ser_project_attrs(ld, od@, ver as int)
            },
            Err(_) => true,
        },
{
    let j1 = expect(s, i, "<project layoutDirection=\"")?;
    let (ld, j2) = parse_layout_direction(s, j1)?;
    let j3 = expect(s, j2, "\" outputDirectory=\"")?;
    let (od, j4) = scan_value(s, j3)?;
    let j5 = expect(s, j4, "\" version=\"")?;
    let (ver, j6) = parse_u64(s, j5, 255)?;
    let j7 = expect(s, j6, "\">")?;
    proof {
        subrange_join(s@, i as int, j1 as int, j2 as int);
        subrange_join(s@, i as int, j2 as int, j3 as int);
        subrange_join(s@, i as int, j3 as int, j4 as int);
        subrange_join(s@, i as int, j4 as int, j5 as int);
        subrange_join(s@, i as int, j5 as int, j6 as int);
        subrange_join(s@, i as int, j6 as int, j7 as int);
        assert(s@.subrange(i as int, j7 as int) =~= ser_project_attrs(ld, od@, ver as int));
    }
    Ok(((ld, od, ver as u8), j7))
}

/// The root element's children.
pub open spec fn ser_project_body(v: ProjectXML) -> Seq<char> {
    ser_directories(v.directories) + ser_files(v.files) + ser_images(v.images) + ser_pages(
        v.pages,
    ) + ser_file_name_disambiguation(v.file_name_disambiguation) + ser_filters(v.filters)
        + "</project>"@
}

pub open spec fn ser_project(v: ProjectXML) -> Seq<char> {
    ser_project_head(v) + ser_project_body(v)
}

/// Serialize a project to its canonical text.
#[verifier::rlimit(100)]
#[verifier::spinoff_prover]
pub fn serialize_project(v: &ProjectXML) -> (out: String)
    requires
        wf_project(*v),
    ensures
        out@ == ser_project(*v),
{
    let mut out = String::new();
    out.append("<project layoutDirection=\"");
    write_layout_direction(&mut out, v.layout_direction);
    out.append("\" outputDirectory=\"");
    out.append(v.output_dir.as_str());
    out.append("\" version=\"");
    write_u64(&mut out, v.version as u64);
    out.append("\">");
    proof {
        assert(out@ =~= ser_project_head(*v));
    }
    let ghost mid = out@;
    write_directories(&mut out, &v.directories);
    write_files(&mut out, &v.files);
    write_images(&mut out, &v.images);
    write_pages(&mut out, &v.pages);
    write_file_name_disambiguation(&mut out, &v.file_name_disambiguation);
    write_filters(&mut out, &v.filters);
    out.append("</project>");
    proof {
        assert(out@ =~= mid + ser_project_body(*v));
        assert(out@ =~= ser_project(*v));
    }
    out
}

/// Parse a whole project from its text. On success the returned tree is
/// well formed and serializes back to exactly the input: whatever this
/// parser accepts, the writer reproduces byte-for-byte.
#[verifier::rlimit(100)]
#[verifier::spinoff_prover]
pub fn parse_project(s: &str) -> (r: Result<ProjectXML, ParseError>)
    ensures
        match r {
            Ok(v) => wf_project(v) && ser_project(v) == s@,
            Err(_) => true,
        },
{
    let n = s.unicode_len();
    let i: usize = 0;
    let ((ld, od, ver), j7) = parse_project_attrs(s, i)?;
    let (dirs, j8) = parse_directories(s, j7)?;
    let (files, j9) = parse_files(s, j8)?;
    let (images, j10) = parse_images(s, j9)?;
    let (pages, j11) = parse_pages(s, j10)?;
    let (fnd, j12) = parse_file_name_disambiguation(s, j11)?;
    let (filters, j13) = parse_filters(s, j12)?;
    let j14 = expect(s, j13, "</project>")?;
    if j14 != n {
        return Err(ParseError { pos: j14, kind: ParseErrorKind::Unexpected });
    }
    let v = ProjectXML {
        layout_direction: ld,
        output_dir: od,
        version: ver,
        directories: dirs,
        files,
        images,
        pages,
        file_name_disambiguation: fnd,
        filters,
    };
    proof {
        assert(s@.subrange(0, j7 as int) =~= ser_project_head(v));
        subrange_join(s@, j7 as int, j8 as int, j9 as int);
        subrange_join(s@, j7 as int, j9 as int, j10 as int);
        subrange_join(s@, j7 as int, j10 as int, j11 as int);
        subrange_join(s@, j7 as int, j11 as int, j12 as int);
        subrange_join(s@, j7 as int, j12 as int, j13 as int);
        subrange_join(s@, j7 as int, j13 as int, j14 as int);
        assert(s@.subrange(j7 as int, j14 as int) =~= ser_project_body(v));
        subrange_join(s@, i as int, j7 as int, j14 as int);
        assert(s@.subrange(0, j14 as int) =~= ser_project(v));
        assert(s@.subrange(0, s@.len() as int) =~= s@);
    }
    Ok(v)
}

/// Round-trip idempotence, stated executably: when a text parses, parsing
/// and re-serializing gives back exactly the input bytes.
pub fn reserialize(s: &str) -> (r: Option<String>)
    ensures
        match r {
            Option::Some(out) => out@ == s@,
            Option::None => true,
        },
{
    match parse_project(s) {
        Ok(p) => Option::Some(serialize_project(&p)),
        Err(_) => Option::None,
    }
}

} // verus!
