use vstd::prelude::*;

use crate::error::Error;
use crate::frontmatter::{
    decoded_from, decodes, fields_match, owed_report, parse_failure, seen_after_record, text_view, Frontmatter,
    FrontmatterParser, HeaderFields,
};
use crate::header::header_split;
use crate::markdown::{collapsed, events_of, gather, html_of, is_single_spaced, MarkdownRenderer};
use crate::status::{Status, StatusWarnings};
use crate::date::Date;
use crate::text::{chars_of, string_of, sub_chars};

verus! {

/// Position just after the last `/` of `p`, or 0 when there is none.
pub open spec fn name_start(p: Seq<char>) -> int
    decreases p.len(),
{
    if p.len() == 0 {
        0
    } else if p.last() == '/' {
        p.len() as int
    } else {
        name_start(p.drop_last())
    }
}

/// `p` without its trailing `/` characters.
pub open spec fn strip_slashes(p: Seq<char>) -> Seq<char>
    decreases p.len(),
{
    if p.len() > 0 && p.last() == '/' {
        strip_slashes(p.drop_last())
    } else {
        p
    }
}

proof fn lemma_strip_slashes(p: Seq<char>)
    ensures
        strip_slashes(p).len() <= p.len(),
        strip_slashes(p) == p.subrange(0, strip_slashes(p).len() as int),
    decreases p.len(),
{
    if p.len() > 0 && p.last() == '/' {
        lemma_strip_slashes(p.drop_last());
        assert(p.drop_last().subrange(0, strip_slashes(p).len() as int) =~= p.subrange(0, strip_slashes(p).len() as int));
    } else {
        assert(p.subrange(0, p.len() as int) =~= p);
    }
}

proof fn lemma_name_start(p: Seq<char>)
    ensures
        0 <= name_start(p) <= p.len(),
    decreases p.len(),
{
    if p.len() > 0 && p.last() != '/' {
        lemma_name_start(p.drop_last());
    }
}

/// The last segment of a path, skipping trailing `/` and trailing `.`
/// segments that follow a `/`, as `Path::components` does.
pub open spec fn last_name(p: Seq<char>) -> Seq<char>
    decreases p.len(),
    via last_name_decreases
{
    let q = strip_slashes(p);
    let k = name_start(q);
    if q.subrange(k, q.len() as int) == seq!['.'] && k > 0 {
        last_name(q.subrange(0, k - 1))
    } else {
        q.subrange(k, q.len() as int)
    }
}

#[via_fn]
proof fn last_name_decreases(p: Seq<char>) {
    lemma_strip_slashes(p);
    lemma_name_start(strip_slashes(p));
}

/// The last component of a path, as `Path::file_name` reads it: `None` when
/// it is empty, `.` or `..`.
pub open spec fn file_name_of(p: Seq<char>) -> Option<Seq<char>> {
    let name = last_name(p);
    if name.len() == 0 || name == seq!['.', '.'] || name == seq!['.'] {
        None
    } else {
        Some(name)
    }
}

/// Position of the last `.` of `s`, if any.
pub open spec fn last_dot(s: Seq<char>) -> Option<int>
    decreases s.len(),
{
    if s.len() == 0 {
        None
    } else if s.last() == '.' {
        Some(s.len() - 1)
    } else {
        last_dot(s.drop_last())
    }
}

/// A file name without its extension, as `Path::file_stem` reads it: a name
/// with no `.` after its first character is its own stem.
pub open spec fn stem_of(name: Seq<char>) -> Seq<char> {
    match last_dot(name) {
        Some(k) if k > 0 => name.subrange(0, k),
        _ => name,
    }
}

/// The identifier of a record read from path `p`: its file stem, or `unknown`.
pub open spec fn id_of_path(p: Seq<char>) -> Seq<char> {
    match file_name_of(p) {
        Some(n) => stem_of(n),
        None => "unknown"@,
    }
}

/// The last segment of `v@.subrange(0, end)` after its trailing `/`: returns
/// its bounds (start, stop).
fn last_segment(v: &[char], end: usize) -> (r: (usize, usize))
    requires
        end <= v@.len(),
    ensures
        r.0 <= r.1 <= end,
        strip_slashes(v@.subrange(0, end as int)) == v@.subrange(0, r.1 as int),
        name_start(v@.subrange(0, r.1 as int)) == r.0,
{
    let mut stop: usize = end;
    while stop > 0 && v[stop - 1] == '/'
        invariant
            stop <= end <= v@.len(),
            strip_slashes(v@.subrange(0, end as int)) == strip_slashes(v@.subrange(0, stop as int)),
        decreases stop,
    {
        assert(v@.subrange(0, stop as int).drop_last() =~= v@.subrange(0, stop - 1));
        stop -= 1;
    }
    let ghost q = v@.subrange(0, stop as int);
    let mut start: usize = stop;
    assert(q.subrange(0, stop as int) =~= q);
    while start > 0 && v[start - 1] != '/'
        invariant
            start <= stop <= end <= v@.len(),
            q == v@.subrange(0, stop as int),
            name_start(q) == name_start(v@.subrange(0, start as int)),
        decreases start,
    {
        assert(v@.subrange(0, start as int).drop_last() =~= v@.subrange(0, start - 1));
        start -= 1;
    }
    (start, stop)
}

fn file_name_bounds(v: &[char]) -> (r: Option<(usize, usize)>)
    ensures
        match file_name_of(v@) {
            Some(n) => (r matches Some(b) && b.0 <= b.1 <= v@.len() && v@.subrange(b.0 as int, b.1 as int) == n),
            None => r is None,
        },
{
    let mut end: usize = v.len();
    assert(v@.subrange(0, v@.len() as int) =~= v@);
    loop
        invariant
            end <= v@.len(),
            last_name(v@) == last_name(v@.subrange(0, end as int)),
        decreases end,
    {
        let (start, stop) = last_segment(v, end);
        let ghost q = v@.subrange(0, stop as int);
        proof {
            assert(q.subrange(start as int, q.len() as int) =~= v@.subrange(start as int, stop as int));
        }
        if stop - start == 1 && v[start] == '.' && start > 0 {
            proof {
                assert(v@.subrange(start as int, stop as int) =~= seq!['.']);
                assert(q.subrange(0, start - 1) =~= v@.subrange(0, start - 1));
            }
            end = start - 1;
        } else {
            proof {
                let n = v@.subrange(start as int, stop as int);
                if n == seq!['.'] {
                    assert(n[0] == v@[start as int]);
                }
                assert(last_name(v@) == n);
            }
            if start == stop || (stop - start == 2 && v[start] == '.' && v[start + 1] == '.')
                || (stop - start == 1 && v[start] == '.') {
                proof {
                    if stop - start == 2 {
                        assert(v@.subrange(start as int, stop as int) =~= seq!['.', '.']);
                    } else if stop - start == 1 {
                        assert(v@.subrange(start as int, stop as int) =~= seq!['.']);
                    }
                }
                return None;
            } else {
                proof {
                    let n = v@.subrange(start as int, stop as int);
                    if n == seq!['.', '.'] {
                        assert(n[0] == v@[start as int] && n[1] == v@[start + 1]);
                    }
                    if n == seq!['.'] {
                        assert(n[0] == v@[start as int]);
                    }
                }
                return Some((start, stop));
            }
        }
    }
}

fn stem_end(v: &[char], a: usize, b: usize) -> (r: usize)
    requires
        a <= b <= v@.len(),
    ensures
        a <= r <= b,
        v@.subrange(a as int, r as int) == stem_of(v@.subrange(a as int, b as int)),
{
    let ghost name = v@.subrange(a as int, b as int);
    let mut k: usize = b;
    while k > a && v[k - 1] != '.'
        invariant
            a <= k <= b <= v@.len(),
            name == v@.subrange(a as int, b as int),
            last_dot(name) == last_dot(v@.subrange(a as int, k as int)),
        decreases k,
    {
        assert(v@.subrange(a as int, k as int).drop_last() =~= v@.subrange(a as int, k - 1));
        k -= 1;
    }
    if k > a && k - a > 1 {
        assert(last_dot(name) == Some((k - 1 - a) as int));
        assert(name.subrange(0, (k - 1 - a) as int) =~= v@.subrange(a as int, k - 1));
        k - 1
    } else {
        proof {
            if k == a {
                assert(v@.subrange(a as int, k as int).len() == 0);
            } else {
                assert(last_dot(v@.subrange(a as int, k as int)) == Some(0int));
            }
        }
        b
    }
}

/// Identifier of a record: the file stem of its path.
#[derive(Debug, Clone, PartialEq, Eq, PartialOrd, Ord, Hash)]
pub struct AdrId(String);

impl View for AdrId {
    type V = Seq<char>;

    closed spec fn view(&self) -> Seq<char> {
        self.0@
    }
}

impl AdrId {
    pub fn new(id: &str) -> (r: AdrId)
        ensures
            r@ == id@,
    {
        AdrId(<String as vstd::string::StringExecFns>::from_str(id))
    }

    pub fn as_str(&self) -> (r: &str)
        ensures
            r@ == self@,
    {
        self.0.as_str()
    }

    /// The identifier for a record read from `path`: the file name without
    /// its extension, or `unknown` when the path has no file name.
    pub fn from_path(path: &str) -> (r: AdrId)
        ensures
            r@ == id_of_path(path@),
    {
        let v = chars_of(path);
        match file_name_bounds(v.as_slice()) {
            Some((a, b)) => {
                let e = stem_end(v.as_slice(), a, b);
                AdrId(string_of(sub_chars(v.as_slice(), a, e).as_slice()))
            },
            None => AdrId::new("unknown"),
        }
    }

    /// The identifier as text.
    pub fn to_string(&self) -> (r: String)
        ensures
            r@ == self@,
    {
        self.0.clone()
    }
}

/// The file name of `path`, or `unknown.md` when it has none.
pub fn file_name(path: &str) -> (r: String)
    ensures
        r@ == match file_name_of(path@) {
            Some(n) => n,
            None => "unknown.md"@,
        },
{
    let v = chars_of(path);
    match file_name_bounds(v.as_slice()) {
        Some((a, b)) => string_of(sub_chars(v.as_slice(), a, b).as_slice()),
        None => <String as vstd::string::StringExecFns>::from_str("unknown.md"),
    }
}

/// One decoded and rendered record.
#[derive(Debug, Clone)]
pub struct Adr {
    pub id: AdrId,
    pub filename: String,
    pub source_path: String,
    pub frontmatter: Frontmatter,
    pub body_markdown: String,
    pub body_html: String,
    pub body_text: String,
}

impl Adr {
    pub fn new(
        id: AdrId,
        filename: String,
        source_path: String,
        frontmatter: Frontmatter,
        body_markdown: String,
        body_html: String,
        body_text: String,
    ) -> (r: Adr)
        ensures
            r == (Adr { id, filename, source_path, frontmatter, body_markdown, body_html, body_text }),
    {
        Adr { id, filename, source_path, frontmatter, body_markdown, body_html, body_text }
    }

    pub fn id(&self) -> (r: &AdrId)
        ensures
            r == &self.id,
    {
        &self.id
    }

    pub fn filename(&self) -> (r: &str)
        ensures
            r@ == self.filename@,
    {
        self.filename.as_str()
    }

    pub fn source_path(&self) -> (r: &str)
        ensures
            r@ == self.source_path@,
    {
        self.source_path.as_str()
    }

    pub fn frontmatter(&self) -> (r: &Frontmatter)
        ensures
            r == &self.frontmatter,
    {
        &self.frontmatter
    }

    pub fn body_markdown(&self) -> (r: &str)
        ensures
            r@ == self.body_markdown@,
    {
        self.body_markdown.as_str()
    }

    pub fn body_html(&self) -> (r: &str)
        ensures
            r@ == self.body_html@,
    {
        self.body_html.as_str()
    }

    pub fn body_text(&self) -> (r: &str)
        ensures
            r@ == self.body_text@,
    {
        self.body_text.as_str()
    }

    pub fn title(&self) -> (r: &str)
        ensures
            r@ == self.frontmatter.title@,
    {
        self.frontmatter.title.as_str()
    }

    pub fn description(&self) -> (r: &str)
        ensures
            r@ == self.frontmatter.description@,
    {
        self.frontmatter.description.as_str()
    }

    pub fn status(&self) -> (r: Status)
        ensures
            r == self.frontmatter.status,
    {
        self.frontmatter.status
    }

    pub fn category(&self) -> (r: &str)
        ensures
            r@ == self.frontmatter.category@,
    {
        self.frontmatter.category.as_str()
    }

    pub fn tags(&self) -> (r: &[String])
        ensures
            r@ == self.frontmatter.tags@,
    {
        self.frontmatter.tags.as_slice()
    }

    pub fn author(&self) -> (r: &str)
        ensures
            r@ == self.frontmatter.author@,
    {
        self.frontmatter.author.as_str()
    }

    pub fn project(&self) -> (r: &str)
        ensures
            r@ == self.frontmatter.project@,
    {
        self.frontmatter.project.as_str()
    }

    pub fn technologies(&self) -> (r: &[String])
        ensures
            r@ == self.frontmatter.technologies@,
    {
        self.frontmatter.technologies.as_slice()
    }

    pub fn related(&self) -> (r: &[String])
        ensures
            r@ == self.frontmatter.related@,
    {
        self.frontmatter.related.as_slice()
    }

    pub fn created(&self) -> (r: Option<Date>)
        ensures
            r == self.frontmatter.created,
    {
        self.frontmatter.created
    }

    pub fn updated(&self) -> (r: Option<Date>)
        ensures
            r == self.frontmatter.updated,
    {
        self.frontmatter.updated
    }
}

/// Whether `adr` is the record assembled from `content` read at `path`:
/// identifier and file name from the path, metadata and body from the header
/// block, HTML and plain text from the body.
pub open spec fn assembled_from(adr: Adr, path: Seq<char>, content: Seq<char>) -> bool {
    &&& adr.id@ == id_of_path(path)
    &&& adr.source_path@ == path
    &&& adr.filename@ == match file_name_of(path) {
        Some(n) => n,
        None => "unknown.md"@,
    }
    &&& adr.body_html@ == html_of(adr.body_markdown@)
    &&& adr.body_text@ == collapsed(gather(events_of(adr.body_markdown@)).0)
    &&& (header_split(content) matches Some(parts) && adr.body_markdown@ == parts.1
        && exists|f: HeaderFields| #[trigger] fields_match(f, parts.0) && decoded_from(adr.frontmatter, f))
}

/// Turns a raw record text into an [`Adr`].
#[derive(Debug, Clone, Copy)]
pub struct DefaultAdrParser {
    frontmatter_parser: FrontmatterParser,
    markdown_renderer: MarkdownRenderer,
}

impl DefaultAdrParser {
    pub fn new() -> (r: DefaultAdrParser) {
        DefaultAdrParser { frontmatter_parser: FrontmatterParser::new(), markdown_renderer: MarkdownRenderer::new() }
    }

    /// Assembles a record from its path and raw text: identifier and file name
    /// from the path, metadata and body from the text (errors as
    /// [`FrontmatterParser::parse`] gives them), HTML and plain text from the body.
    pub fn parse(&self, path: &str, content: &str, warnings: &mut StatusWarnings) -> (r: Result<(Adr, Option<String>), Error>)
        ensures
            r matches Ok((adr, _)) ==> assembled_from(adr, path@, content@),
            r matches Ok((adr, _)) ==> is_single_spaced(adr.body_text@),
            r matches Ok((_, report)) ==> text_view(report) == owed_report(old(warnings)@, content@),
            r matches Err(e) ==> parse_failure(path@, content@, e),
            final(warnings)@ == seen_after_record(old(warnings)@, content@),
            (r is Ok) == decodes(content@),
    {
        let id = AdrId::from_path(path);
        let filename = file_name(path);
        let (frontmatter, body_markdown, report) = self.frontmatter_parser.parse(path, content, warnings)?;
        let body_html = self.markdown_renderer.render(body_markdown.as_str());
        let body_text = self.markdown_renderer.render_plain_text(body_markdown.as_str());
        let adr = Adr {
            id,
            filename,
            source_path: <String as vstd::string::StringExecFns>::from_str(path),
            frontmatter,
            body_markdown,
            body_html,
            body_text,
        };
        Ok((adr, report))
    }
}

} // verus!
