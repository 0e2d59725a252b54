use vstd::prelude::*;

use crate::date::{iso_date_of, Date};
use crate::error::Error;
use crate::header::{extract_frontmatter, header_split};
use crate::status::{decode_status, lenient_status, lower_of, owes_warning, seen_after, Status, StatusWarnings};
use crate::text::text_is_empty;

verus! {

/// What the header block `text` holds under `key` when read as a text:
/// `None` when the block is not a well-formed mapping or the value is neither
/// a string nor null; `Some(None)` when the key is absent or null.
pub uninterp spec fn yaml_text(text: Seq<char>, key: Seq<char>) -> Option<Option<Seq<char>>>;

/// What the header block `text` holds under `key` when read as a list of texts,
/// in the same terms as [`yaml_text`].
pub uninterp spec fn yaml_list(text: Seq<char>, key: Seq<char>) -> Option<Option<Seq<Seq<char>>>>;

/// Relies on `serde_yaml::from_str` into a `serde_yaml::Mapping` and
/// `Mapping::get`, then `serde_yaml::to_string` of the value and
/// `serde_yaml::from_str` into `Option<String>`, whose string decoding takes
/// any scalar (a number or a boolean too) as its text: the result depends on
/// the two texts alone.
#[verifier::external_body]
fn yaml_text_field(text: &str, key: &str) -> (r: Result<Option<String>, ()>)
    ensures
        yaml_text(text@, key@) == match r {
            Ok(Some(s)) => Some(Some(s@)),
            Ok(None) => Some(None),
            Err(_) => None,
        },
{
    match serde_yaml::from_str::<serde_yaml::Mapping>(text) {
        Err(_) => Err(()),
        Ok(doc) => match doc.get(key) {
            None => Ok(None),
            Some(v) => serde_yaml::to_string(v)
                .and_then(|t| serde_yaml::from_str::<Option<String>>(&t))
                .map_err(|_| ()),
        },
    }
}

/// Relies on `serde_yaml::from_str` into a `serde_yaml::Mapping` and
/// `Mapping::get`, then `serde_yaml::to_string` of the value and
/// `serde_yaml::from_str` into `Option<Vec<String>>`, whose string decoding
/// takes any scalar element as its text: the result depends on the two texts
/// alone.
#[verifier::external_body]
fn yaml_list_field(text: &str, key: &str) -> (r: Result<Option<Vec<String>>, ()>)
    ensures
        yaml_list(text@, key@) == match r {
            Ok(Some(v)) => Some(Some(v@.map_values(|s: String| s@))),
            Ok(None) => Some(None),
            Err(_) => None,
        },
{
    match serde_yaml::from_str::<serde_yaml::Mapping>(text) {
        Err(_) => Err(()),
        Ok(doc) => match doc.get(key) {
            None => Ok(None),
            Some(v) => serde_yaml::to_string(v)
                .and_then(|t| serde_yaml::from_str::<Option<Vec<String>>>(&t))
                .map_err(|_| ()),
        },
    }
}

/// The keys of a header block, each as read from the block: `None` where the
/// key is absent or null.
#[derive(Debug, Clone)]
pub struct HeaderFields {
    pub title: Option<String>,
    pub description: Option<String>,
    pub doc_type: Option<String>,
    pub category: Option<String>,
    pub tags: Option<Vec<String>>,
    pub status: Option<String>,
    pub created: Option<String>,
    pub updated: Option<String>,
    pub author: Option<String>,
    pub project: Option<String>,
    pub technologies: Option<Vec<String>>,
    pub audience: Option<Vec<String>>,
    pub related: Option<Vec<String>>,
}

pub open spec fn text_view(o: Option<String>) -> Option<Seq<char>> {
    match o {
        Some(s) => Some(s@),
        None => None,
    }
}

pub open spec fn list_view(o: Option<Vec<String>>) -> Option<Seq<Seq<char>>> {
    match o {
        Some(v) => Some(v@.map_values(|s: String| s@)),
        None => None,
    }
}

/// The text a field decodes to: absent means empty.
pub open spec fn text_or_empty(o: Option<String>) -> Seq<char> {
    match o {
        Some(s) => s@,
        None => Seq::empty(),
    }
}

/// The list a field decodes to: absent means empty.
pub open spec fn list_or_empty(o: Option<Vec<String>>) -> Seq<String> {
    match o {
        Some(v) => v@,
        None => Seq::empty(),
    }
}

/// A date field decodes: absent or empty is no date; otherwise it must read as
/// an ISO 8601 date.
pub open spec fn date_ok(o: Option<String>) -> bool {
    match o {
        Some(s) => s@.len() == 0 || iso_date_of(s@) is Some,
        None => true,
    }
}

/// The date a field decodes to, when [`date_ok`] holds.
pub open spec fn date_value(o: Option<String>) -> Option<(int, int, int)> {
    match o {
        Some(s) => if s@.len() == 0 { None } else { iso_date_of(s@) },
        None => None,
    }
}

pub open spec fn date_view(o: Option<Date>) -> Option<(int, int, int)> {
    match o {
        Some(d) => Some(d@),
        None => None,
    }
}

/// Whether every key of the header block reads with the right shape.
pub open spec fn fields_readable(text: Seq<char>) -> bool {
    &&& yaml_text(text, "title"@) is Some
    &&& yaml_text(text, "description"@) is Some
    &&& yaml_text(text, "type"@) is Some
    &&& yaml_text(text, "category"@) is Some
    &&& yaml_list(text, "tags"@) is Some
    &&& yaml_text(text, "status"@) is Some
    &&& yaml_text(text, "created"@) is Some
    &&& yaml_text(text, "updated"@) is Some
    &&& yaml_text(text, "author"@) is Some
    &&& yaml_text(text, "project"@) is Some
    &&& yaml_list(text, "technologies"@) is Some
    &&& yaml_list(text, "audience"@) is Some
    &&& yaml_list(text, "related"@) is Some
}

/// The fields as read from the header block, when [`fields_readable`] holds.
pub open spec fn fields_match(f: HeaderFields, text: Seq<char>) -> bool {
    &&& Some(text_view(f.title)) == yaml_text(text, "title"@)
    &&& Some(text_view(f.description)) == yaml_text(text, "description"@)
    &&& Some(text_view(f.doc_type)) == yaml_text(text, "type"@)
    &&& Some(text_view(f.category)) == yaml_text(text, "category"@)
    &&& Some(list_view(f.tags)) == yaml_list(text, "tags"@)
    &&& Some(text_view(f.status)) == yaml_text(text, "status"@)
    &&& Some(text_view(f.created)) == yaml_text(text, "created"@)
    &&& Some(text_view(f.updated)) == yaml_text(text, "updated"@)
    &&& Some(text_view(f.author)) == yaml_text(text, "author"@)
    &&& Some(text_view(f.project)) == yaml_text(text, "project"@)
    &&& Some(list_view(f.technologies)) == yaml_list(text, "technologies"@)
    &&& Some(list_view(f.audience)) == yaml_list(text, "audience"@)
    &&& Some(list_view(f.related)) == yaml_list(text, "related"@)
}

/// Decoded metadata of one record.
#[derive(Debug, Clone)]
pub struct Frontmatter {
    pub title: String,
    pub description: String,
    pub doc_type: String,
    pub category: String,
    pub tags: Vec<String>,
    pub status: Status,
    pub created: Option<Date>,
    pub updated: Option<Date>,
    pub author: String,
    pub project: String,
    pub technologies: Vec<String>,
    pub audience: Vec<String>,
    pub related: Vec<String>,
}

/// The document type a record has when its header names none.
pub open spec fn default_doc_type() -> Seq<char> {
    "adr"@
}

pub fn default_type() -> (r: String)
    ensures
        r@ == default_doc_type(),
{
    <String as vstd::string::StringExecFns>::from_str("adr")
}

/// Whether `fm` is what the fields decode to, with the given status.
pub open spec fn decoded_from(fm: Frontmatter, f: HeaderFields) -> bool {
    &&& fm.title@ == text_or_empty(f.title)
    &&& fm.description@ == text_or_empty(f.description)
    &&& fm.doc_type@ == (match f.doc_type {
        Some(s) => s@,
        None => default_doc_type(),
    })
    &&& fm.category@ == text_or_empty(f.category)
    &&& fm.tags@ == list_or_empty(f.tags)
    &&& fm.status == lenient_status(text_view(f.status))
    &&& date_view(fm.created) == date_value(f.created)
    &&& date_view(fm.updated) == date_value(f.updated)
    &&& fm.author@ == text_or_empty(f.author)
    &&& fm.project@ == text_or_empty(f.project)
    &&& fm.technologies@ == list_or_empty(f.technologies)
    &&& fm.audience@ == list_or_empty(f.audience)
    &&& fm.related@ == list_or_empty(f.related)
}

fn take_text(o: Option<String>) -> (r: String)
    ensures
        r@ == text_or_empty(o),
{
    match o {
        Some(s) => s,
        None => String::new(),
    }
}

fn take_list(o: Option<Vec<String>>) -> (r: Vec<String>)
    ensures
        r@ == list_or_empty(o),
{
    match o {
        Some(v) => v,
        None => Vec::new(),
    }
}

fn decode_date(o: &Option<String>) -> (r: Result<Option<Date>, ()>)
    ensures
        r is Ok == date_ok(*o),
        r matches Ok(d) ==> date_view(d) == date_value(*o) && (d matches Some(x) ==> x.wf()),
{
    match o {
        None => Ok(None),
        Some(s) => {
            if text_is_empty(s.as_str()) {
                Ok(None)
            } else {
                match Date::parse_iso(s.as_str()) {
                    Some(d) => Ok(Some(d)),
                    None => Err(()),
                }
            }
        },
    }
}

fn text_of(s: &str) -> (r: String)
    ensures
        r@ == s@,
{
    <String as vstd::string::StringExecFns>::from_str(s)
}

impl Frontmatter {
    /// Decodes the fields of a header block. Dates must read as ISO 8601 dates
    /// when present and not empty, else `DateParse`; then the title must not be
    /// empty, else `MissingField`. The status decodes leniently, and an unknown
    /// status is noted in `warnings`; the second result is the value to report,
    /// when it was not reported before.
    pub fn from_fields(path: &str, f: HeaderFields, warnings: &mut StatusWarnings) -> (r: Result<(Frontmatter, Option<String>), Error>)
        ensures
            (r is Ok) == (date_ok(f.created) && date_ok(f.updated) && text_or_empty(f.title).len() > 0),
            !(date_ok(f.created) && date_ok(f.updated)) ==> (r matches Err(Error::DateParse { path: p, .. }) && p@ == path@),
            date_ok(f.created) && date_ok(f.updated) && text_or_empty(f.title).len() == 0 ==>
                (r matches Err(Error::MissingField { path: p, field: k }) && p@ == path@ && k@ == "title"@),
            r is Err ==> final(warnings)@ == old(warnings)@,
            r matches Ok((fm, report)) ==> {
                &&& decoded_from(fm, f)
                &&& (fm.created matches Some(d) ==> d.wf())
                &&& (fm.updated matches Some(d) ==> d.wf())
                &&& match text_view(f.status) {
                    Some(t) => {
                        &&& final(warnings)@ == seen_after(old(warnings)@, t)
                        &&& (report is Some) == owes_warning(old(warnings)@, t)
                        &&& (report matches Some(w) ==> w@ == lower_of(t))
                    },
                    None => final(warnings)@ == old(warnings)@ && report is None,
                }
            },
    {
        let created = decode_date(&f.created);
        let updated = decode_date(&f.updated);
        if created.is_err() || updated.is_err() {
            return Err(Error::DateParse { path: text_of(path), message: text_of("invalid date format") });
        }
        let created = created.unwrap();
        let updated = updated.unwrap();
        let title = take_text(f.title);
        if text_is_empty(title.as_str()) {
            return Err(Error::MissingField { path: text_of(path), field: text_of("title") });
        }
        let (status, report) = match &f.status {
            Some(s) => decode_status(Some(s.as_str()), warnings),
            None => decode_status(None, warnings),
        };
        let doc_type = match f.doc_type {
            Some(s) => s,
            None => default_type(),
        };
        let fm = Frontmatter {
            title,
            description: take_text(f.description),
            doc_type,
            category: take_text(f.category),
            tags: take_list(f.tags),
            status,
            created,
            updated,
            author: take_text(f.author),
            project: take_text(f.project),
            technologies: take_list(f.technologies),
            audience: take_list(f.audience),
            related: take_list(f.related),
        };
        Ok((fm, report))
    }
}

} // verus!

verus! {

fn schema_error(path: &str, key: &str) -> (r: Error)
    ensures
        r matches Error::YamlParse { path: p, .. } && p@ == path@,
{
    let mut message = text_of("malformed header block or unexpected value under key '");
    message.append(key);
    message.append("'");
    Error::YamlParse { path: text_of(path), message }
}

fn read_text(path: &str, text: &str, key: &str) -> (r: Result<Option<String>, Error>)
    ensures
        (r is Ok) == (yaml_text(text@, key@) is Some),
        r matches Ok(o) ==> yaml_text(text@, key@) == Some(text_view(o)),
        r matches Err(e) ==> (e matches Error::YamlParse { path: p, .. } && p@ == path@),
{
    match yaml_text_field(text, key) {
        Ok(o) => Ok(o),
        Err(_) => Err(schema_error(path, key)),
    }
}

fn read_list(path: &str, text: &str, key: &str) -> (r: Result<Option<Vec<String>>, Error>)
    ensures
        (r is Ok) == (yaml_list(text@, key@) is Some),
        r matches Ok(o) ==> yaml_list(text@, key@) == Some(list_view(o)),
        r matches Err(e) ==> (e matches Error::YamlParse { path: p, .. } && p@ == path@),
{
    match yaml_list_field(text, key) {
        Ok(o) => Ok(o),
        Err(_) => Err(schema_error(path, key)),
    }
}

/// Reads every key of a header block; `YamlParse` when the block is not a
/// well-formed mapping or a key holds a value of the wrong shape.
pub fn read_header_fields(path: &str, text: &str) -> (r: Result<HeaderFields, Error>)
    ensures
        (r is Ok) == fields_readable(text@),
        r matches Ok(f) ==> fields_match(f, text@),
        r matches Err(e) ==> (e matches Error::YamlParse { path: p, .. } && p@ == path@),
{
    let title = read_text(path, text, "title")?;
    let description = read_text(path, text, "description")?;
    let doc_type = read_text(path, text, "type")?;
    let category = read_text(path, text, "category")?;
    let tags = read_list(path, text, "tags")?;
    let status = read_text(path, text, "status")?;
    let created = read_text(path, text, "created")?;
    let updated = read_text(path, text, "updated")?;
    let author = read_text(path, text, "author")?;
    let project = read_text(path, text, "project")?;
    let technologies = read_list(path, text, "technologies")?;
    let audience = read_list(path, text, "audience")?;
    let related = read_list(path, text, "related")?;
    Ok(HeaderFields {
        title,
        description,
        doc_type,
        category,
        tags,
        status,
        created,
        updated,
        author,
        project,
        technologies,
        audience,
        related,
    })
}

/// A date value as read from a header block is acceptable: absent, null, empty,
/// or an ISO 8601 date.
pub open spec fn date_text_ok(o: Option<Option<Seq<char>>>) -> bool {
    match o {
        Some(Some(t)) => t.len() == 0 || iso_date_of(t) is Some,
        _ => true,
    }
}

/// The title as read from a header block is present and not empty.
pub open spec fn title_present(o: Option<Option<Seq<char>>>) -> bool {
    match o {
        Some(Some(t)) => t.len() > 0,
        _ => false,
    }
}

/// Whether a raw record text decodes: it has a header block whose keys all
/// read with the right shape, whose dates are valid, and whose title is not empty.
pub open spec fn decodes(content: Seq<char>) -> bool {
    match header_split(content) {
        None => false,
        Some(parts) => fields_readable(parts.0)
            && date_text_ok(yaml_text(parts.0, "created"@))
            && date_text_ok(yaml_text(parts.0, "updated"@))
            && title_present(yaml_text(parts.0, "title"@)),
    }
}

/// The error a raw text that does not decode gives: `InvalidFrontmatter`
/// without a header block, `YamlParse` when a key does not read, `DateParse`
/// for a bad date, else `MissingField` for the title.
pub open spec fn parse_failure(path: Seq<char>, content: Seq<char>, e: Error) -> bool {
    match header_split(content) {
        None => e matches Error::InvalidFrontmatter { path: p, .. } && p@ == path,
        Some(parts) => if !fields_readable(parts.0) {
            e matches Error::YamlParse { path: p, .. } && p@ == path
        } else if !(date_text_ok(yaml_text(parts.0, "created"@)) && date_text_ok(yaml_text(parts.0, "updated"@))) {
            e matches Error::DateParse { path: p, .. } && p@ == path
        } else {
            e matches Error::MissingField { path: p, field: k } && p@ == path && k@ == "title"@
        },
    }
}

/// The status text a record's header gives, when it gives one.
pub open spec fn status_text(content: Seq<char>) -> Option<Seq<char>> {
    match header_split(content) {
        Some(parts) => match yaml_text(parts.0, "status"@) {
            Some(Some(t)) => Some(t),
            _ => None,
        },
        None => None,
    }
}

/// The reported unknown statuses after decoding a record: only a record that
/// decodes has its status read.
pub open spec fn seen_after_record(seen: Set<Seq<char>>, content: Seq<char>) -> Set<Seq<char>> {
    if decodes(content) {
        match status_text(content) {
            Some(t) => seen_after(seen, t),
            None => seen,
        }
    } else {
        seen
    }
}

/// The unknown status a record owes a warning for, in lowercase, if any.
pub open spec fn owed_report(seen: Set<Seq<char>>, content: Seq<char>) -> Option<Seq<char>> {
    if decodes(content) {
        match status_text(content) {
            Some(t) => if owes_warning(seen, t) { Some(lower_of(t)) } else { None },
            None => None,
        }
    } else {
        None
    }
}

/// Splits a raw record text into decoded metadata and its body.
#[derive(Debug, Clone, Copy)]
pub struct FrontmatterParser;

impl FrontmatterParser {
    pub fn new() -> (r: FrontmatterParser) {
        FrontmatterParser
    }

    /// Extracts the header block (`InvalidFrontmatter` when the delimiters are
    /// missing), reads its keys (`YamlParse`), and decodes them (`DateParse`,
    /// `MissingField`). On success returns the metadata, the body, and the
    /// unknown status to report, if any.
    pub fn parse(&self, path: &str, content: &str, warnings: &mut StatusWarnings) -> (r: Result<(Frontmatter, String, Option<String>), Error>)
        ensures
            header_split(content@) is None ==> (r matches Err(Error::InvalidFrontmatter { path: p, .. }) && p@ == path@),
            header_split(content@) matches Some(parts) ==> {
                &&& !fields_readable(parts.0) ==> (r matches Err(Error::YamlParse { path: p, .. }) && p@ == path@)
                &&& fields_readable(parts.0) ==> exists|f: HeaderFields| #[trigger] fields_match(f, parts.0) && {
                    &&& (r is Ok) == (date_ok(f.created) && date_ok(f.updated) && text_or_empty(f.title).len() > 0)
                    &&& !(date_ok(f.created) && date_ok(f.updated)) ==> (r matches Err(Error::DateParse { path: p, .. }) && p@ == path@)
                    &&& date_ok(f.created) && date_ok(f.updated) && text_or_empty(f.title).len() == 0 ==>
                        (r matches Err(Error::MissingField { path: p, field: k }) && p@ == path@ && k@ == "title"@)
                    &&& r matches Ok((fm, body, _)) ==> decoded_from(fm, f) && body@ == parts.1
                }
            },
            r is Err ==> final(warnings)@ == old(warnings)@,
            (r is Ok) == decodes(content@),
            r matches Err(e) ==> parse_failure(path@, content@, e),
            final(warnings)@ == seen_after_record(old(warnings)@, content@),
            r matches Ok((_, _, report)) ==> text_view(report) == owed_report(old(warnings)@, content@),
    {
        match extract_frontmatter(content) {
            None => Err(Error::InvalidFrontmatter {
                path: text_of(path),
                message: text_of("missing or invalid frontmatter delimiters (---)"),
            }),
            Some((block, body)) => {
                let fields = read_header_fields(path, block.as_str())?;
                let (fm, report) = Frontmatter::from_fields(path, fields, warnings)?;
                Ok((fm, body, report))
            },
        }
    }
}

impl Frontmatter {
    /// Metadata with this title and every other field at its default.
    pub fn new(title: &str) -> (r: Frontmatter)
        ensures
            r.title@ == title@,
            r.description@.len() == 0,
            r.doc_type@ == default_doc_type(),
            r.category@.len() == 0,
            r.tags@.len() == 0,
            r.status == Status::Proposed,
            r.created is None,
            r.updated is None,
            r.author@.len() == 0,
            r.project@.len() == 0,
            r.technologies@.len() == 0,
            r.audience@.len() == 0,
            r.related@.len() == 0,
    {
        Frontmatter {
            title: text_of(title),
            description: String::new(),
            doc_type: default_type(),
            category: String::new(),
            tags: Vec::new(),
            status: Status::Proposed,
            created: None,
            updated: None,
            author: String::new(),
            project: String::new(),
            technologies: Vec::new(),
            audience: Vec::new(),
            related: Vec::new(),
        }
    }

    pub fn with_description(self, description: &str) -> (r: Frontmatter)
        ensures
            r == (Frontmatter { description: r.description, ..self }),
            r.description@ == description@,
    {
        Frontmatter { description: text_of(description), ..self }
    }

    pub fn with_status(self, status: Status) -> (r: Frontmatter)
        ensures
            r == (Frontmatter { status, ..self }),
    {
        Frontmatter { status, ..self }
    }

    pub fn with_category(self, category: &str) -> (r: Frontmatter)
        ensures
            r == (Frontmatter { category: r.category, ..self }),
            r.category@ == category@,
    {
        Frontmatter { category: text_of(category), ..self }
    }

    pub fn with_author(self, author: &str) -> (r: Frontmatter)
        ensures
            r == (Frontmatter { author: r.author, ..self }),
            r.author@ == author@,
    {
        Frontmatter { author: text_of(author), ..self }
    }

    pub fn with_project(self, project: &str) -> (r: Frontmatter)
        ensures
            r == (Frontmatter { project: r.project, ..self }),
            r.project@ == project@,
    {
        Frontmatter { project: text_of(project), ..self }
    }

    pub fn with_created(self, date: Date) -> (r: Frontmatter)
        ensures
            r == (Frontmatter { created: Some(date), ..self }),
    {
        Frontmatter { created: Some(date), ..self }
    }

    pub fn with_updated(self, date: Date) -> (r: Frontmatter)
        ensures
            r == (Frontmatter { updated: Some(date), ..self }),
    {
        Frontmatter { updated: Some(date), ..self }
    }

    pub fn with_tags(self, tags: Vec<String>) -> (r: Frontmatter)
        ensures
            r == (Frontmatter { tags, ..self }),
    {
        Frontmatter { tags, ..self }
    }

    pub fn with_technologies(self, technologies: Vec<String>) -> (r: Frontmatter)
        ensures
            r == (Frontmatter { technologies, ..self }),
    {
        Frontmatter { technologies, ..self }
    }

    pub fn with_related(self, related: Vec<String>) -> (r: Frontmatter)
        ensures
            r == (Frontmatter { related, ..self }),
    {
        Frontmatter { related, ..self }
    }
}

impl Default for Frontmatter {
    fn default() -> (r: Frontmatter)
        ensures
            r.title@.len() == 0,
            r.description@.len() == 0,
            r.doc_type@ == default_doc_type(),
            r.category@.len() == 0,
            r.tags@.len() == 0,
            r.status == Status::Proposed,
            r.created is None,
            r.updated is None,
            r.author@.len() == 0,
            r.project@.len() == 0,
            r.technologies@.len() == 0,
            r.audience@.len() == 0,
            r.related@.len() == 0,
    {
        proof {
            reveal_strlit("");
        }
        Frontmatter::new("")
    }
}

} // verus!
