use vstd::prelude::*;

use pulldown_cmark::{Event, Options, Parser, Tag, TagEnd};

use crate::text::{char_is_ws, chars_of, is_ws, string_of};

verus! {

/// The parts of a markdown event stream that matter for flattening to text.
#[derive(Debug, Clone, PartialEq, Eq)]
pub enum TextEvent {
    /// Literal text.
    Text(String),
    /// An inline code span.
    Code(String),
    /// The start of a fenced or indented code block.
    CodeBlockStart,
    /// The end of a code block.
    CodeBlockEnd,
    /// A soft or hard line break.
    Break,
    /// Any other event.
    Other,
}

/// What `pulldown_cmark::html::push_html` writes for a markdown text, with
/// tables, strikethrough, task lists and heading attributes enabled.
pub uninterp spec fn html_of(md: Seq<char>) -> Seq<char>;

/// The event stream `pulldown_cmark::Parser::new_ext` yields for a markdown
/// text under the same options, each event reduced to a [`TextEvent`].
pub uninterp spec fn events_of(md: Seq<char>) -> Seq<TextEvent>;

/// Relies on `pulldown_cmark::Parser::new_ext` and `html::push_html`: the HTML
/// depends on the markdown text alone.
#[verifier::external_body]
fn markdown_to_html(md: &str) -> (r: String)
    ensures
        r@ == html_of(md@),
{
    let options = Options::ENABLE_TABLES | Options::ENABLE_STRIKETHROUGH
        | Options::ENABLE_TASKLISTS | Options::ENABLE_HEADING_ATTRIBUTES;
    let mut out = String::new();
    pulldown_cmark::html::push_html(&mut out, Parser::new_ext(md, options));
    out
}

/// Relies on `pulldown_cmark::Parser::new_ext`: the events depend on the
/// markdown text alone; each is reduced to a [`TextEvent`].
#[verifier::external_body]
fn markdown_events(md: &str) -> (r: Vec<TextEvent>)
    ensures
        r@ == events_of(md@),
{
    let options = Options::ENABLE_TABLES | Options::ENABLE_STRIKETHROUGH
        | Options::ENABLE_TASKLISTS | Options::ENABLE_HEADING_ATTRIBUTES;
    Parser::new_ext(md, options).map(|e| match e {
        Event::Text(t) => TextEvent::Text(t.to_string()),
        Event::Code(t) => TextEvent::Code(t.to_string()),
        Event::Start(Tag::CodeBlock(_)) => TextEvent::CodeBlockStart,
        Event::End(TagEnd::CodeBlock) => TextEvent::CodeBlockEnd,
        Event::SoftBreak => TextEvent::Break,
        Event::HardBreak => TextEvent::Break,
        _ => TextEvent::Other,
    }).collect()
}

/// `t` followed by a separating space, unless it is empty or already ends in one.
pub open spec fn with_sep(t: Seq<char>) -> Seq<char> {
    if t.len() > 0 && t.last() != ' ' {
        t.push(' ')
    } else {
        t
    }
}

/// The text gathered from an event stream, and whether it ends inside a code
/// block. Text and code spans outside code blocks are kept, each after a
/// separating space; breaks become a separating space.
pub open spec fn gather(evs: Seq<TextEvent>) -> (Seq<char>, bool)
    decreases evs.len(),
{
    if evs.len() == 0 {
        (Seq::empty(), false)
    } else {
        let prev = gather(evs.drop_last());
        let t = prev.0;
        let inside = prev.1;
        match evs.last() {
            TextEvent::Text(s) => if inside { prev } else { (with_sep(t) + s@, inside) },
            TextEvent::Code(s) => if inside { prev } else { (with_sep(t) + s@, inside) },
            TextEvent::CodeBlockStart => (t, true),
            TextEvent::CodeBlockEnd => (t, false),
            TextEvent::Break => (with_sep(t), inside),
            TextEvent::Other => prev,
        }
    }
}

/// Every run of white space becomes one space, kept only between words.
pub open spec fn squeeze(s: Seq<char>) -> Seq<char>
    decreases s.len(),
{
    if s.len() == 0 {
        s
    } else {
        let prev = squeeze(s.drop_last());
        if is_ws(s.last()) {
            if prev.len() == 0 || prev.last() == ' ' {
                prev
            } else {
                prev.push(' ')
            }
        } else {
            prev.push(s.last())
        }
    }
}

/// The words of `s` joined by single spaces, as splitting on white space and
/// joining with `" "` gives.
pub open spec fn collapsed(s: Seq<char>) -> Seq<char> {
    let q = squeeze(s);
    if q.len() > 0 && q.last() == ' ' {
        q.drop_last()
    } else {
        q
    }
}

/// A single line of words: white space only as single spaces between words.
pub open spec fn is_single_spaced(s: Seq<char>) -> bool {
    &&& forall|i: int| 0 <= i < s.len() && is_ws(#[trigger] s[i]) ==> s[i] == ' '
    &&& s.len() > 0 ==> s[0] != ' ' && s.last() != ' '
    &&& forall|i: int| 0 <= i < s.len() - 1 && #[trigger] s[i] == ' ' ==> s[i + 1] != ' '
}

/// Spacing of a text being collapsed: white space only as single spaces, none
/// leading; a trailing space is allowed.
pub open spec fn spaced_prefix(s: Seq<char>) -> bool {
    &&& forall|i: int| 0 <= i < s.len() && is_ws(#[trigger] s[i]) ==> s[i] == ' '
    &&& s.len() > 0 ==> s[0] != ' '
    &&& forall|i: int| 0 <= i < s.len() - 1 && #[trigger] s[i] == ' ' ==> s[i + 1] != ' '
}

proof fn lemma_squeeze_spaced(s: Seq<char>)
    ensures
        spaced_prefix(squeeze(s)),
    decreases s.len(),
{
    if s.len() > 0 {
        lemma_squeeze_spaced(s.drop_last());
        let p = squeeze(s.drop_last());
        let q = squeeze(s);
        if is_ws(s.last()) && !(p.len() == 0 || p.last() == ' ') {
            assert(q == p.push(' '));
            assert forall|i: int| 0 <= i < q.len() - 1 && #[trigger] q[i] == ' ' implies q[i + 1] != ' ' by {
                if i < p.len() - 1 {
                    assert(q[i] == p[i] && q[i + 1] == p[i + 1]);
                }
            }
        } else if !is_ws(s.last()) {
            assert(q == p.push(s.last()));
            assert forall|i: int| 0 <= i < q.len() - 1 && #[trigger] q[i] == ' ' implies q[i + 1] != ' ' by {
                if i < p.len() - 1 {
                    assert(q[i] == p[i] && q[i + 1] == p[i + 1]);
                }
            }
        }
    }
}

proof fn lemma_squeeze_fixed(s: Seq<char>)
    requires
        spaced_prefix(s),
    ensures
        squeeze(s) == s,
    decreases s.len(),
{
    if s.len() > 0 {
        let t = s.drop_last();
        assert(spaced_prefix(t)) by {
            assert forall|i: int| 0 <= i < t.len() - 1 && #[trigger] t[i] == ' ' implies t[i + 1] != ' ' by {
                assert(s[i] == t[i] && s[i + 1] == t[i + 1]);
            }
            assert forall|i: int| 0 <= i < t.len() && is_ws(#[trigger] t[i]) implies t[i] == ' ' by {
                assert(s[i] == t[i]);
            }
        }
        lemma_squeeze_fixed(t);
        if is_ws(s.last()) {
            assert(s.last() == ' ');
            if t.len() == 0 {
                assert(s[0] == s.last());
            } else {
                assert(s[s.len() - 2] == t.last());
            }
        }
        assert(t.push(s.last()) =~= s);
    }
}

/// The words of any text, collapsed, form a single spaced line, and
/// collapsing that line again changes nothing.
pub proof fn lemma_collapsed_idempotent(s: Seq<char>)
    ensures
        is_single_spaced(collapsed(s)),
        collapsed(collapsed(s)) == collapsed(s),
{
    lemma_squeeze_spaced(s);
    let q = squeeze(s);
    let c = collapsed(s);
    assert(spaced_prefix(c)) by {
        if q.len() > 0 && q.last() == ' ' {
            assert forall|i: int| 0 <= i < c.len() - 1 && #[trigger] c[i] == ' ' implies c[i + 1] != ' ' by {
                assert(c[i] == q[i] && c[i + 1] == q[i + 1]);
            }
            assert forall|i: int| 0 <= i < c.len() && is_ws(#[trigger] c[i]) implies c[i] == ' ' by {
                assert(c[i] == q[i]);
            }
            if c.len() > 0 {
                assert(c[0] == q[0]);
                assert(c.last() == q[c.len() - 1]);
                assert(q[c.len() - 1] != ' ');
            }
        }
    }
    lemma_squeeze_fixed(c);
    if c.len() > 0 && q.len() > 0 && q.last() == ' ' {
        assert(c.last() == q[c.len() - 1]);
    }
}

/// Collapses white space in `s` to single spaces between words.
pub fn collapse_whitespace(s: &[char]) -> (r: Vec<char>)
    ensures
        r@ == collapsed(s@),
        is_single_spaced(r@),
{
    let mut out: Vec<char> = Vec::new();
    let mut i: usize = 0;
    while i < s.len()
        invariant
            i <= s@.len(),
            out@ == squeeze(s@.subrange(0, i as int)),
            forall|k: int| 0 <= k < out@.len() && is_ws(#[trigger] out@[k]) ==> out@[k] == ' ',
            out@.len() > 0 ==> out@[0] != ' ',
            forall|k: int| 0 <= k < out@.len() - 1 && #[trigger] out@[k] == ' ' ==> out@[k + 1] != ' ',
        decreases s@.len() - i,
    {
        let c = s[i];
        proof {
            assert(s@.subrange(0, i + 1).drop_last() =~= s@.subrange(0, i as int));
        }
        if char_is_ws(c) {
            let n = out.len();
            if n > 0 && out[n - 1] != ' ' {
                out.push(' ');
            }
        } else {
            out.push(c);
        }
        i += 1;
    }
    assert(s@.subrange(0, s@.len() as int) =~= s@);
    let n = out.len();
    if n > 0 && out[n - 1] == ' ' {
        out.pop();
    }
    out
}

/// Renders markdown to HTML.
#[derive(Debug, Clone, Copy)]
pub struct MarkdownRenderer;

impl MarkdownRenderer {
    pub fn new() -> (r: MarkdownRenderer) {
        MarkdownRenderer
    }

    /// The HTML for a markdown text.
    pub fn render(&self, markdown: &str) -> (r: String)
        ensures
            r@ == html_of(markdown@),
    {
        markdown_to_html(markdown)
    }

    /// A single line of plain text for search indexing: text and inline code,
    /// no code block content, breaks as spaces, white space collapsed. Never
    /// has leading, trailing or doubled spaces.
    pub fn render_plain_text(&self, markdown: &str) -> (r: String)
        ensures
            r@ == collapsed(gather(events_of(markdown@)).0),
            is_single_spaced(r@),
    {
        let events = markdown_events(markdown);
        plain_text_of_events(&events)
    }
}

fn push_sep(t: &mut Vec<char>)
    ensures
        final(t)@ == with_sep(old(t)@),
{
    let n = t.len();
    if n > 0 && t[n - 1] != ' ' {
        t.push(' ');
    }
}

fn push_text(t: &mut Vec<char>, s: &str)
    ensures
        final(t)@ == old(t)@ + s@,
{
    let cs = chars_of(s);
    let mut i: usize = 0;
    while i < cs.len()
        invariant
            i <= cs@.len(),
            cs@ == s@,
            t@ == old(t)@ + cs@.subrange(0, i as int),
        decreases cs@.len() - i,
    {
        t.push(cs[i]);
        i += 1;
        assert(t@ =~= old(t)@ + cs@.subrange(0, i as int));
    }
    assert(cs@.subrange(0, cs@.len() as int) =~= cs@);
}

/// The plain text of an event stream, as [`MarkdownRenderer::render_plain_text`]
/// computes it from the parser's events.
pub fn plain_text_of_events(events: &Vec<TextEvent>) -> (r: String)
    ensures
        r@ == collapsed(gather(events@).0),
        is_single_spaced(r@),
{
    let mut text: Vec<char> = Vec::new();
    let mut in_code_block = false;
    let mut i: usize = 0;
    while i < events.len()
        invariant
            i <= events@.len(),
            gather(events@.subrange(0, i as int)) == (text@, in_code_block),
        decreases events@.len() - i,
    {
        proof {
            assert(events@.subrange(0, i + 1).drop_last() =~= events@.subrange(0, i as int));
        }
        match &events[i] {
            TextEvent::Text(s) => {
                if !in_code_block {
                    push_sep(&mut text);
                    push_text(&mut text, s.as_str());
                }
            },
            TextEvent::Code(s) => {
                if !in_code_block {
                    push_sep(&mut text);
                    push_text(&mut text, s.as_str());
                }
            },
            TextEvent::CodeBlockStart => {
                in_code_block = true;
            },
            TextEvent::CodeBlockEnd => {
                in_code_block = false;
            },
            TextEvent::Break => {
                push_sep(&mut text);
            },
            TextEvent::Other => {},
        }
        i += 1;
    }
    assert(events@.subrange(0, events@.len() as int) =~= events@);
    let out = collapse_whitespace(text.as_slice());
    string_of(out.as_slice())
}

} // verus!
