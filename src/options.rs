use vstd::prelude::*;

use crate::counts::owned;
use crate::status::{lower_of, lowercase};
use crate::text::text_eq;

verus! {

/// Colour scheme of the generated viewer.
#[derive(Debug, Clone, Copy, PartialEq, Eq, Structural)]
pub enum Theme {
    Light,
    Dark,
    Auto,
}

impl Theme {
    pub fn as_str(&self) -> (r: &'static str)
        ensures
            *self == Theme::Light ==> r@ == "light"@,
            *self == Theme::Dark ==> r@ == "dark"@,
            *self == Theme::Auto ==> r@ == "auto"@,
    {
        match self {
            Theme::Light => "light",
            Theme::Dark => "dark",
            Theme::Auto => "auto",
        }
    }

    /// The theme named exactly by this (already lowercased) text.
    pub fn from_lowercase(l: &str) -> (r: Option<Theme>)
        ensures
            r == (if l@ == "light"@ {
                Some(Theme::Light)
            } else if l@ == "dark"@ {
                Some(Theme::Dark)
            } else if l@ == "auto"@ {
                Some(Theme::Auto)
            } else {
                None
            }),
    {
        if text_eq(l, "light") {
            Some(Theme::Light)
        } else if text_eq(l, "dark") {
            Some(Theme::Dark)
        } else if text_eq(l, "auto") {
            Some(Theme::Auto)
        } else {
            None
        }
    }

    /// A theme name in any letter case.
    pub fn parse(s: &str) -> (r: Option<Theme>)
        ensures
            r == (if lower_of(s@) == "light"@ {
                Some(Theme::Light)
            } else if lower_of(s@) == "dark"@ {
                Some(Theme::Dark)
            } else if lower_of(s@) == "auto"@ {
                Some(Theme::Auto)
            } else {
                None
            }),
    {
        let l = lowercase(s);
        Theme::from_lowercase(l.as_str())
    }
}

impl Default for Theme {
    fn default() -> (r: Theme)
        ensures
            r == Theme::Auto,
    {
        Theme::Auto
    }
}

impl std::str::FromStr for Theme {
    type Err = String;

    fn from_str(s: &str) -> Result<Theme, String> {
        match Theme::parse(s) {
            Some(t) => Ok(t),
            None => Err(owned("invalid theme")),
        }
    }
}

/// Output form of the statistics command.
#[derive(Debug, Clone, Copy, PartialEq, Eq, Structural)]
pub enum StatsFormat {
    Text,
    Json,
    Markdown,
}

impl StatsFormat {
    /// The format named exactly by this (already lowercased) text; `md` is
    /// short for markdown.
    pub fn from_lowercase(l: &str) -> (r: Option<StatsFormat>)
        ensures
            r == (if l@ == "text"@ {
                Some(StatsFormat::Text)
            } else if l@ == "json"@ {
                Some(StatsFormat::Json)
            } else if l@ == "markdown"@ || l@ == "md"@ {
                Some(StatsFormat::Markdown)
            } else {
                None
            }),
    {
        if text_eq(l, "text") {
            Some(StatsFormat::Text)
        } else if text_eq(l, "json") {
            Some(StatsFormat::Json)
        } else if text_eq(l, "markdown") || text_eq(l, "md") {
            Some(StatsFormat::Markdown)
        } else {
            None
        }
    }

    /// A format name in any letter case.
    pub fn parse(s: &str) -> (r: Option<StatsFormat>)
        ensures
            r == (if lower_of(s@) == "text"@ {
                Some(StatsFormat::Text)
            } else if lower_of(s@) == "json"@ {
                Some(StatsFormat::Json)
            } else if lower_of(s@) == "markdown"@ || lower_of(s@) == "md"@ {
                Some(StatsFormat::Markdown)
            } else {
                None
            }),
    {
        let l = lowercase(s);
        StatsFormat::from_lowercase(l.as_str())
    }
}

impl Default for StatsFormat {
    fn default() -> (r: StatsFormat)
        ensures
            r == StatsFormat::Text,
    {
        StatsFormat::Text
    }
}

impl std::str::FromStr for StatsFormat {
    type Err = String;

    fn from_str(s: &str) -> Result<StatsFormat, String> {
        match StatsFormat::parse(s) {
            Some(f) => Ok(f),
            None => Err(owned("invalid format")),
        }
    }
}

/// Settings of the viewer page.
#[derive(Debug, Clone)]
pub struct RenderConfig {
    pub title: String,
    pub theme: Theme,
    pub embed_assets: bool,
}

impl RenderConfig {
    pub fn new(title: &str) -> (r: RenderConfig)
        ensures
            r.title@ == title@,
            r.theme == Theme::Auto,
            r.embed_assets,
    {
        RenderConfig { title: owned(title), theme: Theme::Auto, embed_assets: true }
    }

    pub fn with_theme(self, theme: Theme) -> (r: RenderConfig)
        ensures
            r.title == self.title,
            r.theme == theme,
            r.embed_assets == self.embed_assets,
    {
        RenderConfig { theme, ..self }
    }
}

/// Where the records are read from by default.
pub open spec fn default_input_dir() -> Seq<char> {
    "docs/decisions"@
}

/// The default pattern of record files under the input directory.
pub open spec fn default_pattern() -> Seq<char> {
    "**/*.md"@
}

/// Settings of the viewer generation.
#[derive(Debug, Clone)]
pub struct GenerateOptions {
    pub input_dir: String,
    pub output: String,
    pub title: String,
    pub theme: Theme,
    pub pattern: String,
}

impl GenerateOptions {
    pub fn new(input_dir: &str) -> (r: GenerateOptions)
        ensures
            r.input_dir@ == input_dir@,
            r.output@ == "adrs.html"@,
            r.title@ == "Architecture Decision Records"@,
            r.theme == Theme::Auto,
            r.pattern@ == default_pattern(),
    {
        GenerateOptions {
            input_dir: owned(input_dir),
            output: owned("adrs.html"),
            title: owned("Architecture Decision Records"),
            theme: Theme::Auto,
            pattern: owned("**/*.md"),
        }
    }

    pub fn with_output(self, output: &str) -> (r: GenerateOptions)
        ensures
            r.output@ == output@,
            r.input_dir == self.input_dir && r.title == self.title && r.theme == self.theme && r.pattern == self.pattern,
    {
        GenerateOptions { output: owned(output), ..self }
    }

    pub fn with_title(self, title: &str) -> (r: GenerateOptions)
        ensures
            r.title@ == title@,
            r.input_dir == self.input_dir && r.output == self.output && r.theme == self.theme && r.pattern == self.pattern,
    {
        GenerateOptions { title: owned(title), ..self }
    }

    pub fn with_theme(self, theme: Theme) -> (r: GenerateOptions)
        ensures
            r.theme == theme,
            r.input_dir == self.input_dir && r.output == self.output && r.title == self.title && r.pattern == self.pattern,
    {
        GenerateOptions { theme, ..self }
    }

    pub fn with_pattern(self, pattern: &str) -> (r: GenerateOptions)
        ensures
            r.pattern@ == pattern@,
            r.input_dir == self.input_dir && r.output == self.output && r.title == self.title && r.theme == self.theme,
    {
        GenerateOptions { pattern: owned(pattern), ..self }
    }
}

impl Default for GenerateOptions {
    fn default() -> (r: GenerateOptions)
        ensures
            r.input_dir@ == default_input_dir(),
            r.output@ == "adrs.html"@,
            r.title@ == "Architecture Decision Records"@,
            r.theme == Theme::Auto,
            r.pattern@ == default_pattern(),
    {
        GenerateOptions::new("docs/decisions")
    }
}

/// Settings of the statistics command.
#[derive(Debug, Clone)]
pub struct StatsOptions {
    pub input_dir: String,
    pub pattern: String,
    pub format: StatsFormat,
}

impl StatsOptions {
    pub fn new(input_dir: &str) -> (r: StatsOptions)
        ensures
            r.input_dir@ == input_dir@,
            r.pattern@ == default_pattern(),
            r.format == StatsFormat::Text,
    {
        StatsOptions { input_dir: owned(input_dir), pattern: owned("**/*.md"), format: StatsFormat::Text }
    }

    pub fn with_pattern(self, pattern: &str) -> (r: StatsOptions)
        ensures
            r.pattern@ == pattern@,
            r.input_dir == self.input_dir && r.format == self.format,
    {
        StatsOptions { pattern: owned(pattern), ..self }
    }

    pub fn with_format(self, format: StatsFormat) -> (r: StatsOptions)
        ensures
            r.format == format,
            r.input_dir == self.input_dir && r.pattern == self.pattern,
    {
        StatsOptions { format, ..self }
    }
}

impl Default for StatsOptions {
    fn default() -> (r: StatsOptions)
        ensures
            r.input_dir@ == default_input_dir(),
            r.pattern@ == default_pattern(),
            r.format == StatsFormat::Text,
    {
        StatsOptions::new("docs/decisions")
    }
}

/// Settings of the validation command.
#[derive(Debug, Clone)]
pub struct ValidateOptions {
    pub input_dir: String,
    pub pattern: String,
    pub strict: bool,
}

impl ValidateOptions {
    pub fn new(input_dir: &str) -> (r: ValidateOptions)
        ensures
            r.input_dir@ == input_dir@,
            r.pattern@ == default_pattern(),
            !r.strict,
    {
        ValidateOptions { input_dir: owned(input_dir), pattern: owned("**/*.md"), strict: false }
    }

    pub fn with_pattern(self, pattern: &str) -> (r: ValidateOptions)
        ensures
            r.pattern@ == pattern@,
            r.input_dir == self.input_dir && r.strict == self.strict,
    {
        ValidateOptions { pattern: owned(pattern), ..self }
    }

    pub fn with_strict(self, strict: bool) -> (r: ValidateOptions)
        ensures
            r.strict == strict,
            r.input_dir == self.input_dir && r.pattern == self.pattern,
    {
        ValidateOptions { strict, ..self }
    }
}

impl Default for ValidateOptions {
    fn default() -> (r: ValidateOptions)
        ensures
            r.input_dir@ == default_input_dir(),
            r.pattern@ == default_pattern(),
            !r.strict,
    {
        ValidateOptions::new("docs/decisions")
    }
}

/// Settings of the wiki generation.
#[derive(Debug, Clone)]
pub struct WikiOptions {
    pub input_dir: String,
    pub output_dir: String,
    pub pages_url: Option<String>,
    pub pattern: String,
}

impl WikiOptions {
    pub fn new(input_dir: &str) -> (r: WikiOptions)
        ensures
            r.input_dir@ == input_dir@,
            r.output_dir@ == "wiki"@,
            r.pages_url is None,
            r.pattern@ == default_pattern(),
    {
        WikiOptions { input_dir: owned(input_dir), output_dir: owned("wiki"), pages_url: None, pattern: owned("**/*.md") }
    }

    pub fn with_output_dir(self, output_dir: &str) -> (r: WikiOptions)
        ensures
            r.output_dir@ == output_dir@,
            r.input_dir == self.input_dir && r.pages_url == self.pages_url && r.pattern == self.pattern,
    {
        WikiOptions { output_dir: owned(output_dir), ..self }
    }

    pub fn with_pages_url(self, url: &str) -> (r: WikiOptions)
        ensures
            r.pages_url matches Some(u) && u@ == url@,
            r.input_dir == self.input_dir && r.output_dir == self.output_dir && r.pattern == self.pattern,
    {
        WikiOptions { pages_url: Some(owned(url)), ..self }
    }

    pub fn with_pattern(self, pattern: &str) -> (r: WikiOptions)
        ensures
            r.pattern@ == pattern@,
            r.input_dir == self.input_dir && r.output_dir == self.output_dir && r.pages_url == self.pages_url,
    {
        WikiOptions { pattern: owned(pattern), ..self }
    }
}

impl Default for WikiOptions {
    fn default() -> (r: WikiOptions)
        ensures
            r.input_dir@ == default_input_dir(),
            r.output_dir@ == "wiki"@,
            r.pages_url is None,
            r.pattern@ == default_pattern(),
    {
        WikiOptions::new("docs/decisions")
    }
}

/// Relies on `time::OffsetDateTime::now_utc` and `format` with RFC 3339: the
/// current time as text, or `None` when it cannot be formatted. Nothing is
/// promised of the value, which depends on the clock.
#[verifier::external_body]
fn now_rfc3339() -> (r: Option<String>) {
    time::OffsetDateTime::now_utc().format(&time::format_description::well_known::Rfc3339).ok()
}

/// Name and version of this generator, as recorded in viewer pages.
pub open spec fn generator_name() -> Seq<char> {
    "adrscope/0.1.0"@
}

/// Facts about a generated viewer page.
#[derive(Debug, Clone)]
pub struct ViewerMeta {
    pub generated: String,
    pub generator: String,
    pub schema_version: String,
    pub source_dir: String,
}

impl ViewerMeta {
    /// Metadata stamped with the current time (`unknown` when it cannot be
    /// formatted).
    pub fn new(source_dir: &str) -> (r: ViewerMeta)
        ensures
            r.generator@ == generator_name(),
            r.schema_version@ == "1.0.0"@,
            r.source_dir@ == source_dir@,
    {
        let generated = match now_rfc3339() {
            Some(t) => t,
            None => owned("unknown"),
        };
        ViewerMeta {
            generated,
            generator: owned("adrscope/0.1.0"),
            schema_version: owned("1.0.0"),
            source_dir: owned(source_dir),
        }
    }
}

} // verus!
