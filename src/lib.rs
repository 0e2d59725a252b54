//! Architecture decision records: header extraction, lenient metadata
//! decoding, markdown flattening, and the cross-record views (facets,
//! statistics, relationship graph) together with a rule-based validator.

pub mod counts;
pub mod date;
pub mod error;
pub mod facets;
pub mod frontmatter;
pub mod graph;
pub mod header;
pub mod markdown;
pub mod options;
pub mod pipeline;
pub mod record;
pub mod stats;
pub mod status;
pub mod text;
pub mod validation;
pub mod wiki;

pub use counts::CountMap;
pub use date::Date;
pub use error::Error;
pub use facets::{Facet, FacetValue, Facets};
pub use frontmatter::{Frontmatter, FrontmatterParser, HeaderFields};
pub use graph::{Edge, EdgeType, Graph, Node};
pub use header::{assemble_frontmatter, extract_frontmatter};
pub use markdown::MarkdownRenderer;
pub use options::{
    GenerateOptions, RenderConfig, StatsFormat, StatsOptions, Theme, ValidateOptions, ViewerMeta, WikiOptions,
};
pub use pipeline::{parse_batch, validate_batch, GenerateResult, ParseOutcome, ValidateResult, WikiResult};
pub use record::{Adr, AdrId, DefaultAdrParser};
pub use stats::AdrStatistics;
pub use status::{Status, StatusWarnings};
pub use validation::{
    default_rules, RecommendedFieldsRule, RequiredFieldsRule, Rule, Severity, ValidationIssue, ValidationReport,
    Validator,
};
