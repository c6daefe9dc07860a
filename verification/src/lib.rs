//! A small static-site toolkit: splitting front matter from text documents,
//! decoding page metadata, and ordering pages into a publication index.

pub mod blog_post;
pub mod canonical;
pub mod date;
pub mod error;
pub mod external;
pub mod fields;
pub mod frontmatter;
pub mod index_entry;
pub mod markdown;
pub mod metadata;
pub mod options;
pub mod ordered;
pub mod page;
pub mod path;
pub mod policy;
pub mod record;
pub mod redirect_page;
pub mod talk;
pub mod text;
