//! Line-oriented content search: match detection, context windows, truncation
//! and record emission, stated and proved over byte sequences.

pub mod emit;
pub mod error;
pub mod flat;
pub mod glob;
pub mod lines;
pub mod options;
pub mod pattern;
pub mod record;
pub mod render;
pub mod run;
pub mod scan;
pub mod search;
pub mod walk;
pub mod window;

pub use crate::error::{SearchError, SearchStatus};
pub use crate::flat::{search_files, search_in_file, SearchMatch, SearchResult};
pub use crate::glob::GlobFilter;
pub use crate::options::SearchOptions;
pub use crate::pattern::{LineMatcher, MatchSpan};
pub use crate::record::{
    RgJsonContext, RgJsonContextData, RgJsonData, RgJsonLines, RgJsonMatch, RgJsonMatchData,
    RgJsonPath, RgJsonSubmatch, SearchResultType,
};
pub use crate::run::{
    search_files_compatible, wasm_search_files_simple, SearchOutcome, SearchRun, Visit,
};
pub use crate::search::{search_file_compatible, search_file_with_context};
pub use crate::walk::{walk_directory, FileEntry, WalkResult};
pub use crate::window::{build_windows, ContextWindow};
