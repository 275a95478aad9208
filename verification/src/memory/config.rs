//! Configuration of the memory system and its defaults.
use vstd::prelude::*;

use crate::text::{join_path, path_join};

verus! {

#[derive(Debug, Clone, Copy)]
pub struct SessionConfig {
    pub capacity: usize,
    pub flush_interval_turns: usize,
    pub promotion_threshold: u64,
}

#[derive(Debug)]
pub struct ProjectConfig {
    pub auto_summarize_docs: bool,
    pub doc_extensions: Vec<String>,
    pub max_project_md_lines: usize,
}

#[derive(Debug, Clone, Copy)]
pub struct RetrievalConfig {
    pub errors_top_k: usize,
    pub knowledge_top_k: usize,
    pub project_max_tokens: usize,
    pub session_recent: usize,
    pub session_relevant: usize,
}

/// Which embedding model to use, and where its file is.
#[derive(Debug)]
pub struct EmbeddingConfig {
    pub model: String,
    pub model_path: String,
    pub dimensions: usize,
}

/// The settings of the global memory tier other than its eviction decay
/// rate (a float, which the caller keeps): the capacities of the knowledge
/// and error stores, and whether evicted entries are consolidated.
#[derive(Debug, Clone, Copy)]
pub struct GlobalLimits {
    pub knowledge_capacity: usize,
    pub errors_capacity: usize,
    pub consolidation_on_evict: bool,
}

impl Default for GlobalLimits {
    fn default() -> (r: Self)
        ensures
            r.knowledge_capacity == 10_000,
            r.errors_capacity == 5_000,
            r.consolidation_on_evict,
    {
        GlobalLimits { knowledge_capacity: 10_000, errors_capacity: 5_000, consolidation_on_evict: true }
    }
}

impl Default for SessionConfig {
    fn default() -> (r: Self)
        ensures
            r.capacity == 1000,
            r.flush_interval_turns == 5,
            r.promotion_threshold == 2,
    {
        SessionConfig { capacity: 1000, flush_interval_turns: 5, promotion_threshold: 2 }
    }
}

impl Default for ProjectConfig {
    fn default() -> (r: Self)
        ensures
            r.auto_summarize_docs,
            r.doc_extensions.deep_view() == seq!["md"@, "ipynb"@, "tex"@, "typ"@, "rst"@, "txt"@],
            r.max_project_md_lines == 500,
    {
        let mut ext: Vec<String> = Vec::new();
        ext.push("md".to_owned());
        ext.push("ipynb".to_owned());
        ext.push("tex".to_owned());
        ext.push("typ".to_owned());
        ext.push("rst".to_owned());
        ext.push("txt".to_owned());
        assert(ext.deep_view() =~= seq!["md"@, "ipynb"@, "tex"@, "typ"@, "rst"@, "txt"@]);
        ProjectConfig { auto_summarize_docs: true, doc_extensions: ext, max_project_md_lines: 500 }
    }
}

impl Default for RetrievalConfig {
    fn default() -> (r: Self)
        ensures
            r.errors_top_k == 3,
            r.knowledge_top_k == 5,
            r.project_max_tokens == 500,
            r.session_recent == 5,
            r.session_relevant == 3,
    {
        RetrievalConfig {
            errors_top_k: 3,
            knowledge_top_k: 5,
            project_max_tokens: 500,
            session_recent: 5,
            session_relevant: 3,
        }
    }
}

impl EmbeddingConfig {
    /// The default embedding model, with its file under the given home
    /// directory.
    pub fn default_in(home: &str) -> (r: Self)
        ensures
            r.model@ == "all-MiniLM-L6-v2"@,
            r.model_path@ == path_join(home@, ".arcana/models/all-MiniLM-L6-v2.onnx"@),
            r.dimensions == 384,
    {
        EmbeddingConfig {
            model: "all-MiniLM-L6-v2".to_owned(),
            model_path: join_path(home, ".arcana/models/all-MiniLM-L6-v2.onnx"),
            dimensions: 384,
        }
    }
}

/// Directory of the global memory data under a home directory.
pub fn global_dir_in(home: &str) -> (r: String)
    ensures
        r@ == path_join(home@, ".arcana"@),
{
    join_path(home, ".arcana")
}

/// Path of the memory configuration file under a home directory.
pub fn config_path_in(home: &str) -> (r: String)
    ensures
        r@ == path_join(path_join(home@, ".arcana"@), "memory.toml"@),
{
    let g = global_dir_in(home);
    join_path(g.as_str(), "memory.toml")
}

} // verus!
