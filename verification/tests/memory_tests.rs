use arcana::memory::config::{
    config_path_in, global_dir_in, EmbeddingConfig, GlobalLimits, ProjectConfig, RetrievalConfig, SessionConfig,
};
use arcana::memory::tokenize::tokenize;
use arcana::memory::types::{eviction_count, flush_due, EmbeddingError, StoreKind, EMBEDDING_DIM};

#[test]
fn memory_config_defaults() {
    let g = GlobalLimits::default();
    assert_eq!((g.knowledge_capacity, g.errors_capacity, g.consolidation_on_evict), (10_000, 5_000, true));
    let s = SessionConfig::default();
    assert_eq!((s.capacity, s.flush_interval_turns, s.promotion_threshold), (1000, 5, 2));
    let p = ProjectConfig::default();
    assert!(p.auto_summarize_docs);
    assert_eq!(p.doc_extensions, vec!["md", "ipynb", "tex", "typ", "rst", "txt"]);
    assert_eq!(p.max_project_md_lines, 500);
    let r = RetrievalConfig::default();
    assert_eq!(
        (r.errors_top_k, r.knowledge_top_k, r.project_max_tokens, r.session_recent, r.session_relevant),
        (3, 5, 500, 5, 3)
    );
    let e = EmbeddingConfig::default_in("/home/u");
    assert_eq!(e.model, "all-MiniLM-L6-v2");
    assert_eq!(e.model_path, "/home/u/.arcana/models/all-MiniLM-L6-v2.onnx");
    assert_eq!(e.dimensions, EMBEDDING_DIM);
}

#[test]
fn memory_paths() {
    assert_eq!(global_dir_in("/home/u"), "/home/u/.arcana");
    assert_eq!(global_dir_in("~"), "~/.arcana");
    assert_eq!(config_path_in("/home/u/"), "/home/u/.arcana/memory.toml");
}

#[test]
fn eviction_and_flush_rules() {
    assert_eq!(eviction_count(12, 10), 2);
    assert_eq!(eviction_count(10, 10), 0);
    assert_eq!(eviction_count(3, 10), 0);
    assert!(flush_due(10, 5));
    assert!(!flush_due(11, 5));
    assert!(flush_due(0, 5));
}

fn word_id(w: &str) -> u32 {
    w.bytes().fold(0u32, |a, b| a.wrapping_mul(31).wrapping_add(b as u32)) % 30000 + 1000
}

#[test]
fn tokenize_hashes_words() {
    assert_eq!(
        tokenize("Hello  world\thello"),
        vec![101, word_id("Hello"), word_id("world"), word_id("hello"), 102]
    );
    assert_eq!(tokenize("a ab"), vec![101, 1097, 4105, 102]);
    assert_eq!(tokenize("   "), vec![101, 102]);
    assert_eq!(tokenize("é"), vec![101, word_id("é"), 102]);
    let long = "x".repeat(40);
    assert_eq!(tokenize(&long), vec![101, word_id(&long), 102]);
}

#[test]
fn memory_enums() {
    assert_ne!(StoreKind::Knowledge, StoreKind::Errors);
    assert!(matches!(EmbeddingError::ModelNotFound("m".to_string()), EmbeddingError::ModelNotFound(_)));
    assert!(matches!(EmbeddingError::Ort("x".to_string()), EmbeddingError::Ort(_)));
    assert!(matches!(EmbeddingError::BadShape, EmbeddingError::BadShape));
    assert!(matches!(EmbeddingError::Lock, EmbeddingError::Lock));
}
