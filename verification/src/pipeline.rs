//! The analysis pipeline's settings and the decisions it makes about an
//! event before any file is read.
use vstd::prelude::*;
use crate::analyzer::AnalyzerConfig;
use crate::event::{EventType, FileEvent};
use crate::languages::{lookup, LanguageRegistry};
use crate::llm::LlmClient;

verus! {

/// Pipeline configuration.
#[derive(Debug, Clone, PartialEq, Eq, Structural)]
pub struct PipelineConfig {
    /// How many analyses run at once.
    pub max_concurrent: usize,
    /// Files larger than this are not analysed.
    pub max_file_size: u64,
}

impl Default for PipelineConfig {
    /// Two at once, files up to 1 MiB.
    fn default() -> (r: Self)
        ensures
            r.max_concurrent == 2,
            r.max_file_size == 1048576,
    {
        PipelineConfig { max_concurrent: 2, max_file_size: 1048576 }
    }
}

impl PipelineConfig {
    /// The analyzer configuration the pipeline runs with: the same size
    /// limit.
    pub fn analyzer_config(&self) -> (r: AnalyzerConfig)
        ensures
            r.max_file_size == self.max_file_size,
    {
        AnalyzerConfig { max_file_size: self.max_file_size }
    }
}

/// The content hash of an event worth analysing: only creations and
/// modifications that carry a hash.
pub open spec fn analysis_target(event: FileEvent) -> Option<String> {
    if event.event_type == EventType::Created || event.event_type == EventType::Modified {
        event.content_hash
    } else {
        None
    }
}

/// The content hash under which an event's file is analysed, or `None`
/// when the event asks for no analysis (deletions, renames, or no hash).
pub fn analysis_hash(event: &FileEvent) -> (r: Option<String>)
    ensures
        r == analysis_target(*event),
{
    match event.event_type {
        EventType::Created | EventType::Modified => event.content_hash.clone(),
        _ => None,
    }
}

/// The analysis pipeline's settings: where results are cached, how many
/// analyses run at once and how large a file may be, and the model client
/// for the second tier, if any.
#[derive(Debug, Clone)]
pub struct AnalysisPipeline {
    pub analyzer_config: AnalyzerConfig,
    pub store_path: String,
    pub config: PipelineConfig,
    pub llm: Option<LlmClient>,
}

impl AnalysisPipeline {
    /// A pipeline caching at `store_path`, analysing files up to the
    /// configured size, without a model client.
    pub fn new(store_path: &str, config: PipelineConfig) -> (r: Self)
        ensures
            r.store_path@ == store_path@,
            r.config == config,
            r.analyzer_config.max_file_size == config.max_file_size,
            r.llm is None,
    {
        let analyzer_config = config.analyzer_config();
        AnalysisPipeline { analyzer_config, store_path: store_path.to_string(), config, llm: None }
    }

    /// A pipeline with the default configuration.
    pub fn with_defaults(store_path: &str) -> (r: Self)
        ensures
            r.store_path@ == store_path@,
            r.config.max_concurrent == 2,
            r.config.max_file_size == 1048576,
            r.analyzer_config.max_file_size == 1048576,
            r.llm is None,
    {
        Self::new(store_path, PipelineConfig::default())
    }

    /// The pipeline with a model client for the second tier.
    pub fn with_llm(self, llm: LlmClient) -> (r: Self)
        ensures
            r == (AnalysisPipeline { llm: Some(llm), ..self }),
    {
        AnalysisPipeline { llm: Some(llm), ..self }
    }

    /// The pipeline configuration.
    pub fn config(&self) -> (r: &PipelineConfig)
        ensures
            *r == self.config,
    {
        &self.config
    }

    /// The language a file is sent to the model as: none without a model
    /// client or for a file of no known language.
    pub fn tier_two_language(&self, registry: &LanguageRegistry, file_path: &str) -> (r: Option<&'static str>)
        requires
            registry.wf(),
        ensures
            self.llm is None ==> r is None,
            self.llm is Some ==> match lookup(registry@, file_path@) {
                Some((name, _)) => (r matches Some(n) && n@ == name),
                None => r is None,
            },
    {
        if self.llm.is_none() {
            return None;
        }
        match registry.get_for_path(file_path) {
            Some(c) => Some(c.name),
            None => None,
        }
    }
}

} // verus!
