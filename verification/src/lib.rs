//! Summarization engine for source-file aggregation: comment contracts per
//! file extension, structural validation of generated summaries, retrying
//! provider invocation with exponential backoff, bounded-concurrency
//! bookkeeping, and idempotent summary-block injection.

mod diff;
mod files;
mod json;
mod laws;
mod prompts;
mod provider;
mod registry;
mod retry;
mod scheduler;
mod sections;
mod text;
mod time;
mod validate;
mod validation;

pub use diff::filter_diff_for_file;
pub use files::{build_report, check_for_keywords};
pub use laws::{lemma_altered_template_rejected, lemma_apply_idempotent, lemma_template_accepted, make_summary};
pub use prompts::{build_prompt, load_prompts, process_with_template};
pub use provider::{Message, Provider, ProviderRequest, UnifiedClient, UnifiedResponse, user_messages};
pub use registry::{CommentContract, CommentEnd, comment_contract_for};
pub use retry::{
    lemma_contract_violations_exhaust_budget, lemma_rate_limit_then_success, ChatError, ChatStep,
    ProviderEvent, RetryState, INITIAL_BACKOFF_MS, MAX_RETRIES,
};
pub use scheduler::{Scheduler, DEFAULT_CONCURRENT_REQUESTS};
pub use sections::{
    apply_summary, apply_summary_text, filter_dirscribe_sections, get_summaries_from_files,
    insert_timestamp,
};
pub use validate::{check_prefix, check_summary, validate_summary};
pub use validation::{
    Cli, ValidationError, validate_cli_args, validate_git_args, validate_keywords,
    validate_output_path, validate_path_filters, validate_suffixes, validate_template_path,
};
