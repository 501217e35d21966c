//! The classification of an incoming message: what the user means by it, where
//! it belongs in the vault, the entities it names and its cleaned-up text.
use vstd::prelude::*;

verus! {

/// What a message asks for.
#[derive(PartialEq, Eq, Structural, Clone, Copy, Debug)]
pub enum IntentEnum {
    Note,
    Draft,
    Event,
    Disambiguate,
    Query,
    Crawl,
}

/// How a message was classified.
pub struct UrielClassification {
    pub intent: IntentEnum,
    pub target_folder: String,
    pub entities_found: Vec<String>,
    pub formatted_content: String,
}

} // verus!
