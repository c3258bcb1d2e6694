//! The configuration of one run, made once and handed to what needs it.

use vstd::prelude::*;
use std::path::PathBuf;

verus! {

/// `std::path::PathBuf`, which the library carries and never reads.
#[verifier::external_type_specification]
#[verifier::external_body]
pub struct ExPathBuf(std::path::PathBuf);

/// The query parameters to keep in the addresses of one domain.
#[derive(Debug)]
pub struct QueryRule {
    /// The end of the host names that the rule is for.
    pub domain: String,
    /// The names of the parameters to keep.
    pub params: Vec<String>,
}

/// What a `QueryRule` stands for.
pub struct QueryRuleView {
    pub domain: Seq<char>,
    pub params: Seq<Seq<char>>,
}

impl DeepView for QueryRule {
    type V = QueryRuleView;

    open spec fn deep_view(&self) -> QueryRuleView {
        QueryRuleView { domain: self.domain@, params: self.params.deep_view() }
    }
}

impl View for QueryRule {
    type V = QueryRuleView;

    open spec fn view(&self) -> QueryRuleView {
        self.deep_view()
    }
}

/// The configuration of one run.
#[derive(Debug)]
pub struct Settings {
    /// Where the configuration lies.
    pub config_dir: PathBuf,
    /// Where the entries of the knowledge base lie.
    pub org_roam_dir: PathBuf,
    /// Where the templates lie.
    pub templates_dir: PathBuf,
    /// The file that keeps the watermark.
    pub updated_after_file_path: PathBuf,
    /// The categories of documents to fetch.
    pub document_categories: Vec<String>,
    /// The query parameters to keep, by domain. Of two rules that fit a host
    /// the earlier one counts.
    pub keep_query_params: Vec<QueryRule>,
}

} // verus!
