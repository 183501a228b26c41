use vstd::prelude::*;

use crate::errors::PipelineError;

verus! {

/// The references the index document names: the `href` values, in
/// node-creation order (document order for well-formed markup), of the
/// list-item-nested anchors that carry the resource marker class and whose
/// reference names a `.parquet` file. Anchors without an `href` contribute
/// nothing. A pure function of the document text alone.
pub uninterp spec fn resource_hrefs(doc: Seq<char>) -> Seq<Seq<char>>;

/// Relies on scraper's Html::parse_document, Selector::parse and
/// ElementRef::attr: parsing the document and selecting
/// `li > a.resource-url-analytics[href*='.parquet']` is deterministic in the
/// document text, so the collected `href` values are named `resource_hrefs`.
/// The document parser records errors instead of failing, and the fixed
/// structural query is valid selector syntax (the substring attribute
/// operator is supported), so the call succeeds on every document; the
/// failure arm guards only against a rejected query and is unreachable.
#[verifier::external_body]
pub(crate) fn extract_resource_hrefs(document: &str) -> (r: Result<Vec<String>, PipelineError>)
    ensures
        r is Ok,
        r is Ok ==> r->Ok_0.deep_view() == resource_hrefs(document@),
{
    let selector = match scraper::Selector::parse("li > a.resource-url-analytics[href*='.parquet']")
    {
        Ok(s) => s,
        Err(_) => return Err(PipelineError::Selector),
    };
    let html = scraper::Html::parse_document(document);
    let mut hrefs: Vec<String> = Vec::new();
    for element in html.select(&selector) {
        if let Some(href) = element.value().attr("href") {
            hrefs.push(href.to_string());
        }
    }
    Ok(hrefs)
}

} // verus!
