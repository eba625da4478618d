//! Filtering messages with JSONPath (RFC 9535) expressions.
//!
//! A filter is evaluated against the full message (subject, payload,
//! timestamp, sequence): the message is wrapped in a one-element JSON
//! array, the expression is applied to it, and the message matches when the
//! result is not empty. So `$[?@.payload.severity == 'critical']` selects
//! the messages whose payload has that severity.
use serde_json_path::JsonPath;
use vstd::prelude::*;

use crate::json::{compact_of, json_compact, opt_view, utf8};
use crate::output::{array_text, compact_fields, entry_text, fields_json};
use crate::stream_reader::{MessageModel, RawMessage};

verus! {

#[verifier::external_type_specification]
#[verifier::external_body]
pub struct ExJsonPath(serde_json_path::JsonPath);

/// Compiles a JSONPath query.
///
/// Trusted: calls `serde_json_path::JsonPath::parse`; the error, when there
/// is one, is given as its `Display` text. Which expressions it accepts
/// depends on the functions registered with `serde_json_path` in the running
/// program, so nothing is stated of the outcome.
#[verifier::external_body]
fn compile(expression: &str) -> Result<JsonPath, String> {
    match JsonPath::parse(expression) {
        Ok(path) => Ok(path),
        Err(e) => Err(e.to_string()),
    }
}

/// The reason a filter expression is refused.
#[derive(Debug, Clone, PartialEq, Eq)]
pub enum FilterError {
    /// The expression is no valid JSONPath query; the text says why.
    InvalidExpression(String),
}

impl FilterError {
    /// The text by which this error is reported.
    pub fn message(&self) -> (r: String)
        ensures
            r@ == self->InvalidExpression_0@,
    {
        match self {
            FilterError::InvalidExpression(reason) => reason.clone(),
        }
    }
}

/// A compiled JSONPath filter that evaluates per-element filter expressions
/// against the full `RawMessage` structure.
///
/// Its only constructor is `new`, so its compiled path is always the one
/// that `JsonPath::parse` gave for its expression.
#[derive(Debug)]
pub struct MessageFilter {
    path: JsonPath,
    expression: String,
}

/// The document a message is tested against: a one-element JSON array
/// holding the message's compact JSON, its payload in the payload's own
/// text (so the payload is read once, as when the message is written);
/// `None` when the payload is no JSON text.
pub open spec fn filter_document(m: MessageModel) -> Option<Seq<char>> {
    if json_compact(utf8(m.payload)) is Some {
        Some("["@ + compact_fields(m, m.payload) + "]"@)
    } else {
        None
    }
}

/// The document a message is tested against.
pub fn document(message: &RawMessage) -> (r: Option<String>)
    ensures
        opt_view(r) == filter_document(message@),
{
    if compact_of(message.payload.as_str().as_bytes()).is_some() {
        let mut d = String::new();
        d.append("[");
        d.append(fields_json(message, message.payload.as_str()).as_str());
        d.append("]");
        Some(d)
    } else {
        None
    }
}

impl MessageFilter {
    /// The JSONPath expression of this filter.
    pub closed spec fn expression(&self) -> Seq<char> {
        self.expression@
    }

    /// The number of nodes that this filter's query selects in
    /// `document`, or `None` when the document is no JSON text.
    ///
    /// Trusted: reads `document` with a `serde_json::Deserializer` whose
    /// recursion limit is lifted (the document nests a payload that was
    /// already read within the limit two levels deeper) and checks that
    /// nothing follows it (`end`), as `serde_json::from_str` does; then calls
    /// `JsonPath::query` with the filter's compiled path and takes the
    /// node list's `len`. The query may call functions registered in the
    /// running program, so nothing is stated of the count; what is stated
    /// is that a document `serde_json::from_slice` reads (within its
    /// recursion limit) is read here too, since the same parser with the
    /// limit lifted accepts all it accepted, and so gives a count.
    #[verifier::external_body]
    fn query_count(&self, document: &str) -> (r: Option<usize>)
        ensures
            json_compact(utf8(document@)) is Some ==> r is Some,
    {
        let mut de = serde_json::Deserializer::from_str(document);
        de.disable_recursion_limit();
        match <serde_json::Value as serde::Deserialize>::deserialize(&mut de) {
            Ok(value) => match de.end() {
                Ok(()) => Some(self.path.query(&value).len()),
                Err(_) => None,
            },
            Err(_) => None,
        }
    }

    /// Parses a JSONPath filter expression and returns a compiled
    /// `MessageFilter` for it, or the reason the expression is no valid
    /// query. Which expressions are valid depends on `serde_json_path` and
    /// the functions registered with it in the running program.
    pub fn new(expression: &str) -> (r: Result<MessageFilter, FilterError>)
        ensures
            r matches Ok(f) ==> f.expression() == expression@,
    {
        match compile(expression) {
            Ok(path) => Ok(MessageFilter { path, expression: expression.to_owned() }),
            Err(reason) => Err(FilterError::InvalidExpression(reason)),
        }
    }

    /// The number of nodes the query selects in the one-element array
    /// holding the message: nothing when the message's payload is no JSON
    /// text, and otherwise what the query gives on `document(message)`.
    pub fn match_count(&self, message: &RawMessage) -> (r: Option<usize>)
        ensures
            filter_document(message@) is None ==> r is None,
            filter_document(message@) matches Some(d) ==> (json_compact(utf8(d)) is Some ==> r is Some),
    {
        match document(message) {
            Some(d) => self.query_count(d.as_str()),
            None => None,
        }
    }

    /// Evaluates the filter against the full message (subject, payload,
    /// timestamp, sequence): whether the query selects at least one node of
    /// the one-element array holding the message, as `selects_by_count`
    /// decides on `match_count`. A message whose payload is no JSON text
    /// matches nothing.
    pub fn matches(&self, message: &RawMessage) -> (r: bool)
        ensures
            filter_document(message@) is None ==> !r,
    {
        selects_by_count(self.match_count(message))
    }
}

/// Whether a query's result selects the message: the query gave at least
/// one node.
pub open spec fn count_selects(count: Option<usize>) -> bool {
    count matches Some(n) && n > 0
}

/// Decides on a query's result: a message matches when the query selects
/// at least one node of its document, and not when the document could not
/// be read.
pub fn selects_by_count(count: Option<usize>) -> (r: bool)
    ensures
        r == count_selects(count),
{
    match count {
        Some(n) => n > 0,
        None => false,
    }
}

/// A filter sees a message as a compact dump of that message alone would
/// write it: `[`, the message's fields in the same order and form, `]`;
/// only the payload stands in its own text rather than written back. A
/// message is filtered exactly when it could be written.
pub proof fn law_filter_sees_dumped_form(m: MessageModel)
    ensures
        match json_compact(utf8(m.payload)) {
            Some(p) => filter_document(m) == Some(array_text(false, seq![compact_fields(m, m.payload)]))
                && entry_text(m, false) == Some(compact_fields(m, p)),
            None => filter_document(m) is None && entry_text(m, false) is None,
        },
{
    let es = seq![compact_fields(m, m.payload)];
    assert(es.drop_last().len() == 0);
}

} // verus!
