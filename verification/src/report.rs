//! Per-document reporting: the test of the two discriminator fields
//! (`apiVersion` and `kind`) that decides whether a document is validated
//! at all, and the exact lines a report prints for one document.

use vstd::prelude::*;
use crate::node::{Node, node_get};
use crate::validate::{spec_validate, validate, views_of, lemma_views_push};
use vstd::string::StringExecFns;

verus! {

/// The discriminator key naming a document's declared version.
pub open spec fn api_version_key() -> Seq<char> {
    "apiVersion"@
}

/// The discriminator key naming a document's declared kind.
pub open spec fn kind_key() -> Seq<char> {
    "kind"@
}

/// The string value under `key`, if the node maps `key` to a string.
pub open spec fn str_field(doc: Node, key: Seq<char>) -> Option<Seq<char>> {
    match node_get(doc, key) {
        Some(Node::Str(s)) => Some(s@),
        _ => None,
    }
}

/// What became of one document.
pub enum Outcome {
    /// The document lacks a string `apiVersion` or `kind` and was skipped;
    /// the validator never ran on it.
    Skipped,
    /// The document was validated: its two discriminator values, and the
    /// validator's messages in discovery order (empty on success).
    Checked { api_version: String, kind: String, errors: Vec<String> },
}

/// Runs the validator on a document unless a discriminator is missing.
/// The validator runs exactly when both `apiVersion` and `kind` are present
/// as string fields; the schema never varies with their values.
pub fn check_document(doc: &Node, schema: &Node) -> (o: Outcome)
    ensures
        match o {
            Outcome::Skipped => str_field(*doc, api_version_key()) is None
                || str_field(*doc, kind_key()) is None,
            Outcome::Checked { api_version, kind, errors } => {
                &&& str_field(*doc, api_version_key()) == Some(api_version@)
                &&& str_field(*doc, kind_key()) == Some(kind@)
                &&& views_of(errors@) == spec_validate(*doc, *schema)
            },
        },
{
    let api_version: String = match doc.get("apiVersion") {
        Some(Node::Str(v)) => v.clone(),
        _ => {
            return Outcome::Skipped;
        },
    };
    let kind: String = match doc.get("kind") {
        Some(Node::Str(v)) => v.clone(),
        _ => {
            return Outcome::Skipped;
        },
    };
    let errors = validate(doc, schema);
    Outcome::Checked { api_version, kind, errors }
}

/// The notice for a document skipped over a missing discriminator.
pub open spec fn spec_skip_line(file: Seq<char>) -> Seq<char> {
    ("File: "@ + file) + ": Missing `apiVersion` or `kind`. Skipping validation."@
}

/// The notice for a file whose content did not parse as a document.
pub open spec fn spec_parse_failure_line(file: Seq<char>) -> Seq<char> {
    "Failed to parse document in file: "@ + file
}

/// The lines a validated document's report opens with.
pub open spec fn spec_header_lines(file: Seq<char>, av: Seq<char>, kind: Seq<char>) -> Seq<
    Seq<char>,
> {
    seq!["File: "@ + file, "  apiVersion: "@ + av, "  kind: "@ + kind]
}

/// The full report for one document: a single skip notice, or the header
/// followed by a success line or by the bulleted messages.
pub open spec fn spec_outcome_lines(file: Seq<char>, o: Outcome) -> Seq<Seq<char>> {
    match o {
        Outcome::Skipped => seq![spec_skip_line(file)],
        Outcome::Checked { api_version, kind, errors } => spec_header_lines(
            file,
            api_version@,
            kind@,
        ) + if errors@.len() == 0 {
            seq!["  Validation successful!"@]
        } else {
            seq!["  Validation errors:"@] + views_of(errors@).map_values(
                |e: Seq<char>| "    - "@ + e,
            )
        },
    }
}

/// Builds the notice for an unparsable file.
pub fn parse_failure_line(file: &str) -> (line: String)
    ensures
        line@ == spec_parse_failure_line(file@),
{
    "Failed to parse document in file: ".to_owned().concat(file)
}

/// Renders one document's outcome as the lines its report prints.
pub fn report_lines(file: &str, o: &Outcome) -> (lines: Vec<String>)
    ensures
        views_of(lines@) == spec_outcome_lines(file@, *o),
{
    let mut lines: Vec<String> = Vec::new();
    match o {
        Outcome::Skipped => {
            let line = "File: ".to_owned().concat(file).concat(
                ": Missing `apiVersion` or `kind`. Skipping validation.",
            );
            lines.push(line);
            proof {
                assert(views_of(lines@) =~= spec_outcome_lines(file@, *o));
            }
        },
        Outcome::Checked { api_version, kind, errors } => {
            lines.push("File: ".to_owned().concat(file));
            lines.push("  apiVersion: ".to_owned().concat(api_version.as_str()));
            lines.push("  kind: ".to_owned().concat(kind.as_str()));
            if errors.len() == 0 {
                lines.push("  Validation successful!".to_owned());
                proof {
                    assert(views_of(lines@) =~= spec_outcome_lines(file@, *o));
                }
            } else {
                lines.push("  Validation errors:".to_owned());
                let ghost bullets = views_of(errors@).map_values(|e: Seq<char>| "    - "@ + e);
                let ghost base = lines@;
                let n = errors.len();
                let mut i: usize = 0;
                while i < n
                    invariant
                        n == errors.len(),
                        i <= n,
                        bullets == views_of(errors@).map_values(|e: Seq<char>| "    - "@ + e),
                        lines@.len() == base.len() + i,
                        views_of(lines@) =~= views_of(base) + bullets.take(i as int),
                    decreases n - i,
                {
                    let bullet = "    - ".to_owned().concat(errors[i].as_str());
                    let ghost pre = lines@;
                    lines.push(bullet);
                    proof {
                        lemma_views_push(pre, bullet);
                        assert(views_of(errors@)[i as int] == errors@[i as int]@);
                        assert(bullets[i as int] == "    - "@ + errors@[i as int]@);
                        assert(bullet@ == bullets[i as int]);
                        assert(bullets.take(i as int).push(bullets[i as int])
                            =~= bullets.take(i as int + 1));
                        assert(views_of(lines@) =~= views_of(base) + bullets.take(i as int + 1));
                    }
                    i += 1;
                }
                proof {
                    assert(bullets.take(n as int) =~= bullets);
                    assert(views_of(lines@) =~= spec_outcome_lines(file@, *o));
                }
            }
        },
    }
    lines
}

/// The report for one located file: the parse-failure notice when its
/// content yielded no document, else the outcome's report. A parse failure
/// or a validation message never goes beyond this one file's lines.
pub fn file_report(file: &str, parsed: Option<&Node>, schema: &Node) -> (lines: Vec<String>)
    ensures
        match parsed {
            None => views_of(lines@) == seq![spec_parse_failure_line(file@)],
            Some(doc) => exists|o: Outcome|
                {
                    &&& views_of(lines@) == spec_outcome_lines(file@, o)
                    &&& match o {
                        Outcome::Skipped => str_field(*doc, api_version_key()) is None
                            || str_field(*doc, kind_key()) is None,
                        Outcome::Checked { api_version, kind, errors } => {
                            &&& str_field(*doc, api_version_key()) == Some(api_version@)
                            &&& str_field(*doc, kind_key()) == Some(kind@)
                            &&& views_of(errors@) == spec_validate(*doc, *schema)
                        },
                    }
                },
        },
{
    match parsed {
        None => {
            let mut lines: Vec<String> = Vec::new();
            lines.push(parse_failure_line(file));
            proof {
                assert(views_of(lines@) =~= seq![spec_parse_failure_line(file@)]);
            }
            lines
        },
        Some(doc) => {
            let o = check_document(doc, schema);
            let lines = report_lines(file, &o);
            proof {
                assert(views_of(lines@) == spec_outcome_lines(file@, o));
            }
            lines
        },
    }
}

} // verus!
