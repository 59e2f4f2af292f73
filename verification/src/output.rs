//! What becomes of the result of a lookup: the fully-qualified names, and
//! the file that they are written to.

use crate::api::JsonSubDomain;
use crate::text::{file_text, keeps_its_line, lemma_lines_round_trip, lines_of};
use vstd::prelude::*;
use vstd::utf8::encode_utf8;

verus! {

/// The fully-qualified name of the subdomain `label` of `domain`: the label,
/// a period, and the domain.
pub open spec fn qualified(label: Seq<char>, domain: Seq<char>) -> Seq<char> {
    label + seq!['.'] + domain
}

/// The fully-qualified names of the subdomains `labels` of `domain`, in the
/// order of the labels.
pub open spec fn qualified_all(labels: Seq<Seq<char>>, domain: Seq<char>) -> Seq<Seq<char>> {
    Seq::new(labels.len(), |i: int| qualified(labels[i], domain))
}

/// The path of the output file where none is given: the domain with the
/// ending `.rusho`.
pub open spec fn default_path(domain: Seq<char>) -> Seq<char> {
    domain + ".rusho"@
}

/// The path of the output file: the one that is given, else the default one.
pub open spec fn chosen_path(output: Option<Seq<char>>, domain: Seq<char>) -> Seq<char> {
    match output {
        Some(path) => path,
        None => default_path(domain),
    }
}

/// The report on a lookup that found no subdomain of `domain`.
pub open spec fn no_subdomains_report(domain: Seq<char>) -> Seq<char> {
    "No subdomains found for "@ + domain
}

/// What to do with the result of a lookup.
#[derive(Debug, PartialEq, Eq)]
pub enum OutputPlan {
    /// The lookup found nothing: say so with `report`, and write no file.
    NoSubdomains { report: String },
    /// Write `lines`, the fully-qualified names, to the file at `path`.
    Write { path: String, lines: Vec<String> },
}

/// An [`OutputPlan`] as a mathematical value.
pub enum OutputPlanView {
    NoSubdomains { report: Seq<char> },
    Write { path: Seq<char>, lines: Seq<Seq<char>> },
}

impl View for OutputPlan {
    type V = OutputPlanView;

    open spec fn view(&self) -> OutputPlanView {
        match self {
            OutputPlan::NoSubdomains { report } => OutputPlanView::NoSubdomains { report: report@ },
            OutputPlan::Write { path, lines } => OutputPlanView::Write {
                path: path@,
                lines: lines.deep_view(),
            },
        }
    }
}

/// The plan for the subdomains `found` of `domain`, with the output path
/// `output` where one is given. An absent list and an empty one both mean
/// that nothing was found. Any other list is written out as fully-qualified
/// names, in the order in which the service gave the labels.
pub open spec fn planned(
    found: Option<Seq<Seq<char>>>,
    domain: Seq<char>,
    output: Option<Seq<char>>,
) -> OutputPlanView {
    match found {
        Some(labels) => if labels.len() > 0 {
            OutputPlanView::Write {
                path: chosen_path(output, domain),
                lines: qualified_all(labels, domain),
            }
        } else {
            OutputPlanView::NoSubdomains { report: no_subdomains_report(domain) }
        },
        None => OutputPlanView::NoSubdomains { report: no_subdomains_report(domain) },
    }
}

/// Makes the fully-qualified name of the subdomain `label` of `domain`.
pub fn qualified_name(label: &str, domain: &str) -> (name: String)
    ensures
        name@ == qualified(label@, domain@),
{
    proof {
        reveal_strlit(".");
    }
    let mut name = String::from_str(label);
    name.append(".");
    name.append(domain);
    name
}

/// Makes the fully-qualified names of the subdomains `labels` of `domain`, in
/// the order of the labels.
pub fn qualified_names(labels: &Vec<String>, domain: &str) -> (names: Vec<String>)
    ensures
        names.deep_view() == qualified_all(labels.deep_view(), domain@),
{
    let mut names: Vec<String> = Vec::new();
    let mut i: usize = 0;
    while i < labels.len()
        invariant
            i <= labels.len(),
            names.len() == i,
            forall|j: int| 0 <= j < i ==> (#[trigger] names[j])@ == qualified(labels[j]@, domain@),
        decreases labels.len() - i,
    {
        let name = qualified_name(labels[i].as_str(), domain);
        names.push(name);
        i += 1;
    }
    names
}

/// Chooses the path of the output file: `output` where it is given, else the
/// domain with the ending `.rusho`.
pub fn output_path(output: Option<String>, domain: &str) -> (path: String)
    ensures
        path@ == chosen_path(output.deep_view(), domain@),
{
    match output {
        Some(path) => path,
        None => {
            let mut path = String::from_str(domain);
            path.append(".rusho");
            path
        },
    }
}

/// Plans what to do with the result of a lookup for `domain`.
pub fn plan_output(found: &JsonSubDomain, domain: &str, output: Option<String>) -> (plan:
    OutputPlan)
    ensures
        plan@ == planned(found.subdomains.deep_view(), domain@, output.deep_view()),
{
    match &found.subdomains {
        Some(labels) => {
            if labels.len() > 0 {
                let lines = qualified_names(labels, domain);
                let path = output_path(output, domain);
                return OutputPlan::Write { path, lines };
            }
        },
        None => {},
    }
    let mut report = String::from_str("No subdomains found for ");
    report.append(domain);
    OutputPlan::NoSubdomains { report }
}

/// True when a fully-qualified name stays on its line in the output file: it
/// holds no newline and does not end in a carriage return.
pub open spec fn stays_on_its_line(name: Seq<char>) -> bool {
    &&& forall|i: int| 0 <= i < name.len() ==> name[i] != '\n'
    &&& name.len() > 0 ==> name.last() != '\r'
}

/// Fully-qualified names that stay on their lines are read back from the
/// bytes of the output file that they were written to: the same names, as
/// many as were written, in the same order.
pub proof fn lemma_output_round_trip(labels: Seq<Seq<char>>, domain: Seq<char>)
    requires
        forall|i: int|
            0 <= i < labels.len() ==> stays_on_its_line(#[trigger] qualified(labels[i], domain)),
    ensures
        lines_of(encode_utf8(file_text(qualified_all(labels, domain)))) == qualified_all(
            labels,
            domain,
        ),
{
    let names = qualified_all(labels, domain);
    assert forall|i: int| 0 <= i < names.len() implies keeps_its_line(#[trigger] names[i]) by {
        let name = qualified(labels[i], domain);
        assert(name[labels[i].len() as int] == '.');
    }
    lemma_lines_round_trip(names);
}

} // verus!
