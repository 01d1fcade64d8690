//! What a contract validator reports, and what of it a user is shown.
//!
//! The validator itself runs outside this library. Its report is handed over
//! as a [`Validation`]; of its findings the basic ones are turned into
//! messages, and every message is shown once.

use crate::model::{text_view, texts_view};
use crate::names::has_name;
use crate::text::{contains_text, occurs_at, occurs_in};
use vstd::prelude::*;
use vstd::string::StringExecFns;

verus! {

/// One finding of the validator.
#[derive(Clone, Debug, PartialEq, Eq)]
pub enum Diagnostic {
    /// A basic finding against the JSON schema of contracts: what is wrong,
    /// and where in the contract.
    JsonSchema { summary: String, path: String },
    /// Any other basic finding, as the validator words it.
    Basic(String),
    /// A finding that is not a basic one.
    Other,
}

/// What a [`Diagnostic`] stands for.
pub enum DiagnosticView {
    JsonSchema { summary: Seq<char>, path: Seq<char> },
    Basic(Seq<char>),
    Other,
}

impl View for Diagnostic {
    type V = DiagnosticView;

    open spec fn view(&self) -> DiagnosticView {
        match self {
            Diagnostic::JsonSchema { summary, path } => DiagnosticView::JsonSchema {
                summary: summary@,
                path: path@,
            },
            Diagnostic::Basic(text) => DiagnosticView::Basic(text@),
            Diagnostic::Other => DiagnosticView::Other,
        }
    }
}

/// What each finding of a list stands for.
pub open spec fn diagnostics_view(v: Seq<Diagnostic>) -> Seq<DiagnosticView> {
    Seq::new(v.len(), |i: int| v[i]@)
}

/// The report of the validator on one contract.
#[derive(Clone, Debug, PartialEq, Eq)]
pub enum Validation {
    /// The validator could not take the contract at all, and says why.
    Rejected(String),
    /// The validator took the contract and found this.
    Checked(Vec<Diagnostic>),
}

/// What a [`Validation`] stands for.
pub enum ValidationView {
    Rejected(Seq<char>),
    Checked(Seq<DiagnosticView>),
}

impl View for Validation {
    type V = ValidationView;

    open spec fn view(&self) -> ValidationView {
        match self {
            Validation::Rejected(text) => ValidationView::Rejected(text@),
            Validation::Checked(found) => ValidationView::Checked(diagnostics_view(found@)),
        }
    }
}

/// The words by which the validator says that an array property has no
/// `"items"`.
pub open spec fn items_missing() -> Seq<char> {
    "\"items\" is a required property"@
}

/// What a user is told in place of a finding about missing `"items"`.
pub open spec fn byte_array_advice() -> Seq<char> {
    "JsonSchemaError: \"array\" properties must specify \"byteArray\": true. In the dynamic form, just change the property from an array to a string and back to an array again, and resubmit."@
}

/// The message for a finding, if it is one that a user is shown.
pub open spec fn message_of(d: DiagnosticView) -> Option<Seq<char>> {
    match d {
        DiagnosticView::JsonSchema { summary, path } => Some(
            if occurs_in(items_missing(), summary) {
                byte_array_advice()
            } else {
                "JsonSchemaError: "@ + summary + ", Path: "@ + path
            },
        ),
        DiagnosticView::Basic(text) => Some(text),
        DiagnosticView::Other => None,
    }
}

/// The messages for a list of findings, in their order.
pub open spec fn messages_of(found: Seq<DiagnosticView>) -> Seq<Seq<char>>
    decreases found.len(),
{
    if found.len() == 0 {
        Seq::empty()
    } else {
        let front = messages_of(found.drop_last());
        match message_of(found.last()) {
            Some(m) => front.push(m),
            None => front,
        }
    }
}

/// A list of messages with each message kept where it first stands.
pub open spec fn once_each(messages: Seq<Seq<char>>) -> Seq<Seq<char>>
    decreases messages.len(),
{
    if messages.len() == 0 {
        Seq::empty()
    } else {
        let front = once_each(messages.drop_last());
        if front.contains(messages.last()) {
            front
        } else {
            front.push(messages.last())
        }
    }
}

/// What a user is shown of a list of findings.
pub open spec fn shown(found: Seq<DiagnosticView>) -> Seq<Seq<char>> {
    once_each(messages_of(found))
}

/// [`once_each`] holds a message exactly if the list holds it.
pub proof fn lemma_once_each_contains(messages: Seq<Seq<char>>, m: Seq<char>)
    ensures
        once_each(messages).contains(m) <==> messages.contains(m),
    decreases messages.len(),
{
    if messages.len() > 0 {
        let front_all = messages.drop_last();
        let front = once_each(front_all);
        let last = messages.last();
        lemma_once_each_contains(front_all, m);
        lemma_once_each_contains(front_all, last);
        let r = once_each(messages);
        if messages.contains(m) {
            let i = choose|i: int| 0 <= i < messages.len() && messages[i] == m;
            if i < front_all.len() {
                assert(front_all[i] == m);
                assert(front_all.contains(m));
                let k = choose|k: int| 0 <= k < front.len() && front[k] == m;
                assert(r[k] == m);
            } else if !front.contains(last) {
                assert(r[front.len() as int] == m);
            }
        }
        if r.contains(m) {
            let k = choose|k: int| 0 <= k < r.len() && r[k] == m;
            if k < front.len() {
                assert(front[k] == m);
                assert(front.contains(m));
                let i = choose|i: int| 0 <= i < front_all.len() && front_all[i] == m;
                assert(messages[i] == m);
            } else {
                assert(messages[messages.len() - 1] == m);
            }
        }
    }
}

/// [`once_each`] holds no message twice.
pub proof fn lemma_once_each_distinct(messages: Seq<Seq<char>>)
    ensures
        once_each(messages).no_duplicates(),
    decreases messages.len(),
{
    if messages.len() > 0 {
        lemma_once_each_distinct(messages.drop_last());
    }
}

/// The message for one finding, if it is one that a user is shown.
pub fn diagnostic_message(d: &Diagnostic) -> (r: Option<String>)
    ensures
        text_view(r) == message_of(d@),
{
    match d {
        Diagnostic::JsonSchema { summary, path } => {
            if contains_text(summary.as_str(), "\"items\" is a required property") {
                Some(
                    "JsonSchemaError: \"array\" properties must specify \"byteArray\": true. In the dynamic form, just change the property from an array to a string and back to an array again, and resubmit.".to_owned(),
                )
            } else {
                let mut m = "JsonSchemaError: ".to_owned();
                m.append(summary.as_str());
                m.append(", Path: ");
                m.append(path.as_str());
                Some(m)
            }
        },
        Diagnostic::Basic(text) => Some(text.clone()),
        Diagnostic::Other => None,
    }
}

/// What a user is shown of a list of findings: the message of each basic
/// finding, once.
pub fn extract_basic_error_messages(errors: &Vec<Diagnostic>) -> (r: Vec<String>)
    ensures
        texts_view(r@) == shown(diagnostics_view(errors@)),
        texts_view(r@).no_duplicates(),
{
    let ghost found = diagnostics_view(errors@);
    let mut out: Vec<String> = Vec::new();
    let mut i: usize = 0;
    proof {
        assert(found.take(0) =~= Seq::empty());
        assert(texts_view(out@) =~= Seq::empty());
    }
    while i < errors.len()
        invariant
            i <= errors.len(),
            found == diagnostics_view(errors@),
            texts_view(out@) == once_each(messages_of(found.take(i as int))),
        decreases errors.len() - i,
    {
        proof {
            assert(found.take(i + 1).drop_last() =~= found.take(i as int));
            assert(found.take(i + 1).last() == errors[i as int]@);
        }
        match diagnostic_message(&errors[i]) {
            Some(m) => {
                proof {
                    let all = messages_of(found.take(i as int)).push(m@);
                    assert(all.drop_last() =~= messages_of(found.take(i as int)));
                }
                if !has_name(&out, m.as_str()) {
                    let ghost before = texts_view(out@);
                    let ghost mv = m@;
                    out.push(m);
                    assert(texts_view(out@) =~= before.push(mv));
                }
            },
            None => {},
        }
        i = i + 1;
    }
    proof {
        assert(found.take(i as int) =~= found);
        lemma_once_each_distinct(messages_of(found));
    }
    out
}

/// `s` begins with `prefix`.
pub open spec fn begins_with(s: Seq<char>, prefix: Seq<char>) -> bool {
    prefix.len() <= s.len() && s.subrange(0, prefix.len() as int) == prefix
}

/// The advice begins as a message on the schema does and names the byte
/// array; it holds neither the words of the finding that it stands for nor
/// the mark of a path.
pub proof fn lemma_advice_words()
    ensures
        begins_with(byte_array_advice(), "JsonSchemaError: \"array\" properties must specify"@),
        occurs_in("byteArray"@, byte_array_advice()),
        !occurs_in(items_missing(), byte_array_advice()),
        !occurs_in(", Path: "@, byte_array_advice()),
{
    let a = byte_array_advice();
    reveal_strlit("JsonSchemaError: \"array\" properties must specify \"byteArray\": true. In the dynamic form, just change the property from an array to a string and back to an array again, and resubmit.");
    reveal_strlit("JsonSchemaError: \"array\" properties must specify");
    reveal_strlit("\"items\" is a required property");
    reveal_strlit(", Path: ");
    reveal_strlit("byteArray");
    let p = "JsonSchemaError: \"array\" properties must specify"@;
    assert(a.subrange(0, p.len() as int) =~= p);
    assert(a.subrange(50, 59) =~= "byteArray"@);
    assert(occurs_at("byteArray"@, a, 50));
    assert forall|i: int| !occurs_at(items_missing(), a, i) by {
        if occurs_at(items_missing(), a, i) {
            let w = a.subrange(i, i + items_missing().len());
            assert(w[0] == a[i] && w[1] == a[i + 1]);
            assert(a[i] == '"' && a[i + 1] == 'i');
        }
    }
    assert forall|i: int| !occurs_at(", Path: "@, a, i) by {
        if occurs_at(", Path: "@, a, i) {
            let w = a.subrange(i, i + 8);
            assert(w[0] == a[i] && w[2] == a[i + 2]);
            assert(a[i] == ',' && a[i + 2] == 'P');
        }
    }
}

} // verus!
