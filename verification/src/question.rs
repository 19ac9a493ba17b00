//! Question records and their validated identifiers.

use vstd::prelude::*;

verus! {

/// The error returned when an identifier fails validation.
#[derive(Clone, Copy, Debug, PartialEq, Eq, Structural)]
pub struct InvalidInput;

impl InvalidInput {
    /// The human-readable description of the validation failure.
    pub fn message(&self) -> (m: String)
        ensures
            m@ == "QuestionId cannot be empty"@,
    {
        "QuestionId cannot be empty".to_owned()
    }
}

/// A validated question identifier.  Its invariant: the wrapped string
/// is never empty.
#[derive(Debug)]
pub struct QuestionId {
    id: String,
}

impl View for QuestionId {
    type V = Seq<char>;

    closed spec fn view(&self) -> Seq<char> {
        self.id@
    }
}

impl DeepView for QuestionId {
    type V = Seq<char>;

    open spec fn deep_view(&self) -> Seq<char> {
        self.view()
    }
}

impl QuestionId {
    /// A well-formed identifier is non-empty.
    pub open spec fn wf(&self) -> bool {
        self@.len() > 0
    }

    /// Validating constructor: accepts exactly the non-empty strings,
    /// with no further normalization.
    pub fn from_str(id: &str) -> (r: Result<QuestionId, InvalidInput>)
        ensures
            r is Ok <==> id@.len() > 0,
            r matches Ok(q) ==> q@ == id@ && q.wf(),
    {
        if id.is_empty() {
            Err(InvalidInput)
        } else {
            Ok(QuestionId { id: id.to_owned() })
        }
    }

    /// Read access to the wrapped string.
    pub fn as_str(&self) -> (r: &str)
        ensures
            r@ == self@,
    {
        self.id.as_str()
    }
}

impl Clone for QuestionId {
    fn clone(&self) -> (r: QuestionId)
        ensures
            r == *self,
    {
        QuestionId { id: self.id.clone() }
    }
}

impl PartialEq for QuestionId {
    fn eq(&self, other: &QuestionId) -> (r: bool) {
        self.id == other.id
    }
}

impl vstd::std_specs::cmp::PartialEqSpecImpl for QuestionId {
    open spec fn obeys_eq_spec() -> bool {
        true
    }

    open spec fn eq_spec(&self, other: &QuestionId) -> bool {
        self@ == other@
    }
}

/// The mathematical value of a question record: every field as a plain
/// sequence value.
pub struct QuestionView {
    pub id: Seq<char>,
    pub title: Seq<char>,
    pub content: Seq<char>,
    pub tags: Option<Seq<Seq<char>>>,
}

/// A question record.  `tags` may be absent, which is distinct from an
/// empty tag list.
#[derive(Debug)]
pub struct Question {
    pub id: QuestionId,
    pub title: String,
    pub content: String,
    pub tags: Option<Vec<String>>,
}

impl View for Question {
    type V = QuestionView;

    open spec fn view(&self) -> QuestionView {
        QuestionView {
            id: self.id@,
            title: self.title@,
            content: self.content@,
            tags: self.tags.deep_view(),
        }
    }
}

impl DeepView for Question {
    type V = QuestionView;

    open spec fn deep_view(&self) -> QuestionView {
        self.view()
    }
}

impl Question {
    /// A well-formed record has a well-formed identifier.
    pub open spec fn wf(&self) -> bool {
        self.id.wf()
    }

    /// Builds a record from its parts.
    pub fn new(id: QuestionId, title: String, content: String, tags: Option<Vec<String>>) -> (q:
        Question)
        ensures
            q@.id == id@,
            q@.title == title@,
            q@.content == content@,
            q.tags == tags,
            q.wf() <==> id.wf(),
    {
        Question { id, title, content, tags }
    }
}

impl Clone for Question {
    fn clone(&self) -> (r: Question)
        ensures
            r@ == self@,
    {
        Question {
            id: self.id.clone(),
            title: self.title.clone(),
            content: self.content.clone(),
            tags: match &self.tags {
                Option::None => Option::None,
                Option::Some(ts) => Option::Some(clone_strings(ts)),
            },
        }
    }
}

/// Clones a vector of strings element by element, keeping its value.
fn clone_strings(ts: &Vec<String>) -> (r: Vec<String>)
    ensures
        r.deep_view() == ts.deep_view(),
{
    let mut out: Vec<String> = Vec::new();
    let mut i: usize = 0;
    while i < ts.len()
        invariant
            i <= ts.len(),
            out@.len() == i,
            out.deep_view() =~= ts.deep_view().subrange(0, i as int),
        decreases ts.len() - i,
    {
        let c = ts[i].clone();
        out.push(c);
        i = i + 1;
        proof {
            assert(out@.len() == i);
            assert(out@[i - 1] == ts@[i - 1]);
            assert(out.deep_view() =~= ts.deep_view().subrange(0, i as int));
        }
    }
    proof {
        assert(out.deep_view() =~= ts.deep_view());
    }
    out
}

} // verus!
