//! Tool descriptors and the errors of a tool call.
use vstd::prelude::*;
use crate::json::{Json, JsonV, copy_json, json_equal};
use crate::text::{views, owned, push_text, same_text};

verus! {

/// A tool as a provider describes it.
pub struct Tool {
    /// Dotted name: `namespace.leaf`, or a bare leaf.
    pub name: String,
    pub description: String,
    pub tags: Vec<String>,
    /// JSON schema of the argument object.
    pub inputs: Json,
    /// JSON schema of the result.
    pub outputs: Json,
    pub is_async: bool,
}

/// The mathematical form of a tool descriptor.
pub struct ToolV {
    pub name: Seq<char>,
    pub description: Seq<char>,
    pub tags: Seq<Seq<char>>,
    pub inputs: JsonV,
    pub outputs: JsonV,
    pub is_async: bool,
}

impl Tool {
    pub open spec fn view(&self) -> ToolV {
        ToolV {
            name: self.name@,
            description: self.description@,
            tags: views(self.tags@),
            inputs: self.inputs@,
            outputs: self.outputs@,
            is_async: self.is_async,
        }
    }

    /// A deep copy of the descriptor.
    pub fn copy(&self) -> (r: Tool)
        ensures
            r@ == self@,
    {
        let mut tags: Vec<String> = Vec::new();
        let mut i: usize = 0;
        while i < self.tags.len()
            invariant
                i <= self.tags@.len(),
                tags@.len() == i,
                forall|k: int| 0 <= k < i ==> #[trigger] tags@[k]@ == self.tags@[k]@,
            decreases self.tags@.len() - i,
        {
            tags.push(self.tags[i].clone());
            i = i + 1;
        }
        assert(views(tags@) =~= views(self.tags@));
        Tool {
            name: self.name.clone(),
            description: self.description.clone(),
            tags,
            inputs: copy_json(&self.inputs),
            outputs: copy_json(&self.outputs),
            is_async: self.is_async,
        }
    }
}

/// Whether `a` and `b` hold the same texts.
fn same_texts(a: &Vec<String>, b: &Vec<String>) -> (r: bool)
    ensures
        r == (views(a@) == views(b@)),
{
    if a.len() != b.len() {
        assert(views(a@).len() != views(b@).len());
        return false;
    }
    let mut i: usize = 0;
    while i < a.len()
        invariant
            i <= a@.len(),
            a@.len() == b@.len(),
            forall|k: int| 0 <= k < i ==> #[trigger] a@[k]@ == b@[k]@,
        decreases a@.len() - i,
    {
        if !same_text(a[i].as_str(), b[i].as_str()) {
            assert(views(a@)[i as int] != views(b@)[i as int]);
            return false;
        }
        i = i + 1;
    }
    assert(views(a@) =~= views(b@));
    true
}

impl Tool {
    /// Whether `self` and `other` are the same descriptor.
    pub fn same_as(&self, other: &Tool) -> (r: bool)
        ensures
            r == (self@ == other@),
    {
        same_text(self.name.as_str(), other.name.as_str()) && same_text(
            self.description.as_str(),
            other.description.as_str(),
        ) && same_texts(&self.tags, &other.tags) && json_equal(&self.inputs, &other.inputs)
            && json_equal(&self.outputs, &other.outputs) && self.is_async == other.is_async
    }
}

/// The failure of a tool call, with the provider's message.
pub enum ToolCallError {
    Message(String),
}

impl ToolCallError {
    /// The error as text: `tool call failed: ` and the message.
    pub fn to_string(&self) -> (r: String)
        ensures
            r@ == "tool call failed: "@ + self->Message_0@,
    {
        match self {
            ToolCallError::Message(m) => {
                let mut r = owned("tool call failed: ");
                push_text(&mut r, m.as_str());
                r
            },
        }
    }
}

} // verus!
