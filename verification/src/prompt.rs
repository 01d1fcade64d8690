//! Prompts for a language model that drafts contracts, and what is made of
//! its replies.

use crate::codec::{parse, parsed_json};
use crate::json::{json_view, Json, JsonValue};
use crate::model::text_view;
use crate::text::{
    chars_of, decimal, decimal_text, first_index, first_index_of, last_index, last_index_of,
    lemma_first_index, lemma_last_index,
};
use vstd::prelude::*;
use vstd::string::{StrSliceExecFns, StringExecFns};

verus! {

/// What stands before the description of a project in the prompt for a first
/// draft.
pub const FIRST_PROMPT_PRE: &'static str = r#"
I'm going to ask you to generate a Dash Platform data contract after giving you some context and rules. 

*Background info*: 
Dash Platform is a blockchain for decentralized applications that are backed by data contracts. 
Data contracts are JSON schemas that are meant to define the structures of data an application can store. 
They must define at least one document type, where a document type defines a type of document that can be submitted to a data contract.

*Example*: 
Here is an example of a data contract with one document type, "nft":

{"nft":{"type":"object","properties":{"name":{"type":"string","description":"Name of the NFT token","maxLength":63},"description":{"type":"string","description":"Description of the NFT token","maxLength":256},"imageUrl":{"type":"string","description":"URL of the image associated with the NFT token","maxLength":2048,"format":"uri"},"imageHash":{"type":"array","description":"SHA256 hash of the bytes of the image specified by tokenImageUrl","byteArray":true,"minItems":32,"maxItems":32},"imageFingerprint":{"type":"array","description":"dHash the image specified by tokenImageUrl","byteArray":true,"minItems":8,"maxItems":8},"price":{"type":"number","description":"Price of the NFT token in Dash","minimum":0},"quantity":{"type":"integer","description":"Number of tokens in circulation","minimum":0},"metadata":{"type":"array","description":"Any additional metadata associated with the NFT token","byteArray":true,"minItems":0,"maxItems":2048}},"indices":[{"name":"price","properties":[{"price":"asc"}]},{"name":"quantity","properties":[{"quantity":"asc"}]},{"name":"priceAndQuantity","properties":[{"price":"asc"},{"quantity":"asc"}]}],"required":["name","price","quantity"],"additionalProperties":false}}

While this example data contract only has one document type, data contracts should usually have more than one. For example, the example "nft" data contract could also have document types for "listing" and "transaction". Maybe the developer also wants to have user profiles, so they could include a "userProfile" document type.

*Requirements*: 
The following requirements must be met in Dash Platform data contracts: 
 - Indexes may only have "asc" sort order. 
 - All "string" properties that are used in indexes must specify "maxLength", which must be no more than 63. 
 - All "array" properties that are used in indexes must specify "maxItems", and it must be less than or equal to 255. 
 - All "array" properties must specify `"byteArray": true`. 
 - All "object" properties must define at least 1 property within themselves. 

*App description*: 
Now I will give you a user prompt that describes the application that you will generate a data contract for.

When creating the data contract, please:
 - Include descriptions for every document type and property. Be creative, extensive, and utilize multiple document types if possible. 
 - Include indexes for any properties that it makes sense for a useful app to index. More is better. 
 - Do not explain anything or return anything else other than a properly formatted data contract JSON schema. 
 - Double check that all requirements and requests above are met. Again, all "array" properties must specify `"byteArray": true`. 

App description: 

"#;

/// What stands before the current contract in the prompt for a change.
pub const SECOND_PROMPT_PRE: &'static str = r#"
I'm going to ask you to make some changes to a Dash Platform data contract after giving you some context and rules. 

*Requirements*:
The following requirements must be met in Dash Platform data contracts: 
 - Indexes may only have "asc" sort order. 
 - All "array" properties must specify "byteArray": true. 
 - All "string" properties that are used in indexes must specify "maxLength", which must be no more than 63. 
 - All "array" properties that are used in indexes must specify "maxItems", and it must be less than or equal to 255. 
 - All "object" properties must define at least 1 property within themselves. 

*Changes to be made*: 
Make the following change(s) to this Dash Platform data contract JSON schema, along with any other changes that are necessary to make it valid according to the rules above. 
Note that the highest-level keys in the data contract are called "document types".
Do not explain anything or return anything else other than a properly formatted JSON schema:

"#;

/// The model that is asked.
pub const LLM_MODEL: &'static str = "gpt-3.5-turbo-16k";

/// The most tokens that a reply may have.
pub const LLM_MAX_TOKENS: u32 = 8000;

/// The prompt for `user_text`: a first draft is asked for where there is no
/// contract yet, a change of the contract `schema` otherwise.
pub open spec fn composed(schema: Seq<char>, user_text: Seq<char>) -> Seq<char> {
    if schema.len() == 0 {
        FIRST_PROMPT_PRE@ + user_text
    } else {
        SECOND_PROMPT_PRE@ + schema + "\n\n"@ + user_text
    }
}

/// Composes the prompt for `user_text`, given the text of the current
/// contract.
pub fn compose_prompt(schema: &str, user_text: &str) -> (r: String)
    ensures
        r@ == composed(schema@, user_text@),
{
    if schema.is_empty() {
        let mut p = FIRST_PROMPT_PRE.to_owned();
        p.append(user_text);
        p
    } else {
        let mut p = SECOND_PROMPT_PRE.to_owned();
        p.append(schema);
        p.append("\n\n");
        p.append(user_text);
        p
    }
}

/// Why no contract came of a request to the language model.
#[derive(Clone, Debug, PartialEq, Eq)]
pub enum LlmError {
    /// The request did not get through, or its reply could not be read.
    Transport(String),
    /// The service answered with an error.
    Http { status: u16, message: String },
    /// The reply holds no `{` that a `}` follows.
    NoJson,
    /// What stands between the first `{` and the last `}` is not JSON.
    InvalidJson,
}

/// What an [`LlmError`] stands for.
pub enum LlmErrorView {
    Transport(Seq<char>),
    Http { status: u16, message: Seq<char> },
    NoJson,
    InvalidJson,
}

impl View for LlmError {
    type V = LlmErrorView;

    open spec fn view(&self) -> LlmErrorView {
        match self {
            LlmError::Transport(text) => LlmErrorView::Transport(text@),
            LlmError::Http { status, message } => LlmErrorView::Http {
                status: *status,
                message: message@,
            },
            LlmError::NoJson => LlmErrorView::NoJson,
            LlmError::InvalidJson => LlmErrorView::InvalidJson,
        }
    }
}

/// What a user is told of an error.
pub open spec fn error_text(e: LlmErrorView) -> Seq<char> {
    match e {
        LlmErrorView::Transport(text) => text,
        LlmErrorView::Http { status, message } => "HTTP "@ + decimal(status as nat)
            + " error from OpenAI: "@ + message,
        LlmErrorView::NoJson => "No valid JSON found in the returned text."@,
        LlmErrorView::InvalidJson => "Extracted text is not valid JSON."@,
    }
}

impl LlmError {
    /// What a user is told of this error.
    pub fn message(&self) -> (r: String)
        ensures
            r@ == error_text(self@),
    {
        match self {
            LlmError::Transport(text) => text.clone(),
            LlmError::Http { status, message } => {
                let mut m = "HTTP ".to_owned();
                let code = decimal_text(*status as u64);
                m.append(code.as_str());
                m.append(" error from OpenAI: ");
                m.append(message.as_str());
                m
            },
            LlmError::NoJson => "No valid JSON found in the returned text.".to_owned(),
            LlmError::InvalidJson => "Extracted text is not valid JSON.".to_owned(),
        }
    }
}

/// The part of a reply from its first `{` to its last `}`, if the one stands
/// before the other.
pub open spec fn braced(content: Seq<char>) -> Option<Seq<char>> {
    let from = first_index(content, '{');
    let to = last_index(content, '}');
    if 0 <= from < to {
        Some(content.subrange(from, to + 1))
    } else {
        None
    }
}

/// The contract that a reply holds: its braced part, if that is JSON.
pub open spec fn extracted(content: Seq<char>) -> Result<Seq<char>, LlmErrorView> {
    match braced(content) {
        Some(text) => if parsed_json(text) is Some {
            Ok(text)
        } else {
            Err(LlmErrorView::InvalidJson)
        },
        None => Err(LlmErrorView::NoJson),
    }
}

/// What a [`Result`] of a request stands for.
pub open spec fn outcome_view(r: Result<String, LlmError>) -> Result<Seq<char>, LlmErrorView> {
    match r {
        Ok(text) => Ok(text@),
        Err(e) => Err(e@),
    }
}

/// The part of a reply from its first `{` to its last `}`, if the one stands
/// before the other.
pub fn braced_part(content: &str) -> (r: Option<String>)
    ensures
        text_view(r) == braced(content@),
{
    let chars = chars_of(content);
    proof {
        lemma_first_index(content@, '{');
        lemma_last_index(content@, '}');
    }
    match first_index_of(&chars, '{') {
        Some(from) => match last_index_of(&chars, '}') {
            Some(to) => {
                if from < to {
                    assert(to < chars.len()) by {
                        lemma_last_index(chars@, '}');
                    }
                    Some(content.substring_char(from, to + 1).to_owned())
                } else {
                    None
                }
            },
            None => None,
        },
        None => None,
    }
}

/// Takes the contract out of what the language model wrote.
pub fn extract_schema(content: &str) -> (r: Result<String, LlmError>)
    ensures
        outcome_view(r) == extracted(content@),
{
    match braced_part(content) {
        Some(text) => match parse(text.as_str()) {
            Some(_) => Ok(text),
            None => Err(LlmError::InvalidJson),
        },
        None => Err(LlmError::NoJson),
    }
}

/// The member under `key` of a document that may be absent.
pub open spec fn member_at(j: Option<JsonValue>, key: Seq<char>) -> Option<JsonValue> {
    match j {
        Some(j) => j.get(key),
        None => None,
    }
}

/// The item at `index` of a document that may be absent.
pub open spec fn item_at(j: Option<JsonValue>, index: int) -> Option<JsonValue> {
    match j {
        Some(j) => j.item(index),
        None => None,
    }
}

/// The text under `key` of a document that may be absent.
pub open spec fn text_at(j: Option<JsonValue>, key: Seq<char>) -> Option<Seq<char>> {
    match member_at(j, key) {
        Some(v) => v.as_text(),
        None => None,
    }
}

/// What the language model wrote, as a reply holds it: the text under
/// `choices[0].message.content`, and nothing where there is none.
pub open spec fn content_in(reply: Option<JsonValue>) -> Seq<char> {
    let message = member_at(item_at(member_at(reply, "choices"@), 0), "message"@);
    match text_at(message, "content"@) {
        Some(text) => text,
        None => Seq::empty(),
    }
}

/// What the service says went wrong, as a reply holds it: the text under
/// `error.message`, if there is one.
pub open spec fn error_in(reply: Option<JsonValue>) -> Option<Seq<char>> {
    text_at(member_at(reply, "error"@), "message"@)
}

/// What comes of a reply: the contract in it where the service answered with
/// success; else the error that it reports, told with the whole body where
/// the body is no JSON or holds no message.
pub open spec fn interpreted(ok: bool, status: u16, body: Seq<char>) -> Result<
    Seq<char>,
    LlmErrorView,
> {
    if ok {
        extracted(content_in(parsed_json(body)))
    } else {
        Err(
            LlmErrorView::Http {
                status,
                message: match error_in(parsed_json(body)) {
                    Some(text) => text,
                    None => body,
                },
            },
        )
    }
}

fn get_member<'a>(j: Option<&'a Json>, key: &str) -> (r: Option<&'a Json>)
    ensures
        json_view(r) == member_at(json_view(j), key@),
{
    match j {
        Some(j) => j.get(key),
        None => None,
    }
}

fn get_item<'a>(j: Option<&'a Json>, index: usize) -> (r: Option<&'a Json>)
    ensures
        json_view(r) == item_at(json_view(j), index as int),
{
    match j {
        Some(j) => j.item(index),
        None => None,
    }
}

fn get_text(j: Option<&Json>, key: &str) -> (r: Option<String>)
    ensures
        text_view(r) == text_at(json_view(j), key@),
{
    match get_member(j, key) {
        Some(v) => match v.as_text() {
            Some(s) => Some(s.clone()),
            None => None,
        },
        None => None,
    }
}

/// What the language model wrote, as a reply holds it.
pub fn reply_content(reply: Option<&Json>) -> (r: String)
    ensures
        r@ == content_in(json_view(reply)),
{
    let message = get_member(get_item(get_member(reply, "choices"), 0), "message");
    match get_text(message, "content") {
        Some(content) => content,
        None => String::new(),
    }
}

/// What the service says went wrong, as a reply holds it.
pub fn reply_error(reply: Option<&Json>) -> (r: Option<String>)
    ensures
        text_view(r) == error_in(json_view(reply)),
{
    get_text(get_member(reply, "error"), "message")
}

/// Makes a contract, or an error, of the reply to a request: `ok` says whether
/// the service answered with success, `status` is its status code and `body`
/// what it sent.
pub fn interpret_response(ok: bool, status: u16, body: &str) -> (r: Result<String, LlmError>)
    ensures
        outcome_view(r) == interpreted(ok, status, body@),
{
    let parsed = parse(body);
    let reply = parsed.as_ref();
    assert(json_view(reply) == parsed_json(body@));
    if ok {
        let content = reply_content(reply);
        extract_schema(content.as_str())
    } else {
        let message = match reply_error(reply) {
            Some(text) => text,
            None => body.to_owned(),
        };
        Err(LlmError::Http { status, message })
    }
}

} // verus!
