//! Payloads of the cloud-hosted generative-content API.
use vstd::prelude::*;

use crate::json::{
    json_error_text, json_parse, parse_json,
    decode_all, field_error_message, get_member, json_view, lemma_decode_all_prefix_fails,
    opt_list_spec, opt_obj_spec, opt_str, opt_str_spec, opt_str_view, present_member,
    req_i32, req_int_spec, req_list_spec, req_obj_spec, req_str, req_str_spec, field,
    JsonValue,
};
use crate::stream::RecordSchema;

verus! {

pub struct InlineDataModel {
    pub mime_type: Seq<char>,
    pub data: Seq<char>,
}

pub struct PartModel {
    pub text: Option<Seq<char>>,
    pub inline_data: Option<InlineDataModel>,
}

pub struct ContentModel {
    pub role: Seq<char>,
    pub parts: Seq<PartModel>,
}

pub struct SafetyRatingModel {
    pub category: Seq<char>,
    pub probability: Seq<char>,
}

pub struct CandidateModel {
    pub content: ContentModel,
    pub finish_reason: Option<Seq<char>>,
    pub index: int,
    pub safety_ratings: Option<Seq<SafetyRatingModel>>,
}

pub struct PromptFeedbackModel {
    pub safety_ratings: Seq<SafetyRatingModel>,
}

pub struct UsageMetadataModel {
    pub prompt_token_count: int,
    pub candidates_token_count: int,
    pub total_token_count: int,
}

/// A generated response, whole or one increment of a stream, as a model.
pub struct ContentResponseModel {
    pub candidates: Seq<CandidateModel>,
    pub prompt_feedback: Option<PromptFeedbackModel>,
    pub usage_metadata: Option<UsageMetadataModel>,
}

/// Content structure for the API
#[derive(Debug)]
pub struct Content {
    /// The role of the content (user, model, etc.)
    pub role: String,
    /// The parts of the content
    pub parts: Vec<Part>,
}

/// Part of content (text, image, etc.)
#[derive(Debug)]
pub struct Part {
    /// The text content
    pub text: Option<String>,
    /// Inline data (for images, etc.)
    pub inline_data: Option<InlineData>,
}

/// Inline data for parts (images, etc.)
#[derive(Debug)]
pub struct InlineData {
    /// MIME type of the data
    pub mime_type: String,
    /// The actual data
    pub data: String,
}

/// Safety setting for content generation
#[derive(Debug)]
pub struct SafetySetting {
    /// The category of safety setting
    pub category: String,
    /// The threshold for the safety setting
    pub threshold: String,
}

/// Candidate response
#[derive(Debug)]
pub struct Candidate {
    /// The content of the candidate
    pub content: Content,
    /// The finish reason
    pub finish_reason: Option<String>,
    /// The index of the candidate
    pub index: i32,
    /// Safety ratings
    pub safety_ratings: Option<Vec<SafetyRating>>,
}

/// Safety rating for content
#[derive(Debug)]
pub struct SafetyRating {
    /// The category of safety
    pub category: String,
    /// The probability of the safety rating
    pub probability: String,
}

/// Prompt feedback
#[derive(Debug)]
pub struct PromptFeedback {
    /// Safety ratings for the prompt
    pub safety_ratings: Vec<SafetyRating>,
}

/// Usage metadata
#[derive(Debug)]
pub struct UsageMetadata {
    /// Prompt token count
    pub prompt_token_count: i32,
    /// Candidates token count
    pub candidates_token_count: i32,
    /// Total token count
    pub total_token_count: i32,
}

/// Response structure for generated content
#[derive(Debug)]
pub struct GenerateContentResponse {
    /// The candidates generated
    pub candidates: Vec<Candidate>,
    /// Prompt feedback
    pub prompt_feedback: Option<PromptFeedback>,
    /// Usage metadata
    pub usage_metadata: Option<UsageMetadata>,
}

/// Stream response structure
#[derive(Debug)]
pub struct StreamGenerateContentResponse {
    /// The candidates generated
    pub candidates: Vec<Candidate>,
    /// Prompt feedback
    pub prompt_feedback: Option<PromptFeedback>,
    /// Usage metadata
    pub usage_metadata: Option<UsageMetadata>,
}

impl View for InlineData {
    type V = InlineDataModel;

    open spec fn view(&self) -> InlineDataModel {
        InlineDataModel { mime_type: self.mime_type@, data: self.data@ }
    }
}

pub open spec fn opt_inline_view(o: Option<InlineData>) -> Option<InlineDataModel> {
    match o {
        Some(d) => Some(d@),
        None => None,
    }
}

impl View for Part {
    type V = PartModel;

    open spec fn view(&self) -> PartModel {
        PartModel { text: opt_str_view(self.text), inline_data: opt_inline_view(self.inline_data) }
    }
}

pub open spec fn parts_view(v: Seq<Part>) -> Seq<PartModel> {
    v.map_values(|p: Part| p@)
}

impl View for Content {
    type V = ContentModel;

    open spec fn view(&self) -> ContentModel {
        ContentModel { role: self.role@, parts: parts_view(self.parts@) }
    }
}

impl View for SafetyRating {
    type V = SafetyRatingModel;

    open spec fn view(&self) -> SafetyRatingModel {
        SafetyRatingModel { category: self.category@, probability: self.probability@ }
    }
}

pub open spec fn ratings_view(v: Seq<SafetyRating>) -> Seq<SafetyRatingModel> {
    v.map_values(|r: SafetyRating| r@)
}

pub open spec fn opt_ratings_view(o: Option<Vec<SafetyRating>>) -> Option<Seq<SafetyRatingModel>> {
    match o {
        Some(v) => Some(ratings_view(v@)),
        None => None,
    }
}

impl View for Candidate {
    type V = CandidateModel;

    open spec fn view(&self) -> CandidateModel {
        CandidateModel {
            content: self.content@,
            finish_reason: opt_str_view(self.finish_reason),
            index: self.index as int,
            safety_ratings: opt_ratings_view(self.safety_ratings),
        }
    }
}

pub open spec fn candidates_view(v: Seq<Candidate>) -> Seq<CandidateModel> {
    v.map_values(|c: Candidate| c@)
}

impl View for PromptFeedback {
    type V = PromptFeedbackModel;

    open spec fn view(&self) -> PromptFeedbackModel {
        PromptFeedbackModel { safety_ratings: ratings_view(self.safety_ratings@) }
    }
}

impl View for UsageMetadata {
    type V = UsageMetadataModel;

    open spec fn view(&self) -> UsageMetadataModel {
        UsageMetadataModel {
            prompt_token_count: self.prompt_token_count as int,
            candidates_token_count: self.candidates_token_count as int,
            total_token_count: self.total_token_count as int,
        }
    }
}

pub open spec fn opt_feedback_view(o: Option<PromptFeedback>) -> Option<PromptFeedbackModel> {
    match o {
        Some(p) => Some(p@),
        None => None,
    }
}

pub open spec fn opt_usage_view(o: Option<UsageMetadata>) -> Option<UsageMetadataModel> {
    match o {
        Some(u) => Some(u@),
        None => None,
    }
}

impl View for GenerateContentResponse {
    type V = ContentResponseModel;

    open spec fn view(&self) -> ContentResponseModel {
        ContentResponseModel {
            candidates: candidates_view(self.candidates@),
            prompt_feedback: opt_feedback_view(self.prompt_feedback),
            usage_metadata: opt_usage_view(self.usage_metadata),
        }
    }
}

impl View for StreamGenerateContentResponse {
    type V = ContentResponseModel;

    open spec fn view(&self) -> ContentResponseModel {
        ContentResponseModel {
            candidates: candidates_view(self.candidates@),
            prompt_feedback: opt_feedback_view(self.prompt_feedback),
            usage_metadata: opt_usage_view(self.usage_metadata),
        }
    }
}

// Decoding, member by member; the first bad member, in field order, is reported.
pub open spec fn i32_range(j: JsonValue, k: Seq<char>) -> Result<int, Seq<char>> {
    req_int_spec(j, k, i32::MIN as int, i32::MAX as int)
}

pub open spec fn inline_data_of(j: JsonValue) -> Result<InlineDataModel, Seq<char>> {
    let mime_type = req_str_spec(j, "mime_type"@);
    let data = req_str_spec(j, "data"@);
    if mime_type is Err {
        Err(mime_type->Err_0)
    } else if data is Err {
        Err(data->Err_0)
    } else {
        Ok(InlineDataModel { mime_type: mime_type->Ok_0, data: data->Ok_0 })
    }
}

pub open spec fn inline_data_fn() -> spec_fn(JsonValue) -> Result<InlineDataModel, Seq<char>> {
    |x: JsonValue| inline_data_of(x)
}

pub open spec fn part_of(j: JsonValue) -> Result<PartModel, Seq<char>> {
    let text = opt_str_spec(j, "text"@);
    let inline_data = opt_obj_spec(j, "inline_data"@, inline_data_fn());
    if text is Err {
        Err(text->Err_0)
    } else if inline_data is Err {
        Err(inline_data->Err_0)
    } else {
        Ok(PartModel { text: text->Ok_0, inline_data: inline_data->Ok_0 })
    }
}

pub open spec fn part_fn() -> spec_fn(JsonValue) -> Result<PartModel, Seq<char>> {
    |x: JsonValue| part_of(x)
}

pub open spec fn content_of(j: JsonValue) -> Result<ContentModel, Seq<char>> {
    let role = req_str_spec(j, "role"@);
    let parts = req_list_spec(j, "parts"@, part_fn());
    if role is Err {
        Err(role->Err_0)
    } else if parts is Err {
        Err(parts->Err_0)
    } else {
        Ok(ContentModel { role: role->Ok_0, parts: parts->Ok_0 })
    }
}

pub open spec fn content_fn() -> spec_fn(JsonValue) -> Result<ContentModel, Seq<char>> {
    |x: JsonValue| content_of(x)
}

pub open spec fn safety_rating_of(j: JsonValue) -> Result<SafetyRatingModel, Seq<char>> {
    let category = req_str_spec(j, "category"@);
    let probability = req_str_spec(j, "probability"@);
    if category is Err {
        Err(category->Err_0)
    } else if probability is Err {
        Err(probability->Err_0)
    } else {
        Ok(SafetyRatingModel { category: category->Ok_0, probability: probability->Ok_0 })
    }
}

pub open spec fn safety_rating_fn() -> spec_fn(JsonValue) -> Result<SafetyRatingModel, Seq<char>> {
    |x: JsonValue| safety_rating_of(x)
}

pub open spec fn candidate_of(j: JsonValue) -> Result<CandidateModel, Seq<char>> {
    let content = req_obj_spec(j, "content"@, content_fn());
    let finish_reason = opt_str_spec(j, "finish_reason"@);
    let index = i32_range(j, "index"@);
    let safety_ratings = opt_list_spec(j, "safety_ratings"@, safety_rating_fn());
    if content is Err {
        Err(content->Err_0)
    } else if finish_reason is Err {
        Err(finish_reason->Err_0)
    } else if index is Err {
        Err(index->Err_0)
    } else if safety_ratings is Err {
        Err(safety_ratings->Err_0)
    } else {
        Ok(
            CandidateModel {
                content: content->Ok_0,
                finish_reason: finish_reason->Ok_0,
                index: index->Ok_0,
                safety_ratings: safety_ratings->Ok_0,
            },
        )
    }
}

pub open spec fn candidate_fn() -> spec_fn(JsonValue) -> Result<CandidateModel, Seq<char>> {
    |x: JsonValue| candidate_of(x)
}

pub open spec fn prompt_feedback_of(j: JsonValue) -> Result<PromptFeedbackModel, Seq<char>> {
    match req_list_spec(j, "safety_ratings"@, safety_rating_fn()) {
        Ok(rs) => Ok(PromptFeedbackModel { safety_ratings: rs }),
        Err(e) => Err(e),
    }
}

pub open spec fn prompt_feedback_fn() -> spec_fn(JsonValue) -> Result<PromptFeedbackModel, Seq<char>> {
    |x: JsonValue| prompt_feedback_of(x)
}

pub open spec fn usage_metadata_of(j: JsonValue) -> Result<UsageMetadataModel, Seq<char>> {
    let p = i32_range(j, "prompt_token_count"@);
    let c = i32_range(j, "candidates_token_count"@);
    let t = i32_range(j, "total_token_count"@);
    if p is Err {
        Err(p->Err_0)
    } else if c is Err {
        Err(c->Err_0)
    } else if t is Err {
        Err(t->Err_0)
    } else {
        Ok(
            UsageMetadataModel {
                prompt_token_count: p->Ok_0,
                candidates_token_count: c->Ok_0,
                total_token_count: t->Ok_0,
            },
        )
    }
}

pub open spec fn usage_metadata_fn() -> spec_fn(JsonValue) -> Result<UsageMetadataModel, Seq<char>> {
    |x: JsonValue| usage_metadata_of(x)
}

/// What a JSON document decodes to as a generated response: `candidates`
/// required, `prompt_feedback` and `usage_metadata` optional.
pub open spec fn content_response_of(j: JsonValue) -> Result<ContentResponseModel, Seq<char>> {
    let candidates = req_list_spec(j, "candidates"@, candidate_fn());
    let prompt_feedback = opt_obj_spec(j, "prompt_feedback"@, prompt_feedback_fn());
    let usage_metadata = opt_obj_spec(j, "usage_metadata"@, usage_metadata_fn());
    if candidates is Err {
        Err(candidates->Err_0)
    } else if prompt_feedback is Err {
        Err(prompt_feedback->Err_0)
    } else if usage_metadata is Err {
        Err(usage_metadata->Err_0)
    } else {
        Ok(
            ContentResponseModel {
                candidates: candidates->Ok_0,
                prompt_feedback: prompt_feedback->Ok_0,
                usage_metadata: usage_metadata->Ok_0,
            },
        )
    }
}

/// The text of the first part of the first candidate, if there is one.
pub open spec fn first_text(r: ContentResponseModel) -> Option<Seq<char>> {
    if r.candidates.len() > 0 && r.candidates[0].content.parts.len() > 0 {
        r.candidates[0].content.parts[0].text
    } else {
        None
    }
}

/// Whether a response is the last of its stream: its first candidate says
/// why generation finished.
pub open spec fn response_finished(r: ContentResponseModel) -> bool {
    r.candidates.len() > 0 && r.candidates[0].finish_reason is Some
}

fn decode_inline_data(j: &serde_json::Value) -> (r: Result<InlineData, String>)
    ensures
        match r {
            Ok(v) => inline_data_of(json_view(*j)) == Ok::<InlineDataModel, Seq<char>>(v@),
            Err(m) => inline_data_of(json_view(*j)) == Err::<InlineDataModel, Seq<char>>(m@),
        },
{
    let mime_type = match req_str(j, "mime_type") {
        Ok(x) => x,
        Err(e) => {
            return Err(e);
        },
    };
    let data = match req_str(j, "data") {
        Ok(x) => x,
        Err(e) => {
            return Err(e);
        },
    };
    Ok(InlineData { mime_type, data })
}

fn decode_part(j: &serde_json::Value) -> (r: Result<Part, String>)
    ensures
        match r {
            Ok(v) => part_of(json_view(*j)) == Ok::<PartModel, Seq<char>>(v@),
            Err(m) => part_of(json_view(*j)) == Err::<PartModel, Seq<char>>(m@),
        },
{
    let text = match opt_str(j, "text") {
        Ok(x) => x,
        Err(e) => {
            return Err(e);
        },
    };
    let inline_data = match present_member(j, "inline_data") {
        Some(x) => match decode_inline_data(x) {
            Ok(d) => Some(d),
            Err(e) => {
                return Err(e);
            },
        },
        None => None,
    };
    Ok(Part { text, inline_data })
}

fn decode_parts(j: &serde_json::Value, key: &str) -> (r: Result<Vec<Part>, String>)
    ensures
        match r {
            Ok(v) => req_list_spec(json_view(*j), key@, part_fn()) == Ok::<
                Seq<PartModel>,
                Seq<char>,
            >(parts_view(v@)),
            Err(m) => req_list_spec(json_view(*j), key@, part_fn()) == Err::<
                Seq<PartModel>,
                Seq<char>,
            >(m@),
        },
{
    let x = match get_member(j, key) {
        Some(x) => x,
        None => {
            return Err(field_error_message(key));
        },
    };
    let items = match x.as_array() {
        Some(items) => items,
        None => {
            return Err(field_error_message(key));
        },
    };
    let ghost model = match json_view(*x) {
        JsonValue::Array(m) => m,
        _ => Seq::empty(),
    };
    let mut out: Vec<Part> = Vec::new();
    let mut i: usize = 0;
    assert(model.take(0) =~= Seq::<JsonValue>::empty());
    assert(parts_view(out@) =~= Seq::<PartModel>::empty());
    while i < items.len()
        invariant
            0 <= i <= items@.len(),
            field(json_view(*j), key@) == Some(JsonValue::Array(model)),
            items@.len() == model.len(),
            forall|k: int| 0 <= k < model.len() ==> json_view(#[trigger] items@[k]) == model[k],
            decode_all(model.take(i as int), part_fn()) == Ok::<Seq<PartModel>, Seq<char>>(
                parts_view(out@),
            ),
        decreases items@.len() - i,
    {
        assert(model.take(i + 1).drop_last() =~= model.take(i as int));
        assert(model.take(i + 1).last() == model[i as int]);
        assert(json_view(items@[i as int]) == model[i as int]);
        match decode_part(&items[i]) {
            Ok(p) => {
                let ghost before = out@;
                out.push(p);
                assert(parts_view(out@) =~= parts_view(before).push(p@));
            },
            Err(e) => {
                proof {
                    lemma_decode_all_prefix_fails(model, part_fn(), i as int + 1);
                }
                return Err(e);
            },
        }
        i = i + 1;
    }
    assert(model.take(model.len() as int) =~= model);
    Ok(out)
}

fn decode_content(j: &serde_json::Value) -> (r: Result<Content, String>)
    ensures
        match r {
            Ok(v) => content_of(json_view(*j)) == Ok::<ContentModel, Seq<char>>(v@),
            Err(m) => content_of(json_view(*j)) == Err::<ContentModel, Seq<char>>(m@),
        },
{
    let role = match req_str(j, "role") {
        Ok(x) => x,
        Err(e) => {
            return Err(e);
        },
    };
    let parts = match decode_parts(j, "parts") {
        Ok(x) => x,
        Err(e) => {
            return Err(e);
        },
    };
    Ok(Content { role, parts })
}

fn decode_safety_rating(j: &serde_json::Value) -> (r: Result<SafetyRating, String>)
    ensures
        match r {
            Ok(v) => safety_rating_of(json_view(*j)) == Ok::<SafetyRatingModel, Seq<char>>(v@),
            Err(m) => safety_rating_of(json_view(*j)) == Err::<SafetyRatingModel, Seq<char>>(m@),
        },
{
    let category = match req_str(j, "category") {
        Ok(x) => x,
        Err(e) => {
            return Err(e);
        },
    };
    let probability = match req_str(j, "probability") {
        Ok(x) => x,
        Err(e) => {
            return Err(e);
        },
    };
    Ok(SafetyRating { category, probability })
}

/// Reads an array of safety ratings held by `x`, the member `key` of an
/// object.
fn decode_ratings_in(x: &serde_json::Value, key: &str) -> (r: Result<Vec<SafetyRating>, String>)
    ensures
        match json_view(*x) {
            JsonValue::Array(items) => match r {
                Ok(v) => decode_all(items, safety_rating_fn()) == Ok::<
                    Seq<SafetyRatingModel>,
                    Seq<char>,
                >(ratings_view(v@)),
                Err(m) => decode_all(items, safety_rating_fn()) == Err::<
                    Seq<SafetyRatingModel>,
                    Seq<char>,
                >(m@),
            },
            _ => r == Err::<Vec<SafetyRating>, String>(r->Err_0) && r->Err_0@ == crate::json::field_error(key@),
        },
{
    let items = match x.as_array() {
        Some(items) => items,
        None => {
            return Err(field_error_message(key));
        },
    };
    let ghost model = match json_view(*x) {
        JsonValue::Array(m) => m,
        _ => Seq::empty(),
    };
    let mut out: Vec<SafetyRating> = Vec::new();
    let mut i: usize = 0;
    assert(model.take(0) =~= Seq::<JsonValue>::empty());
    assert(ratings_view(out@) =~= Seq::<SafetyRatingModel>::empty());
    while i < items.len()
        invariant
            0 <= i <= items@.len(),
            json_view(*x) == JsonValue::Array(model),
            items@.len() == model.len(),
            forall|k: int| 0 <= k < model.len() ==> json_view(#[trigger] items@[k]) == model[k],
            decode_all(model.take(i as int), safety_rating_fn()) == Ok::<
                Seq<SafetyRatingModel>,
                Seq<char>,
            >(ratings_view(out@)),
        decreases items@.len() - i,
    {
        assert(model.take(i + 1).drop_last() =~= model.take(i as int));
        assert(model.take(i + 1).last() == model[i as int]);
        assert(json_view(items@[i as int]) == model[i as int]);
        match decode_safety_rating(&items[i]) {
            Ok(p) => {
                let ghost before = out@;
                out.push(p);
                assert(ratings_view(out@) =~= ratings_view(before).push(p@));
            },
            Err(e) => {
                proof {
                    lemma_decode_all_prefix_fails(model, safety_rating_fn(), i as int + 1);
                }
                return Err(e);
            },
        }
        i = i + 1;
    }
    assert(model.take(model.len() as int) =~= model);
    Ok(out)
}

fn decode_candidate(j: &serde_json::Value) -> (r: Result<Candidate, String>)
    ensures
        match r {
            Ok(v) => candidate_of(json_view(*j)) == Ok::<CandidateModel, Seq<char>>(v@),
            Err(m) => candidate_of(json_view(*j)) == Err::<CandidateModel, Seq<char>>(m@),
        },
{
    let content = match get_member(j, "content") {
        Some(x) => match decode_content(x) {
            Ok(c) => c,
            Err(e) => {
                return Err(e);
            },
        },
        None => {
            return Err(field_error_message("content"));
        },
    };
    let finish_reason = match opt_str(j, "finish_reason") {
        Ok(x) => x,
        Err(e) => {
            return Err(e);
        },
    };
    let index = match req_i32(j, "index") {
        Ok(x) => x,
        Err(e) => {
            return Err(e);
        },
    };
    let safety_ratings = match present_member(j, "safety_ratings") {
        Some(x) => match decode_ratings_in(x, "safety_ratings") {
            Ok(rs) => Some(rs),
            Err(e) => {
                return Err(e);
            },
        },
        None => None,
    };
    Ok(Candidate { content, finish_reason, index, safety_ratings })
}

fn decode_candidates(j: &serde_json::Value, key: &str) -> (r: Result<Vec<Candidate>, String>)
    ensures
        match r {
            Ok(v) => req_list_spec(json_view(*j), key@, candidate_fn()) == Ok::<
                Seq<CandidateModel>,
                Seq<char>,
            >(candidates_view(v@)),
            Err(m) => req_list_spec(json_view(*j), key@, candidate_fn()) == Err::<
                Seq<CandidateModel>,
                Seq<char>,
            >(m@),
        },
{
    let x = match get_member(j, key) {
        Some(x) => x,
        None => {
            return Err(field_error_message(key));
        },
    };
    let items = match x.as_array() {
        Some(items) => items,
        None => {
            return Err(field_error_message(key));
        },
    };
    let ghost model = match json_view(*x) {
        JsonValue::Array(m) => m,
        _ => Seq::empty(),
    };
    let mut out: Vec<Candidate> = Vec::new();
    let mut i: usize = 0;
    assert(model.take(0) =~= Seq::<JsonValue>::empty());
    assert(candidates_view(out@) =~= Seq::<CandidateModel>::empty());
    while i < items.len()
        invariant
            0 <= i <= items@.len(),
            field(json_view(*j), key@) == Some(JsonValue::Array(model)),
            items@.len() == model.len(),
            forall|k: int| 0 <= k < model.len() ==> json_view(#[trigger] items@[k]) == model[k],
            decode_all(model.take(i as int), candidate_fn()) == Ok::<
                Seq<CandidateModel>,
                Seq<char>,
            >(candidates_view(out@)),
        decreases items@.len() - i,
    {
        assert(model.take(i + 1).drop_last() =~= model.take(i as int));
        assert(model.take(i + 1).last() == model[i as int]);
        assert(json_view(items@[i as int]) == model[i as int]);
        match decode_candidate(&items[i]) {
            Ok(p) => {
                let ghost before = out@;
                out.push(p);
                assert(candidates_view(out@) =~= candidates_view(before).push(p@));
            },
            Err(e) => {
                proof {
                    lemma_decode_all_prefix_fails(model, candidate_fn(), i as int + 1);
                }
                return Err(e);
            },
        }
        i = i + 1;
    }
    assert(model.take(model.len() as int) =~= model);
    Ok(out)
}

fn decode_prompt_feedback(j: &serde_json::Value) -> (r: Result<PromptFeedback, String>)
    ensures
        match r {
            Ok(v) => prompt_feedback_of(json_view(*j)) == Ok::<PromptFeedbackModel, Seq<char>>(v@),
            Err(m) => prompt_feedback_of(json_view(*j)) == Err::<PromptFeedbackModel, Seq<char>>(
                m@,
            ),
        },
{
    match get_member(j, "safety_ratings") {
        Some(x) => match decode_ratings_in(x, "safety_ratings") {
            Ok(rs) => Ok(PromptFeedback { safety_ratings: rs }),
            Err(e) => Err(e),
        },
        None => Err(field_error_message("safety_ratings")),
    }
}

fn decode_usage_metadata(j: &serde_json::Value) -> (r: Result<UsageMetadata, String>)
    ensures
        match r {
            Ok(v) => usage_metadata_of(json_view(*j)) == Ok::<UsageMetadataModel, Seq<char>>(v@),
            Err(m) => usage_metadata_of(json_view(*j)) == Err::<UsageMetadataModel, Seq<char>>(m@),
        },
{
    let prompt_token_count = match req_i32(j, "prompt_token_count") {
        Ok(x) => x,
        Err(e) => {
            return Err(e);
        },
    };
    let candidates_token_count = match req_i32(j, "candidates_token_count") {
        Ok(x) => x,
        Err(e) => {
            return Err(e);
        },
    };
    let total_token_count = match req_i32(j, "total_token_count") {
        Ok(x) => x,
        Err(e) => {
            return Err(e);
        },
    };
    Ok(UsageMetadata { prompt_token_count, candidates_token_count, total_token_count })
}

/// Decodes the three members of a generated response.
fn decode_response_parts(j: &serde_json::Value) -> (r: Result<
    (Vec<Candidate>, Option<PromptFeedback>, Option<UsageMetadata>),
    String,
>)
    ensures
        match r {
            Ok((c, p, u)) => content_response_of(json_view(*j)) == Ok::<
                ContentResponseModel,
                Seq<char>,
            >(
                ContentResponseModel {
                    candidates: candidates_view(c@),
                    prompt_feedback: opt_feedback_view(p),
                    usage_metadata: opt_usage_view(u),
                },
            ),
            Err(m) => content_response_of(json_view(*j)) == Err::<ContentResponseModel, Seq<char>>(
                m@,
            ),
        },
{
    let candidates = match decode_candidates(j, "candidates") {
        Ok(x) => x,
        Err(e) => {
            return Err(e);
        },
    };
    let prompt_feedback = match present_member(j, "prompt_feedback") {
        Some(x) => match decode_prompt_feedback(x) {
            Ok(p) => Some(p),
            Err(e) => {
                return Err(e);
            },
        },
        None => None,
    };
    let usage_metadata = match present_member(j, "usage_metadata") {
        Some(x) => match decode_usage_metadata(x) {
            Ok(u) => Some(u),
            Err(e) => {
                return Err(e);
            },
        },
        None => None,
    };
    Ok((candidates, prompt_feedback, usage_metadata))
}

/// Why the first candidate finished, if there is one and it says.
pub open spec fn finish_reason_of(r: ContentResponseModel) -> Option<Seq<char>> {
    if r.candidates.len() > 0 {
        r.candidates[0].finish_reason
    } else {
        None
    }
}

fn first_finish_reason(candidates: &Vec<Candidate>) -> (r: Option<String>)
    ensures
        opt_str_view(r) == finish_reason_of(
            ContentResponseModel {
                candidates: candidates_view(candidates@),
                prompt_feedback: None,
                usage_metadata: None,
            },
        ),
{
    if candidates.len() > 0 {
        match &candidates[0].finish_reason {
            Some(t) => Some(t.clone()),
            None => None,
        }
    } else {
        None
    }
}

fn first_text_of(candidates: &Vec<Candidate>) -> (r: Option<String>)
    ensures
        opt_str_view(r) == first_text(
            ContentResponseModel {
                candidates: candidates_view(candidates@),
                prompt_feedback: None,
                usage_metadata: None,
            },
        ),
{
    if candidates.len() > 0 && candidates[0].content.parts.len() > 0 {
        match &candidates[0].content.parts[0].text {
            Some(t) => Some(t.clone()),
            None => None,
        }
    } else {
        None
    }
}

impl GenerateContentResponse {
    /// Gets the text response from the first candidate
    pub fn get_text(&self) -> (r: Option<String>)
        ensures
            opt_str_view(r) == first_text(self@),
    {
        first_text_of(&self.candidates)
    }
}

impl StreamGenerateContentResponse {
    /// Gets the text response from the first candidate
    pub fn get_text(&self) -> (r: Option<String>)
        ensures
            opt_str_view(r) == first_text(self@),
    {
        first_text_of(&self.candidates)
    }
}

impl RecordSchema for StreamGenerateContentResponse {
    open spec fn decoded(j: JsonValue) -> Result<ContentResponseModel, Seq<char>> {
        content_response_of(j)
    }

    open spec fn terminal(p: ContentResponseModel) -> bool {
        response_finished(p)
    }

    open spec fn reason(p: ContentResponseModel) -> Option<Seq<char>> {
        finish_reason_of(p)
    }

    fn decode(v: &serde_json::Value) -> (r: Result<StreamGenerateContentResponse, String>) {
        match decode_response_parts(v) {
            Ok((candidates, prompt_feedback, usage_metadata)) => Ok(
                StreamGenerateContentResponse { candidates, prompt_feedback, usage_metadata },
            ),
            Err(e) => Err(e),
        }
    }

    fn is_terminal(&self) -> (r: bool) {
        self.candidates.len() > 0 && self.candidates[0].finish_reason.is_some()
    }

    fn completion_reason(&self) -> (r: Option<String>) {
        first_finish_reason(&self.candidates)
    }
}

impl RecordSchema for GenerateContentResponse {
    open spec fn decoded(j: JsonValue) -> Result<ContentResponseModel, Seq<char>> {
        content_response_of(j)
    }

    open spec fn terminal(p: ContentResponseModel) -> bool {
        response_finished(p)
    }

    open spec fn reason(p: ContentResponseModel) -> Option<Seq<char>> {
        finish_reason_of(p)
    }

    fn decode(v: &serde_json::Value) -> (r: Result<GenerateContentResponse, String>) {
        match decode_response_parts(v) {
            Ok((candidates, prompt_feedback, usage_metadata)) => Ok(
                GenerateContentResponse { candidates, prompt_feedback, usage_metadata },
            ),
            Err(e) => Err(e),
        }
    }

    fn is_terminal(&self) -> (r: bool) {
        self.candidates.len() > 0 && self.candidates[0].finish_reason.is_some()
    }

    fn completion_reason(&self) -> (r: Option<String>) {
        first_finish_reason(&self.candidates)
    }
}

/// Why a generated-content body gave no response.
#[derive(Debug)]
pub enum ContentError {
    /// The body is a JSON object with an `error` member: the API's error.
    Api(serde_json::Value),
    /// The body is not JSON, or not a response: why.
    Parse(String),
}

/// What a generated-content body gives, as a model.
pub enum ContentOutcome {
    Response(ContentResponseModel),
    Api(JsonValue),
    Parse(Seq<char>),
}

/// A whole generated-content body: an API error where the document has an
/// `error` member, else the response it decodes to.
pub open spec fn content_outcome(b: Seq<u8>) -> ContentOutcome {
    match json_parse(b) {
        None => ContentOutcome::Parse(json_error_text(b)),
        Some(j) => match field(j, "error"@) {
            Some(e) => ContentOutcome::Api(e),
            None => match content_response_of(j) {
                Ok(m) => ContentOutcome::Response(m),
                Err(e) => ContentOutcome::Parse(e),
            },
        },
    }
}

/// Decodes a whole generated-content body.
pub fn decode_generate_content(body: &[u8]) -> (r: Result<GenerateContentResponse, ContentError>)
    ensures
        match r {
            Ok(v) => content_outcome(body@) == ContentOutcome::Response(v@),
            Err(ContentError::Api(e)) => content_outcome(body@) == ContentOutcome::Api(
                json_view(e),
            ),
            Err(ContentError::Parse(m)) => content_outcome(body@) == ContentOutcome::Parse(m@),
        },
{
    let j = match parse_json(body) {
        Ok(j) => j,
        Err(e) => {
            return Err(ContentError::Parse(e));
        },
    };
    match get_member(&j, "error") {
        Some(e) => {
            return Err(ContentError::Api(e.clone()));
        },
        None => {},
    }
    match GenerateContentResponse::decode(&j) {
        Ok(v) => Ok(v),
        Err(e) => Err(ContentError::Parse(e)),
    }
}

/// The content of a plain text prompt: one part holding the text, from the
/// user.
pub fn user_content(prompt: &str) -> (r: Content)
    ensures
        r@ == (ContentModel {
            role: "user"@,
            parts: seq![PartModel { text: Some(prompt@), inline_data: None }],
        }),
{
    let part = Part { text: Some(prompt.to_owned()), inline_data: None };
    let mut parts: Vec<Part> = Vec::new();
    parts.push(part);
    assert(parts_view(parts@) =~= seq![PartModel { text: Some(prompt@), inline_data: None }]);
    Content { role: String::from_str("user"), parts }
}

/// The address of a model's method: `{base}/models/{model}:{method}`.
pub fn model_method_url(base_url: &str, model: &str, method: &str) -> (r: String)
    ensures
        r@ == base_url@ + "/models/"@ + model@ + ":"@ + method@,
{
    base_url.to_owned().concat("/models/").concat(model).concat(":").concat(method)
}

} // verus!
