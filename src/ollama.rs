//! Payloads of the locally hosted inference server's API.
use vstd::prelude::*;

use crate::framing::{
    complete_lines, lines_view, strip_cr, unterminated_tail, without_cr, FrameDecoder,
};
use crate::json::{
    decode_all, field, field_error_message, get_member, json_error_text, json_parse, json_view,
    lemma_decode_all_prefix_fails, parse_json, req_int_spec, req_obj_spec, req_u64, strs_view,
    opt_str_list, opt_str_list_spec, req_list_spec,
    ints_view, opt_i32_list, opt_int_list_spec, opt_int_spec, opt_str, opt_str_spec, opt_str_view,
    opt_u32, opt_u64, req_bool, req_bool_spec, req_str, req_str_spec, JsonValue,
};
use crate::stream::RecordSchema;

verus! {

pub open spec fn opt_u64_view(o: Option<u64>) -> Option<int> {
    match o {
        Some(n) => Some(n as int),
        None => None,
    }
}

pub open spec fn opt_u32_view(o: Option<u32>) -> Option<int> {
    match o {
        Some(n) => Some(n as int),
        None => None,
    }
}

pub open spec fn opt_ints_view(o: Option<Vec<i32>>) -> Option<Seq<int>> {
    match o {
        Some(v) => Some(ints_view(v@)),
        None => None,
    }
}

/// A generation result (whole, or one increment of a stream), as a model.
pub struct GenerateResponseModel {
    pub model: Seq<char>,
    pub created_at: Seq<char>,
    pub response: Seq<char>,
    pub done: bool,
    pub done_reason: Option<Seq<char>>,
    pub context: Option<Seq<int>>,
    pub total_duration: Option<int>,
    pub load_duration: Option<int>,
    pub prompt_eval_count: Option<int>,
    pub prompt_eval_duration: Option<int>,
    pub eval_count: Option<int>,
    pub eval_duration: Option<int>,
}

/// Response structure for a generated completion.
#[derive(Debug)]
pub struct GenerateResponse {
    /// The model used for generation
    pub model: String,
    /// The creation timestamp of the response
    pub created_at: String,
    /// The generated response
    pub response: String,
    /// Whether the generation is done
    pub done: bool,
    /// The reason why the generation is done
    pub done_reason: Option<String>,
    /// The context of the response
    pub context: Option<Vec<i32>>,
    /// The total duration of the generation
    pub total_duration: Option<u64>,
    /// The duration to load the model
    pub load_duration: Option<u64>,
    /// The count of prompt evaluations
    pub prompt_eval_count: Option<u32>,
    /// The duration of prompt evaluations
    pub prompt_eval_duration: Option<u64>,
    /// The count of evaluations
    pub eval_count: Option<u32>,
    /// The duration of evaluations
    pub eval_duration: Option<u64>,
}

impl View for GenerateResponse {
    type V = GenerateResponseModel;

    open spec fn view(&self) -> GenerateResponseModel {
        GenerateResponseModel {
            model: self.model@,
            created_at: self.created_at@,
            response: self.response@,
            done: self.done,
            done_reason: opt_str_view(self.done_reason),
            context: opt_ints_view(self.context),
            total_duration: opt_u64_view(self.total_duration),
            load_duration: opt_u64_view(self.load_duration),
            prompt_eval_count: opt_u32_view(self.prompt_eval_count),
            prompt_eval_duration: opt_u64_view(self.prompt_eval_duration),
            eval_count: opt_u32_view(self.eval_count),
            eval_duration: opt_u64_view(self.eval_duration),
        }
    }
}

/// What a JSON document decodes to as a generation result: members named
/// as the fields, `model`, `created_at`, `response` and `done` required,
/// the others optional (absent or `null`); the first bad member, in field
/// order, is reported.
pub open spec fn generate_response_of(j: JsonValue) -> Result<GenerateResponseModel, Seq<char>> {
    let model = req_str_spec(j, "model"@);
    let created_at = req_str_spec(j, "created_at"@);
    let response = req_str_spec(j, "response"@);
    let done = req_bool_spec(j, "done"@);
    let done_reason = opt_str_spec(j, "done_reason"@);
    let context = opt_int_list_spec(j, "context"@, i32::MIN as int, i32::MAX as int);
    let total_duration = opt_int_spec(j, "total_duration"@, 0, u64::MAX as int);
    let load_duration = opt_int_spec(j, "load_duration"@, 0, u64::MAX as int);
    let prompt_eval_count = opt_int_spec(j, "prompt_eval_count"@, 0, u32::MAX as int);
    let prompt_eval_duration = opt_int_spec(j, "prompt_eval_duration"@, 0, u64::MAX as int);
    let eval_count = opt_int_spec(j, "eval_count"@, 0, u32::MAX as int);
    let eval_duration = opt_int_spec(j, "eval_duration"@, 0, u64::MAX as int);
    if model is Err {
        Err(model->Err_0)
    } else if created_at is Err {
        Err(created_at->Err_0)
    } else if response is Err {
        Err(response->Err_0)
    } else if done is Err {
        Err(done->Err_0)
    } else if done_reason is Err {
        Err(done_reason->Err_0)
    } else if context is Err {
        Err(context->Err_0)
    } else if total_duration is Err {
        Err(total_duration->Err_0)
    } else if load_duration is Err {
        Err(load_duration->Err_0)
    } else if prompt_eval_count is Err {
        Err(prompt_eval_count->Err_0)
    } else if prompt_eval_duration is Err {
        Err(prompt_eval_duration->Err_0)
    } else if eval_count is Err {
        Err(eval_count->Err_0)
    } else if eval_duration is Err {
        Err(eval_duration->Err_0)
    } else {
        Ok(
            GenerateResponseModel {
                model: model->Ok_0,
                created_at: created_at->Ok_0,
                response: response->Ok_0,
                done: done->Ok_0,
                done_reason: done_reason->Ok_0,
                context: context->Ok_0,
                total_duration: total_duration->Ok_0,
                load_duration: load_duration->Ok_0,
                prompt_eval_count: prompt_eval_count->Ok_0,
                prompt_eval_duration: prompt_eval_duration->Ok_0,
                eval_count: eval_count->Ok_0,
                eval_duration: eval_duration->Ok_0,
            },
        )
    }
}

/// `a` where it has a value, else `b`.
pub open spec fn or_else<T>(a: Option<T>, b: Option<T>) -> Option<T> {
    match a {
        Some(x) => Some(x),
        None => b,
    }
}

/// `a` followed by `b`: the texts joined, the completion flag of `b`, and
/// each optional field from `b` where it has one, else from `a`.
pub open spec fn merged(a: GenerateResponseModel, b: GenerateResponseModel) -> GenerateResponseModel {
    GenerateResponseModel {
        model: a.model,
        created_at: a.created_at,
        response: a.response + b.response,
        done: b.done,
        done_reason: or_else(b.done_reason, a.done_reason),
        context: or_else(b.context, a.context),
        total_duration: or_else(b.total_duration, a.total_duration),
        load_duration: or_else(b.load_duration, a.load_duration),
        prompt_eval_count: or_else(b.prompt_eval_count, a.prompt_eval_count),
        prompt_eval_duration: or_else(b.prompt_eval_duration, a.prompt_eval_duration),
        eval_count: or_else(b.eval_count, a.eval_count),
        eval_duration: or_else(b.eval_duration, a.eval_duration),
    }
}

fn or_u64(a: Option<u64>, b: Option<u64>) -> (r: Option<u64>)
    ensures
        opt_u64_view(r) == or_else(opt_u64_view(a), opt_u64_view(b)),
{
    match a {
        Some(x) => Some(x),
        None => b,
    }
}

fn or_u32(a: Option<u32>, b: Option<u32>) -> (r: Option<u32>)
    ensures
        opt_u32_view(r) == or_else(opt_u32_view(a), opt_u32_view(b)),
{
    match a {
        Some(x) => Some(x),
        None => b,
    }
}

impl GenerateResponse {
    /// Merges another `GenerateResponse` into this one: its text is appended,
    /// its completion flag taken, and each optional field taken from it where
    /// it has a value.
    pub fn merge(&mut self, other: GenerateResponse)
        ensures
            final(self)@ == merged(old(self)@, other@),
    {
        self.response.append(other.response.as_str());
        self.done = other.done;
        self.done_reason = match other.done_reason {
            Some(x) => Some(x),
            None => self.done_reason.take(),
        };
        self.context = match other.context {
            Some(x) => Some(x),
            None => self.context.take(),
        };
        self.total_duration = or_u64(other.total_duration, self.total_duration);
        self.load_duration = or_u64(other.load_duration, self.load_duration);
        self.prompt_eval_count = or_u32(other.prompt_eval_count, self.prompt_eval_count);
        self.prompt_eval_duration = or_u64(other.prompt_eval_duration, self.prompt_eval_duration);
        self.eval_count = or_u32(other.eval_count, self.eval_count);
        self.eval_duration = or_u64(other.eval_duration, self.eval_duration);
    }
}

impl RecordSchema for GenerateResponse {
    open spec fn decoded(j: JsonValue) -> Result<GenerateResponseModel, Seq<char>> {
        generate_response_of(j)
    }

    open spec fn terminal(p: GenerateResponseModel) -> bool {
        p.done
    }

    open spec fn reason(p: GenerateResponseModel) -> Option<Seq<char>> {
        p.done_reason
    }

    fn decode(v: &serde_json::Value) -> (r: Result<GenerateResponse, String>) {
        let model = match req_str(v, "model") {
            Ok(x) => x,
            Err(e) => {
                return Err(e);
            },
        };
        let created_at = match req_str(v, "created_at") {
            Ok(x) => x,
            Err(e) => {
                return Err(e);
            },
        };
        let response = match req_str(v, "response") {
            Ok(x) => x,
            Err(e) => {
                return Err(e);
            },
        };
        let done = match req_bool(v, "done") {
            Ok(x) => x,
            Err(e) => {
                return Err(e);
            },
        };
        let done_reason = match opt_str(v, "done_reason") {
            Ok(x) => x,
            Err(e) => {
                return Err(e);
            },
        };
        let context = match opt_i32_list(v, "context") {
            Ok(x) => x,
            Err(e) => {
                return Err(e);
            },
        };
        let total_duration = match opt_u64(v, "total_duration") {
            Ok(x) => x,
            Err(e) => {
                return Err(e);
            },
        };
        let load_duration = match opt_u64(v, "load_duration") {
            Ok(x) => x,
            Err(e) => {
                return Err(e);
            },
        };
        let prompt_eval_count = match opt_u32(v, "prompt_eval_count") {
            Ok(x) => x,
            Err(e) => {
                return Err(e);
            },
        };
        let prompt_eval_duration = match opt_u64(v, "prompt_eval_duration") {
            Ok(x) => x,
            Err(e) => {
                return Err(e);
            },
        };
        let eval_count = match opt_u32(v, "eval_count") {
            Ok(x) => x,
            Err(e) => {
                return Err(e);
            },
        };
        let eval_duration = match opt_u64(v, "eval_duration") {
            Ok(x) => x,
            Err(e) => {
                return Err(e);
            },
        };
        Ok(
            GenerateResponse {
                model,
                created_at,
                response,
                done,
                done_reason,
                context,
                total_duration,
                load_duration,
                prompt_eval_count,
                prompt_eval_duration,
                eval_count,
                eval_duration,
            },
        )
    }

    fn is_terminal(&self) -> (r: bool) {
        self.done
    }

    fn completion_reason(&self) -> (r: Option<String>) {
        match &self.done_reason {
            Some(t) => Some(t.clone()),
            None => None,
        }
    }
}

pub open spec fn opt_response_view(o: Option<GenerateResponse>) -> Option<GenerateResponseModel> {
    match o {
        Some(r) => Some(r@),
        None => None,
    }
}

/// The lines of a whole body: every complete line, then the unterminated
/// tail where there is one.
pub open spec fn body_lines(b: Seq<u8>) -> Seq<Seq<u8>> {
    if unterminated_tail(b).len() > 0 {
        complete_lines(b).push(unterminated_tail(b))
    } else {
        complete_lines(b)
    }
}

/// What one line of a whole body decodes to.
pub open spec fn line_response(l: Seq<u8>) -> Result<GenerateResponseModel, Seq<char>> {
    let t = strip_cr(l);
    match json_parse(t) {
        None => Err(json_error_text(t)),
        Some(j) => generate_response_of(j),
    }
}

/// Some lines decoded and merged in order, or the first line's error.
pub open spec fn fold_responses(lines: Seq<Seq<u8>>) -> Result<Option<GenerateResponseModel>, Seq<char>>
    decreases lines.len(),
{
    if lines.len() == 0 {
        Ok(None)
    } else {
        match fold_responses(lines.drop_last()) {
            Err(e) => Err(e),
            Ok(acc) => match line_response(lines.last()) {
                Err(e) => Err(e),
                Ok(r) => Ok(
                    Some(
                        match acc {
                            None => r,
                            Some(a) => merged(a, r),
                        },
                    ),
                ),
            },
        }
    }
}

pub open spec fn no_records_error() -> Seq<char> {
    "No valid JSON objects found in response"@
}

/// A whole (not streamed) completion body: one result per line, merged in
/// order; every line must decode, and there must be one.
pub open spec fn completion_of(b: Seq<u8>) -> Result<GenerateResponseModel, Seq<char>> {
    match fold_responses(body_lines(b)) {
        Err(e) => Err(e),
        Ok(None) => Err(no_records_error()),
        Ok(Some(r)) => Ok(r),
    }
}

proof fn lemma_fold_prefix_fails(lines: Seq<Seq<u8>>, n: int)
    requires
        0 <= n <= lines.len(),
        fold_responses(lines.take(n)) is Err,
    ensures
        fold_responses(lines) == fold_responses(lines.take(n)),
    decreases lines.len() - n,
{
    if n < lines.len() {
        assert(lines.take(n + 1).drop_last() =~= lines.take(n));
        lemma_fold_prefix_fails(lines, n + 1);
    } else {
        assert(lines.take(n) =~= lines);
    }
}

/// Decodes a whole completion body: each line is one result, and they are
/// merged in order into one.
pub fn collect_completion(body: &[u8]) -> (r: Result<GenerateResponse, String>)
    ensures
        match r {
            Ok(v) => completion_of(body@) == Ok::<GenerateResponseModel, Seq<char>>(v@),
            Err(m) => completion_of(body@) == Err::<GenerateResponseModel, Seq<char>>(m@),
        },
{
    let mut dec = FrameDecoder::new();
    let mut lines = dec.push(body);
    match dec.finish() {
        Some(t) => {
            let ghost before = lines@;
            lines.push(t);
            assert(lines_view(lines@) =~= lines_view(before).push(t@));
        },
        None => {},
    }
    let ghost ls = lines_view(lines@);
    assert(ls == body_lines(body@));
    let mut acc: Option<GenerateResponse> = None;
    let mut i: usize = 0;
    assert(ls.take(0) =~= Seq::<Seq<u8>>::empty());
    while i < lines.len()
        invariant
            0 <= i <= lines@.len(),
            ls == lines_view(lines@),
            ls.len() == lines@.len(),
            ls == body_lines(body@),
            fold_responses(ls.take(i as int)) == Ok::<
                Option<GenerateResponseModel>,
                Seq<char>,
            >(opt_response_view(acc)),
        decreases lines@.len() - i,
    {
        assert(ls.take(i + 1).drop_last() =~= ls.take(i as int));
        assert(ls.take(i + 1).last() == lines@[i as int]@);
        let t = without_cr(lines[i].as_slice());
        let parsed = match parse_json(t.as_slice()) {
            Ok(v) => match GenerateResponse::decode(&v) {
                Ok(p) => p,
                Err(e) => {
                    proof {
                        lemma_fold_prefix_fails(ls, i + 1);
                    }
                    return Err(e);
                },
            },
            Err(e) => {
                proof {
                    lemma_fold_prefix_fails(ls, i + 1);
                }
                return Err(e);
            },
        };
        acc = match acc {
            None => Some(parsed),
            Some(a) => {
                let mut a = a;
                a.merge(parsed);
                Some(a)
            },
        };
        i = i + 1;
    }
    assert(ls.take(lines@.len() as int) =~= ls);
    match acc {
        Some(a) => Ok(a),
        None => Err(String::from_str("No valid JSON objects found in response")),
    }
}

pub struct ModelDetailsModel {
    pub format: Seq<char>,
    pub family: Seq<char>,
    pub families: Option<Seq<Seq<char>>>,
    pub parameter_size: Seq<char>,
    pub quantization_level: Seq<char>,
}

pub struct ModelInfoModel {
    pub name: Seq<char>,
    pub modified_at: Seq<char>,
    pub size: int,
    pub digest: Seq<char>,
    pub details: ModelDetailsModel,
}

/// Response structure for listing models
#[derive(Debug)]
pub struct ListModelsResponse {
    /// The list of models
    pub models: Vec<ModelInfo>,
}

/// Information about a model
#[derive(Debug)]
pub struct ModelInfo {
    /// The name of the model
    pub name: String,
    /// The last modified timestamp of the model
    pub modified_at: String,
    /// The size of the model
    pub size: u64,
    /// The digest of the model
    pub digest: String,
    /// The details of the model
    pub details: ModelDetails,
}

/// Details about a model
#[derive(Debug)]
pub struct ModelDetails {
    /// The format of the model
    pub format: String,
    /// The family of the model
    pub family: String,
    /// The families the model belongs to
    pub families: Option<Vec<String>>,
    /// The parameter size of the model
    pub parameter_size: String,
    /// The quantization level of the model
    pub quantization_level: String,
}

pub open spec fn opt_strs_view(o: Option<Vec<String>>) -> Option<Seq<Seq<char>>> {
    match o {
        Some(v) => Some(strs_view(v@)),
        None => None,
    }
}

impl View for ModelDetails {
    type V = ModelDetailsModel;

    open spec fn view(&self) -> ModelDetailsModel {
        ModelDetailsModel {
            format: self.format@,
            family: self.family@,
            families: opt_strs_view(self.families),
            parameter_size: self.parameter_size@,
            quantization_level: self.quantization_level@,
        }
    }
}

impl View for ModelInfo {
    type V = ModelInfoModel;

    open spec fn view(&self) -> ModelInfoModel {
        ModelInfoModel {
            name: self.name@,
            modified_at: self.modified_at@,
            size: self.size as int,
            digest: self.digest@,
            details: self.details@,
        }
    }
}

pub open spec fn models_view(v: Seq<ModelInfo>) -> Seq<ModelInfoModel> {
    v.map_values(|m: ModelInfo| m@)
}

impl View for ListModelsResponse {
    type V = Seq<ModelInfoModel>;

    open spec fn view(&self) -> Seq<ModelInfoModel> {
        models_view(self.models@)
    }
}

pub open spec fn model_details_of(j: JsonValue) -> Result<ModelDetailsModel, Seq<char>> {
    let format = req_str_spec(j, "format"@);
    let family = req_str_spec(j, "family"@);
    let families = opt_str_list_spec(j, "families"@);
    let parameter_size = req_str_spec(j, "parameter_size"@);
    let quantization_level = req_str_spec(j, "quantization_level"@);
    if format is Err {
        Err(format->Err_0)
    } else if family is Err {
        Err(family->Err_0)
    } else if families is Err {
        Err(families->Err_0)
    } else if parameter_size is Err {
        Err(parameter_size->Err_0)
    } else if quantization_level is Err {
        Err(quantization_level->Err_0)
    } else {
        Ok(
            ModelDetailsModel {
                format: format->Ok_0,
                family: family->Ok_0,
                families: families->Ok_0,
                parameter_size: parameter_size->Ok_0,
                quantization_level: quantization_level->Ok_0,
            },
        )
    }
}

pub open spec fn model_details_fn() -> spec_fn(JsonValue) -> Result<ModelDetailsModel, Seq<char>> {
    |x: JsonValue| model_details_of(x)
}

pub open spec fn model_info_of(j: JsonValue) -> Result<ModelInfoModel, Seq<char>> {
    let name = req_str_spec(j, "name"@);
    let modified_at = req_str_spec(j, "modified_at"@);
    let size = req_int_spec(j, "size"@, 0, u64::MAX as int);
    let digest = req_str_spec(j, "digest"@);
    let details = req_obj_spec(j, "details"@, model_details_fn());
    if name is Err {
        Err(name->Err_0)
    } else if modified_at is Err {
        Err(modified_at->Err_0)
    } else if size is Err {
        Err(size->Err_0)
    } else if digest is Err {
        Err(digest->Err_0)
    } else if details is Err {
        Err(details->Err_0)
    } else {
        Ok(
            ModelInfoModel {
                name: name->Ok_0,
                modified_at: modified_at->Ok_0,
                size: size->Ok_0,
                digest: digest->Ok_0,
                details: details->Ok_0,
            },
        )
    }
}

pub open spec fn model_info_fn() -> spec_fn(JsonValue) -> Result<ModelInfoModel, Seq<char>> {
    |x: JsonValue| model_info_of(x)
}

/// What a model-listing body decodes to: a JSON object whose `models`
/// member lists the models.
pub open spec fn list_models_of(b: Seq<u8>) -> Result<Seq<ModelInfoModel>, Seq<char>> {
    match json_parse(b) {
        None => Err(json_error_text(b)),
        Some(j) => req_list_spec(j, "models"@, model_info_fn()),
    }
}

fn decode_model_details(j: &serde_json::Value) -> (r: Result<ModelDetails, String>)
    ensures
        match r {
            Ok(v) => model_details_of(json_view(*j)) == Ok::<ModelDetailsModel, Seq<char>>(v@),
            Err(m) => model_details_of(json_view(*j)) == Err::<ModelDetailsModel, Seq<char>>(m@),
        },
{
    let format = match req_str(j, "format") {
        Ok(x) => x,
        Err(e) => {
            return Err(e);
        },
    };
    let family = match req_str(j, "family") {
        Ok(x) => x,
        Err(e) => {
            return Err(e);
        },
    };
    let families = match opt_str_list(j, "families") {
        Ok(x) => x,
        Err(e) => {
            return Err(e);
        },
    };
    let parameter_size = match req_str(j, "parameter_size") {
        Ok(x) => x,
        Err(e) => {
            return Err(e);
        },
    };
    let quantization_level = match req_str(j, "quantization_level") {
        Ok(x) => x,
        Err(e) => {
            return Err(e);
        },
    };
    Ok(ModelDetails { format, family, families, parameter_size, quantization_level })
}

fn decode_model_info(j: &serde_json::Value) -> (r: Result<ModelInfo, String>)
    ensures
        match r {
            Ok(v) => model_info_of(json_view(*j)) == Ok::<ModelInfoModel, Seq<char>>(v@),
            Err(m) => model_info_of(json_view(*j)) == Err::<ModelInfoModel, Seq<char>>(m@),
        },
{
    let name = match req_str(j, "name") {
        Ok(x) => x,
        Err(e) => {
            return Err(e);
        },
    };
    let modified_at = match req_str(j, "modified_at") {
        Ok(x) => x,
        Err(e) => {
            return Err(e);
        },
    };
    let size = match req_u64(j, "size") {
        Ok(x) => x,
        Err(e) => {
            return Err(e);
        },
    };
    let digest = match req_str(j, "digest") {
        Ok(x) => x,
        Err(e) => {
            return Err(e);
        },
    };
    let details = match get_member(j, "details") {
        Some(x) => match decode_model_details(x) {
            Ok(d) => d,
            Err(e) => {
                return Err(e);
            },
        },
        None => {
            return Err(field_error_message("details"));
        },
    };
    Ok(ModelInfo { name, modified_at, size, digest, details })
}

/// Decodes a model-listing body.
pub fn decode_list_models(body: &[u8]) -> (r: Result<ListModelsResponse, String>)
    ensures
        match r {
            Ok(v) => list_models_of(body@) == Ok::<Seq<ModelInfoModel>, Seq<char>>(v@),
            Err(m) => list_models_of(body@) == Err::<Seq<ModelInfoModel>, Seq<char>>(m@),
        },
{
    let j = match parse_json(body) {
        Ok(j) => j,
        Err(e) => {
            return Err(e);
        },
    };
    let x = match get_member(&j, "models") {
        Some(x) => x,
        None => {
            return Err(field_error_message("models"));
        },
    };
    let items = match x.as_array() {
        Some(items) => items,
        None => {
            return Err(field_error_message("models"));
        },
    };
    let ghost model = match json_view(*x) {
        JsonValue::Array(m) => m,
        _ => Seq::empty(),
    };
    let mut out: Vec<ModelInfo> = Vec::new();
    let mut i: usize = 0;
    assert(model.take(0) =~= Seq::<JsonValue>::empty());
    assert(models_view(out@) =~= Seq::<ModelInfoModel>::empty());
    while i < items.len()
        invariant
            0 <= i <= items@.len(),
            json_parse(body@) == Some(json_view(j)),
            field(json_view(j), "models"@) == Some(JsonValue::Array(model)),
            items@.len() == model.len(),
            forall|k: int| 0 <= k < model.len() ==> json_view(#[trigger] items@[k]) == model[k],
            decode_all(model.take(i as int), model_info_fn()) == Ok::<
                Seq<ModelInfoModel>,
                Seq<char>,
            >(models_view(out@)),
        decreases items@.len() - i,
    {
        assert(model.take(i + 1).drop_last() =~= model.take(i as int));
        assert(model.take(i + 1).last() == model[i as int]);
        assert(json_view(items@[i as int]) == model[i as int]);
        match decode_model_info(&items[i]) {
            Ok(p) => {
                let ghost before = out@;
                out.push(p);
                assert(models_view(out@) =~= models_view(before).push(p@));
            },
            Err(e) => {
                proof {
                    lemma_decode_all_prefix_fails(model, model_info_fn(), i as int + 1);
                }
                return Err(e);
            },
        }
        i = i + 1;
    }
    assert(model.take(model.len() as int) =~= model);
    Ok(ListModelsResponse { models: out })
}

/// Reads a model-information body: any one JSON text.
pub fn parse_model_info(body: &[u8]) -> (r: Result<serde_json::Value, String>)
    ensures
        match r {
            Ok(v) => json_parse(body@) == Some(json_view(v)),
            Err(m) => json_parse(body@) is None && m@ == json_error_text(body@),
        },
{
    parse_json(body)
}

/// The address of an API method: `{base}/api/{method}`.
pub fn api_url(base_url: &str, method: &str) -> (r: String)
    ensures
        r@ == base_url@ + "/api/"@ + method@,
{
    base_url.to_owned().concat("/api/").concat(method)
}

/// The value of the `Authorization` header for an API key.
pub fn bearer_header(api_key: &str) -> (r: String)
    ensures
        r@ == "Bearer "@ + api_key@,
{
    String::from_str("Bearer ").concat(api_key)
}

} // verus!
