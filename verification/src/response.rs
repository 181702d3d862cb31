//! Model responses: candidates, finish reasons, prompt feedback and
//! usage counts, decoded from their wire JSON, and the interpretation
//! of a raw HTTP reply into a response or a structured error.

use vstd::prelude::*;

use crate::json::deep_arr_from;
use crate::json::get_field;
use crate::json::lemma_deep_arr_from;
use crate::json::JsonValue;
use crate::json::Jx;
use crate::message::parse_content;
use crate::message::Content;
use crate::message::ContentV;
use crate::safety::parse_rating;
use crate::safety::RatingV;
use crate::safety::SafetyRating;
use crate::strutil::str_eq;

verus! {

/// Why a candidate stopped.
#[derive(Debug, Clone, Copy, PartialEq, Eq, Structural)]
pub enum FinishReason {
    FinishReasonUnspecified,
    Stop,
    MaxTokens,
    Safety,
    Recitation,
    Language,
    Other,
    Blocklist,
    ProhibitedContent,
    Spii,
    MalformedFunctionCall,
}

/// Decoding of a finish reason from its wire spelling.
pub open spec fn parse_finish(s: Seq<char>) -> Option<FinishReason> {
    if s == "FINISH_REASON_UNSPECIFIED"@ {
        Some(FinishReason::FinishReasonUnspecified)
    } else if s == "STOP"@ {
        Some(FinishReason::Stop)
    } else if s == "MAX_TOKENS"@ {
        Some(FinishReason::MaxTokens)
    } else if s == "SAFETY"@ {
        Some(FinishReason::Safety)
    } else if s == "RECITATION"@ {
        Some(FinishReason::Recitation)
    } else if s == "LANGUAGE"@ {
        Some(FinishReason::Language)
    } else if s == "OTHER"@ {
        Some(FinishReason::Other)
    } else if s == "BLOCKLIST"@ {
        Some(FinishReason::Blocklist)
    } else if s == "PROHIBITED_CONTENT"@ {
        Some(FinishReason::ProhibitedContent)
    } else if s == "SPII"@ {
        Some(FinishReason::Spii)
    } else if s == "MALFORMED_FUNCTION_CALL"@ {
        Some(FinishReason::MalformedFunctionCall)
    } else {
        None
    }
}

impl FinishReason {
    /// Decodes a finish reason from its wire spelling.
    pub fn from_name(s: &str) -> (r: Option<FinishReason>)
        ensures
            r == parse_finish(s@),
    {
        if str_eq(s, "FINISH_REASON_UNSPECIFIED") {
            Some(FinishReason::FinishReasonUnspecified)
        } else if str_eq(s, "STOP") {
            Some(FinishReason::Stop)
        } else if str_eq(s, "MAX_TOKENS") {
            Some(FinishReason::MaxTokens)
        } else if str_eq(s, "SAFETY") {
            Some(FinishReason::Safety)
        } else if str_eq(s, "RECITATION") {
            Some(FinishReason::Recitation)
        } else if str_eq(s, "LANGUAGE") {
            Some(FinishReason::Language)
        } else if str_eq(s, "OTHER") {
            Some(FinishReason::Other)
        } else if str_eq(s, "BLOCKLIST") {
            Some(FinishReason::Blocklist)
        } else if str_eq(s, "PROHIBITED_CONTENT") {
            Some(FinishReason::ProhibitedContent)
        } else if str_eq(s, "SPII") {
            Some(FinishReason::Spii)
        } else if str_eq(s, "MALFORMED_FUNCTION_CALL") {
            Some(FinishReason::MalformedFunctionCall)
        } else {
            None
        }
    }
}

/// Why a whole prompt was blocked.
#[derive(Debug, Clone, Copy, PartialEq, Eq, Structural)]
pub enum BlockReason {
    BlockReasonUnspecified,
    Safety,
    Other,
}

/// Decoding of a block reason from its wire spelling.
pub open spec fn parse_block_reason(s: Seq<char>) -> Option<BlockReason> {
    if s == "BLOCK_REASON_UNSPECIFIED"@ {
        Some(BlockReason::BlockReasonUnspecified)
    } else if s == "SAFETY"@ {
        Some(BlockReason::Safety)
    } else if s == "OTHER"@ {
        Some(BlockReason::Other)
    } else {
        None
    }
}

impl BlockReason {
    /// Decodes a block reason from its wire spelling.
    pub fn from_name(s: &str) -> (r: Option<BlockReason>)
        ensures
            r == parse_block_reason(s@),
    {
        if str_eq(s, "BLOCK_REASON_UNSPECIFIED") {
            Some(BlockReason::BlockReasonUnspecified)
        } else if str_eq(s, "SAFETY") {
            Some(BlockReason::Safety)
        } else if str_eq(s, "OTHER") {
            Some(BlockReason::Other)
        } else {
            None
        }
    }
}

/// Token counts reported with a response.
#[derive(Debug, Clone, Copy, PartialEq, Eq, Structural)]
pub struct UsageMetadata {
    pub prompt_token_count: u32,
    pub candidates_token_count: Option<u32>,
    pub total_token_count: u32,
}

/// A nonnegative integer fitting 32 bits, read from a JSON value.
pub open spec fn parse_u32(j: Jx) -> Option<int> {
    match j {
        Jx::Int(i) => if 0 <= i <= 0xffff_ffff {
            Some(i)
        } else {
            None
        },
        _ => None,
    }
}

/// Reads a 32-bit count from a JSON value.
pub fn u32_from_json(v: &JsonValue) -> (r: Option<u32>)
    ensures
        r matches Some(n) ==> parse_u32(v.deep()) == Some(n as int),
        r is None ==> parse_u32(v.deep()) is None,
{
    match v {
        JsonValue::Int(i) => {
            if 0 <= *i && *i <= 0xffff_ffff {
                Some(*i as u32)
            } else {
                None
            }
        },
        _ => None,
    }
}

/// Decoding of usage counts: prompt and total counts are required, the
/// candidate count is optional.
pub open spec fn parse_usage(j: Jx) -> Option<UsageMetadata> {
    match get_field(j, "promptTokenCount"@) {
        Some(p) => match parse_u32(p) {
            Some(prompt) => match get_field(j, "totalTokenCount"@) {
                Some(t) => match parse_u32(t) {
                    Some(total) => match get_field(j, "candidatesTokenCount"@) {
                        None => Some(
                            UsageMetadata {
                                prompt_token_count: prompt as u32,
                                candidates_token_count: None,
                                total_token_count: total as u32,
                            },
                        ),
                        Some(Jx::Null) => Some(
                            UsageMetadata {
                                prompt_token_count: prompt as u32,
                                candidates_token_count: None,
                                total_token_count: total as u32,
                            },
                        ),
                        Some(c) => match parse_u32(c) {
                            Some(cand) => Some(
                                UsageMetadata {
                                    prompt_token_count: prompt as u32,
                                    candidates_token_count: Some(cand as u32),
                                    total_token_count: total as u32,
                                },
                            ),
                            None => None,
                        },
                    },
                    None => None,
                },
                None => None,
            },
            None => None,
        },
        None => None,
    }
}

impl UsageMetadata {
    /// Decodes usage counts from their wire JSON.
    pub fn from_json(v: &JsonValue) -> (r: Option<UsageMetadata>)
        ensures
            r == parse_usage(v.deep()),
    {
        let prompt = match v.get("promptTokenCount") {
            Some(p) => match u32_from_json(p) {
                Some(n) => n,
                None => {
                    return None;
                },
            },
            None => {
                return None;
            },
        };
        let total = match v.get("totalTokenCount") {
            Some(t) => match u32_from_json(t) {
                Some(n) => n,
                None => {
                    return None;
                },
            },
            None => {
                return None;
            },
        };
        let candidates_token_count = match v.get("candidatesTokenCount") {
            None => None,
            Some(JsonValue::Null) => None,
            Some(c) => match u32_from_json(c) {
                Some(n) => Some(n),
                None => {
                    return None;
                },
            },
        };
        Some(
            UsageMetadata {
                prompt_token_count: prompt,
                candidates_token_count,
                total_token_count: total,
            },
        )
    }
}

/// Feedback on the prompt itself.
#[derive(Debug, PartialEq, Eq)]
pub struct PromptFeedback {
    pub block_reason: Option<BlockReason>,
    pub safety_ratings: Vec<SafetyRating>,
}

/// Model of prompt feedback.
pub struct FeedbackV {
    pub block_reason: Option<BlockReason>,
    pub safety_ratings: Seq<RatingV>,
}

/// The models of the ratings of `rs` from index `k` on.
pub open spec fn ratings_deep_from(rs: Vec<SafetyRating>, k: int) -> Seq<RatingV>
    decreases rs.len() - k,
{
    if k < 0 || k >= rs.len() {
        Seq::empty()
    } else {
        seq![rs[k].deep()] + ratings_deep_from(rs, k + 1)
    }
}

/// `ratings_deep_from` is the element-wise model of the tail of `rs`.
pub proof fn lemma_ratings_deep_from(rs: Vec<SafetyRating>, k: int)
    requires
        0 <= k <= rs.len(),
    ensures
        ratings_deep_from(rs, k).len() == rs.len() - k,
        forall|m: int| k <= m < rs.len() ==> ratings_deep_from(rs, k)[m - k] == rs[m].deep(),
    decreases rs.len() - k,
{
    if k < rs.len() {
        lemma_ratings_deep_from(rs, k + 1);
    }
}

impl PromptFeedback {
    /// The mathematical model of this feedback.
    pub open spec fn deep(self) -> FeedbackV {
        FeedbackV {
            block_reason: self.block_reason,
            safety_ratings: ratings_deep_from(self.safety_ratings, 0),
        }
    }
}

/// Decoding of a safety rating array: every element must decode.
pub open spec fn parse_ratings(items: Seq<Jx>) -> Option<Seq<RatingV>>
    decreases items.len(),
{
    if items.len() == 0 {
        Some(Seq::empty())
    } else {
        match parse_rating(items[0]) {
            None => None,
            Some(r) => match parse_ratings(items.drop_first()) {
                None => None,
                Some(rest) => Some(seq![r] + rest),
            },
        }
    }
}

/// Unrolling `parse_ratings` at the front of a suffix.
proof fn lemma_parse_ratings_skip(s: Seq<Jx>, k: int)
    requires
        0 <= k < s.len(),
    ensures
        parse_ratings(s.skip(k)) == (match parse_rating(s[k]) {
            None => None,
            Some(r) => match parse_ratings(s.skip(k + 1)) {
                None => None,
                Some(rest) => Some(seq![r] + rest),
            },
        }),
{
    assert(s.skip(k).len() > 0);
    assert(s.skip(k)[0] == s[k]);
    assert(s.skip(k).drop_first() =~= s.skip(k + 1));
}

/// Decodes the elements of `items` from index `k` on as safety ratings.
fn ratings_from_json_from(items: &Vec<JsonValue>, k: usize) -> (r: Option<Vec<SafetyRating>>)
    requires
        k <= items@.len(),
    ensures
        r matches Some(rs) ==> parse_ratings(deep_arr_from(*items, 0).skip(k as int)) == Some(
            ratings_deep_from(rs, 0),
        ),
        r is None ==> parse_ratings(deep_arr_from(*items, 0).skip(k as int)) is None,
    decreases items@.len() - k,
{
    proof {
        lemma_deep_arr_from(*items, 0);
    }
    let n = items.len();
    if k == n {
        let out: Vec<SafetyRating> = Vec::new();
        proof {
            assert(deep_arr_from(*items, 0).skip(k as int) =~= Seq::<Jx>::empty());
            assert(ratings_deep_from(out, 0) =~= Seq::<RatingV>::empty());
        }
        Some(out)
    } else {
        proof {
            lemma_parse_ratings_skip(deep_arr_from(*items, 0), k as int);
        }
        match SafetyRating::from_json(&items[k]) {
            None => None,
            Some(sr) => match ratings_from_json_from(items, k + 1) {
                None => None,
                Some(mut rest) => {
                    let ghost rest0 = rest;
                    rest.insert(0, sr);
                    proof {
                        lemma_ratings_deep_from(rest, 0);
                        lemma_ratings_deep_from(rest0, 0);
                        assert forall|m: int| 0 <= m < rest@.len() implies ratings_deep_from(
                            rest,
                            0,
                        )[m] == (seq![sr.deep()] + ratings_deep_from(rest0, 0))[m] by {
                            if m > 0 {
                                assert(rest@[m] == rest0@[m - 1]);
                            }
                        }
                        assert(ratings_deep_from(rest, 0) =~= seq![sr.deep()]
                            + ratings_deep_from(rest0, 0));
                    }
                    Some(rest)
                },
            },
        }
    }
}

/// Decoding of prompt feedback: the rating array is required, the block
/// reason optional.
pub open spec fn parse_feedback(j: Jx) -> Option<FeedbackV> {
    match get_field(j, "safetyRatings"@) {
        Some(Jx::Arr(items)) => match parse_ratings(items) {
            Some(rs) => match get_field(j, "blockReason"@) {
                None => Some(FeedbackV { block_reason: None, safety_ratings: rs }),
                Some(Jx::Null) => Some(FeedbackV { block_reason: None, safety_ratings: rs }),
                Some(Jx::Str(bs)) => match parse_block_reason(bs) {
                    Some(b) => Some(FeedbackV { block_reason: Some(b), safety_ratings: rs }),
                    None => None,
                },
                Some(_) => None,
            },
            None => None,
        },
        _ => None,
    }
}

impl PromptFeedback {
    /// Decodes prompt feedback from its wire JSON.
    pub fn from_json(v: &JsonValue) -> (r: Option<PromptFeedback>)
        ensures
            r matches Some(f) ==> parse_feedback(v.deep()) == Some(f.deep()),
            r is None ==> parse_feedback(v.deep()) is None,
    {
        let safety_ratings = match v.get("safetyRatings") {
            Some(JsonValue::Arr(items)) => {
                proof {
                    assert(deep_arr_from(*items, 0).skip(0) =~= deep_arr_from(*items, 0));
                }
                match ratings_from_json_from(items, 0) {
                    Some(rs) => rs,
                    None => {
                        return None;
                    },
                }
            },
            _ => {
                return None;
            },
        };
        let block_reason = match v.get("blockReason") {
            None => None,
            Some(JsonValue::Null) => None,
            Some(JsonValue::Str(s)) => match BlockReason::from_name(s.as_str()) {
                Some(b) => Some(b),
                None => {
                    return None;
                },
            },
            Some(_) => {
                return None;
            },
        };
        Some(PromptFeedback { block_reason, safety_ratings })
    }
}

/// One alternative model continuation.
#[derive(Debug, PartialEq, Eq)]
pub struct ResponseCandidate {
    pub content: Content,
    pub finish_reason: FinishReason,
    pub index: u32,
    pub safety_ratings: Option<Vec<SafetyRating>>,
}

/// Model of a candidate.
pub struct CandV {
    pub content: ContentV,
    pub finish_reason: FinishReason,
    pub index: int,
    pub safety_ratings: Option<Seq<RatingV>>,
}

impl ResponseCandidate {
    /// The mathematical model of this candidate.
    pub open spec fn deep(self) -> CandV {
        CandV {
            content: self.content.deep(),
            finish_reason: self.finish_reason,
            index: self.index as int,
            safety_ratings: match self.safety_ratings {
                Some(rs) => Some(ratings_deep_from(rs, 0)),
                None => None,
            },
        }
    }
}

/// Decoding of a candidate: content, finish reason and index are
/// required; the ratings are optional.
pub open spec fn parse_candidate(j: Jx) -> Option<CandV> {
    match get_field(j, "content"@) {
        Some(cj) => match parse_content(cj) {
            Some(content) => match get_field(j, "finishReason"@) {
                Some(Jx::Str(fs)) => match parse_finish(fs) {
                    Some(finish) => match get_field(j, "index"@) {
                        Some(ij) => match parse_u32(ij) {
                            Some(index) => match get_field(j, "safetyRatings"@) {
                                None => Some(
                                    CandV {
                                        content,
                                        finish_reason: finish,
                                        index,
                                        safety_ratings: None,
                                    },
                                ),
                                Some(Jx::Null) => Some(
                                    CandV {
                                        content,
                                        finish_reason: finish,
                                        index,
                                        safety_ratings: None,
                                    },
                                ),
                                Some(Jx::Arr(items)) => match parse_ratings(items) {
                                    Some(rs) => Some(
                                        CandV {
                                            content,
                                            finish_reason: finish,
                                            index,
                                            safety_ratings: Some(rs),
                                        },
                                    ),
                                    None => None,
                                },
                                Some(_) => None,
                            },
                            None => None,
                        },
                        None => None,
                    },
                    None => None,
                },
                _ => None,
            },
            None => None,
        },
        None => None,
    }
}

impl ResponseCandidate {
    /// Decodes a candidate from its wire JSON.
    pub fn from_json(v: &JsonValue) -> (r: Option<ResponseCandidate>)
        ensures
            r matches Some(c) ==> parse_candidate(v.deep()) == Some(c.deep()),
            r is None ==> parse_candidate(v.deep()) is None,
    {
        let content = match v.get("content") {
            Some(cj) => match Content::from_json(cj) {
                Some(c) => c,
                None => {
                    return None;
                },
            },
            None => {
                return None;
            },
        };
        let finish_reason = match v.get("finishReason") {
            Some(JsonValue::Str(s)) => match FinishReason::from_name(s.as_str()) {
                Some(f) => f,
                None => {
                    return None;
                },
            },
            _ => {
                return None;
            },
        };
        let index = match v.get("index") {
            Some(ij) => match u32_from_json(ij) {
                Some(n) => n,
                None => {
                    return None;
                },
            },
            None => {
                return None;
            },
        };
        let safety_ratings = match v.get("safetyRatings") {
            None => None,
            Some(JsonValue::Null) => None,
            Some(JsonValue::Arr(items)) => {
                proof {
                    assert(deep_arr_from(*items, 0).skip(0) =~= deep_arr_from(*items, 0));
                }
                match ratings_from_json_from(items, 0) {
                    Some(rs) => Some(rs),
                    None => {
                        return None;
                    },
                }
            },
            Some(_) => {
                return None;
            },
        };
        Some(ResponseCandidate { content, finish_reason, index, safety_ratings })
    }
}

/// A full generation response.
#[derive(Debug, PartialEq, Eq)]
pub struct GenerateContentResponse {
    pub candidates: Vec<ResponseCandidate>,
    pub prompt_feedback: Option<PromptFeedback>,
    pub usage_metadata: Option<UsageMetadata>,
}

/// Model of a response.
pub struct ResponseV {
    pub candidates: Seq<CandV>,
    pub prompt_feedback: Option<FeedbackV>,
    pub usage_metadata: Option<UsageMetadata>,
}

/// The models of the candidates of `cs` from index `k` on.
pub open spec fn cands_deep_from(cs: Vec<ResponseCandidate>, k: int) -> Seq<CandV>
    decreases cs.len() - k,
{
    if k < 0 || k >= cs.len() {
        Seq::empty()
    } else {
        seq![cs[k].deep()] + cands_deep_from(cs, k + 1)
    }
}

/// `cands_deep_from` is the element-wise model of the tail of `cs`.
pub proof fn lemma_cands_deep_from(cs: Vec<ResponseCandidate>, k: int)
    requires
        0 <= k <= cs.len(),
    ensures
        cands_deep_from(cs, k).len() == cs.len() - k,
        forall|m: int| k <= m < cs.len() ==> cands_deep_from(cs, k)[m - k] == cs[m].deep(),
    decreases cs.len() - k,
{
    if k < cs.len() {
        lemma_cands_deep_from(cs, k + 1);
    }
}

impl GenerateContentResponse {
    /// The mathematical model of this response.
    pub open spec fn deep(self) -> ResponseV {
        ResponseV {
            candidates: cands_deep_from(self.candidates, 0),
            prompt_feedback: match self.prompt_feedback {
                Some(f) => Some(f.deep()),
                None => None,
            },
            usage_metadata: self.usage_metadata,
        }
    }
}

/// Decoding of a candidate array: every element must decode.
pub open spec fn parse_candidates(items: Seq<Jx>) -> Option<Seq<CandV>>
    decreases items.len(),
{
    if items.len() == 0 {
        Some(Seq::empty())
    } else {
        match parse_candidate(items[0]) {
            None => None,
            Some(c) => match parse_candidates(items.drop_first()) {
                None => None,
                Some(rest) => Some(seq![c] + rest),
            },
        }
    }
}

/// Unrolling `parse_candidates` at the front of a suffix.
proof fn lemma_parse_candidates_skip(s: Seq<Jx>, k: int)
    requires
        0 <= k < s.len(),
    ensures
        parse_candidates(s.skip(k)) == (match parse_candidate(s[k]) {
            None => None,
            Some(c) => match parse_candidates(s.skip(k + 1)) {
                None => None,
                Some(rest) => Some(seq![c] + rest),
            },
        }),
{
    assert(s.skip(k).len() > 0);
    assert(s.skip(k)[0] == s[k]);
    assert(s.skip(k).drop_first() =~= s.skip(k + 1));
}

/// Decodes the elements of `items` from index `k` on as candidates.
fn cands_from_json_from(items: &Vec<JsonValue>, k: usize) -> (r: Option<Vec<ResponseCandidate>>)
    requires
        k <= items@.len(),
    ensures
        r matches Some(cs) ==> parse_candidates(deep_arr_from(*items, 0).skip(k as int)) == Some(
            cands_deep_from(cs, 0),
        ),
        r is None ==> parse_candidates(deep_arr_from(*items, 0).skip(k as int)) is None,
    decreases items@.len() - k,
{
    proof {
        lemma_deep_arr_from(*items, 0);
    }
    let n = items.len();
    if k == n {
        let out: Vec<ResponseCandidate> = Vec::new();
        proof {
            assert(deep_arr_from(*items, 0).skip(k as int) =~= Seq::<Jx>::empty());
            assert(cands_deep_from(out, 0) =~= Seq::<CandV>::empty());
        }
        Some(out)
    } else {
        proof {
            lemma_parse_candidates_skip(deep_arr_from(*items, 0), k as int);
        }
        match ResponseCandidate::from_json(&items[k]) {
            None => None,
            Some(c) => match cands_from_json_from(items, k + 1) {
                None => None,
                Some(mut rest) => {
                    let ghost rest0 = rest;
                    rest.insert(0, c);
                    proof {
                        lemma_cands_deep_from(rest, 0);
                        lemma_cands_deep_from(rest0, 0);
                        assert forall|m: int| 0 <= m < rest@.len() implies cands_deep_from(
                            rest,
                            0,
                        )[m] == (seq![c.deep()] + cands_deep_from(rest0, 0))[m] by {
                            if m > 0 {
                                assert(rest@[m] == rest0@[m - 1]);
                            }
                        }
                        assert(cands_deep_from(rest, 0) =~= seq![c.deep()] + cands_deep_from(
                            rest0,
                            0,
                        ));
                    }
                    Some(rest)
                },
            },
        }
    }
}

/// Decoding of a full response: the candidate array is required, the
/// feedback and usage counts optional.
pub open spec fn parse_response(j: Jx) -> Option<ResponseV> {
    match get_field(j, "candidates"@) {
        Some(Jx::Arr(items)) => match parse_candidates(items) {
            Some(cands) => {
                let fb = match get_field(j, "promptFeedback"@) {
                    None => Some(None),
                    Some(Jx::Null) => Some(None),
                    Some(fj) => match parse_feedback(fj) {
                        Some(f) => Some(Some(f)),
                        None => None,
                    },
                };
                let um = match get_field(j, "usageMetadata"@) {
                    None => Some(None),
                    Some(Jx::Null) => Some(None),
                    Some(uj) => match parse_usage(uj) {
                        Some(u) => Some(Some(u)),
                        None => None,
                    },
                };
                match fb {
                    Some(prompt_feedback) => match um {
                        Some(usage_metadata) => Some(
                            ResponseV { candidates: cands, prompt_feedback, usage_metadata },
                        ),
                        None => None,
                    },
                    None => None,
                }
            },
            None => None,
        },
        _ => None,
    }
}

impl GenerateContentResponse {
    /// Decodes a response from its wire JSON.
    pub fn from_json(v: &JsonValue) -> (r: Option<GenerateContentResponse>)
        ensures
            r matches Some(resp) ==> parse_response(v.deep()) == Some(resp.deep()),
            r is None ==> parse_response(v.deep()) is None,
    {
        let candidates = match v.get("candidates") {
            Some(JsonValue::Arr(items)) => {
                proof {
                    assert(deep_arr_from(*items, 0).skip(0) =~= deep_arr_from(*items, 0));
                }
                match cands_from_json_from(items, 0) {
                    Some(cs) => cs,
                    None => {
                        return None;
                    },
                }
            },
            _ => {
                return None;
            },
        };
        let prompt_feedback = match v.get("promptFeedback") {
            None => None,
            Some(JsonValue::Null) => None,
            Some(fj) => match PromptFeedback::from_json(fj) {
                Some(f) => Some(f),
                None => {
                    return None;
                },
            },
        };
        let usage_metadata = match v.get("usageMetadata") {
            None => None,
            Some(JsonValue::Null) => None,
            Some(uj) => match UsageMetadata::from_json(uj) {
                Some(u) => Some(u),
                None => {
                    return None;
                },
            },
        };
        Some(GenerateContentResponse { candidates, prompt_feedback, usage_metadata })
    }

    /// The content of the first candidate, if there is one.  Later
    /// candidates are deliberately ignored by the conversation loop.
    pub fn content(&self) -> (r: Option<&Content>)
        ensures
            self.deep().candidates.len() == 0 ==> r is None,
            self.deep().candidates.len() > 0 ==> (r matches Some(c) && c.deep()
                == self.deep().candidates[0].content),
    {
        proof {
            lemma_cands_deep_from(self.candidates, 0);
        }
        if self.candidates.len() == 0 {
            None
        } else {
            Some(&self.candidates[0].content)
        }
    }

    /// The function calls of the first candidate, in the order the
    /// model emitted them; empty when there is no candidate.
    pub fn get_function_calls(&self) -> (r: Vec<&crate::message::FunctionCall>)
        ensures
            r@.len() == response_calls(self.deep()).len(),
            forall|m: int| 0 <= m < r@.len() ==> r@[m].deep() == response_calls(self.deep())[m],
    {
        match self.content() {
            Some(c) => c.parts().get_function_calls(),
            None => {
                let empty: Vec<&crate::message::FunctionCall> = Vec::new();
                empty
            },
        }
    }
}

/// The function calls of a response's first candidate.
pub open spec fn response_calls(r: ResponseV) -> Seq<crate::message::CallV> {
    if r.candidates.len() == 0 {
        Seq::empty()
    } else {
        crate::message::calls_of(r.candidates[0].content.parts)
    }
}

impl GenerateContentResponse {
    /// Dispatches every function call of the first candidate, in the
    /// order the model emitted them, and collects the responses into
    /// one new `User` turn, in that same order.  A response without
    /// calls yields nothing.
    pub fn invoke_functions<T: crate::tools::Tool>(&self, tools: &crate::tools::ToolBox<T>) -> (r:
        Option<Content>)
        ensures
            (response_calls(self.deep()).len() == 0) == (r is None),
            r matches Some(c) ==> {
                &&& c.deep().role == crate::message::Role::User
                &&& c.deep().parts.len() == response_calls(self.deep()).len()
                &&& forall|m: int| 0 <= m < response_calls(self.deep()).len() ==> (
                (#[trigger] c.deep().parts[m]) matches crate::message::PartV::FunctionResponse(fr)
                    && crate::tools::invoke_rel(
                    tools.deep(),
                    response_calls(self.deep())[m],
                    fr.name,
                    fr.response,
                ))
            },
    {
        let ghost cs = response_calls(self.deep());
        let calls = self.get_function_calls();
        if calls.len() == 0 {
            return None;
        }
        let mut content = Content::user();
        proof {
            crate::message::lemma_parts_deep_from(content.spec_parts().0, 0);
        }
        let n = calls.len();
        let mut i: usize = 0;
        while i < n
            invariant
                0 <= i <= n,
                n == calls@.len(),
                n == cs.len(),
                forall|m: int| 0 <= m < n ==> calls@[m].deep() == cs[m],
                content.spec_role() == crate::message::Role::User,
                content.spec_parts().0@.len() == i,
                forall|m: int| 0 <= m < i ==> ((#[trigger] content.spec_parts().0@[m]).deep()
                    matches crate::message::PartV::FunctionResponse(fr) && crate::tools::invoke_rel(
                    tools.deep(),
                    cs[m],
                    fr.name,
                    fr.response,
                )),
            decreases n - i,
        {
            let call = calls[i];
            let dup = crate::message::FunctionCall {
                name: call.name.clone(),
                args: match &call.args {
                    Some(a) => Some(a.deep_clone()),
                    None => None,
                },
            };
            proof {
                assert(dup.deep() == calls@[i as int].deep());
            }
            let resp = tools.invoke(dup);
            content.push_part(crate::message::Part::FunctionResponse(resp));
            i = i + 1;
        }
        proof {
            crate::message::lemma_parts_deep_from(content.spec_parts().0, 0);
            assert forall|m: int| 0 <= m < n implies ((#[trigger] content.deep().parts[m]) matches
                crate::message::PartV::FunctionResponse(fr) && crate::tools::invoke_rel(
                tools.deep(),
                cs[m],
                fr.name,
                fr.response,
            )) by {
                assert(content.deep().parts[m] == content.spec_parts().0@[m].deep());
            }
        }
        Some(content)
    }
}

} // verus!
