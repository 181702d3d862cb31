//! Safety configuration value objects, safety ratings, and the model
//! name enumeration, with their wire spellings.

use vstd::prelude::*;

use crate::json::get_field;
use crate::json::json_obj2;
use crate::json::json_str;
use crate::json::obj2;
use crate::json::JsonValue;
use crate::json::Jx;
use crate::strutil::str_eq;

verus! {

/// The models that can be addressed by name.
#[derive(Debug, Clone, Copy, PartialEq, Eq, Structural)]
pub enum Model {
    Gemini15Flash,
    Gemini15FlashLatest,
    Gemini15Pro,
    Gemini15ProLatest,
    GeminiPro,
    GeminiProVision,
    Embedding001,
    EmbeddingGecko001,
    TextEmbedding004,
}

/// The wire name of a model.
pub open spec fn model_name(m: Model) -> Seq<char> {
    match m {
        Model::Gemini15Flash => "gemini-1.5-flash"@,
        Model::Gemini15FlashLatest => "gemini-1.5-flash-latest"@,
        Model::Gemini15Pro => "gemini-1.5-pro"@,
        Model::Gemini15ProLatest => "gemini-1.5-pro-latest"@,
        Model::GeminiPro => "gemini-pro"@,
        Model::GeminiProVision => "gemini-pro-vision"@,
        Model::Embedding001 => "embedding-001"@,
        Model::EmbeddingGecko001 => "embedding-gecko-001"@,
        Model::TextEmbedding004 => "text-embedding-004"@,
    }
}

impl Model {
    /// The wire name of this model.
    pub fn as_str(&self) -> (r: &'static str)
        ensures
            r@ == model_name(*self),
    {
        match self {
            Model::Gemini15Flash => "gemini-1.5-flash",
            Model::Gemini15FlashLatest => "gemini-1.5-flash-latest",
            Model::Gemini15Pro => "gemini-1.5-pro",
            Model::Gemini15ProLatest => "gemini-1.5-pro-latest",
            Model::GeminiPro => "gemini-pro",
            Model::GeminiProVision => "gemini-pro-vision",
            Model::Embedding001 => "embedding-001",
            Model::EmbeddingGecko001 => "embedding-gecko-001",
            Model::TextEmbedding004 => "text-embedding-004",
        }
    }
}

/// A category of content that generation can be screened for.
#[derive(Debug, Clone, Copy, PartialEq, Eq, Structural)]
pub enum HarmCategory {
    HarmCategoryUnspecified,
    HarmCategoryDerogatory,
    HarmCategoryToxicity,
    HarmCategoryViolence,
    HarmCategorySexual,
    HarmCategoryMedical,
    HarmCategoryDangerous,
    HarmCategoryHarassment,
    HarmCategoryHateSpeech,
    HarmCategorySexuallyExplicit,
    HarmCategoryDangerousContent,
}

/// The wire spelling of a harm category.
pub open spec fn category_name(c: HarmCategory) -> Seq<char> {
    match c {
        HarmCategory::HarmCategoryUnspecified => "HARM_CATEGORY_UNSPECIFIED"@,
        HarmCategory::HarmCategoryDerogatory => "HARM_CATEGORY_DEROGATORY"@,
        HarmCategory::HarmCategoryToxicity => "HARM_CATEGORY_TOXICITY"@,
        HarmCategory::HarmCategoryViolence => "HARM_CATEGORY_VIOLENCE"@,
        HarmCategory::HarmCategorySexual => "HARM_CATEGORY_SEXUAL"@,
        HarmCategory::HarmCategoryMedical => "HARM_CATEGORY_MEDICAL"@,
        HarmCategory::HarmCategoryDangerous => "HARM_CATEGORY_DANGEROUS"@,
        HarmCategory::HarmCategoryHarassment => "HARM_CATEGORY_HARASSMENT"@,
        HarmCategory::HarmCategoryHateSpeech => "HARM_CATEGORY_HATE_SPEECH"@,
        HarmCategory::HarmCategorySexuallyExplicit => "HARM_CATEGORY_SEXUALLY_EXPLICIT"@,
        HarmCategory::HarmCategoryDangerousContent => "HARM_CATEGORY_DANGEROUS_CONTENT"@,
    }
}

impl HarmCategory {
    /// The wire spelling of this category.
    pub fn as_str(&self) -> (r: &'static str)
        ensures
            r@ == category_name(*self),
    {
        match self {
            HarmCategory::HarmCategoryUnspecified => "HARM_CATEGORY_UNSPECIFIED",
            HarmCategory::HarmCategoryDerogatory => "HARM_CATEGORY_DEROGATORY",
            HarmCategory::HarmCategoryToxicity => "HARM_CATEGORY_TOXICITY",
            HarmCategory::HarmCategoryViolence => "HARM_CATEGORY_VIOLENCE",
            HarmCategory::HarmCategorySexual => "HARM_CATEGORY_SEXUAL",
            HarmCategory::HarmCategoryMedical => "HARM_CATEGORY_MEDICAL",
            HarmCategory::HarmCategoryDangerous => "HARM_CATEGORY_DANGEROUS",
            HarmCategory::HarmCategoryHarassment => "HARM_CATEGORY_HARASSMENT",
            HarmCategory::HarmCategoryHateSpeech => "HARM_CATEGORY_HATE_SPEECH",
            HarmCategory::HarmCategorySexuallyExplicit => "HARM_CATEGORY_SEXUALLY_EXPLICIT",
            HarmCategory::HarmCategoryDangerousContent => "HARM_CATEGORY_DANGEROUS_CONTENT",
        }
    }

    /// Decodes a category from its wire spelling.
    pub fn from_name(s: &str) -> (r: Option<HarmCategory>)
        ensures
            r == parse_category(s@),
    {
        if str_eq(s, "HARM_CATEGORY_UNSPECIFIED") {
            Some(HarmCategory::HarmCategoryUnspecified)
        } else if str_eq(s, "HARM_CATEGORY_DEROGATORY") {
            Some(HarmCategory::HarmCategoryDerogatory)
        } else if str_eq(s, "HARM_CATEGORY_TOXICITY") {
            Some(HarmCategory::HarmCategoryToxicity)
        } else if str_eq(s, "HARM_CATEGORY_VIOLENCE") {
            Some(HarmCategory::HarmCategoryViolence)
        } else if str_eq(s, "HARM_CATEGORY_SEXUAL") {
            Some(HarmCategory::HarmCategorySexual)
        } else if str_eq(s, "HARM_CATEGORY_MEDICAL") {
            Some(HarmCategory::HarmCategoryMedical)
        } else if str_eq(s, "HARM_CATEGORY_DANGEROUS") {
            Some(HarmCategory::HarmCategoryDangerous)
        } else if str_eq(s, "HARM_CATEGORY_HARASSMENT") {
            Some(HarmCategory::HarmCategoryHarassment)
        } else if str_eq(s, "HARM_CATEGORY_HATE_SPEECH") {
            Some(HarmCategory::HarmCategoryHateSpeech)
        } else if str_eq(s, "HARM_CATEGORY_SEXUALLY_EXPLICIT") {
            Some(HarmCategory::HarmCategorySexuallyExplicit)
        } else if str_eq(s, "HARM_CATEGORY_DANGEROUS_CONTENT") {
            Some(HarmCategory::HarmCategoryDangerousContent)
        } else {
            None
        }
    }
}

/// Decoding of a harm category from its wire spelling.
pub open spec fn parse_category(s: Seq<char>) -> Option<HarmCategory> {
    if s == "HARM_CATEGORY_UNSPECIFIED"@ {
        Some(HarmCategory::HarmCategoryUnspecified)
    } else if s == "HARM_CATEGORY_DEROGATORY"@ {
        Some(HarmCategory::HarmCategoryDerogatory)
    } else if s == "HARM_CATEGORY_TOXICITY"@ {
        Some(HarmCategory::HarmCategoryToxicity)
    } else if s == "HARM_CATEGORY_VIOLENCE"@ {
        Some(HarmCategory::HarmCategoryViolence)
    } else if s == "HARM_CATEGORY_SEXUAL"@ {
        Some(HarmCategory::HarmCategorySexual)
    } else if s == "HARM_CATEGORY_MEDICAL"@ {
        Some(HarmCategory::HarmCategoryMedical)
    } else if s == "HARM_CATEGORY_DANGEROUS"@ {
        Some(HarmCategory::HarmCategoryDangerous)
    } else if s == "HARM_CATEGORY_HARASSMENT"@ {
        Some(HarmCategory::HarmCategoryHarassment)
    } else if s == "HARM_CATEGORY_HATE_SPEECH"@ {
        Some(HarmCategory::HarmCategoryHateSpeech)
    } else if s == "HARM_CATEGORY_SEXUALLY_EXPLICIT"@ {
        Some(HarmCategory::HarmCategorySexuallyExplicit)
    } else if s == "HARM_CATEGORY_DANGEROUS_CONTENT"@ {
        Some(HarmCategory::HarmCategoryDangerousContent)
    } else {
        None
    }
}

/// How much screened content a threshold blocks.
#[derive(Debug, Clone, Copy, PartialEq, Eq, Structural)]
pub enum HarmBlockThreshold {
    HarmBlockThresholdUnspecified,
    BlockLowAndAbove,
    BlockMediumAndAbove,
    BlockOnlyHigh,
    BlockNone,
}

/// The wire spelling of a block threshold.
pub open spec fn threshold_name(t: HarmBlockThreshold) -> Seq<char> {
    match t {
        HarmBlockThreshold::HarmBlockThresholdUnspecified => "HARM_BLOCK_THRESHOLD_UNSPECIFIED"@,
        HarmBlockThreshold::BlockLowAndAbove => "BLOCK_LOW_AND_ABOVE"@,
        HarmBlockThreshold::BlockMediumAndAbove => "BLOCK_MEDIUM_AND_ABOVE"@,
        HarmBlockThreshold::BlockOnlyHigh => "BLOCK_ONLY_HIGH"@,
        HarmBlockThreshold::BlockNone => "BLOCK_NONE"@,
    }
}

impl HarmBlockThreshold {
    /// The wire spelling of this threshold.
    pub fn as_str(&self) -> (r: &'static str)
        ensures
            r@ == threshold_name(*self),
    {
        match self {
            HarmBlockThreshold::HarmBlockThresholdUnspecified => "HARM_BLOCK_THRESHOLD_UNSPECIFIED"
            ,
            HarmBlockThreshold::BlockLowAndAbove => "BLOCK_LOW_AND_ABOVE",
            HarmBlockThreshold::BlockMediumAndAbove => "BLOCK_MEDIUM_AND_ABOVE",
            HarmBlockThreshold::BlockOnlyHigh => "BLOCK_ONLY_HIGH",
            HarmBlockThreshold::BlockNone => "BLOCK_NONE",
        }
    }
}

/// One safety setting: a category with its block threshold.
#[derive(Debug, Clone, Copy, PartialEq, Eq, Structural)]
pub struct SafetySetting {
    pub category: HarmCategory,
    pub threshold: HarmBlockThreshold,
}

impl SafetySetting {
    /// A setting for the given category and threshold.
    pub fn of(category: HarmCategory, threshold: HarmBlockThreshold) -> (r: SafetySetting)
        ensures
            r == (SafetySetting { category, threshold }),
    {
        SafetySetting { category, threshold }
    }

    /// The wire JSON of this setting.
    pub fn to_json(&self) -> (r: JsonValue)
        ensures
            r.deep() == setting_jx(*self),
    {
        json_obj2(
            "category",
            json_str(self.category.as_str()),
            "threshold",
            json_str(self.threshold.as_str()),
        )
    }
}

/// The wire JSON of a safety setting.
pub open spec fn setting_jx(s: SafetySetting) -> Jx {
    obj2(
        "category"@,
        Jx::Str(category_name(s.category)),
        "threshold"@,
        Jx::Str(threshold_name(s.threshold)),
    )
}

/// The wire JSON of the settings of `s` from index `k` on.
pub open spec fn settings_jx_from(s: Seq<SafetySetting>, k: int) -> Seq<Jx>
    decreases s.len() - k,
{
    if k < 0 || k >= s.len() {
        Seq::empty()
    } else {
        seq![setting_jx(s[k])] + settings_jx_from(s, k + 1)
    }
}

/// The ordered list of safety settings sent with a request.
#[derive(Debug, PartialEq, Eq)]
pub struct SafetySettings(pub Vec<SafetySetting>);

impl SafetySettings {
    /// These settings with one more category added at the end.
    pub fn with_category(self, category: HarmCategory, threshold: HarmBlockThreshold) -> (r:
        SafetySettings)
        ensures
            r.0@ == self.0@.push(SafetySetting { category, threshold }),
    {
        let mut v = self.0;
        v.push(SafetySetting { category, threshold });
        SafetySettings(v)
    }

    /// The wire JSON of these settings: an array in order.
    pub fn to_json(&self) -> (r: JsonValue)
        ensures
            r.deep() == Jx::Arr(settings_jx_from(self.0@, 0)),
    {
        let n = self.0.len();
        let mut out: Vec<JsonValue> = Vec::new();
        let mut i: usize = 0;
        while i < n
            invariant
                0 <= i <= n,
                n == self.0@.len(),
                out@.len() == i,
                forall|m: int| 0 <= m < i ==> out@[m].deep() == setting_jx(#[trigger] self.0@[m]),
            decreases n - i,
        {
            out.push(self.0[i].to_json());
            i = i + 1;
        }
        proof {
            crate::json::lemma_deep_arr_from(out, 0);
            lemma_settings_jx_from(self.0@, 0);
            assert forall|m: int| 0 <= m < n implies crate::json::deep_arr_from(out, 0)[m]
                == settings_jx_from(self.0@, 0)[m] by {
                assert(out@[m].deep() == setting_jx(self.0@[m]));
                assert(settings_jx_from(self.0@, 0)[m] == setting_jx(self.0@[m]));
            }
            assert(crate::json::deep_arr_from(out, 0) =~= settings_jx_from(self.0@, 0));
        }
        JsonValue::Arr(out)
    }
}

/// `settings_jx_from` is the element-wise rendering of the tail of `s`.
pub proof fn lemma_settings_jx_from(s: Seq<SafetySetting>, k: int)
    requires
        0 <= k <= s.len(),
    ensures
        settings_jx_from(s, k).len() == s.len() - k,
        forall|m: int| k <= m < s.len() ==> settings_jx_from(s, k)[m - k] == setting_jx(s[m]),
    decreases s.len() - k,
{
    if k < s.len() {
        lemma_settings_jx_from(s, k + 1);
    }
}

impl core::default::Default for SafetySettings {
    /// The default screen: harassment, hate speech, sexually explicit
    /// and dangerous content, each left unblocked.
    fn default() -> (r: SafetySettings)
        ensures
            r.0@ == Seq::empty().push(
                SafetySetting {
                    category: HarmCategory::HarmCategoryHarassment,
                    threshold: HarmBlockThreshold::BlockNone,
                },
            ).push(
                SafetySetting {
                    category: HarmCategory::HarmCategoryHateSpeech,
                    threshold: HarmBlockThreshold::BlockNone,
                },
            ).push(
                SafetySetting {
                    category: HarmCategory::HarmCategorySexuallyExplicit,
                    threshold: HarmBlockThreshold::BlockNone,
                },
            ).push(
                SafetySetting {
                    category: HarmCategory::HarmCategoryDangerousContent,
                    threshold: HarmBlockThreshold::BlockNone,
                },
            ),
    {
        let r = SafetySettings(Vec::new()).with_category(
            HarmCategory::HarmCategoryHarassment,
            HarmBlockThreshold::BlockNone,
        ).with_category(
            HarmCategory::HarmCategoryHateSpeech,
            HarmBlockThreshold::BlockNone,
        ).with_category(
            HarmCategory::HarmCategorySexuallyExplicit,
            HarmBlockThreshold::BlockNone,
        ).with_category(
            HarmCategory::HarmCategoryDangerousContent,
            HarmBlockThreshold::BlockNone,
        );
        proof {
            assert(r.0@ =~= Seq::empty().push(
                SafetySetting {
                    category: HarmCategory::HarmCategoryHarassment,
                    threshold: HarmBlockThreshold::BlockNone,
                },
            ).push(
                SafetySetting {
                    category: HarmCategory::HarmCategoryHateSpeech,
                    threshold: HarmBlockThreshold::BlockNone,
                },
            ).push(
                SafetySetting {
                    category: HarmCategory::HarmCategorySexuallyExplicit,
                    threshold: HarmBlockThreshold::BlockNone,
                },
            ).push(
                SafetySetting {
                    category: HarmCategory::HarmCategoryDangerousContent,
                    threshold: HarmBlockThreshold::BlockNone,
                },
            ));
        }
        r
    }
}

/// A safety rating attached to a candidate or to prompt feedback.
#[derive(Debug, PartialEq, Eq)]
pub struct SafetyRating {
    pub category: HarmCategory,
    pub probability: String,
}

/// Model of a safety rating.
pub struct RatingV {
    pub category: HarmCategory,
    pub probability: Seq<char>,
}

impl SafetyRating {
    /// The mathematical model of this rating.
    pub open spec fn deep(self) -> RatingV {
        RatingV { category: self.category, probability: self.probability@ }
    }

    /// Decodes a rating from its wire JSON: a category spelling and a
    /// probability string, both required.
    pub fn from_json(v: &JsonValue) -> (r: Option<SafetyRating>)
        ensures
            r matches Some(sr) ==> parse_rating(v.deep()) == Some(sr.deep()),
            r is None ==> parse_rating(v.deep()) is None,
    {
        let category = match v.get("category") {
            Some(JsonValue::Str(s)) => match HarmCategory::from_name(s.as_str()) {
                Some(c) => c,
                None => {
                    return None;
                },
            },
            _ => {
                return None;
            },
        };
        let probability = match v.get("probability") {
            Some(JsonValue::Str(s)) => s.clone(),
            _ => {
                return None;
            },
        };
        Some(SafetyRating { category, probability })
    }
}

/// Decoding of a safety rating from its wire JSON.
pub open spec fn parse_rating(j: Jx) -> Option<RatingV> {
    match get_field(j, "category"@) {
        Some(Jx::Str(cs)) => match parse_category(cs) {
            Some(c) => match get_field(j, "probability"@) {
                Some(Jx::Str(p)) => Some(RatingV { category: c, probability: p }),
                _ => None,
            },
            None => None,
        },
        _ => None,
    }
}

} // verus!
