//! The pipeline's configuration: defaults, and the interpretation of
//! the raw text values the environment hands in.

use vstd::prelude::*;

use crate::events::PipelineError;
use crate::retry::PipelineSettings;

verus! {

use vstd::string::StrSliceExecFns;
use vstd::string::StringExecFns;

/// The character is a decimal digit.
pub open spec fn is_digit(c: char) -> bool {
    '0' <= c && c <= '9'
}

/// The digit's numeric value.
pub open spec fn digit_val(c: char) -> int {
    c as int - '0' as int
}

/// Every character of the text is a decimal digit.
pub open spec fn all_digits(s: Seq<char>) -> bool {
    forall|i: int| 0 <= i < s.len() ==> is_digit(#[trigger] s[i])
}

/// The number the digit string denotes.
pub open spec fn dec_value(s: Seq<char>) -> int
    decreases s.len(),
{
    if s.len() == 0 {
        0
    } else {
        dec_value(s.drop_last()) * 10 + digit_val(s.last())
    }
}

/// A digit string denotes a non-negative number.
proof fn lemma_dec_value_nonneg(s: Seq<char>)
    requires
        all_digits(s),
    ensures
        dec_value(s) >= 0,
    decreases s.len(),
{
    if s.len() > 0 {
        assert(all_digits(s.drop_last())) by {
            assert(forall|i: int|
                0 <= i < s.len() - 1 ==> s.drop_last()[i] == #[trigger] s[i]);
        }
        lemma_dec_value_nonneg(s.drop_last());
    }
}

/// Longer digit prefixes denote numbers at least as large.
proof fn lemma_dec_value_prefix_le(s: Seq<char>, i: int)
    requires
        all_digits(s),
        0 <= i <= s.len(),
    ensures
        dec_value(s.take(i)) <= dec_value(s),
    decreases s.len() - i,
{
    if i < s.len() {
        lemma_dec_value_prefix_le(s, i + 1);
        assert(s.take(i + 1).drop_last() =~= s.take(i));
        assert(s.take(i + 1).last() == s[i]);
        assert(all_digits(s.take(i))) by {
            assert(forall|k: int| 0 <= k < i ==> s.take(i)[k] == #[trigger] s[k]);
        }
        lemma_dec_value_nonneg(s.take(i));
        assert(is_digit(s[i]));
    } else {
        assert(s.take(i) =~= s);
    }
}

/// Parse a decimal number. Succeeds exactly on non-empty all-digit
/// strings whose value fits in a `u64`, and then returns that value.
pub fn parse_u64(s: &str) -> (r: Option<u64>)
    ensures
        r is Some <==> s@.len() > 0 && all_digits(s@) && dec_value(s@) <= u64::MAX,
        r matches Some(v) ==> v == dec_value(s@),
{
    let n = s.unicode_len();
    if n == 0 {
        return None;
    }
    let mut value: u64 = 0;
    let mut i: usize = 0;
    proof {
        assert(dec_value(s@.take(0)) == 0);
    }
    while i < n
        invariant
            i <= n == s@.len(),
            all_digits(s@.take(i as int)),
            value == dec_value(s@.take(i as int)),
        decreases n - i,
    {
        let c = s.get_char(i);
        proof {
            assert(s@.take(i + 1).drop_last() =~= s@.take(i as int));
            assert(s@.take(i + 1).last() == s@[i as int]);
            assert(forall|k: int|
                0 <= k < i + 1 ==> s@.take(i + 1)[k] == #[trigger] s@.take(i + 1)[k]);
        }
        if !(c >= '0' && c <= '9') {
            proof {
                assert(!all_digits(s@));
            }
            return None;
        }
        let d: u64 = (c as u32 - 48) as u64;
        let wide: u128 = value as u128 * 10 + d as u128;
        if wide > u64::MAX as u128 {
            proof {
                assert(all_digits(s@.take(i + 1))) by {
                    assert(forall|k: int|
                        0 <= k < i ==> s@.take(i + 1)[k] == #[trigger] s@.take(i as int)[k]);
                }
                if all_digits(s@) {
                    lemma_dec_value_prefix_le(s@, i + 1);
                }
            }
            return None;
        }
        value = wide as u64;
        proof {
            assert(all_digits(s@.take(i + 1))) by {
                assert(forall|k: int|
                    0 <= k < i ==> s@.take(i + 1)[k] == #[trigger] s@.take(i as int)[k]);
            }
        }
        i = i + 1;
    }
    proof {
        assert(s@.take(n as int) =~= s@);
    }
    Some(value)
}

/// The whole configuration of a run, with every value a plain integer
/// or text. Judge cutoffs are thousandths of the unit score.
#[derive(Debug, Clone)]
pub struct Config {
    pub run_id: String,
    pub log_level: String,
    pub user_name: String,
    pub user_password: String,
    pub judge_score_levenshtein: Option<u32>,
    pub judge_score_llm: Option<u32>,
    pub listen_port: u32,
    pub search_timeout_secs: u64,
    pub max_search_timeout_secs: u64,
    pub max_search_retries: u8,
    pub max_judge_retries: u8,
    pub max_download_retries: u8,
    pub base_backoff_secs: u64,
    pub max_backoff_secs: u64,
    pub max_concurrent_searches: usize,
    pub max_concurrent_judges: usize,
    pub max_concurrent_downloads: usize,
}

/// The raw environment values, one optional text per key. Whoever reads
/// the process environment fills this in; absent keys fall back to the
/// documented defaults. The judge cutoffs arrive already converted to
/// thousandths.
#[derive(Debug, Clone, Default)]
pub struct EnvValues {
    pub run_id: Option<String>,
    pub log_level: Option<String>,
    pub user_name: Option<String>,
    pub user_password: Option<String>,
    pub judge_score_levenshtein: Option<u32>,
    pub judge_score_llm: Option<u32>,
    pub listen_port: Option<String>,
    pub search_timeout_secs: Option<String>,
    pub max_search_timeout_secs: Option<String>,
    pub max_search_retries: Option<String>,
    pub max_judge_retries: Option<String>,
    pub max_download_retries: Option<String>,
    pub base_backoff_secs: Option<String>,
    pub max_backoff_secs: Option<String>,
    pub max_concurrent_searches: Option<String>,
    pub max_concurrent_judges: Option<String>,
    pub max_concurrent_downloads: Option<String>,
}

/// The raw text, when present, denotes a number no larger than `bound`.
pub open spec fn numeric_or_absent(value: Option<String>, bound: int) -> bool {
    match value {
        Option::None => true,
        Option::Some(s) => s@.len() > 0 && all_digits(s@) && dec_value(s@) <= bound,
    }
}

/// The number the raw text denotes, or the default when absent.
pub open spec fn numeric_or_default(value: Option<String>, default: int) -> int {
    match value {
        Option::None => default,
        Option::Some(s) => dec_value(s@),
    }
}

/// Interpret one optional numeric value against a default, bounded.
fn parse_bounded(value: &Option<String>, default: u64, bound: u64, key: &str) -> (r: Result<
    u64,
    PipelineError,
>)
    ensures
        r is Ok <==> numeric_or_absent(*value, bound as int),
        r matches Ok(v) ==> v == numeric_or_default(*value, default as int),
{
    match value {
        Option::None => Ok(default),
        Option::Some(s) => {
            match parse_u64(s.as_str()) {
                Option::Some(v) => {
                    if v <= bound {
                        Ok(v)
                    } else {
                        Err(PipelineError::InvalidConfigValue(String::from_str(key)))
                    }
                },
                Option::None => Err(PipelineError::InvalidConfigValue(String::from_str(key))),
            }
        },
    }
}

/// Take the value, or the default when absent.
fn text_or(value: Option<String>, default: &str) -> (r: String)
    ensures
        value matches Some(s) ==> r == s,
        value is None ==> r@ == default@,
{
    match value {
        Option::Some(s) => s,
        Option::None => String::from_str(default),
    }
}

impl Config {
    /// Interpret the raw environment against the documented defaults.
    /// Fails exactly when a present numeric value is not a number or
    /// does not fit its key's type.
    pub fn from_env_values(values: EnvValues) -> (r: Result<Config, PipelineError>)
        ensures
            r is Ok <==> {
                &&& numeric_or_absent(values.listen_port, u32::MAX as int)
                &&& numeric_or_absent(values.search_timeout_secs, u64::MAX as int)
                &&& numeric_or_absent(values.max_search_timeout_secs, u64::MAX as int)
                &&& numeric_or_absent(values.max_search_retries, u8::MAX as int)
                &&& numeric_or_absent(values.max_judge_retries, u8::MAX as int)
                &&& numeric_or_absent(values.max_download_retries, u8::MAX as int)
                &&& numeric_or_absent(values.base_backoff_secs, u64::MAX as int)
                &&& numeric_or_absent(values.max_backoff_secs, u64::MAX as int)
                &&& numeric_or_absent(values.max_concurrent_searches, usize::MAX as int)
                &&& numeric_or_absent(values.max_concurrent_judges, usize::MAX as int)
                &&& numeric_or_absent(values.max_concurrent_downloads, usize::MAX as int)
            },
            r matches Ok(c) ==> {
                &&& values.run_id matches Some(s) ==> c.run_id == s
                &&& values.run_id is None ==> c.run_id@ == "default_run_name"@
                &&& values.log_level matches Some(s) ==> c.log_level == s
                &&& values.log_level is None ==> c.log_level@ == "debug"@
                &&& values.user_name matches Some(s) ==> c.user_name == s
                &&& values.user_name is None ==> c.user_name@ == "default"@
                &&& values.user_password matches Some(s) ==> c.user_password == s
                &&& values.user_password is None ==> c.user_password@ == "123456"@
                &&& c.judge_score_levenshtein == values.judge_score_levenshtein
                &&& c.judge_score_llm == values.judge_score_llm
                &&& c.listen_port == numeric_or_default(values.listen_port, 3124)
                &&& c.search_timeout_secs == numeric_or_default(values.search_timeout_secs, 10)
                &&& c.max_search_timeout_secs == numeric_or_default(
                    values.max_search_timeout_secs,
                    120,
                )
                &&& c.max_search_retries == numeric_or_default(values.max_search_retries, 2)
                &&& c.max_judge_retries == numeric_or_default(values.max_judge_retries, 2)
                &&& c.max_download_retries == numeric_or_default(values.max_download_retries, 2)
                &&& c.base_backoff_secs == numeric_or_default(values.base_backoff_secs, 5)
                &&& c.max_backoff_secs == numeric_or_default(values.max_backoff_secs, 60)
                &&& c.max_concurrent_searches == numeric_or_default(
                    values.max_concurrent_searches,
                    4,
                )
                &&& c.max_concurrent_judges == numeric_or_default(values.max_concurrent_judges, 8)
                &&& c.max_concurrent_downloads == numeric_or_default(
                    values.max_concurrent_downloads,
                    2,
                )
            },
    {
        let run_id = text_or(values.run_id, "default_run_name");
        let log_level = text_or(values.log_level, "debug");
        let user_name = text_or(values.user_name, "default");
        let user_password = text_or(values.user_password, "123456");
        let listen_port = parse_bounded(&values.listen_port, 3124, u32::MAX as u64, "LISTEN_PORT")?;
        let search_timeout_secs = parse_bounded(
            &values.search_timeout_secs,
            10,
            u64::MAX,
            "SEARCH_TIMEOUT_SECS",
        )?;
        let max_search_timeout_secs = parse_bounded(
            &values.max_search_timeout_secs,
            120,
            u64::MAX,
            "MAX_SEARCH_TIMEOUT_SECS",
        )?;
        let max_search_retries = parse_bounded(
            &values.max_search_retries,
            2,
            u8::MAX as u64,
            "MAX_SEARCH_RETRIES",
        )?;
        let max_judge_retries = parse_bounded(
            &values.max_judge_retries,
            2,
            u8::MAX as u64,
            "MAX_JUDGE_RETRIES",
        )?;
        let max_download_retries = parse_bounded(
            &values.max_download_retries,
            2,
            u8::MAX as u64,
            "MAX_DOWNLOAD_RETRIES",
        )?;
        let base_backoff_secs = parse_bounded(
            &values.base_backoff_secs,
            5,
            u64::MAX,
            "BASE_BACKOFF_SECS",
        )?;
        let max_backoff_secs = parse_bounded(
            &values.max_backoff_secs,
            60,
            u64::MAX,
            "MAX_BACKOFF_SECS",
        )?;
        let max_concurrent_searches = parse_bounded(
            &values.max_concurrent_searches,
            4,
            usize::MAX as u64,
            "MAX_CONCURRENT_SEARCHES",
        )?;
        let max_concurrent_judges = parse_bounded(
            &values.max_concurrent_judges,
            8,
            usize::MAX as u64,
            "MAX_CONCURRENT_JUDGES",
        )?;
        let max_concurrent_downloads = parse_bounded(
            &values.max_concurrent_downloads,
            2,
            usize::MAX as u64,
            "MAX_CONCURRENT_DOWNLOADS",
        )?;
        Ok(
            Config {
                run_id,
                log_level,
                user_name,
                user_password,
                judge_score_levenshtein: values.judge_score_levenshtein,
                judge_score_llm: values.judge_score_llm,
                listen_port: listen_port as u32,
                search_timeout_secs,
                max_search_timeout_secs,
                max_search_retries: max_search_retries as u8,
                max_judge_retries: max_judge_retries as u8,
                max_download_retries: max_download_retries as u8,
                base_backoff_secs,
                max_backoff_secs,
                max_concurrent_searches: max_concurrent_searches as usize,
                max_concurrent_judges: max_concurrent_judges as usize,
                max_concurrent_downloads: max_concurrent_downloads as usize,
            },
        )
    }

    /// Assemble a configuration from already-typed values.
    pub fn new(
        log_level: String,
        user_name: String,
        user_password: String,
        judge_score_levenshtein: Option<u32>,
        judge_score_llm: Option<u32>,
        listen_port: u32,
        search_timeout_secs: u64,
        max_search_timeout_secs: u64,
        max_search_retries: u8,
        max_judge_retries: u8,
        max_download_retries: u8,
        base_backoff_secs: u64,
        max_backoff_secs: u64,
        max_concurrent_searches: usize,
        max_concurrent_judges: usize,
        max_concurrent_downloads: usize,
        run_id: String,
    ) -> (r: Config)
        ensures
            r.run_id == run_id,
            r.log_level == log_level,
            r.user_name == user_name,
            r.user_password == user_password,
            r.judge_score_levenshtein == judge_score_levenshtein,
            r.judge_score_llm == judge_score_llm,
            r.listen_port == listen_port,
            r.search_timeout_secs == search_timeout_secs,
            r.max_search_timeout_secs == max_search_timeout_secs,
            r.max_search_retries == max_search_retries,
            r.max_judge_retries == max_judge_retries,
            r.max_download_retries == max_download_retries,
            r.base_backoff_secs == base_backoff_secs,
            r.max_backoff_secs == max_backoff_secs,
            r.max_concurrent_searches == max_concurrent_searches,
            r.max_concurrent_judges == max_concurrent_judges,
            r.max_concurrent_downloads == max_concurrent_downloads,
    {
        Config {
            run_id,
            log_level,
            user_name,
            user_password,
            judge_score_levenshtein,
            judge_score_llm,
            listen_port,
            search_timeout_secs,
            max_search_timeout_secs,
            max_search_retries,
            max_judge_retries,
            max_download_retries,
            base_backoff_secs,
            max_backoff_secs,
            max_concurrent_searches,
            max_concurrent_judges,
            max_concurrent_downloads,
        }
    }

    /// The numeric knobs the coordinator and the retry policy read.
    pub fn settings(&self) -> (r: PipelineSettings)
        ensures
            r.search_timeout_secs == self.search_timeout_secs,
            r.max_search_timeout_secs == self.max_search_timeout_secs,
            r.max_search_retries == self.max_search_retries,
            r.max_judge_retries == self.max_judge_retries,
            r.max_download_retries == self.max_download_retries,
            r.base_backoff_secs == self.base_backoff_secs,
            r.max_backoff_secs == self.max_backoff_secs,
            r.max_concurrent_searches == self.max_concurrent_searches,
            r.max_concurrent_judges == self.max_concurrent_judges,
            r.max_concurrent_downloads == self.max_concurrent_downloads,
    {
        PipelineSettings {
            search_timeout_secs: self.search_timeout_secs,
            max_search_timeout_secs: self.max_search_timeout_secs,
            max_search_retries: self.max_search_retries,
            max_judge_retries: self.max_judge_retries,
            max_download_retries: self.max_download_retries,
            base_backoff_secs: self.base_backoff_secs,
            max_backoff_secs: self.max_backoff_secs,
            max_concurrent_searches: self.max_concurrent_searches,
            max_concurrent_judges: self.max_concurrent_judges,
            max_concurrent_downloads: self.max_concurrent_downloads,
        }
    }
}

} // verus!
