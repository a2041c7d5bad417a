//! The decisions of the autoregressive generation loop: its limits, when it
//! stops, and when a finished generation is run again.
use vstd::prelude::*;

verus! {

/// How many steps a generation may take and how many solver steps each takes.
#[derive(Clone, Copy, Debug, PartialEq, Eq, Structural)]
pub struct GenerationLimits {
    pub min_len: usize,
    pub max_len: usize,
    pub inference_timesteps: usize,
}

/// The limits asked for, with 2 steps before a stop is heeded, at most 2000 steps,
/// and 10 solver steps by default.
pub fn generation_limits(min_len: Option<usize>, max_len: Option<usize>, inference_timesteps: Option<usize>) -> (r: GenerationLimits)
    ensures
        r.min_len == (match min_len { Some(v) => v, None => 2 }),
        r.max_len == (match max_len { Some(v) => v, None => 2000 }),
        r.inference_timesteps == (match inference_timesteps { Some(v) => v, None => 10 }),
{
    GenerationLimits {
        min_len: match min_len { Some(v) => v, None => 2 },
        max_len: match max_len { Some(v) => v, None => 2000 },
        inference_timesteps: match inference_timesteps { Some(v) => v, None => 10 },
    }
}

/// Whether generation ends after step `step` (counted from 0): the stop head chose
/// class 1 after more than `min_len` steps.
pub fn should_stop(step: usize, min_len: usize, stop_flag: i64) -> (r: bool)
    ensures
        r == (step > min_len && stop_flag == 1),
{
    step > min_len && stop_flag == 1
}

/// Whether a finished generation is run again: retrying is on, fewer than
/// `retry_max_times` retries were made, and the result was a bad case.
pub fn should_retry(retry_badcase: bool, retry_times: usize, retry_max_times: usize, is_badcase: bool) -> (r: bool)
    ensures
        r == (retry_badcase && retry_times < retry_max_times && is_badcase),
{
    retry_badcase && retry_times < retry_max_times && is_badcase
}

/// The step limit for a text: ten more than its scaled token count, but no more
/// than `max_len`.
pub fn capped_max_len(scaled_text_len: usize, max_len: usize) -> (r: usize)
    requires
        scaled_text_len + 10 <= usize::MAX,
    ensures
        r == if scaled_text_len + 10 <= max_len { scaled_text_len + 10 } else { max_len as int },
{
    if scaled_text_len + 10 <= max_len { scaled_text_len + 10 } else { max_len }
}

/// The number of steps a generation takes when the stop head gives `flags[i]` at
/// step `i`: up to and including the first step that stops it, else `max_len`.
pub open spec fn spec_steps(flags: Seq<i64>, min_len: nat, max_len: nat, from: nat) -> nat
    decreases max_len - from,
{
    if from >= max_len {
        max_len
    } else if from > min_len && flags[from as int] == 1 {
        from + 1
    } else {
        spec_steps(flags, min_len, max_len, from + 1)
    }
}

/// A generation takes at most `max_len` steps, and at least `min_len + 2` of them
/// when `max_len` allows: a stop is only heeded after more than `min_len` steps.
pub proof fn lemma_steps_bounds(flags: Seq<i64>, min_len: nat, max_len: nat, from: nat)
    requires
        from <= max_len,
    ensures
        spec_steps(flags, min_len, max_len, from) <= max_len,
        spec_steps(flags, min_len, max_len, from) >= from,
        spec_steps(flags, min_len, max_len, from) >= (if min_len + 2 <= max_len { min_len + 2 } else { max_len }),
    decreases max_len - from,
{
    if from < max_len {
        if !(from > min_len && flags[from as int] == 1) {
            lemma_steps_bounds(flags, min_len, max_len, from + 1);
        }
    }
}

} // verus!
