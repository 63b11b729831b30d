//! Sizing the local model runtimes, and the cleanup models Linux refuses.
use vstd::prelude::*;
use crate::models::{has_gguf_magic, validate_gguf_magic, ModelDescriptor};
use crate::text::{chars_of, concat_str, decimal_chars, decimal_seq, extend_chars, str_eq, string_from_chars};

verus! {

/// The most prompt tokens decoded in one batch.
pub const MAX_CLEANUP_BATCH_TOKENS: u32 = 512;

/// The batch size for a context of `context_tokens`: at least one token and at
/// most the cap.
pub open spec fn batch_tokens_spec(context_tokens: u32) -> u32 {
    if context_tokens < 1 {
        1
    } else if context_tokens > MAX_CLEANUP_BATCH_TOKENS {
        MAX_CLEANUP_BATCH_TOKENS
    } else {
        context_tokens
    }
}

pub fn cleanup_batch_tokens(context_tokens: u32) -> (r: u32)
    ensures
        r == batch_tokens_spec(context_tokens),
        1 <= r <= MAX_CLEANUP_BATCH_TOKENS,
{
    if context_tokens < 1 {
        1
    } else if context_tokens > MAX_CLEANUP_BATCH_TOKENS {
        MAX_CLEANUP_BATCH_TOKENS
    } else {
        context_tokens
    }
}

/// The worker threads for a machine with `available` hardware threads, when
/// that is known: between one and sixteen, and four when it is not known.
pub open spec fn thread_count_spec(available: Option<usize>) -> usize {
    match available {
        Some(n) => if n < 1 {
            1
        } else if n > 16 {
            16
        } else {
            n
        },
        None => 4,
    }
}

pub fn thread_count_for(available: Option<usize>) -> (r: usize)
    ensures
        r == thread_count_spec(available),
        1 <= r <= 16,
{
    match available {
        Some(n) => {
            if n < 1 {
                1
            } else if n > 16 {
                16
            } else {
                n
            }
        },
        None => 4,
    }
}

/// The cleanup model that the Linux runtime cannot load.
pub const LINUX_UNSUPPORTED_CLEANUP_MODEL: &'static str = "llama-qwen3-5-2b-q8-0";

/// Why a cleanup model is refused on Linux, for the one model that is.
pub open spec fn linux_unsupported_spec(descriptor: ModelDescriptor) -> Option<Seq<char>> {
    if descriptor.concrete_id@ == LINUX_UNSUPPORTED_CLEANUP_MODEL@ {
        Some(
            descriptor.display_name@
                + " is currently disabled on Linux because llama.cpp aborts while initializing this GGUF."@,
        )
    } else {
        None
    }
}

pub fn linux_unsupported_cleanup_model(descriptor: &ModelDescriptor) -> (r: Option<String>)
    ensures
        match r {
            Some(m) => linux_unsupported_spec(*descriptor) == Some(m@),
            None => linux_unsupported_spec(*descriptor) is None,
        },
{
    if !str_eq(descriptor.concrete_id.as_str(), LINUX_UNSUPPORTED_CLEANUP_MODEL) {
        return None;
    }
    Some(
        concat_str(
            descriptor.display_name.as_str(),
            " is currently disabled on Linux because llama.cpp aborts while initializing this GGUF.",
        ),
    )
}

/// The context a cleanup model runs with when its entry names none.
pub const DEFAULT_CONTEXT_TOKENS: i32 = 2048;

/// The context size for a cleanup model: its own, or the default, and at least one token.
pub open spec fn context_tokens_spec(descriptor: ModelDescriptor) -> int {
    let n = match descriptor.context_tokens {
        Some(t) => t as int,
        None => DEFAULT_CONTEXT_TOKENS as int,
    };
    if n < 1 { 1 } else { n }
}

pub fn cleanup_context_tokens(descriptor: &ModelDescriptor) -> (r: u32)
    ensures
        r == context_tokens_spec(*descriptor),
{
    let n = match descriptor.context_tokens {
        Some(t) => t,
        None => DEFAULT_CONTEXT_TOKENS,
    };
    if n < 1 {
        1
    } else {
        n as u32
    }
}

pub open spec fn prompt_too_long_message(context_tokens: u32) -> Seq<char> {
    "Cleanup prompt is too long for the "@ + decimal_seq(context_tokens as nat) + "-token context."@
}

/// The output tokens a cleanup may generate (at least one), refused when the
/// prompt and the output would not fit in the context.
pub fn fit_cleanup_output(prompt_tokens: usize, max_output_tokens: i32, context_tokens: u32) -> (r: Result<usize, String>)
    ensures
        ({
            let out: int = if max_output_tokens < 1 { 1 } else { max_output_tokens as int };
            if prompt_tokens + out >= context_tokens {
                r matches Err(e) && e@ == prompt_too_long_message(context_tokens)
            } else {
                r == Ok::<usize, String>(out as usize)
            }
        }),
{
    let out: usize = if max_output_tokens < 1 { 1 } else { max_output_tokens as usize };
    let fits = match prompt_tokens.checked_add(out) {
        Some(total) => total < context_tokens as usize,
        None => false,
    };
    if fits {
        Ok(out)
    } else {
        let mut message = chars_of("Cleanup prompt is too long for the ");
        extend_chars(&mut message, &decimal_chars(context_tokens as u64));
        extend_chars(&mut message, &chars_of("-token context."));
        Err(string_from_chars(&message))
    }
}

/// A run of prompt tokens decoded together: positions `start..start + len`;
/// the one that ends the prompt asks for logits at its last position.
#[derive(Debug, Clone, Copy, PartialEq, Eq, Structural)]
pub struct PromptBatch {
    pub start: usize,
    pub len: usize,
    pub ends_prompt: bool,
}

/// `plan` covers positions `0..token_count` in order, in runs of `size`
/// tokens (the last may be shorter).
pub open spec fn batch_plan_spec(plan: Seq<PromptBatch>, token_count: int, size: int) -> bool {
    &&& token_count == 0 ==> plan.len() == 0
    &&& token_count > 0 ==> plan.len() > 0 && plan[0].start == 0 && plan.last().start + plan.last().len == token_count
    &&& forall|k: int| 0 <= k < plan.len() ==> 1 <= (#[trigger] plan[k]).len <= size
    &&& forall|k: int| 0 <= k < plan.len() - 1 ==> (#[trigger] plan[k]).len == size
    &&& forall|k: int| 0 < k < plan.len() ==> (#[trigger] plan[k]).start == plan[k - 1].start + plan[k - 1].len
    &&& forall|k: int| 0 <= k < plan.len() ==> ((#[trigger] plan[k]).ends_prompt <==> k == plan.len() - 1)
}

/// How a prompt of `token_count` tokens is decoded in batches of
/// `batch_tokens` (at least one).
pub fn prompt_batch_plan(token_count: usize, batch_tokens: usize) -> (r: Vec<PromptBatch>)
    ensures
        batch_plan_spec(r@, token_count as int, if batch_tokens < 1 { 1 } else { batch_tokens as int }),
{
    let size: usize = if batch_tokens < 1 { 1 } else { batch_tokens };
    let mut plan: Vec<PromptBatch> = Vec::new();
    let mut start: usize = 0;
    while start < token_count
        invariant
            size >= 1,
            start <= token_count,
            start == 0 <==> plan@.len() == 0,
            plan@.len() > 0 ==> plan@[0].start == 0 && plan@.last().start + plan@.last().len == start,
            forall|k: int| 0 <= k < plan@.len() ==> 1 <= (#[trigger] plan@[k]).len <= size,
            forall|k: int| 0 <= k < plan@.len() - 1 ==> (#[trigger] plan@[k]).len == size,
            forall|k: int| 0 < k < plan@.len() ==> (#[trigger] plan@[k]).start == plan@[k - 1].start + plan@[k - 1].len,
            forall|k: int| 0 <= k < plan@.len() ==> ((#[trigger] plan@[k]).ends_prompt <==> (k == plan@.len() - 1 && start == token_count)),
            plan@.len() > 0 && start < token_count ==> plan@.last().len == size,
        decreases token_count - start,
    {
        let rest = token_count - start;
        let len = if rest < size { rest } else { size };
        let ends = start + len == token_count;
        let ghost old_plan = plan@;
        plan.push(PromptBatch { start, len, ends_prompt: ends });
        proof {
            assert forall|k: int| 0 <= k < plan@.len() - 1 implies (#[trigger] plan@[k]).len == size by {
                assert(plan@[k] == old_plan[k]);
            }
            assert forall|k: int| 0 <= k < plan@.len() implies ((#[trigger] plan@[k]).ends_prompt <==> (k == plan@.len() - 1
                && start + len == token_count)) by {
                if k < old_plan.len() {
                    assert(plan@[k] == old_plan[k]);
                }
            }
        }
        start = start + len;
    }
    plan
}

pub open spec fn download_required_message(path: Seq<char>) -> Seq<char> {
    "Model download required: "@ + path
}

pub open spec fn not_gguf_message(path: Seq<char>) -> Seq<char> {
    path + " is not a valid GGUF file"@
}

/// A model file must be there before a runtime loads it.
pub fn require_model_file(path: &str, exists: bool) -> (r: Result<(), String>)
    ensures
        !exists ==> (r matches Err(e) && e@ == download_required_message(path@)),
        exists ==> r is Ok,
{
    if exists {
        Ok(())
    } else {
        Err(concat_str("Model download required: ", path))
    }
}

/// Whether a cleanup model file can be loaded: it must be there, and start
/// with the GGUF magic (`magic` is what it starts with, when it is there).
pub fn check_cleanup_model_file(path: &str, exists: bool, magic: &[u8]) -> (r: Result<(), String>)
    ensures
        !exists ==> (r matches Err(e) && e@ == download_required_message(path@)),
        exists && !has_gguf_magic(magic@) ==> (r matches Err(e) && e@ == not_gguf_message(path@)),
        exists && has_gguf_magic(magic@) ==> r is Ok,
{
    match require_model_file(path, exists) {
        Ok(()) => {},
        Err(e) => return Err(e),
    }
    match validate_gguf_magic(magic) {
        Ok(()) => Ok(()),
        Err(_) => Err(concat_str(path, " is not a valid GGUF file")),
    }
}

pub const NO_SPEECH_DETECTED_MESSAGE: &'static str = "No speech detected.";

/// The sample rate Whisper.cpp transcribes at.
pub const WHISPER_SAMPLE_RATE_HZ: u32 = 16000;

pub open spec fn whisper_format_message(sample_rate_hz: u32, channels: u16) -> Seq<char> {
    "Whisper.cpp expects mono 16 kHz audio; got "@ + decimal_seq(sample_rate_hz as nat) + " Hz with "@ + decimal_seq(
        channels as nat,
    ) + " channel(s)."@
}

/// Whether recorded audio can be transcribed: it must hold samples, as mono
/// 16 kHz audio.
pub fn check_whisper_audio(sample_count: usize, sample_rate_hz: u32, channels: u16) -> (r: Result<(), String>)
    ensures
        sample_count == 0 ==> (r matches Err(e) && e@ == NO_SPEECH_DETECTED_MESSAGE@),
        sample_count != 0 && (sample_rate_hz != WHISPER_SAMPLE_RATE_HZ || channels != 1) ==> (r matches Err(e) && e@
            == whisper_format_message(sample_rate_hz, channels)),
        sample_count != 0 && sample_rate_hz == WHISPER_SAMPLE_RATE_HZ && channels == 1 ==> r is Ok,
{
    if sample_count == 0 {
        return Err(String::from_str(NO_SPEECH_DETECTED_MESSAGE));
    }
    if sample_rate_hz != WHISPER_SAMPLE_RATE_HZ || channels != 1 {
        let mut out = chars_of("Whisper.cpp expects mono 16 kHz audio; got ");
        extend_chars(&mut out, &decimal_chars(sample_rate_hz as u64));
        extend_chars(&mut out, &chars_of(" Hz with "));
        extend_chars(&mut out, &decimal_chars(channels as u64));
        extend_chars(&mut out, &chars_of(" channel(s)."));
        return Err(string_from_chars(&out));
    }
    Ok(())
}

} // verus!
