//! Whether pages are decoded ahead of the one that is asked for.
use crate::source::BookSnapshot;
use crate::text;
use crate::worker::api::DecodeBackend;
use vstd::prelude::*;

verus! {

/// A page that took this long is slow, in nanoseconds.
pub const ADAPTIVE_SLOW_PREPARE: u128 = 750_000_000;

/// A page that took no longer than this is fast, in nanoseconds.
pub const ADAPTIVE_FAST_PREPARE: u128 = 180_000_000;

/// So many fast pages in a row end decoding ahead.
pub const ADAPTIVE_FAST_DISABLE_COUNT: u8 = 8;

#[derive(Debug, Clone, Copy, PartialEq, Eq, Structural)]
pub enum DecodeAheadMode {
    Disabled,
    Forced,
    Adaptive,
}

/// The pages that are worth decoding ahead.
#[derive(Debug, Clone, Copy, PartialEq, Eq, Structural)]
pub enum DecodeAheadCandidate {
    Any,
    WebpCluster,
}

/// Whether there is a page at `index` and its name ends in `.webp`.
pub open spec fn is_webp_at(source: BookSnapshot, index: int) -> bool {
    0 <= index < source.pages@.len() && text::has_extension_spec(
        source.pages@[index].name@,
        "webp"@,
    )
}

/// Whether a page is a WebP file and one of its neighbours is.
pub open spec fn in_webp_cluster(source: BookSnapshot, index: int) -> bool {
    is_webp_at(source, index) && (is_webp_at(source, index - 1) || is_webp_at(source, index + 1))
}

pub fn is_webp_page(page_name: Option<&str>) -> (webp: bool)
    ensures
        webp == (page_name matches Some(name) && text::has_extension_spec(name@, "webp"@)),
{
    match page_name {
        Some(name) => text::has_extension(name, "webp"),
        None => false,
    }
}

impl DecodeAheadCandidate {
    pub open spec fn matches_spec(self, source: BookSnapshot, index: int) -> bool {
        match self {
            DecodeAheadCandidate::Any => true,
            DecodeAheadCandidate::WebpCluster => in_webp_cluster(source, index),
        }
    }

    pub fn matches_job(self, source: &BookSnapshot, index: usize) -> (matching: bool)
        ensures
            matching == self.matches_spec(*source, index as int),
    {
        assert(source.pages.len() == source.pages@.len());
        match self {
            DecodeAheadCandidate::Any => true,
            DecodeAheadCandidate::WebpCluster => {
                is_webp_page(source.page_name(index)) && ((index > 0 && is_webp_page(
                    source.page_name(index - 1),
                )) || (index < usize::MAX && is_webp_page(source.page_name(index + 1))))
            },
        }
    }
}

/// When pages are decoded ahead: never, always, or while WebP pages are slow.
#[derive(Debug, Clone, Copy, PartialEq, Eq, Structural)]
pub struct DecodeAheadPolicy {
    pub mode: DecodeAheadMode,
    pub fast_prepare_count: u8,
    pub adaptive_active: bool,
}

/// The decoders whose slowness counts.
pub open spec fn adaptive_slow_backend(backend: DecodeBackend) -> bool {
    backend == DecodeBackend::LibWebp || backend == DecodeBackend::LibWebpScaled || backend
        == DecodeBackend::ImageWebp
}

pub fn is_adaptive_slow_backend(backend: DecodeBackend) -> (counts: bool)
    ensures
        counts == adaptive_slow_backend(backend),
{
    matches!(
        backend,
        DecodeBackend::LibWebp | DecodeBackend::LibWebpScaled | DecodeBackend::ImageWebp
    )
}

impl DecodeAheadPolicy {
    pub fn new(mode: DecodeAheadMode) -> (policy: Self)
        ensures
            policy == (DecodeAheadPolicy { mode, fast_prepare_count: 0, adaptive_active: false }),
    {
        DecodeAheadPolicy { mode, fast_prepare_count: 0, adaptive_active: false }
    }

    pub open spec fn candidate_spec(self) -> Option<DecodeAheadCandidate> {
        match self.mode {
            DecodeAheadMode::Disabled => None,
            DecodeAheadMode::Forced => Some(DecodeAheadCandidate::Any),
            DecodeAheadMode::Adaptive => if self.adaptive_active {
                Some(DecodeAheadCandidate::WebpCluster)
            } else {
                None
            },
        }
    }

    /// The pages that are decoded ahead, if any are.
    pub fn candidate(&self) -> (candidate: Option<DecodeAheadCandidate>)
        ensures
            candidate == self.candidate_spec(),
    {
        match self.mode {
            DecodeAheadMode::Disabled => None,
            DecodeAheadMode::Forced => Some(DecodeAheadCandidate::Any),
            DecodeAheadMode::Adaptive => {
                if self.adaptive_active {
                    Some(DecodeAheadCandidate::WebpCluster)
                } else {
                    None
                }
            },
        }
    }

    pub open spec fn needs_timing_spec(self, source: BookSnapshot, index: int) -> bool {
        self.mode == DecodeAheadMode::Adaptive && (self.adaptive_active || is_webp_at(
            source,
            index,
        ))
    }

    /// Whether it matters how long a page takes.
    pub fn needs_prepare_timing_for(&self, source: &BookSnapshot, index: usize) -> (needed: bool)
        ensures
            needed == self.needs_timing_spec(*source, index as int),
    {
        match self.mode {
            DecodeAheadMode::Disabled | DecodeAheadMode::Forced => false,
            DecodeAheadMode::Adaptive => self.adaptive_active || is_webp_page(
                source.page_name(index),
            ),
        }
    }

    /// The policy once a page has taken `duration` nanoseconds: a slow WebP page among others
    /// turns decoding ahead on, and a run of fast pages turns it off.
    pub open spec fn observed(
        self,
        source: BookSnapshot,
        index: int,
        backend: DecodeBackend,
        duration: Option<u128>,
    ) -> DecodeAheadPolicy {
        let reset = DecodeAheadPolicy { fast_prepare_count: 0, ..self };
        if self.mode != DecodeAheadMode::Adaptive || duration is None {
            self
        } else if adaptive_slow_backend(backend) && duration->0 >= ADAPTIVE_SLOW_PREPARE {
            DecodeAheadPolicy {
                adaptive_active: self.adaptive_active || in_webp_cluster(source, index),
                ..reset
            }
        } else if !self.adaptive_active || duration->0 > ADAPTIVE_FAST_PREPARE {
            reset
        } else if self.fast_prepare_count + 1 >= ADAPTIVE_FAST_DISABLE_COUNT {
            DecodeAheadPolicy { adaptive_active: false, ..reset }
        } else {
            DecodeAheadPolicy {
                fast_prepare_count: (self.fast_prepare_count + 1) as u8,
                ..self
            }
        }
    }

    pub fn observe_prepare(
        &mut self,
        source: &BookSnapshot,
        index: usize,
        decode_backend: DecodeBackend,
        duration: Option<u128>,
    )
        ensures
            *final(self) == old(self).observed(*source, index as int, decode_backend, duration),
    {
        if !matches!(self.mode, DecodeAheadMode::Adaptive) {
            return;
        }
        let taken: u128 = match duration {
            Some(taken) => taken,
            None => {
                return;
            },
        };
        if is_adaptive_slow_backend(decode_backend) && taken >= ADAPTIVE_SLOW_PREPARE {
            self.fast_prepare_count = 0;
            if self.adaptive_active {
                return;
            }
            if !DecodeAheadCandidate::WebpCluster.matches_job(source, index) {
                return;
            }
            self.adaptive_active = true;
            return;
        }
        if !self.adaptive_active || taken > ADAPTIVE_FAST_PREPARE {
            self.fast_prepare_count = 0;
            return;
        }
        self.fast_prepare_count = self.fast_prepare_count.saturating_add(1);
        if self.fast_prepare_count >= ADAPTIVE_FAST_DISABLE_COUNT {
            self.fast_prepare_count = 0;
            self.adaptive_active = false;
        }
    }

    pub open spec fn forgotten(self) -> DecodeAheadPolicy {
        if self.mode == DecodeAheadMode::Adaptive {
            DecodeAheadPolicy { fast_prepare_count: 0, adaptive_active: false, ..self }
        } else {
            self
        }
    }

    /// Starts over, as for another book or another size.
    pub fn reset_context(&mut self)
        ensures
            *final(self) == old(self).forgotten(),
    {
        if !matches!(self.mode, DecodeAheadMode::Adaptive) {
            return;
        }
        if self.adaptive_active || self.fast_prepare_count != 0 {
            self.adaptive_active = false;
            self.fast_prepare_count = 0;
        }
    }
}

/// A policy that is not adaptive never changes, and one that is offers WebP pages at most.
pub proof fn only_adaptive_policies_change(
    policy: DecodeAheadPolicy,
    source: BookSnapshot,
    index: int,
    backend: DecodeBackend,
    duration: Option<u128>,
)
    ensures
        policy.observed(source, index, backend, duration).mode == policy.mode,
        policy.mode != DecodeAheadMode::Adaptive ==> policy.observed(
            source,
            index,
            backend,
            duration,
        ) == policy && policy.forgotten() == policy,
        policy.mode == DecodeAheadMode::Adaptive ==> policy.candidate_spec()
            != Some(DecodeAheadCandidate::Any) && policy.forgotten().candidate_spec() is None,
        policy.observed(source, index, backend, duration).candidate_spec() is Some
            && policy.candidate_spec() is None ==> adaptive_slow_backend(backend)
            && in_webp_cluster(source, index),
{
}

/// Decoding ahead is turned on by a page of a WebP decoder, beside another WebP page, that takes three
/// quarters of a second or more, and by nothing else. It is turned off by a page that takes no more
/// than 180 milliseconds, and any slower page ends a run of such pages.
pub proof fn slow_webp_pages_turn_decoding_ahead_on(
    policy: DecodeAheadPolicy,
    source: BookSnapshot,
    index: int,
    backend: DecodeBackend,
    duration: u128,
)
    requires
        policy.mode == DecodeAheadMode::Adaptive,
    ensures
        ({
            let after = policy.observed(source, index, backend, Some(duration));
            let webp = backend == DecodeBackend::ImageWebp || backend == DecodeBackend::LibWebp
                || backend == DecodeBackend::LibWebpScaled;
            let slow = webp && duration >= 750_000_000;
            &&& !policy.adaptive_active && after.adaptive_active ==> slow && in_webp_cluster(
                source,
                index,
            )
            &&& slow && in_webp_cluster(source, index) ==> after.adaptive_active
            &&& slow && policy.adaptive_active ==> after.adaptive_active
            &&& slow || duration > 180_000_000 ==> after.fast_prepare_count == 0
            &&& policy.adaptive_active && !after.adaptive_active ==> duration <= 180_000_000
                && !slow
            &&& policy.observed(source, index, backend, None) == policy
        }),
{
}

/// A page is in a cluster where it and the page before or after it are WebP pages of the book.
pub proof fn clusters_are_neighbouring_webp_pages(source: BookSnapshot, index: int)
    ensures
        in_webp_cluster(source, index) && !in_webp_cluster(source, index + 1) ==> is_webp_at(
            source,
            index - 1,
        ),
        is_webp_at(source, index) && is_webp_at(source, index + 1) ==> in_webp_cluster(source, index)
            && in_webp_cluster(source, index + 1),
        in_webp_cluster(source, index) ==> 0 <= index < source.pages@.len(),
        !is_webp_at(source, index - 1) && !is_webp_at(source, index + 1) ==> !in_webp_cluster(
            source,
            index,
        ),
{
}

/// Nothing is decoded ahead where that is disabled, every page may be where it is forced, and where it
/// is adaptive only pages of a WebP cluster are, while it is on. Times matter to an adaptive policy
/// alone, and while it is off only those of WebP pages.
pub proof fn modes_say_what_is_decoded_ahead(
    policy: DecodeAheadPolicy,
    source: BookSnapshot,
    index: int,
)
    ensures
        policy.mode == DecodeAheadMode::Disabled ==> policy.candidate_spec() is None,
        policy.mode == DecodeAheadMode::Forced ==> policy.candidate_spec() is Some
            && policy.candidate_spec()->0.matches_spec(source, index),
        policy.mode == DecodeAheadMode::Adaptive ==> (policy.candidate_spec() is Some
            <==> policy.adaptive_active),
        policy.mode == DecodeAheadMode::Adaptive ==> (policy.candidate_spec() matches Some(candidate)
            ==> (candidate.matches_spec(source, index) <==> in_webp_cluster(source, index))),
        policy.needs_timing_spec(source, index) ==> policy.mode == DecodeAheadMode::Adaptive,
        policy.mode == DecodeAheadMode::Adaptive && (policy.adaptive_active || in_webp_cluster(
            source,
            index,
        )) ==> policy.needs_timing_spec(source, index),
        policy.mode == DecodeAheadMode::Adaptive && !policy.adaptive_active && !is_webp_at(
            source,
            index,
        ) ==> !policy.needs_timing_spec(source, index),
{
}

/// The policy after `count` fast pages in a row.
pub open spec fn after_fast_pages(
    policy: DecodeAheadPolicy,
    source: BookSnapshot,
    index: int,
    backend: DecodeBackend,
    duration: u128,
    count: nat,
) -> DecodeAheadPolicy
    decreases count,
{
    if count == 0 {
        policy
    } else {
        after_fast_pages(
            policy.observed(source, index, backend, Some(duration)),
            source,
            index,
            backend,
            duration,
            (count - 1) as nat,
        )
    }
}

/// A run of fast pages ends decoding ahead, however it began.
pub proof fn fast_pages_end_decoding_ahead(
    policy: DecodeAheadPolicy,
    source: BookSnapshot,
    index: int,
    backend: DecodeBackend,
    duration: u128,
    count: nat,
)
    requires
        policy.mode == DecodeAheadMode::Adaptive,
        duration <= ADAPTIVE_FAST_PREPARE,
        policy.fast_prepare_count + count >= ADAPTIVE_FAST_DISABLE_COUNT,
    ensures
        count > 0 || !policy.adaptive_active ==> !after_fast_pages(
            policy,
            source,
            index,
            backend,
            duration,
            count,
        ).adaptive_active,
    decreases count,
{
    if count > 0 {
        let next = policy.observed(source, index, backend, Some(duration));
        if next.adaptive_active {
            fast_pages_end_decoding_ahead(
                next,
                source,
                index,
                backend,
                duration,
                (count - 1) as nat,
            );
        } else {
            lemma_inactive_stays_inactive(
                next,
                source,
                index,
                backend,
                duration,
                (count - 1) as nat,
            );
        }
    }
}

proof fn lemma_inactive_stays_inactive(
    policy: DecodeAheadPolicy,
    source: BookSnapshot,
    index: int,
    backend: DecodeBackend,
    duration: u128,
    count: nat,
)
    requires
        policy.mode == DecodeAheadMode::Adaptive,
        duration <= ADAPTIVE_FAST_PREPARE,
        !policy.adaptive_active,
    ensures
        !after_fast_pages(policy, source, index, backend, duration, count).adaptive_active,
    decreases count,
{
    if count > 0 {
        lemma_inactive_stays_inactive(
            policy.observed(source, index, backend, Some(duration)),
            source,
            index,
            backend,
            duration,
            (count - 1) as nat,
        );
    }
}

/// The mode that a setting stands for.
pub open spec fn mode_of(value: Option<Seq<char>>, default_mode: DecodeAheadMode) -> DecodeAheadMode {
    match value {
        None => default_mode,
        Some(value) => {
            let word = text::setting(value);
            if word.len() == 0 {
                default_mode
            } else if word == "1"@ || word == "true"@ || word == "on"@ || word == "yes"@ || word
                == "forced"@ || word == "force"@ {
                DecodeAheadMode::Forced
            } else if word == "adaptive"@ || word == "auto"@ {
                DecodeAheadMode::Adaptive
            } else {
                DecodeAheadMode::Disabled
            }
        },
    }
}

pub fn decode_ahead_mode_value(value: Option<&str>, default_mode: DecodeAheadMode) -> (mode:
    DecodeAheadMode)
    ensures
        mode == mode_of(
            match value {
                Some(value) => Some(value@),
                None => None,
            },
            default_mode,
        ),
{
    let value: &str = match value {
        Some(value) => value,
        None => {
            return default_mode;
        },
    };
    let word = text::setting_word(value);
    let word: &str = word.as_str();
    if word.unicode_len() == 0 {
        default_mode
    } else if text::same_text(word, "1") || text::same_text(word, "true") || text::same_text(
        word,
        "on",
    ) || text::same_text(word, "yes") || text::same_text(word, "forced") || text::same_text(
        word,
        "force",
    ) {
        DecodeAheadMode::Forced
    } else if text::same_text(word, "adaptive") || text::same_text(word, "auto") {
        DecodeAheadMode::Adaptive
    } else {
        DecodeAheadMode::Disabled
    }
}

} // verus!
