//! When a page is decoded ahead of the one that is being prepared.
use suisuiview::source::{BookSnapshot, PageEntry, PageId};
use suisuiview::worker::api::{is_original_inspection_target, DecodeBackend, DecodeStrategy};
use suisuiview::worker::decode_policy::{
    decode_ahead_mode_value, is_webp_page, DecodeAheadCandidate, DecodeAheadMode,
    DecodeAheadPolicy, ADAPTIVE_FAST_DISABLE_COUNT,
};

fn named_source(page_names: Vec<&'static str>) -> BookSnapshot {
    BookSnapshot {
        book_id: "named-source".to_owned(),
        instance_id: 0,
        cache_id: 0,
        concurrent_reads: false,
        pages: page_names
            .into_iter()
            .enumerate()
            .map(|(index, name)| PageEntry {
                page_id: PageId(index as u32),
                name: name.to_owned(),
            })
            .collect(),
    }
}

#[test]
fn decode_ahead_mode_parses_forced_adaptive_and_disabled_values() {
    assert_eq!(
        decode_ahead_mode_value(Some("1"), DecodeAheadMode::Adaptive),
        DecodeAheadMode::Forced
    );
    assert_eq!(
        decode_ahead_mode_value(Some("forced"), DecodeAheadMode::Adaptive),
        DecodeAheadMode::Forced
    );
    assert_eq!(
        decode_ahead_mode_value(Some("adaptive"), DecodeAheadMode::Disabled),
        DecodeAheadMode::Adaptive
    );
    assert_eq!(
        decode_ahead_mode_value(Some("auto"), DecodeAheadMode::Disabled),
        DecodeAheadMode::Adaptive
    );
    assert_eq!(
        decode_ahead_mode_value(Some("0"), DecodeAheadMode::Adaptive),
        DecodeAheadMode::Disabled
    );
    assert_eq!(
        decode_ahead_mode_value(Some("off"), DecodeAheadMode::Adaptive),
        DecodeAheadMode::Disabled
    );
}

#[test]
fn decode_ahead_mode_uses_supplied_default_when_unset_or_empty() {
    assert_eq!(
        decode_ahead_mode_value(None, DecodeAheadMode::Adaptive),
        DecodeAheadMode::Adaptive
    );
    assert_eq!(
        decode_ahead_mode_value(Some(""), DecodeAheadMode::Adaptive),
        DecodeAheadMode::Adaptive
    );
    assert_eq!(
        decode_ahead_mode_value(None, DecodeAheadMode::Disabled),
        DecodeAheadMode::Disabled
    );
}

#[test]
fn decode_ahead_mode_treats_unknown_values_as_disabled() {
    assert_eq!(
        decode_ahead_mode_value(Some("unknown"), DecodeAheadMode::Adaptive),
        DecodeAheadMode::Disabled
    );
}

#[test]
fn adaptive_policy_activates_only_after_slow_webp_prepare() {
    let mut policy = DecodeAheadPolicy::new(DecodeAheadMode::Adaptive);
    let source = named_source(vec!["page-0.jpg", "page-1.webp", "page-2.webp"]);

    policy.observe_prepare(
        &source,
        0,
        DecodeBackend::PngSampled,
        Some(900_000_000),
    );
    assert_eq!(policy.candidate(), None);

    policy.observe_prepare(
        &source,
        1,
        DecodeBackend::LibWebpScaled,
        Some(900_000_000),
    );
    assert_eq!(policy.candidate(), Some(DecodeAheadCandidate::WebpCluster));
}

#[test]
fn adaptive_policy_ignores_missing_prepare_timing() {
    let mut policy = DecodeAheadPolicy::new(DecodeAheadMode::Adaptive);
    let source = named_source(vec!["page-0.webp", "page-1.webp"]);

    policy.observe_prepare(
        &source,
        0,
        DecodeBackend::LibWebpScaled,
        None,
    );

    assert_eq!(policy.candidate(), None);
}

#[test]
fn adaptive_policy_turns_off_after_fast_prepare_window() {
    let mut policy = DecodeAheadPolicy::new(DecodeAheadMode::Adaptive);
    let source = named_source(vec!["page-0.webp", "page-1.webp"]);
    policy.observe_prepare(
        &source,
        0,
        DecodeBackend::LibWebpScaled,
        Some(900_000_000),
    );

    for _ in 0..ADAPTIVE_FAST_DISABLE_COUNT {
        policy.observe_prepare(
            &source,
            0,
            DecodeBackend::ZuneJpeg,
            Some(40_000_000),
        );
    }

    assert_eq!(policy.candidate(), None);
}

#[test]
fn adaptive_policy_times_only_webp_while_inactive() {
    let policy = DecodeAheadPolicy::new(DecodeAheadMode::Adaptive);
    let source = named_source(vec!["page-0.jpg", "page-1.webp"]);

    assert!(!policy.needs_prepare_timing_for(&source, 0));
    assert!(policy.needs_prepare_timing_for(&source, 1));
}

#[test]
fn adaptive_policy_times_all_pages_while_active() {
    let mut policy = DecodeAheadPolicy::new(DecodeAheadMode::Adaptive);
    let source = named_source(vec!["page-0.webp", "page-1.webp", "page-2.jpg"]);
    policy.observe_prepare(
        &source,
        0,
        DecodeBackend::LibWebpScaled,
        Some(900_000_000),
    );

    assert!(policy.needs_prepare_timing_for(&source, 2));
}

#[test]
fn adaptive_policy_ignores_isolated_slow_webp() {
    let mut policy = DecodeAheadPolicy::new(DecodeAheadMode::Adaptive);
    let source = named_source(vec!["page-0.jpg", "page-1.webp", "page-2.png"]);

    policy.observe_prepare(
        &source,
        1,
        DecodeBackend::LibWebpScaled,
        Some(900_000_000),
    );

    assert_eq!(policy.candidate(), None);
}

#[test]
fn webp_cluster_candidate_requires_neighboring_webp_page() {
    let source = named_source(vec![
        "page-0.jpg",
        "page-1.WEBP",
        "page-2.webp",
        "page-3.png",
    ]);

    assert!(DecodeAheadCandidate::WebpCluster.matches_job(&source, 1));
    assert!(DecodeAheadCandidate::WebpCluster.matches_job(&source, 2));
    assert!(!DecodeAheadCandidate::WebpCluster.matches_job(&source, 0));
    assert!(!DecodeAheadCandidate::WebpCluster.matches_job(&source, 3));
    assert!(DecodeAheadCandidate::Any.matches_job(&source, 3));
}

#[test]
fn forced_and_disabled_policies_never_look_at_the_time() {
    let source = named_source(vec!["page-0.webp", "page-1.webp"]);
    for (mode, candidate) in [
        (DecodeAheadMode::Forced, Some(DecodeAheadCandidate::Any)),
        (DecodeAheadMode::Disabled, None),
    ] {
        let mut policy = DecodeAheadPolicy::new(mode);
        assert!(!policy.needs_prepare_timing_for(&source, 0));
        policy.observe_prepare(&source, 0, DecodeBackend::LibWebpScaled, Some(900_000_000));
        assert_eq!(policy.candidate(), candidate);
    }
}

#[test]
fn an_active_policy_is_forgotten_with_its_book() {
    let source = named_source(vec!["page-0.webp", "page-1.webp"]);
    let mut policy = DecodeAheadPolicy::new(DecodeAheadMode::Adaptive);
    policy.observe_prepare(&source, 0, DecodeBackend::LibWebpScaled, Some(750_000_000));
    assert_eq!(policy.candidate(), Some(DecodeAheadCandidate::WebpCluster));
    policy.reset_context();
    assert_eq!(policy.candidate(), None);
}

#[test]
fn webp_pages_are_told_by_their_extension() {
    assert!(is_webp_page(Some("dir/a.WebP")));
    assert!(!is_webp_page(Some("a.webp.png")));
    assert!(!is_webp_page(Some("webp")));
    assert!(!is_webp_page(None));
}

#[test]
fn strategies_are_named_on_the_command_line() {
    assert_eq!(DecodeStrategy::parse_cli("auto"), Some(DecodeStrategy::Auto));
    for name in ["image", "image-crate", "baseline"] {
        assert_eq!(
            DecodeStrategy::parse_cli(name),
            Some(DecodeStrategy::ImageCrate)
        );
    }
    assert_eq!(DecodeStrategy::parse_cli("Auto"), None);
    assert_eq!(DecodeStrategy::parse_cli(""), None);
    assert_eq!(
        DecodeStrategy::parse_cli(DecodeStrategy::ImageCrate.as_str()),
        Some(DecodeStrategy::ImageCrate)
    );
}

#[test]
fn reduced_pages_and_inspection_targets_are_told_apart() {
    assert!(DecodeBackend::JpegScaled.is_sampled_or_scaled_prepare());
    assert!(DecodeBackend::PngSampled.is_sampled_or_scaled_prepare());
    assert!(!DecodeBackend::PngExactRows.is_sampled_or_scaled_prepare());
    assert!(!DecodeBackend::ImageCrate.is_sampled_or_scaled_prepare());
    assert!(!is_original_inspection_target(4096));
    assert!(is_original_inspection_target(4097));
}

#[test]
fn a_page_is_found_by_its_id_where_it_comes_first() {
    let mut source = named_source(vec!["a.png", "b.png", "c.png"]);
    assert_eq!(source.page_index_for_id(PageId(2)), Some(2));
    assert_eq!(source.page_index_for_id(PageId(3)), None);
    source.pages[1].page_id = PageId(2);
    assert_eq!(source.page_index_for_id(PageId(2)), Some(1));
    assert_eq!(source.page_index_for_id(PageId(1)), None);
}
