//! The worker's caches: prepared pages, source bytes, and what the application is believed to hold.
use lru::LruCache;
use std::num::NonZeroUsize;
use std::sync::Arc;
use suisuiview::source::{BookSnapshot, PageEntry, PageId};
use suisuiview::state::{CpuScaleFilter, DecoderPreference, DecoderPreferences};
use suisuiview::worker::api::{
    CachedPageKey, DecodeBackend, DecodeOptions, PagePixels, PreparedPage, MAX_TARGET_LONG_EDGE,
};
use suisuiview::worker::cache::{
    clear_cache_on_source_or_decode_change, clear_published_app_cache_hints_on_context_change,
    forget_published_app_cache_hint, insert_worker_cache_with_budget, page_cache_key,
    prune_worker_cache, remember_published_app_cache_hint, should_skip_published_app_cache_hint,
    update_book_epoch, PublishedAppCacheHints, PUBLISHED_APP_CACHE_HINT_LIMIT,
};
use suisuiview::worker::source_bytes::{
    enabled_value, source_bytes_cache_budget, source_bytes_key, SourceBytesCache,
};

fn test_prepared_page(byte_size: usize, target_long_edge: u32) -> PreparedPage {
    PreparedPage {
        pixels: PagePixels::Rgba(vec![0u8; byte_size].into()),
        original_width: 1,
        original_height: 1,
        display_width: 1,
        display_height: 1,
        byte_size,
        target_long_edge,
        decode_backend: DecodeBackend::ImageCrate,
        notice: None,
    }
}

fn remap_source(
    book_id: &str,
    instance_id: u64,
    cache_id: u64,
    index_to_id: Vec<u32>,
) -> BookSnapshot {
    BookSnapshot {
        book_id: book_id.to_owned(),
        instance_id,
        cache_id,
        concurrent_reads: false,
        pages: index_to_id
            .into_iter()
            .map(|id| PageEntry {
                page_id: PageId(id),
                name: "page.png".to_owned(),
            })
            .collect(),
    }
}

#[test]
fn worker_cache_key_tracks_decode_options() {
    let normal = page_cache_key("book", 7, PageId(1), 2048, DecodeOptions::default());
    let exif = page_cache_key(
        "book",
        7,
        PageId(1),
        2048,
        DecodeOptions {
            apply_exif_orientation: true,
            ..DecodeOptions::default()
        },
    );
    let icc = page_cache_key(
        "book",
        7,
        PageId(1),
        2048,
        DecodeOptions {
            apply_embedded_icc: true,
            ..DecodeOptions::default()
        },
    );
    let lanczos = page_cache_key(
        "book",
        7,
        PageId(1),
        2048,
        DecodeOptions {
            cpu_downscale_filter: CpuScaleFilter::Lanczos3,
            ..DecodeOptions::default()
        },
    );
    let upscaled = page_cache_key(
        "book",
        7,
        PageId(1),
        2048,
        DecodeOptions {
            allow_display_upscale: true,
            ..DecodeOptions::default()
        },
    );
    let conservative_prepare = page_cache_key(
        "book",
        7,
        PageId(1),
        2048,
        DecodeOptions {
            fast_sampled_scaled_decode: false,
            ..DecodeOptions::default()
        },
    );

    assert_ne!(normal, exif);
    assert_ne!(normal, icc);
    assert_ne!(normal, lanczos);
    assert_ne!(normal, upscaled);
    assert_ne!(normal, conservative_prepare);

    let zune_jpeg = page_cache_key(
        "book",
        7,
        PageId(1),
        2048,
        DecodeOptions {
            decoder_preferences: DecoderPreferences {
                jpeg: DecoderPreference::ZuneJpeg,
                ..DecoderPreferences::default()
            },
            ..DecodeOptions::default()
        },
    );
    assert_ne!(normal, zune_jpeg);
}

#[test]
fn worker_cache_skips_pages_larger_than_budget() {
    let mut cache = LruCache::new(NonZeroUsize::new(4).unwrap());
    let mut cache_bytes = 0usize;
    let decode = DecodeOptions::default();
    let small_key = page_cache_key("book", 7, PageId(1), 2048, decode);
    let huge_key = page_cache_key("book", 7, PageId(1), MAX_TARGET_LONG_EDGE + 1, decode);

    assert!(insert_worker_cache_with_budget(
        &mut cache,
        &mut cache_bytes,
        small_key.clone(),
        &Arc::new(test_prepared_page(4, 2048)),
        8,
    ));
    assert_eq!(cache_bytes, 4);
    assert!(cache.peek(&small_key).is_some());

    assert!(!insert_worker_cache_with_budget(
        &mut cache,
        &mut cache_bytes,
        huge_key.clone(),
        &Arc::new(test_prepared_page(16, MAX_TARGET_LONG_EDGE + 1)),
        8,
    ));
    assert_eq!(cache_bytes, 4);
    assert!(cache.peek(&small_key).is_some());
    assert!(cache.peek(&huge_key).is_none());
}

#[test]
fn inserting_counts_what_a_page_displaces() {
    let mut cache = LruCache::new(NonZeroUsize::new(2).unwrap());
    let mut cache_bytes = 0usize;
    let decode = DecodeOptions::default();
    let keys: Vec<String> = (0..3)
        .map(|id| page_cache_key("book", 7, PageId(id), 2048, decode))
        .collect();
    for (key, size) in keys.iter().zip([4usize, 8, 16]) {
        assert!(insert_worker_cache_with_budget(
            &mut cache,
            &mut cache_bytes,
            key.clone(),
            &Arc::new(test_prepared_page(size, 2048)),
            64,
        ));
    }
    // The third page has taken the place of the first.
    assert_eq!(cache_bytes, 24);
    assert!(cache.peek(&keys[0]).is_none());

    // The same key again replaces its page.
    assert!(insert_worker_cache_with_budget(
        &mut cache,
        &mut cache_bytes,
        keys[1].clone(),
        &Arc::new(test_prepared_page(12, 2048)),
        64,
    ));
    assert_eq!(cache_bytes, 28);
    assert_eq!(cache.len(), 2);

    // Pruning drops the page that was used least recently.
    prune_worker_cache(&mut cache, &mut cache_bytes, 20);
    assert_eq!(cache_bytes, 12);
    assert!(cache.peek(&keys[1]).is_some());
    assert!(cache.peek(&keys[2]).is_none());
}

#[test]
fn cache_is_cleared_when_the_book_or_the_decoding_changes() {
    let decode = DecodeOptions::default();
    let changed = DecodeOptions {
        apply_embedded_icc: true,
        ..DecodeOptions::default()
    };
    let source = Some(remap_source("book", 1, 7, vec![0]));
    for (previous_book, previous_cache, current, cleared) in [
        (Some("book"), Some(7), decode, false),
        (Some("other"), Some(7), decode, true),
        (Some("book"), Some(8), decode, true),
        (Some("book"), Some(7), changed, true),
    ] {
        let mut cache = LruCache::new(NonZeroUsize::new(4).unwrap());
        let mut cache_bytes = 4usize;
        let key = page_cache_key("book", 7, PageId(0), 2048, decode);
        cache.put(key.clone(), Arc::new(test_prepared_page(4, 2048)));
        clear_cache_on_source_or_decode_change(
            &source,
            previous_book,
            previous_cache,
            decode,
            current,
            &mut cache,
            &mut cache_bytes,
        );
        assert_eq!(cache.is_empty(), cleared);
        assert_eq!(cache_bytes, if cleared { 0 } else { 4 });
    }
}

#[test]
fn published_app_cache_hint_skips_only_prefetch_pages() {
    let decode = DecodeOptions::default();
    let mut hints = PublishedAppCacheHints::new();
    remember_published_app_cache_hint(&mut hints, CachedPageKey::new(PageId(6), 4096, decode));

    assert!(should_skip_published_app_cache_hint(
        &hints,
        false,
        PageId(6),
        4096,
        decode
    ));
    assert!(!should_skip_published_app_cache_hint(
        &hints,
        true,
        PageId(6),
        4096,
        decode
    ));
}

#[test]
fn published_app_cache_hint_is_bounded_and_recent() {
    let decode = DecodeOptions::default();
    let mut hints = PublishedAppCacheHints::new();
    for index in 0..=PUBLISHED_APP_CACHE_HINT_LIMIT {
        remember_published_app_cache_hint(
            &mut hints,
            CachedPageKey::new(PageId(index as u32), 4096, decode),
        );
    }

    assert_eq!(hints.len(), PUBLISHED_APP_CACHE_HINT_LIMIT);
    assert!(!should_skip_published_app_cache_hint(
        &hints,
        false,
        PageId(0),
        4096,
        decode
    ));
    assert!(should_skip_published_app_cache_hint(
        &hints,
        false,
        PageId(PUBLISHED_APP_CACHE_HINT_LIMIT as u32),
        4096,
        decode
    ));
}

#[test]
fn forgotten_hint_no_longer_skips_a_page() {
    let decode = DecodeOptions::default();
    let key = CachedPageKey::new(PageId(6), 4096, decode);
    let mut hints = PublishedAppCacheHints::new();
    remember_published_app_cache_hint(&mut hints, key);
    forget_published_app_cache_hint(&mut hints, key);
    assert!(!should_skip_published_app_cache_hint(
        &hints,
        false,
        PageId(6),
        4096,
        decode
    ));
    assert!(hints.is_empty());
}

#[test]
fn hints_are_dropped_when_the_target_changes() {
    let decode = DecodeOptions::default();
    let source = Some(remap_source("book", 1, 7, vec![0]));
    for (target, kept) in [(4096u32, true), (2048, false)] {
        let mut hints = PublishedAppCacheHints::new();
        remember_published_app_cache_hint(&mut hints, CachedPageKey::new(PageId(6), 4096, decode));
        clear_published_app_cache_hints_on_context_change(
            &source,
            Some("book"),
            Some(7),
            decode,
            4096,
            decode,
            target,
            &mut hints,
        );
        assert_eq!(hints.is_empty(), !kept);
    }
}

#[test]
fn worker_cache_key_survives_same_book_snapshot_swap() {
    // A refresh inserts a new page at the front: the page interned as id 0
    // keeps id 0 but moves from index 0 to index 1. Its worker LRU key is
    // built from (book_id, page_id), so it must be identical across the swap
    // even though the index changed.
    let before = remap_source("same-book", 1, 7, vec![0, 1]);
    let after = remap_source("same-book", 2, 7, vec![2, 0, 1]);
    let decode = DecodeOptions::default();

    let before_index = 0;
    let after_index = 1;
    assert_ne!(before_index, after_index);
    let before_id = before.page_id(before_index).unwrap();
    let after_id = after.page_id(after_index).unwrap();
    assert_eq!(before_id, after_id);

    let before_key = page_cache_key(&before.book_id, before.cache_id, before_id, 2048, decode);
    let after_key = page_cache_key(&after.book_id, after.cache_id, after_id, 2048, decode);
    assert_eq!(before_key, after_key);
    assert_ne!(
        before_key,
        page_cache_key(&before.book_id, 8, before_id, 2048, decode)
    );
}

#[test]
fn update_book_epoch_bumps_on_instance_change_and_book_change_only() {
    let decode_source = |book_id: &str, instance_id: u64| -> BookSnapshot {
        remap_source(book_id, instance_id, instance_id, vec![0])
    };

    // Same book_id, instance id changes (a real refresh): bump.
    let mut epoch = 0;
    let source = Some(decode_source("book", 2));
    update_book_epoch(&mut epoch, &source, Some("book"), Some(1));
    assert_eq!(epoch, 1);

    // book_id changes with test-fake instance 0 on both sides: bump.
    let mut epoch = 0;
    let source = Some(decode_source("next", 0));
    update_book_epoch(&mut epoch, &source, Some("book"), Some(0));
    assert_eq!(epoch, 1);

    // Nothing changed: no bump.
    let mut epoch = 0;
    let source = Some(decode_source("book", 5));
    update_book_epoch(&mut epoch, &source, Some("book"), Some(5));
    assert_eq!(epoch, 0);
}

#[test]
fn source_bytes_cache_reuses_inserted_page_bytes() {
    let mut cache = SourceBytesCache::new(32);
    let bytes = cache.insert("book", PageId(3), vec![1, 2, 3, 4]);

    assert_eq!(
        cache.get("book", PageId(3)).as_deref(),
        Some(&[1, 2, 3, 4][..])
    );
    assert_eq!(cache.get("book", PageId(4)), None);
    assert_eq!(bytes.as_slice(), &[1, 2, 3, 4]);
}

#[test]
fn source_bytes_cache_prunes_to_budget() {
    let mut cache = SourceBytesCache::new(6);
    cache.insert("book", PageId(1), vec![1, 1, 1, 1]);
    cache.insert("book", PageId(2), vec![2, 2, 2, 2]);

    assert_eq!(cache.get("book", PageId(1)), None);
    assert_eq!(
        cache.get("book", PageId(2)).as_deref(),
        Some(&[2, 2, 2, 2][..])
    );
}

#[test]
fn source_bytes_cache_skips_oversize_pages() {
    let mut cache = SourceBytesCache::new(3);
    let bytes = cache.insert("book", PageId(1), vec![1, 2, 3, 4]);

    assert_eq!(bytes.as_slice(), &[1, 2, 3, 4]);
    assert_eq!(cache.get("book", PageId(1)), None);
}

#[test]
fn cleared_source_bytes_are_gone() {
    let mut cache = SourceBytesCache::new(32);
    cache.insert("book", PageId(1), vec![1, 2, 3]);
    assert_eq!(cache.bytes, 3);
    cache.clear();
    assert_eq!(cache.bytes, 0);
    assert_eq!(cache.get("book", PageId(1)), None);
}

#[test]
fn source_bytes_key_joins_book_and_page() {
    assert_eq!(source_bytes_key("a:book", PageId(17)), "a:book:17");
}

#[test]
fn source_bytes_cache_env_gate_accepts_expected_enabled_values() {
    for value in ["1", "true", "yes", "on", "auto", " TRUE "] {
        assert!(enabled_value(value));
    }
    for value in ["0", "false", "off", "no", ""] {
        assert!(!enabled_value(value));
    }
}

#[test]
fn source_bytes_cache_budget_requires_enabled_gate() {
    assert_eq!(source_bytes_cache_budget(None, Some(64)), None);
    assert_eq!(source_bytes_cache_budget(Some("0"), Some(64)), None);
    assert_eq!(
        source_bytes_cache_budget(Some("1"), Some(64)),
        Some(64 * 1024 * 1024)
    );
    assert_eq!(
        source_bytes_cache_budget(Some("1"), None),
        Some(64 * 1024 * 1024)
    );
}

#[test]
fn source_bytes_budget_is_clamped() {
    assert_eq!(source_bytes_cache_budget(Some("on"), Some(0)), None);
    assert_eq!(
        source_bytes_cache_budget(Some("on"), Some(1)),
        Some(8 * 1024 * 1024)
    );
    assert_eq!(
        source_bytes_cache_budget(Some("on"), Some(4096)),
        Some(256 * 1024 * 1024)
    );
}

#[test]
fn a_hint_is_held_once() {
    let key = |id| CachedPageKey::new(PageId(id), 4096, DecodeOptions::default());
    let mut hints = PublishedAppCacheHints::new();
    for id in [1, 2, 1, 1, 3, 2] {
        remember_published_app_cache_hint(&mut hints, key(id));
    }
    assert_eq!(hints.len(), 3);
    forget_published_app_cache_hint(&mut hints, key(1));
    assert_eq!(hints.len(), 2);
}
