//! The order in which pages are prepared.
use suisuiview::worker::api::{
    NavigationDirection, PreparedTargetIntent, MAX_TARGET_LONG_EDGE, PREVIEW_TARGET_LONG_EDGE,
};
use suisuiview::worker::scheduler::{
    is_visible_page_index, preview_prefetch_indices, prioritized_indices, prioritized_jobs,
    should_skip_ai_preview_or_prefetch, visible_indices, PageJob,
};

#[test]
fn priority_tracks_forward_reading() {
    assert_eq!(
        prioritized_indices(5, 12, NavigationDirection::Forward, 1),
        vec![5, 6, 7, 8, 9, 10, 11, 4]
    );
}

#[test]
fn priority_tracks_backward_reading() {
    assert_eq!(
        prioritized_indices(5, 12, NavigationDirection::Backward, 1),
        vec![5, 4, 3, 2, 1, 0, 6]
    );
}

#[test]
fn priority_can_extend_full_prefetch_for_queued_turns() {
    assert_eq!(
        prioritized_indices(5, 20, NavigationDirection::Forward, 6),
        vec![5, 6, 7, 8, 9, 10, 11, 12, 13, 14, 15, 16, 17, 4]
    );
}

#[test]
fn exact_jobs_precede_preview_jobs_for_visible_pages() {
    assert_eq!(
        prioritized_jobs(
            5,
            12,
            NavigationDirection::Forward,
            2048,
            PreparedTargetIntent::NormalNavigation,
            2,
            true,
            true,
        ),
        vec![
            PageJob {
                index: 5,
                target_long_edge: 2048
            },
            PageJob {
                index: 6,
                target_long_edge: 2048
            },
            PageJob {
                index: 7,
                target_long_edge: 2048
            },
            PageJob {
                index: 8,
                target_long_edge: 2048
            },
            PageJob {
                index: 9,
                target_long_edge: 2048
            },
            PageJob {
                index: 10,
                target_long_edge: 2048
            },
            PageJob {
                index: 11,
                target_long_edge: 2048
            },
            PageJob {
                index: 4,
                target_long_edge: 2048
            },
            PageJob {
                index: 5,
                target_long_edge: PREVIEW_TARGET_LONG_EDGE
            },
            PageJob {
                index: 6,
                target_long_edge: PREVIEW_TARGET_LONG_EDGE
            },
            PageJob {
                index: 7,
                target_long_edge: PREVIEW_TARGET_LONG_EDGE
            },
            PageJob {
                index: 8,
                target_long_edge: PREVIEW_TARGET_LONG_EDGE
            },
            PageJob {
                index: 9,
                target_long_edge: PREVIEW_TARGET_LONG_EDGE
            },
            PageJob {
                index: 10,
                target_long_edge: PREVIEW_TARGET_LONG_EDGE
            },
            PageJob {
                index: 11,
                target_long_edge: PREVIEW_TARGET_LONG_EDGE
            },
            PageJob {
                index: 4,
                target_long_edge: PREVIEW_TARGET_LONG_EDGE
            },
            PageJob {
                index: 3,
                target_long_edge: PREVIEW_TARGET_LONG_EDGE
            },
        ]
    );
}

#[test]
fn preview_jobs_are_skipped_when_target_is_preview_sized() {
    assert_eq!(
        prioritized_jobs(
            5,
            12,
            NavigationDirection::Forward,
            PREVIEW_TARGET_LONG_EDGE,
            PreparedTargetIntent::NormalNavigation,
            2,
            true,
            true,
        ),
        prioritized_indices(5, 12, NavigationDirection::Forward, 2)
            .into_iter()
            .map(|index| PageJob {
                index,
                target_long_edge: PREVIEW_TARGET_LONG_EDGE
            })
            .collect::<Vec<_>>()
    );
}

#[test]
fn preview_and_prefetch_can_be_disabled() {
    assert_eq!(
        prioritized_jobs(
            5,
            12,
            NavigationDirection::Forward,
            2048,
            PreparedTargetIntent::NormalNavigation,
            2,
            false,
            false,
        ),
        vec![
            PageJob {
                index: 5,
                target_long_edge: 2048
            },
            PageJob {
                index: 6,
                target_long_edge: 2048
            },
        ]
    );
}

#[test]
fn original_inspection_jobs_stay_visible_and_exact() {
    assert_eq!(
        prioritized_jobs(
            5,
            12,
            NavigationDirection::Forward,
            MAX_TARGET_LONG_EDGE + 1,
            PreparedTargetIntent::OriginalInspection,
            2,
            true,
            true,
        ),
        vec![
            PageJob {
                index: 5,
                target_long_edge: MAX_TARGET_LONG_EDGE + 1
            },
            PageJob {
                index: 6,
                target_long_edge: MAX_TARGET_LONG_EDGE + 1
            },
        ]
    );
}

#[test]
fn large_fit_display_keeps_high_target_jobs_visible_but_allows_preview_prefetch() {
    assert_eq!(
        prioritized_jobs(
            5,
            12,
            NavigationDirection::Forward,
            MAX_TARGET_LONG_EDGE + 512,
            PreparedTargetIntent::LargeFitDisplay,
            2,
            true,
            true,
        ),
        vec![
            PageJob {
                index: 5,
                target_long_edge: MAX_TARGET_LONG_EDGE + 512
            },
            PageJob {
                index: 6,
                target_long_edge: MAX_TARGET_LONG_EDGE + 512
            },
            PageJob {
                index: 5,
                target_long_edge: PREVIEW_TARGET_LONG_EDGE
            },
            PageJob {
                index: 6,
                target_long_edge: PREVIEW_TARGET_LONG_EDGE
            },
            PageJob {
                index: 7,
                target_long_edge: PREVIEW_TARGET_LONG_EDGE
            },
            PageJob {
                index: 8,
                target_long_edge: PREVIEW_TARGET_LONG_EDGE
            },
            PageJob {
                index: 9,
                target_long_edge: PREVIEW_TARGET_LONG_EDGE
            },
            PageJob {
                index: 10,
                target_long_edge: PREVIEW_TARGET_LONG_EDGE
            },
            PageJob {
                index: 11,
                target_long_edge: PREVIEW_TARGET_LONG_EDGE
            },
            PageJob {
                index: 4,
                target_long_edge: PREVIEW_TARGET_LONG_EDGE
            },
            PageJob {
                index: 3,
                target_long_edge: PREVIEW_TARGET_LONG_EDGE
            },
        ]
    );
}

#[test]
fn ai_preview_and_prefetch_jobs_are_skipped() {
    assert!(should_skip_ai_preview_or_prefetch(
        Some("art.ai"),
        1,
        1,
        1,
        PREVIEW_TARGET_LONG_EDGE
    ));
    assert!(!should_skip_ai_preview_or_prefetch(
        Some("art.ai"),
        1,
        1,
        1,
        2048
    ));
    assert!(should_skip_ai_preview_or_prefetch(
        Some("art.ai"),
        0,
        1,
        1,
        2048
    ));
    assert!(!should_skip_ai_preview_or_prefetch(
        Some("page-0001.png"),
        0,
        1,
        0,
        2048
    ));
}

#[test]
fn visible_pages_start_at_the_center_and_end_with_the_book() {
    assert_eq!(visible_indices(5, 12, 2), vec![5, 6]);
    assert_eq!(visible_indices(11, 12, 2), vec![11]);
    assert!(is_visible_page_index(6, 5, 2));
    assert!(!is_visible_page_index(7, 5, 2));
    assert!(!is_visible_page_index(4, 5, 2));
}

#[test]
fn every_job_is_for_a_page_of_the_book_and_none_comes_twice() {
    for direction in [NavigationDirection::Forward, NavigationDirection::Backward] {
        for center in 0..8 {
            for visible in 1..4 {
                let jobs = prioritized_jobs(
                    center,
                    8,
                    direction,
                    2048,
                    PreparedTargetIntent::NormalNavigation,
                    visible,
                    true,
                    true,
                );
                assert_eq!(
                    jobs[0],
                    PageJob {
                        index: center,
                        target_long_edge: 2048
                    }
                );
                for (place, job) in jobs.iter().enumerate() {
                    assert!(job.index < 8);
                    assert!(!jobs[..place].contains(job));
                }
            }
        }
    }
}

#[test]
fn an_empty_book_has_no_jobs() {
    assert!(prioritized_indices(0, 0, NavigationDirection::Forward, 1).is_empty());
    assert!(preview_prefetch_indices(0, 0, NavigationDirection::Forward, 1).is_empty());
}

#[test]
fn previews_lie_around_the_center() {
    assert_eq!(
        preview_prefetch_indices(5, 12, NavigationDirection::Forward, 2),
        vec![5, 6, 7, 8, 9, 10, 11, 4, 3]
    );
}
