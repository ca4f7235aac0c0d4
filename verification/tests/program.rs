//! What surrounds the viewer: its instance pipe, its start-up guard, and the small tools.
use suisuiview::binary::{divide_to_even, round_to_binary, scale_length, DOUBLE_HALF, SINGLE_HALF};
use suisuiview::color::ColorImage;
use suisuiview::single_instance::{after_read, pipe_name_for_key, ListenerStep};
use suisuiview::startup_window::{
    is_gui_cli_redirect_arg, masks_class, startup_window_guard_mode_for, MainRevealAction,
    MainRevealState, StartupWindowGuardMode, AUXILIARY_GUARD_NANOS, MAIN_REVEAL_FORCE_NANOS,
    MASKING_GUARD_NANOS,
};
use suisuiview::state::{RendererMode, WindowPlacement};
use suisuiview::text::{
    has_extension, push_decimal, push_megabytes, push_padded_decimal, same_text, setting_word,
    text_precedes,
};

#[test]
fn pipe_name_hash_is_stable_and_namespaced() {
    let first = pipe_name_for_key(r"C:\Users\me\AppData\Local\SuiSuiView\state.json");
    let second = pipe_name_for_key(r"C:\Users\me\AppData\Local\SuiSuiView\state.json");

    assert_eq!(first, second);
    assert!(first.starts_with(r"\\.\pipe\SuiSuiView-"));
    assert_ne!(first, pipe_name_for_key("other"));
}

#[test]
fn pipe_name_ends_with_the_start_of_the_hash() {
    // The BLAKE3 hash of no bytes begins af1349b9f5f9a1a6.
    assert_eq!(
        pipe_name_for_key(""),
        r"\\.\pipe\SuiSuiView-af1349b9f5f9a1a6"
    );
}

#[test]
fn a_listener_that_was_stopped_decodes_nothing() {
    assert_eq!(after_read(false, true), ListenerStep::Stop);
    assert_eq!(after_read(false, false), ListenerStep::Stop);
    assert_eq!(after_read(true, true), ListenerStep::Decode);
    assert_eq!(after_read(true, false), ListenerStep::PauseAndRetry);
}

#[test]
fn startup_window_guard_mode_per_renderer_and_placement() {
    let maximized = WindowPlacement {
        inner_size: Some([1280, 820]),
        outer_position: None,
        outer_position_px: None,
        normal_rect_px: None,
        maximized: true,
    };
    let windowed = WindowPlacement {
        maximized: false,
        ..maximized.clone()
    };

    // Every renderer/placement combination masks the main window via the
    // guard hook (the flash happens inside create_window) and holds the mask
    // until the host reveals it on the first rendered frame.
    for on_windows in [true, false] {
        let expected = if on_windows {
            StartupWindowGuardMode::MaskMainUntilRevealed
        } else {
            StartupWindowGuardMode::AuxiliaryOnly
        };
        for placement in [&maximized, &windowed] {
            for renderer in [RendererMode::LowMemoryGlow, RendererMode::Wgpu] {
                assert_eq!(
                    startup_window_guard_mode_for(renderer, placement, on_windows),
                    expected
                );
            }
        }
    }
}

#[test]
fn guard_masks_its_classes() {
    assert!(masks_class("Winit Thread Event Target", false));
    assert!(masks_class("Window Class", true));
    assert!(!masks_class("Window Class", false));
    assert!(!masks_class("Edit", true));
    assert_eq!(
        StartupWindowGuardMode::AuxiliaryOnly.guard_nanos(),
        AUXILIARY_GUARD_NANOS
    );
    assert_eq!(
        StartupWindowGuardMode::MaskMainUntilRevealed.guard_nanos(),
        MASKING_GUARD_NANOS
    );
}

#[test]
fn main_window_is_revealed_for_half_a_second() {
    let mut state = MainRevealState::new(StartupWindowGuardMode::MaskMainUntilRevealed);
    assert_eq!(state.update(10), MainRevealAction::Nothing);
    assert!(!state.is_complete(10));
    assert!(!state.observe_external_reveal(10, true));
    assert!(state.observe_external_reveal(20, false));
    assert!(!state.observe_external_reveal(30, false));
    let end = 20 + MAIN_REVEAL_FORCE_NANOS;
    assert_eq!(state.update(end), MainRevealAction::ForceReveal);
    assert!(!state.is_complete(end));
    assert!(state.is_complete(end + 1));
    assert_eq!(state.update(end + 1), MainRevealAction::Nothing);
    assert_eq!(state.force_reveal_until, None);

    let never_masked = MainRevealState::new(StartupWindowGuardMode::AuxiliaryOnly);
    assert!(never_masked.is_complete(0));
}

#[test]
fn command_line_words_go_to_the_tool() {
    for word in [
        "--help",
        "-h",
        "help",
        "--perf-scan",
        "--quality-scan",
        "--effect-bench",
        "--upscale-bench",
        "--upscale-quality-scan",
        "--gpu-copy-bench",
    ] {
        assert!(is_gui_cli_redirect_arg(word));
    }
    assert!(!is_gui_cli_redirect_arg("book.cbz"));
    assert!(!is_gui_cli_redirect_arg(""));
}

#[test]
fn opaque_pictures_keep_their_bytes() {
    let rgba = [10u8, 20, 30, 255, 0, 128, 255, 255];
    let image = ColorImage::from_rgba_unmultiplied([2, 1], &rgba);
    assert_eq!(image.pixels, rgba);
    assert_eq!(image.to_rgba(), rgba);
}

#[test]
fn translucent_pixels_are_premultiplied() {
    let rgba = [200u8, 100, 0, 128, 9, 9, 9, 0];
    let image = ColorImage::from_rgba_unmultiplied([2, 1], &rgba);
    let expected = egui::Color32::from_rgba_unmultiplied(200, 100, 0, 128);
    assert_eq!(image.pixels[..4], expected.to_array());
    assert_ne!(image.pixels[..4], rgba[..4]);
    assert_eq!(image.pixels[4..], [0, 0, 0, 0]);
    assert_eq!(image.to_rgba()[..4], expected.to_srgba_unmultiplied());
}

#[test]
fn numbers_are_written_as_the_formatter_writes_them() {
    for n in [0u64, 7, 10, 999, 1_000_000_007, u64::MAX] {
        let mut text = "n=".to_owned();
        push_decimal(&mut text, n);
        assert_eq!(text, format!("n={n}"));
        let mut padded = String::new();
        push_padded_decimal(&mut padded, n, 4);
        assert_eq!(padded, format!("{n:04}"));
    }
}

#[test]
fn megabytes_are_written_as_the_formatter_writes_them() {
    let mut state = 99u64;
    for round in 0..3000u32 {
        state = state
            .wrapping_mul(6364136223846793005)
            .wrapping_add(1442695040888963407);
        let bytes = (state >> (round % 60)) as usize;
        let mut text = String::new();
        push_megabytes(&mut text, bytes);
        assert_eq!(
            text,
            format!("{:.1}", bytes as f32 / (1024.0 * 1024.0)),
            "{bytes}"
        );
    }
}

#[test]
fn lengths_are_scaled_in_double_precision() {
    let mut state = 7u64;
    for round in 0..5000u32 {
        state = state
            .wrapping_mul(6364136223846793005)
            .wrapping_add(1442695040888963407);
        let longest = (((state >> 32) as u32) >> (round % 30)).max(1);
        let value = ((state >> 3) as u32) % longest;
        let target = ((state >> 11) as u32) >> (round % 23);
        let scale = f64::from(target) / f64::from(longest);
        let expected = (f64::from(value) * scale).round() as u32;
        assert_eq!(
            scale_length(value, target, longest),
            expected,
            "{value} {target} {longest}"
        );
    }
    assert_eq!(scale_length(77, 2048, 77), 2048);
}

#[test]
fn ties_go_to_the_even_number() {
    assert_eq!(divide_to_even(5, 2), 2);
    assert_eq!(divide_to_even(7, 2), 4);
    assert_eq!(divide_to_even(8, 3), 3);
    assert_eq!(
        round_to_binary((1 << 53) + 1, DOUBLE_HALF),
        1 << 53
    );
    for n in [0u32, 1, 16_777_217, 16_777_219, u32::MAX] {
        assert_eq!(
            round_to_binary(u128::from(n), SINGLE_HALF),
            n as f32 as u128
        );
    }
}

#[test]
fn extensions_are_found_as_paths_have_them() {
    for (name, extension) in [
        ("a.webp", "webp"),
        ("dir.webp/a", "webp"),
        ("a.WEBP", "webp"),
        (".webp", "webp"),
        ("x/.webp", "webp"),
        ("a.webp/", "webp"),
        ("a.webp/.", "webp"),
        ("a.b.webp", "webp"),
        ("a.webp.", "webp"),
        ("..webp", "webp"),
        ("", "webp"),
    ] {
        let expected = std::path::Path::new(name)
            .extension()
            .and_then(|found| found.to_str())
            .is_some_and(|found| found.eq_ignore_ascii_case(extension));
        assert_eq!(has_extension(name, extension), expected, "{name}");
    }
}

#[test]
fn settings_are_trimmed_and_lowered() {
    for value in ["  On ", "\u{3000}TRUE\t", "", " \n ", "\u{a0}É"] {
        assert_eq!(setting_word(value), value.trim().to_ascii_lowercase());
    }
}

#[test]
fn texts_compare_as_strings_do() {
    for left in ["", "a", "b", "ab", "Ab", "é", "z"] {
        for right in ["", "a", "b", "ab", "Ab", "é", "z"] {
            assert_eq!(same_text(left, right), left == right);
            assert_eq!(text_precedes(left, right), left < right);
        }
    }
}
