//! Keeping half-made windows out of sight while the program starts.
use crate::state::{RendererMode, WindowPlacement};
use crate::text;
use vstd::prelude::*;

verus! {

/// How long the guard watches where it masks no main window, in nanoseconds.
pub const AUXILIARY_GUARD_NANOS: u64 = 1_500_000_000;

/// How long the guard watches where it masks the main window, in nanoseconds.
pub const MASKING_GUARD_NANOS: u64 = 3_000_000_000;

/// How long the main window is revealed again and again once the host has revealed it.
pub const MAIN_REVEAL_FORCE_NANOS: u64 = 500_000_000;

/// Which windows the guard masks: those that help the event loop, or the main window too, until
/// the host reveals it on the first frame.
#[derive(Debug, Clone, Copy, PartialEq, Eq, Structural)]
pub enum StartupWindowGuardMode {
    AuxiliaryOnly,
    MaskMainUntilRevealed,
}

impl StartupWindowGuardMode {
    pub fn masks_main_window(self) -> (masks: bool)
        ensures
            masks == (self == StartupWindowGuardMode::MaskMainUntilRevealed),
    {
        self == StartupWindowGuardMode::MaskMainUntilRevealed
    }

    /// How long the guard watches, in nanoseconds.
    pub fn guard_nanos(self) -> (nanos: u64)
        ensures
            nanos == match self {
                StartupWindowGuardMode::AuxiliaryOnly => AUXILIARY_GUARD_NANOS,
                StartupWindowGuardMode::MaskMainUntilRevealed => MASKING_GUARD_NANOS,
            },
    {
        if self.masks_main_window() {
            MASKING_GUARD_NANOS
        } else {
            AUXILIARY_GUARD_NANOS
        }
    }
}

/// The mode of the guard. On Windows the main window is masked with every renderer and in every
/// placement; elsewhere it never is.
pub fn startup_window_guard_mode_for(
    _renderer_mode: RendererMode,
    _placement: &WindowPlacement,
    on_windows: bool,
) -> (mode: StartupWindowGuardMode)
    ensures
        mode == if on_windows {
            StartupWindowGuardMode::MaskMainUntilRevealed
        } else {
            StartupWindowGuardMode::AuxiliaryOnly
        },
{
    if !on_windows {
        return StartupWindowGuardMode::AuxiliaryOnly;
    }
    StartupWindowGuardMode::MaskMainUntilRevealed
}

/// Whether a window of a class is masked, with or without the main windows.
pub fn masks_class(class_name: &str, masking_main: bool) -> (masked: bool)
    ensures
        masked == (class_name@ == "Winit Thread Event Target"@ || (class_name@ == "Window Class"@
            && masking_main)),
{
    text::same_text(class_name, "Winit Thread Event Target") || (masking_main && text::same_text(
        class_name,
        "Window Class",
    ))
}

/// What the guard does about the main window now.
#[derive(Debug, Clone, Copy, PartialEq, Eq, Structural)]
pub enum MainRevealAction {
    Nothing,
    ForceReveal,
}

/// How far the main window has been revealed. Times are nanoseconds since the guard began.
#[derive(Debug, Clone, Copy, PartialEq, Eq, Structural)]
pub struct MainRevealState {
    pub revealed: bool,
    pub force_reveal_until: Option<u64>,
}

impl MainRevealState {
    /// Whether the main window is still being revealed again and again.
    pub open spec fn is_forcing(self, now: u64) -> bool {
        match self.force_reveal_until {
            Some(until) => now <= until,
            None => false,
        }
    }

    /// Whether nothing is left to do about the main window.
    pub open spec fn is_done(self, now: u64) -> bool {
        self.revealed && !self.is_forcing(now)
    }

    /// A main window that is masked is not revealed yet; one that never is counts as revealed.
    pub fn new(mode: StartupWindowGuardMode) -> (state: MainRevealState)
        ensures
            state == (MainRevealState {
                revealed: mode == StartupWindowGuardMode::AuxiliaryOnly,
                force_reveal_until: None,
            }),
    {
        MainRevealState { revealed: !mode.masks_main_window(), force_reveal_until: None }
    }

    /// Reveals again while that time runs, and forgets the time when it has run out.
    pub fn update(&mut self, now: u64) -> (action: MainRevealAction)
        ensures
            action == if old(self).is_forcing(now) {
                MainRevealAction::ForceReveal
            } else {
                MainRevealAction::Nothing
            },
            final(self).revealed == old(self).revealed,
            final(self).force_reveal_until == if old(self).is_forcing(now) {
                old(self).force_reveal_until
            } else {
                None
            },
    {
        if let Some(until) = self.force_reveal_until {
            if now <= until {
                return MainRevealAction::ForceReveal;
            }
        }
        self.force_reveal_until = None;
        MainRevealAction::Nothing
    }

    pub fn is_complete(&self, now: u64) -> (complete: bool)
        ensures
            complete == self.is_done(now),
    {
        self.revealed && match self.force_reveal_until {
            Some(until) => now > until,
            None => true,
        }
    }

    /// Notes that the host has revealed the main window: where it was masked before and is not
    /// any more. True only the first time.
    pub fn observe_external_reveal(&mut self, now: u64, masking_main: bool) -> (observed: bool)
        requires
            now + MAIN_REVEAL_FORCE_NANOS <= u64::MAX,
        ensures
            observed == (!old(self).revealed && !masking_main),
            *final(self) == if observed {
                MainRevealState {
                    revealed: true,
                    force_reveal_until: Some((now + MAIN_REVEAL_FORCE_NANOS) as u64),
                }
            } else {
                *old(self)
            },
    {
        if self.revealed || masking_main {
            return false;
        }
        self.revealed = true;
        self.force_reveal_until = Some(now + MAIN_REVEAL_FORCE_NANOS);
        true
    }
}

/// Once the host has revealed the main window, it is revealed again for half a second, and then
/// nothing is left to do.
pub proof fn reveal_lasts_half_a_second(revealed_at: u64, now: u64)
    requires
        revealed_at + MAIN_REVEAL_FORCE_NANOS <= u64::MAX,
        revealed_at <= now,
    ensures
        ({
            let state = MainRevealState {
                revealed: true,
                force_reveal_until: Some((revealed_at + MAIN_REVEAL_FORCE_NANOS) as u64),
            };
            &&& state.is_forcing(now) <==> now - revealed_at <= 500_000_000
            &&& state.is_done(now) <==> now - revealed_at > 500_000_000
        }),
{
}

/// Whether the program's first argument belongs to the command-line tool.
pub open spec fn is_cli_word(arg: Seq<char>) -> bool {
    ||| arg == "--help"@
    ||| arg == "-h"@
    ||| arg == "help"@
    ||| arg == "--perf-scan"@
    ||| arg == "--quality-scan"@
    ||| arg == "--effect-bench"@
    ||| arg == "--upscale-bench"@
    ||| arg == "--upscale-quality-scan"@
    ||| arg == "--gpu-copy-bench"@
}

/// Whether the program's first argument belongs to the command-line tool.
pub fn is_gui_cli_redirect_arg(arg: &str) -> (redirect: bool)
    ensures
        redirect == is_cli_word(arg@),
{
    text::same_text(arg, "--help") || text::same_text(arg, "-h") || text::same_text(arg, "help")
        || text::same_text(arg, "--perf-scan") || text::same_text(arg, "--quality-scan")
        || text::same_text(arg, "--effect-bench") || text::same_text(arg, "--upscale-bench")
        || text::same_text(arg, "--upscale-quality-scan") || text::same_text(
        arg,
        "--gpu-copy-bench",
    )
}

} // verus!
