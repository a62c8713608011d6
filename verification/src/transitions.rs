//! Animated transitions between two slideshow images shown as text.
//!
//! When a transition starts, [`FRAME_COUNT`] frames are made from the text
//! that is to appear, by the effect that the configuration names.  While
//! the transition plays, the time that has passed picks the frame; when the
//! whole duration has passed, the frames are dropped and the real content
//! shows again.
use vstd::prelude::*;

use ratatui::text::Text;
use std::time::Instant;

use crate::config::SlideshowTransitionConfig;
use crate::strings::{chars_of, push_char, push_chars, push_repeated, str_eq};
use crate::text::{ansi_parsed, parse_ansi, plain_text, raw_text, text_from, text_to_string};

verus! {

/// `std::time::Instant`, a reading of the clock; nothing is known of it.
#[verifier::external_type_specification]
#[verifier::external_body]
pub struct ExInstant(Instant);

/// The number of frames of a transition.
pub const FRAME_COUNT: usize = 20;

/// The cursor that the typewriter effect shows behind the text.
pub const TYPEWRITER_CURSOR: char = '\u{2588}';

/// The present moment.
///
/// Wraps `Instant::now`; nothing is promised of a clock.
#[verifier::external_body]
fn now() -> (r: Instant) {
    Instant::now()
}

/// The whole milliseconds that have passed since `start`.
///
/// Wraps `Instant::elapsed` and `Duration::as_millis`; nothing is promised
/// of a clock.
#[verifier::external_body]
fn millis_since(start: &Instant) -> (r: u128) {
    start.elapsed().as_millis()
}

/// The duration of a transition in milliseconds: twenty times that of a
/// frame, as far as 64 bits hold it.
pub open spec fn total_duration_ms(frame_duration_ms: u64) -> u64 {
    if frame_duration_ms * 20 > u64::MAX {
        u64::MAX
    } else {
        (frame_duration_ms * 20) as u64
    }
}

/// The number of characters of a text of `len` characters that frame `i`
/// shows: `len` times the progress, rounded down.  The progress of frame
/// `i` is `i / (FRAME_COUNT - 1)`, so that it runs from 0 to 1 in even
/// steps.
pub open spec fn revealed_chars(len: nat, i: nat) -> nat {
    (len * i) / ((FRAME_COUNT - 1) as nat)
}

/// The number of units, of `span` at the start, by which frame `i` is
/// still shifted: `span` times what is left of the progress, rounded down.
pub open spec fn remaining_shift(span: nat, i: nat) -> nat {
    (span * ((FRAME_COUNT - 1) - i) as nat) / ((FRAME_COUNT - 1) as nat)
}

/// The characters of frame `i` of a transition to `target`.
///
/// - `scattering` shows the first characters of the target, more with each
///   frame.
/// - `typewriter` does the same and, until the last frame, shows a cursor
///   behind them.
/// - `scrolling_left` and `scrolling_right` put up to 20 spaces before the
///   target, fewer with each frame.
/// - `climbing` puts up to 5 line feeds before the target, fewer with each
///   frame.
/// - Any other effect shows the target as it is.
pub open spec fn frame_text(effect: Seq<char>, target: Seq<char>, i: nat) -> Seq<char> {
    if effect == "scattering"@ {
        target.take(revealed_chars(target.len(), i) as int)
    } else if effect == "typewriter"@ {
        target.take(revealed_chars(target.len(), i) as int) + if i < FRAME_COUNT - 1 {
            seq![TYPEWRITER_CURSOR]
        } else {
            Seq::empty()
        }
    } else if effect == "scrolling_left"@ || effect == "scrolling_right"@ {
        Seq::new(remaining_shift(20, i), |k: int| ' ') + target
    } else if effect == "climbing"@ {
        Seq::new(remaining_shift(5, i), |k: int| '\n') + target
    } else {
        target
    }
}

/// Frame `i` as styled text: its characters parsed for ANSI codes, or the
/// unstyled target where they do not parse.
pub open spec fn frame_of(effect: Seq<char>, target: Seq<char>, i: nat) -> Text<'static> {
    match ansi_parsed(frame_text(effect, target, i)) {
        Some(text) => text,
        None => raw_text(target),
    }
}

/// The frames of a transition to `target`.
pub open spec fn transition_frames(effect: Seq<char>, target: Seq<char>) -> Seq<Text<'static>> {
    Seq::new(FRAME_COUNT as nat, |i: int| frame_of(effect, target, i as nat))
}

/// The frame to show when `elapsed_ms` of `total_ms` have passed and there
/// are `frames` frames: the progress times the last frame's number, rounded
/// down, and no more than that number.
pub open spec fn frame_index(elapsed_ms: u64, total_ms: u64, frames: nat) -> nat
    recommends
        total_ms > 0,
        frames > 0,
{
    let last = (frames - 1) as nat;
    let index = (elapsed_ms as nat * last) / (total_ms as nat);
    if index > last {
        last
    } else {
        index
    }
}

/// Later moments never show an earlier frame.
pub proof fn lemma_frame_index_monotonic(earlier_ms: u64, later_ms: u64, total_ms: u64, frames: nat)
    requires
        earlier_ms <= later_ms,
        total_ms > 0,
        frames > 0,
    ensures
        frame_index(earlier_ms, total_ms, frames) <= frame_index(later_ms, total_ms, frames),
        frame_index(later_ms, total_ms, frames) < frames,
{
    let last = (frames - 1) as nat;
    assert((earlier_ms as nat * last) / (total_ms as nat) <= (later_ms as nat * last) / (
    total_ms as nat)) by (nonlinear_arith)
        requires
            earlier_ms <= later_ms,
            total_ms > 0,
            last >= 0,
    ;
}

/// Builds the characters of one frame.
pub fn create_transition_frame(effect: &str, target: &Vec<char>, i: usize) -> (r: String)
    requires
        i < FRAME_COUNT,
    ensures
        r@ == frame_text(effect@, target@, i as nat),
{
    let mut out = String::new();
    let steps: u128 = (FRAME_COUNT - 1) as u128;
    if str_eq(effect, "scattering") || str_eq(effect, "typewriter") {
        proof {
            assert((target@.len() as int) * (i as int) <= (target@.len() as int) * 19)
                by (nonlinear_arith)
                requires
                    0 <= i <= 19,
                    0 <= target@.len(),
            ;
            assert(((target@.len() as int) * (i as int)) / 19 <= target@.len()) by (nonlinear_arith)
                requires
                    (target@.len() as int) * (i as int) <= (target@.len() as int) * 19,
            ;
        }
        let visible: u128 = (target.len() as u128) * (i as u128) / steps;
        push_chars(&mut out, target, 0, visible as usize);
        assert(target@.subrange(0, visible as int) =~= target@.take(visible as int));
        if str_eq(effect, "typewriter") && i < FRAME_COUNT - 1 {
            push_char(&mut out, TYPEWRITER_CURSOR);
        }
        proof {
            reveal_strlit("scattering");
            reveal_strlit("typewriter");
            assert("scattering"@[1] != "typewriter"@[1]);
        }
        assert(out@ =~= frame_text(effect@, target@, i as nat));
    } else if str_eq(effect, "scrolling_left") || str_eq(effect, "scrolling_right") {
        let shift: usize = 20 * (FRAME_COUNT - 1 - i) / (FRAME_COUNT - 1);
        push_repeated(&mut out, ' ', shift);
        push_chars(&mut out, target, 0, target.len());
        assert(target@.subrange(0, target@.len() as int) =~= target@);
        assert(out@ =~= frame_text(effect@, target@, i as nat));
    } else if str_eq(effect, "climbing") {
        let shift: usize = 5 * (FRAME_COUNT - 1 - i) / (FRAME_COUNT - 1);
        push_repeated(&mut out, '\n', shift);
        push_chars(&mut out, target, 0, target.len());
        assert(target@.subrange(0, target@.len() as int) =~= target@);
        assert(out@ =~= frame_text(effect@, target@, i as nat));
    } else {
        push_chars(&mut out, target, 0, target.len());
        assert(target@.subrange(0, target@.len() as int) =~= target@);
        assert(out@ =~= frame_text(effect@, target@, i as nat));
    }
    out
}

/// Builds the frames of a transition to `target`.
pub fn prerender_transition_frames(effect: &str, target: &str) -> (r: Vec<Text<'static>>)
    ensures
        r@ == transition_frames(effect@, target@),
{
    let chars = chars_of(target);
    let mut frames: Vec<Text<'static>> = Vec::new();
    let mut i: usize = 0;
    while i < FRAME_COUNT
        invariant
            i <= FRAME_COUNT,
            chars@ == target@,
            frames@.len() == i,
            forall|k: int| 0 <= k < i ==> frames@[k] == frame_of(effect@, target@, k as nat),
        decreases FRAME_COUNT - i,
    {
        let characters = create_transition_frame(effect, &chars, i);
        let frame = match parse_ansi(characters.as_str()) {
            Some(text) => text,
            None => text_from(target.to_owned()),
        };
        frames.push(frame);
        i += 1;
    }
    assert(frames@ =~= transition_frames(effect@, target@));
    frames
}

/// Plays transitions.
pub struct TransitionManager {
    pub config: SlideshowTransitionConfig,
    /// When the transition that is playing began; nothing when none plays.
    pub transition_start_time: Option<Instant>,
    /// The frames of the transition that is playing.
    pub cached_frames: Vec<Text<'static>>,
    /// The frame that was shown last.
    pub current_frame_index: usize,
    /// How long a transition plays, in milliseconds.
    pub total_transition_duration_ms: u64,
}

fn duration_of(frame_duration_ms: u64) -> (r: u64)
    ensures
        r == total_duration_ms(frame_duration_ms),
{
    if frame_duration_ms > u64::MAX / 20 {
        u64::MAX
    } else {
        frame_duration_ms * 20
    }
}

impl TransitionManager {
    /// Whether a transition is playing.
    pub open spec fn in_transition(&self) -> bool {
        self.transition_start_time is Some && self.cached_frames@.len() > 0
    }

    /// Whether no transition is playing and nothing of one is left.
    pub open spec fn is_idle(&self) -> bool {
        &&& self.transition_start_time is None
        &&& self.cached_frames@.len() == 0
        &&& self.current_frame_index == 0
    }

    pub fn new(config: SlideshowTransitionConfig) -> (r: Self)
        ensures
            r.config == config,
            r.is_idle(),
            r.total_transition_duration_ms == total_duration_ms(config.frame_duration_ms),
    {
        let total = duration_of(config.frame_duration_ms);
        TransitionManager {
            config,
            transition_start_time: None,
            cached_frames: Vec::new(),
            current_frame_index: 0,
            total_transition_duration_ms: total,
        }
    }

    /// Takes a new configuration.  A transition that is playing is dropped.
    pub fn update_config(&mut self, config: SlideshowTransitionConfig)
        ensures
            final(self).config == config,
            final(self).is_idle(),
            final(self).total_transition_duration_ms == total_duration_ms(config.frame_duration_ms),
    {
        self.total_transition_duration_ms = duration_of(config.frame_duration_ms);
        self.config = config;
        self.reset_transition();
    }

    pub fn get_effect_name(&self) -> (r: &str)
        ensures
            r@ == self.config.effect@,
    {
        self.config.effect.as_str()
    }

    pub fn is_enabled(&self) -> (r: bool)
        ensures
            r == self.config.enabled,
    {
        self.config.enabled
    }

    /// Begins a transition to `to_content`, unless transitions are switched
    /// off.  Says whether one began.  What was showing plays no part: every
    /// effect builds up the new text alone.
    pub fn start_transition(&mut self, from_content: &Text<'static>, to_content: &Text<'static>) -> (r:
        bool)
        ensures
            r == old(self).config.enabled,
            final(self).config == old(self).config,
            final(self).total_transition_duration_ms == old(self).total_transition_duration_ms,
            !r ==> *final(self) == *old(self),
            r ==> {
                &&& final(self).transition_start_time is Some
                &&& final(self).cached_frames@ == transition_frames(
                    old(self).config.effect@,
                    plain_text(*to_content),
                )
                &&& final(self).current_frame_index == 0
                &&& final(self).in_transition()
            },
    {
        if !self.config.enabled {
            return false;
        }
        let target = text_to_string(to_content);
        self.transition_start_time = Some(now());
        self.current_frame_index = 0;
        self.cached_frames = prerender_transition_frames(self.config.effect.as_str(), target.as_str());
        true
    }

    /// The frame to show when `elapsed_ms` have passed since the transition
    /// began, or nothing when none plays.  Once the whole duration has
    /// passed, the transition is over and dropped.
    pub fn frame_at(&mut self, elapsed_ms: u64) -> (r: Option<&Text<'static>>)
        ensures
            final(self).config == old(self).config,
            final(self).total_transition_duration_ms == old(self).total_transition_duration_ms,
            !old(self).in_transition() ==> r is None && *final(self) == *old(self),
            old(self).in_transition() && elapsed_ms >= old(self).total_transition_duration_ms ==> r
                is None && final(self).is_idle(),
            old(self).in_transition() && elapsed_ms < old(self).total_transition_duration_ms ==> {
                &&& final(self).transition_start_time == old(self).transition_start_time
                &&& final(self).cached_frames == old(self).cached_frames
                &&& final(self).current_frame_index == frame_index(
                    elapsed_ms,
                    old(self).total_transition_duration_ms,
                    old(self).cached_frames@.len(),
                )
                &&& final(self).current_frame_index < old(self).cached_frames@.len()
                &&& r == Some(&old(self).cached_frames@[final(self).current_frame_index as int])
            },
    {
        if !self.is_in_transition() {
            return None;
        }
        if elapsed_ms >= self.total_transition_duration_ms {
            self.reset_transition();
            return None;
        }
        let last: usize = self.cached_frames.len() - 1;
        proof {
            assert((elapsed_ms as int) * (last as int) <= 0xffff_ffff_ffff_ffff
                * 0xffff_ffff_ffff_ffff) by (nonlinear_arith)
                requires
                    0 <= elapsed_ms <= 0xffff_ffff_ffff_ffff,
                    0 <= last <= 0xffff_ffff_ffff_ffff,
            ;
        }
        let index: u128 = (elapsed_ms as u128) * (last as u128) / (
        self.total_transition_duration_ms as u128);
        self.current_frame_index = if index > last as u128 {
            last
        } else {
            index as usize
        };
        Some(&self.cached_frames[self.current_frame_index])
    }

    /// The frame to show now, or nothing when no transition plays or the
    /// one that played is over.  The clock decides; see
    /// [`frame_at`](Self::frame_at) for what is shown when.
    pub fn get_current_transition_frame(&mut self) -> (r: Option<&Text<'static>>)
        ensures
            final(self).config == old(self).config,
            final(self).total_transition_duration_ms == old(self).total_transition_duration_ms,
            !old(self).in_transition() ==> r is None && *final(self) == *old(self),
            old(self).in_transition() ==> {
                ||| r is None && final(self).is_idle()
                ||| {
                    &&& final(self).transition_start_time == old(self).transition_start_time
                    &&& final(self).cached_frames == old(self).cached_frames
                    &&& final(self).current_frame_index < old(self).cached_frames@.len()
                    &&& r == Some(&old(self).cached_frames@[final(self).current_frame_index as int])
                }
            },
    {
        let elapsed: u128 = match &self.transition_start_time {
            Some(start) => millis_since(start),
            None => 0,
        };
        let elapsed_ms: u64 = if elapsed > u64::MAX as u128 {
            u64::MAX
        } else {
            elapsed as u64
        };
        self.frame_at(elapsed_ms)
    }

    pub fn is_in_transition(&self) -> (r: bool)
        ensures
            r == self.in_transition(),
    {
        self.transition_start_time.is_some() && self.cached_frames.len() > 0
    }

    /// Drops the transition that is playing, if any.
    pub fn reset_transition(&mut self)
        ensures
            final(self).is_idle(),
            final(self).config == old(self).config,
            final(self).total_transition_duration_ms == old(self).total_transition_duration_ms,
    {
        self.transition_start_time = None;
        self.cached_frames.clear();
        self.current_frame_index = 0;
    }

    /// Reads the characters of a text back, without its styles.
    pub fn text_to_string(&self, text: &Text<'static>) -> (r: String)
        ensures
            r@ == plain_text(*text),
    {
        text_to_string(text)
    }
}

} // verus!
