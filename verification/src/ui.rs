//! How the screen is divided between the file list, the preview and the
//! message pane.  Splitting rectangles and drawing are the caller's part;
//! this module keeps the percentages and sizes that steer them.
use vstd::prelude::*;
use vstd::string::StringExecFns;

use crate::file_browser::FileItem;
use ratatui::text::Text;

use crate::strings::{chars_of, decimal, push_decimal, push_replaced, replaced};
use crate::text::{logo_lines, span_contents, text_lines, with_contents};

verus! {

/// Share of the width, in percent, that the file list gets on a wide screen.
pub const WIDE_SCREEN_WIDTH_PERCENT: u16 = 10;

/// Share of the width, in percent, that the file list gets on a narrow screen.
pub const NARROW_SCREEN_WIDTH_PERCENT: u16 = 15;

/// A screen wider than this many columns is wide.
pub const NARROW_SCREEN_CHAR_CUTOFF: u16 = 120;

/// A rectangle of terminal cells: its top-left cell and its size.
#[derive(Debug, Clone, Copy, PartialEq, Eq, Structural)]
pub struct Area {
    pub x: u16,
    pub y: u16,
    pub width: u16,
    pub height: u16,
}

impl Area {
    pub fn new(x: u16, y: u16, width: u16, height: u16) -> (r: Self)
        ensures
            r == (Area { x, y, width, height }),
    {
        Area { x, y, width, height }
    }

    /// Whether the rectangle holds no cell.
    pub open spec fn spec_is_empty(&self) -> bool {
        self.width == 0 || self.height == 0
    }

    #[verifier::when_used_as_spec(spec_is_empty)]
    pub fn is_empty(&self) -> (r: bool)
        ensures
            r == self.spec_is_empty(),
    {
        self.width == 0 || self.height == 0
    }
}

/// The divider between file list and preview, and the size of the preview
/// pane in cells.
///
/// `preview_size` is the share of the width, in percent, left of the
/// divider; 0 means that it has not been set yet.
#[derive(Debug)]
pub struct UILayout {
    pub preview_size: u16,
    pub min_divider_percent: u16,
    pub preview_width: u16,
    pub preview_height: u16,
}

/// The constraints to split a screen by: a bottom pane of `debug_height`
/// rows below `main_height` rows, the latter divided into a left pane of
/// `left_percent` and a right pane of `right_percent` percent of the width.
#[derive(Debug, Clone, Copy, PartialEq, Eq, Structural)]
pub struct LayoutPlan {
    pub left_percent: u16,
    pub right_percent: u16,
    pub main_height: u16,
    pub debug_height: u16,
}

/// The smallest share that a screen of the given width leaves to either side.
pub open spec fn divider_floor(area_width: u16) -> u16 {
    if area_width > NARROW_SCREEN_CHAR_CUTOFF {
        WIDE_SCREEN_WIDTH_PERCENT
    } else {
        NARROW_SCREEN_WIDTH_PERCENT
    }
}

/// The height of the message pane on a screen of the given height.
pub open spec fn message_pane_height(area_height: u16) -> u16 {
    if area_height > 10 {
        3
    } else {
        1
    }
}

impl Default for UILayout {
    fn default() -> (r: Self)
        ensures
            r == UILayout::fresh(),
    {
        UILayout::new()
    }
}

impl UILayout {
    /// The layout before the first screen size is known.
    pub open spec fn fresh() -> Self {
        UILayout { preview_size: 0, min_divider_percent: 10, preview_width: 0, preview_height: 0 }
    }

    /// Whether the divider can still move right.
    pub open spec fn may_increase(self) -> bool {
        self.preview_size + self.min_divider_percent < 100
    }

    /// Whether the divider can still move left.
    pub open spec fn may_decrease(self) -> bool {
        self.preview_size > self.min_divider_percent
    }

    pub fn new() -> (r: Self)
        ensures
            r == Self::fresh(),
    {
        UILayout { preview_size: 0, min_divider_percent: 10, preview_width: 0, preview_height: 0 }
    }

    /// Adopts the limits that a screen of the given size sets and returns
    /// the constraints to split it by.  The first call also puts the divider
    /// at its leftmost place.
    pub fn plan_layout(&mut self, area_width: u16, area_height: u16) -> (plan: LayoutPlan)
        ensures
            final(self).min_divider_percent == divider_floor(area_width),
            final(self).preview_size == if old(self).preview_size == 0 {
                divider_floor(area_width)
            } else {
                old(self).preview_size
            },
            final(self).preview_width == old(self).preview_width,
            final(self).preview_height == old(self).preview_height,
            plan.left_percent == final(self).preview_size,
            plan.right_percent == if final(self).preview_size <= 100 {
                100 - final(self).preview_size
            } else {
                0
            },
            plan.debug_height == message_pane_height(area_height),
            plan.main_height == if area_height >= plan.debug_height {
                area_height - plan.debug_height
            } else {
                0
            },
    {
        let floor: u16 = if area_width > NARROW_SCREEN_CHAR_CUTOFF {
            WIDE_SCREEN_WIDTH_PERCENT
        } else {
            NARROW_SCREEN_WIDTH_PERCENT
        };
        self.min_divider_percent = floor;
        if self.preview_size == 0 {
            self.preview_size = floor;
        }
        let debug_height: u16 = if area_height > 10 {
            3
        } else {
            1
        };
        let main_height: u16 = if area_height >= debug_height {
            area_height - debug_height
        } else {
            0
        };
        LayoutPlan {
            left_percent: self.preview_size,
            right_percent: if self.preview_size <= 100 {
                100 - self.preview_size
            } else {
                0
            },
            main_height,
            debug_height,
        }
    }

    /// Records the size of the preview pane, given the size of the area it
    /// is drawn in: two columns and one row go to the frame.
    pub fn set_preview_area(&mut self, pane_width: u16, pane_height: u16)
        ensures
            final(self).preview_width == if pane_width >= 2 {
                pane_width - 2
            } else {
                0
            },
            final(self).preview_height == if pane_height >= 1 {
                pane_height - 1
            } else {
                0
            },
            final(self).preview_size == old(self).preview_size,
            final(self).min_divider_percent == old(self).min_divider_percent,
    {
        self.preview_width = if pane_width >= 2 {
            pane_width - 2
        } else {
            0
        };
        self.preview_height = if pane_height >= 1 {
            pane_height - 1
        } else {
            0
        };
    }

    pub fn can_increase_size(&self) -> (r: bool)
        ensures
            r == self.may_increase(),
    {
        (self.preview_size as u32) + (self.min_divider_percent as u32) < 100
    }

    pub fn can_decrease_size(&self) -> (r: bool)
        ensures
            r == self.may_decrease(),
    {
        self.preview_size > self.min_divider_percent
    }

    /// Moves the divider right by `increment` percent, but not past the
    /// point that leaves the preview its minimum share.
    pub fn increase_size(&mut self, increment: u16)
        ensures
            final(self).preview_size == if old(self).may_increase() {
                if old(self).preview_size + increment <= 100 - old(self).min_divider_percent {
                    (old(self).preview_size + increment) as u16
                } else {
                    (100 - old(self).min_divider_percent) as u16
                }
            } else {
                old(self).preview_size
            },
            final(self).min_divider_percent == old(self).min_divider_percent,
            final(self).preview_width == old(self).preview_width,
            final(self).preview_height == old(self).preview_height,
    {
        if self.can_increase_size() {
            let limit: u16 = 100 - self.min_divider_percent;
            let wanted: u32 = self.preview_size as u32 + increment as u32;
            self.preview_size = if wanted <= limit as u32 {
                wanted as u16
            } else {
                limit
            };
        }
    }

    /// Moves the divider left by `increment` percent, but not past the
    /// point that leaves the file list its minimum share.
    pub fn decrease_size(&mut self, increment: u16)
        ensures
            final(self).preview_size == if old(self).may_decrease() {
                if old(self).preview_size - increment >= old(self).min_divider_percent {
                    (old(self).preview_size - increment) as u16
                } else {
                    old(self).min_divider_percent
                }
            } else {
                old(self).preview_size
            },
            final(self).min_divider_percent == old(self).min_divider_percent,
            final(self).preview_width == old(self).preview_width,
            final(self).preview_height == old(self).preview_height,
    {
        if self.can_decrease_size() {
            let floor: u16 = self.min_divider_percent;
            self.preview_size = if self.preview_size >= increment && self.preview_size - increment
                >= floor {
                self.preview_size - increment
            } else {
                floor
            };
        }
    }
}


/// The widest that the delete dialog gets.
pub const DIALOG_WIDTH: u16 = 50;

/// The tallest that the delete dialog gets.
pub const DIALOG_HEIGHT: u16 = 5;

/// The line that stands for an entry in the file list: a folder sign
/// before a directory's name, a picture sign before any other.
pub open spec fn entry_label(file: FileItem) -> Seq<char> {
    if file.is_directory {
        "📁 "@ + file.name@
    } else {
        "🖼️ "@ + file.name@
    }
}

/// The text of the slideshow's status bar: that a slideshow is running,
/// which image of how many is showing, and how to leave.
pub open spec fn status_line(
    mode: Seq<char>,
    image: Seq<char>,
    current: usize,
    total: usize,
    hint: Seq<char>,
) -> Seq<char> {
    "🎞️ "@ + mode + " | "@ + image + " "@ + decimal(current as nat) + "/"@ + decimal(total as nat)
        + " | "@ + hint
}

/// `wanted`, or what is left of `available` after a margin of two cells
/// on either side where that is less.
pub open spec fn within_margin(wanted: u16, available: u16) -> u16 {
    let room = if available >= 4 {
        (available - 4) as u16
    } else {
        0u16
    };
    if wanted <= room {
        wanted
    } else {
        room
    }
}

/// A line of the logo with the subtitle put in place of `{app_subtitle}`
/// and then the version in place of `{version}`.
pub open spec fn logo_line(content: Seq<char>, subtitle: Seq<char>, version: Seq<char>) -> Seq<
    char,
> {
    replaced(replaced(content, "{app_subtitle}"@, subtitle), "{version}"@, version)
}

/// What is drawn, as far as it is text and numbers; the drawing itself is
/// the caller's.
#[derive(Debug)]
pub struct UIRenderer;

impl UIRenderer {
    /// Builds the line that stands for an entry in the file list.
    pub fn file_label(file: &FileItem) -> (r: String)
        ensures
            r@ == entry_label(*file),
    {
        let mut label = if file.is_directory {
            "📁 ".to_owned()
        } else {
            "🖼️ ".to_owned()
        };
        label.append(file.name.as_str());
        label
    }

    /// Fills subtitle and version into a line of the logo.
    pub fn fill_logo_line(content: &str, subtitle: &str, version: &str) -> (r: String)
        ensures
            r@ == logo_line(content@, subtitle@, version@),
    {
        let mut with_subtitle = String::new();
        push_replaced(
            &mut with_subtitle,
            &chars_of(content),
            &chars_of("{app_subtitle}"),
            &chars_of(subtitle),
        );
        assert(with_subtitle@ =~= replaced(content@, "{app_subtitle}"@, subtitle@));
        let mut filled = String::new();
        push_replaced(
            &mut filled,
            &chars_of(with_subtitle.as_str()),
            &chars_of("{version}"),
            &chars_of(version),
        );
        assert(filled@ =~= logo_line(content@, subtitle@, version@));
        filled
    }

    /// Fills subtitle and version into the logo: every span keeps its
    /// style, and its content has them in place of `{app_subtitle}` and
    /// `{version}`.
    pub fn localize_logo_text(logo: &Text<'static>, subtitle: &str, version: &str) -> (r: Text<
        'static,
    >)
        ensures
            text_lines(r) == logo_lines(text_lines(*logo), subtitle@, version@),
    {
        let lines = span_contents(logo);
        let mut filled: Vec<Vec<String>> = Vec::new();
        let mut i: usize = 0;
        while i < lines.len()
            invariant
                i <= lines@.len(),
                filled@.len() == i,
                forall|k: int| 0 <= k < i ==> (#[trigger] filled@[k])@.len() == lines@[k]@.len(),
                forall|k: int, m: int|
                    0 <= k < i && 0 <= m < lines@[k]@.len() ==> (#[trigger] filled@[k]@[m])@
                        == logo_line(lines@[k]@[m]@, subtitle@, version@),
            decreases lines@.len() - i,
        {
            let spans = &lines[i];
            let mut row: Vec<String> = Vec::new();
            let mut j: usize = 0;
            while j < spans.len()
                invariant
                    j <= spans@.len(),
                    row@.len() == j,
                    forall|m: int|
                        0 <= m < j ==> (#[trigger] row@[m])@ == logo_line(
                            spans@[m]@,
                            subtitle@,
                            version@,
                        ),
                decreases spans@.len() - j,
            {
                row.push(Self::fill_logo_line(spans[j].as_str(), subtitle, version));
                j += 1;
            }
            filled.push(row);
            i += 1;
        }
        proof {
            let held = text_lines(*logo);
            assert(held == lines.deep_view());
            assert(held.len() == lines@.len());
            assert forall|k: int| 0 <= k < filled@.len() implies (#[trigger] filled@[k])@.len()
                == held[k].len() by {
                assert(held[k] == lines@[k].deep_view());
            }
            let wanted = logo_lines(held, subtitle@, version@);
            assert(filled.deep_view().len() == wanted.len());
            assert forall|k: int| 0 <= k < wanted.len() implies filled.deep_view()[k]
                == wanted[k] by {
                assert(held[k] == lines@[k].deep_view());
                assert(filled.deep_view()[k] == filled@[k].deep_view());
                assert(filled@[k].deep_view().len() == wanted[k].len());
                assert forall|m: int| 0 <= m < wanted[k].len() implies filled@[k].deep_view()[m]
                    == wanted[k][m] by {
                    assert(held[k][m] == lines@[k]@[m]@);
                    assert(filled@[k].deep_view()[m] == filled@[k]@[m]@);
                }
                assert(filled@[k].deep_view() =~= wanted[k]);
            }
            assert(filled.deep_view() =~= wanted);
        }
        with_contents(logo, filled)
    }

    /// Builds the text of the slideshow's status bar from the words for
    /// "slideshow", "image" and the hint how to leave, and the place of the
    /// image on show, counted from 1.
    pub fn slideshow_status(mode: &str, image: &str, current: usize, total: usize, hint: &str) -> (r:
        String)
        ensures
            r@ == status_line(mode@, image@, current, total, hint@),
    {
        let mut text = "🎞️ ".to_owned();
        text.append(mode);
        text.append(" | ");
        text.append(image);
        text.append(" ");
        push_decimal(&mut text, current as u64);
        text.append("/");
        push_decimal(&mut text, total as u64);
        text.append(" | ");
        text.append(hint);
        text
    }

    /// The size of the delete dialog on a screen of the given size: 50 by
    /// 5 cells, or less where the screen leaves less within a margin of
    /// two cells all round.
    pub fn dialog_size(area_width: u16, area_height: u16) -> (r: (u16, u16))
        ensures
            r.0 == within_margin(DIALOG_WIDTH, area_width),
            r.1 == within_margin(DIALOG_HEIGHT, area_height),
            r.0 <= area_width,
            r.1 <= area_height,
    {
        let width_room: u16 = if area_width >= 4 {
            area_width - 4
        } else {
            0
        };
        let height_room: u16 = if area_height >= 4 {
            area_height - 4
        } else {
            0
        };
        (
            if DIALOG_WIDTH <= width_room {
                DIALOG_WIDTH
            } else {
                width_room
            },
            if DIALOG_HEIGHT <= height_room {
                DIALOG_HEIGHT
            } else {
                height_room
            },
        )
    }
}

} // verus!
