//! [`Tokens`] — Obsidian-inspired colour tokens for tektite.
//!
//! # Compatibility with glazier
//!
//! Both crates read from and write to the **same visuals slots** for every
//! token that has a natural mapping ([`VisualSlots`] models the colour slots
//! of the GUI's visuals). The mapping mirrors glazier's:
//!
//! | tektite token       | visuals slot (same as glazier)                   |
//! |---------------------|--------------------------------------------------|
//! | `background`        | `panel_fill`, `window_fill`                      |
//! | `foreground`        | `widgets.noninteractive.fg_stroke`               |
//! | `muted`             | `faint_bg_color`, `code_bg_color`                |
//! | `muted_foreground`  | `weak_text_color`                                |
//! | `accent`            | `widgets.hovered.bg_fill`                        |
//! | `accent_foreground` | `widgets.hovered.fg_stroke`                      |
//! | `border`            | `widgets.noninteractive.bg_stroke`, `window_stroke` |
//!
//! Tektite-specific tokens (`heading`, `tag`, `tag_foreground`) have no natural
//! visuals slot; installing the tokens stores them as [`TektiteExtras`] so
//! [`Tokens::resolve`] can restore them. When tektite was *not* installed
//! (e.g. a glazier-only theme was applied) `resolve` derives fallbacks:
//! `heading → foreground`, `tag → muted`, `tag_foreground → accent`.

use vstd::prelude::*;

verus! {

/// An 8-bit-per-channel colour with premultiplied alpha.
#[derive(Clone, Copy, Debug)]
pub struct Color {
    pub r: u8,
    pub g: u8,
    pub b: u8,
    pub a: u8,
}

impl Color {
    /// An opaque colour.
    pub open spec fn rgb(r: u8, g: u8, b: u8) -> Color {
        Color { r, g, b, a: 255 }
    }

    /// An opaque colour.
    pub fn from_rgb(r: u8, g: u8, b: u8) -> (c: Color)
        ensures
            c == Color::rgb(r, g, b),
    {
        Color { r, g, b, a: 255 }
    }
}

/// The colour slots of one widget state in the visuals.
#[derive(Clone, Copy, Debug)]
pub struct WidgetSlots {
    pub bg_fill: Color,
    pub weak_bg_fill: Color,
    /// Colour of the background stroke.
    pub bg_stroke: Color,
    /// Colour of the foreground stroke (text, icons).
    pub fg_stroke: Color,
}

/// The colour slots of the GUI's visuals that the tokens are written to and
/// read from.
#[derive(Clone, Copy, Debug)]
pub struct VisualSlots {
    pub panel_fill: Color,
    pub window_fill: Color,
    pub extreme_bg_color: Color,
    pub faint_bg_color: Color,
    pub code_bg_color: Color,
    /// The explicitly set weak text colour, if any.
    pub weak_text_color: Option<Color>,
    /// The weak text colour the visuals derive when none is set explicitly
    /// (the text colour faded by the weak-text alpha).
    pub derived_weak_text_color: Color,
    pub hyperlink_color: Color,
    /// Colour of the window stroke.
    pub window_stroke: Color,
    pub noninteractive: WidgetSlots,
    pub inactive: WidgetSlots,
    pub hovered: WidgetSlots,
    pub active: WidgetSlots,
    pub open: WidgetSlots,
}

impl VisualSlots {
    /// The weak text colour in effect: the explicit one, else the derived one.
    pub open spec fn effective_weak_text_color(self) -> Color {
        match self.weak_text_color {
            Some(c) => c,
            None => self.derived_weak_text_color,
        }
    }
}

/// Tokens that have no natural visuals slot; stored on install and restored
/// by [`Tokens::resolve`].
#[derive(Clone, Copy, Debug)]
pub struct TektiteExtras {
    pub heading: Color,
    pub tag: Color,
    pub tag_foreground: Color,
}

/// Obsidian-inspired semantic colour tokens for the Markdown renderer.
///
/// Field names mirror Obsidian's CSS variables.  The `*_foreground` fields are
/// the text/icon colour that should sit on the matching surface.
#[derive(Clone, Copy, Debug)]
pub struct Tokens {
    /// Canvas background (`--background-primary`).
    pub background: Color,
    /// Default prose text (`--text-normal`).
    pub foreground: Color,
    /// Heading text — slightly brighter than body in Obsidian (`--text-title`).
    pub heading: Color,
    /// Subtle surface — blockquote background, code block fill (`--background-secondary`).
    pub muted: Color,
    /// Text on muted surfaces — inline code, blockquote prose.
    pub muted_foreground: Color,
    /// Interactive accent — links, blockquote bar (`--interactive-accent`).
    pub accent: Color,
    /// Text on an accent-coloured surface.
    pub accent_foreground: Color,
    /// Structural border — horizontal rules, table lines (`--background-modifier-border`).
    pub border: Color,
    /// Obsidian `#tag` pill background.
    pub tag: Color,
    /// Obsidian `#tag` pill text.
    pub tag_foreground: Color,
}

impl Tokens {
    /// The Obsidian dark palette.
    pub open spec fn spec_dark() -> Tokens {
        Tokens {
            background: Color::rgb(0x1e, 0x1e, 0x1e),
            foreground: Color::rgb(0xdc, 0xdd, 0xde),
            heading: Color::rgb(0xf0, 0xf0, 0xf0),
            muted: Color::rgb(0x2a, 0x2a, 0x2a),
            muted_foreground: Color::rgb(0xa8, 0xa9, 0xaa),
            accent: Color::rgb(0x70, 0x5d, 0xcf),
            accent_foreground: Color::rgb(0xff, 0xff, 0xff),
            border: Color::rgb(0x3d, 0x3d, 0x3d),
            tag: Color::rgb(0x2e, 0x27, 0x45),
            tag_foreground: Color::rgb(0x9b, 0x8f, 0xe8),
        }
    }

    /// The Obsidian light palette.
    pub open spec fn spec_light() -> Tokens {
        Tokens {
            background: Color::rgb(0xff, 0xff, 0xff),
            foreground: Color::rgb(0x1a, 0x1a, 0x1a),
            heading: Color::rgb(0x0d, 0x0d, 0x0d),
            muted: Color::rgb(0xf2, 0xf2, 0xf2),
            muted_foreground: Color::rgb(0x5c, 0x5c, 0x5c),
            accent: Color::rgb(0x70, 0x5d, 0xcf),
            accent_foreground: Color::rgb(0xff, 0xff, 0xff),
            border: Color::rgb(0xd4, 0xd4, 0xd4),
            tag: Color::rgb(0xe8, 0xe4, 0xf9),
            tag_foreground: Color::rgb(0x4a, 0x3a, 0xaa),
        }
    }

    /// Obsidian **dark** theme defaults.
    pub fn dark() -> (t: Tokens)
        ensures
            t == Tokens::spec_dark(),
    {
        Tokens {
            background: Color::from_rgb(0x1e, 0x1e, 0x1e),
            foreground: Color::from_rgb(0xdc, 0xdd, 0xde),
            heading: Color::from_rgb(0xf0, 0xf0, 0xf0),
            muted: Color::from_rgb(0x2a, 0x2a, 0x2a),
            muted_foreground: Color::from_rgb(0xa8, 0xa9, 0xaa),
            accent: Color::from_rgb(0x70, 0x5d, 0xcf),
            accent_foreground: Color::from_rgb(0xff, 0xff, 0xff),
            border: Color::from_rgb(0x3d, 0x3d, 0x3d),
            tag: Color::from_rgb(0x2e, 0x27, 0x45),
            tag_foreground: Color::from_rgb(0x9b, 0x8f, 0xe8),
        }
    }

    /// Obsidian **light** theme defaults.
    pub fn light() -> (t: Tokens)
        ensures
            t == Tokens::spec_light(),
    {
        Tokens {
            background: Color::from_rgb(0xff, 0xff, 0xff),
            foreground: Color::from_rgb(0x1a, 0x1a, 0x1a),
            heading: Color::from_rgb(0x0d, 0x0d, 0x0d),
            muted: Color::from_rgb(0xf2, 0xf2, 0xf2),
            muted_foreground: Color::from_rgb(0x5c, 0x5c, 0x5c),
            accent: Color::from_rgb(0x70, 0x5d, 0xcf),
            accent_foreground: Color::from_rgb(0xff, 0xff, 0xff),
            border: Color::from_rgb(0xd4, 0xd4, 0xd4),
            tag: Color::from_rgb(0xe8, 0xe4, 0xf9),
            tag_foreground: Color::from_rgb(0x4a, 0x3a, 0xaa),
        }
    }

    /// Pick the default tokens for the given mode (`true` = dark).
    pub fn for_mode(dark: bool) -> (t: Tokens)
        ensures
            t == (if dark {
                Tokens::spec_dark()
            } else {
                Tokens::spec_light()
            }),
    {
        if dark {
            Self::dark()
        } else {
            Self::light()
        }
    }

    /// The visuals after the shared tokens are written into `v`.
    pub open spec fn applied_to(self, v: VisualSlots) -> VisualSlots {
        VisualSlots {
            panel_fill: self.background,
            window_fill: self.background,
            extreme_bg_color: self.background,
            faint_bg_color: self.muted,
            code_bg_color: self.muted,
            weak_text_color: Some(self.muted_foreground),
            derived_weak_text_color: v.derived_weak_text_color,
            hyperlink_color: self.foreground,
            window_stroke: self.border,
            noninteractive: WidgetSlots {
                bg_fill: self.background,
                weak_bg_fill: self.muted,
                bg_stroke: self.border,
                fg_stroke: self.foreground,
            },
            inactive: WidgetSlots {
                bg_fill: self.muted,
                weak_bg_fill: self.muted,
                bg_stroke: self.border,
                fg_stroke: self.foreground,
            },
            hovered: WidgetSlots {
                bg_fill: self.accent,
                weak_bg_fill: self.accent,
                bg_stroke: self.border,
                fg_stroke: self.accent_foreground,
            },
            active: WidgetSlots {
                bg_fill: self.accent,
                weak_bg_fill: self.accent,
                bg_stroke: self.accent,
                fg_stroke: self.accent_foreground,
            },
            open: WidgetSlots {
                bg_fill: self.accent,
                weak_bg_fill: self.accent,
                bg_stroke: v.open.bg_stroke,
                fg_stroke: self.accent_foreground,
            },
        }
    }

    /// The tokens read back from `v`, with the tektite-only extras derived.
    pub open spec fn read_from(v: VisualSlots) -> Tokens {
        Tokens {
            background: v.panel_fill,
            foreground: v.noninteractive.fg_stroke,
            heading: v.noninteractive.fg_stroke,
            muted: v.faint_bg_color,
            muted_foreground: v.effective_weak_text_color(),
            accent: v.hovered.bg_fill,
            accent_foreground: v.hovered.fg_stroke,
            border: v.noninteractive.bg_stroke,
            tag: v.faint_bg_color,
            tag_foreground: v.hovered.bg_fill,
        }
    }

    /// The tokens resolved from `v` and the stored extras, if any.
    pub open spec fn resolved(v: VisualSlots, extras: Option<TektiteExtras>) -> Tokens {
        match extras {
            Some(e) => Tokens {
                heading: e.heading,
                tag: e.tag,
                tag_foreground: e.tag_foreground,
                ..Tokens::read_from(v)
            },
            None => Tokens::read_from(v),
        }
    }

    /// Write the shared tokens into the visuals, using the **same slots that
    /// glazier uses** so both libraries read each other's themes correctly.
    ///
    /// This does **not** store the tektite-only extras (`heading`, `tag`,
    /// `tag_foreground`); see [`extras`](Self::extras).
    pub fn apply(&self, v: &mut VisualSlots)
        ensures
            *final(v) == self.applied_to(*old(v)),
            final(v).hovered.fg_stroke == self.accent_foreground,
            final(v).active.fg_stroke == self.accent_foreground,
            final(v).open.fg_stroke == self.accent_foreground,
            final(v).noninteractive.fg_stroke == self.foreground,
    {
        // Surfaces — identical mapping to glazier.
        v.panel_fill = self.background;
        v.window_fill = self.background;
        v.extreme_bg_color = self.background;
        v.faint_bg_color = self.muted;
        v.code_bg_color = self.muted;
        v.weak_text_color = Some(self.muted_foreground);
        // glazier sets hyperlink_color = foreground, not accent.
        v.hyperlink_color = self.foreground;
        v.window_stroke = self.border;

        // Non-interactive (labels, cards): the canvas itself.
        v.noninteractive.bg_fill = self.background;
        v.noninteractive.weak_bg_fill = self.muted;
        v.noninteractive.bg_stroke = self.border;
        v.noninteractive.fg_stroke = self.foreground;

        // Inactive (resting controls).
        v.inactive.bg_fill = self.muted;
        v.inactive.weak_bg_fill = self.muted;
        v.inactive.bg_stroke = self.border;
        v.inactive.fg_stroke = self.foreground;

        // Hovered = accent surface — same slot as glazier.
        v.hovered.bg_fill = self.accent;
        v.hovered.weak_bg_fill = self.accent;
        v.hovered.bg_stroke = self.border;
        v.hovered.fg_stroke = self.accent_foreground;

        // Active = accent + focus ring.
        v.active.bg_fill = self.accent;
        v.active.weak_bg_fill = self.accent;
        v.active.bg_stroke = self.accent;
        v.active.fg_stroke = self.accent_foreground;

        // Open (popup/dropdown) — consistent with hovered.
        v.open.bg_fill = self.accent;
        v.open.weak_bg_fill = self.accent;
        v.open.fg_stroke = self.accent_foreground;
    }

    /// Read the shared tokens back from the visuals, using the **same slots
    /// as glazier**. The tektite-only extras fall back to derived values
    /// (`heading → foreground`, `tag → muted`, `tag_foreground → accent`).
    pub fn from_visuals(v: &VisualSlots) -> (t: Tokens)
        ensures
            t == Tokens::read_from(*v),
            t.foreground == v.noninteractive.fg_stroke,
            t.accent == v.hovered.bg_fill,
            t.heading == t.foreground,
            t.tag == t.muted,
            t.tag_foreground == t.accent,
    {
        let foreground = v.noninteractive.fg_stroke;
        // accent lives in widgets.hovered.bg_fill — the same slot glazier uses.
        let accent = v.hovered.bg_fill;
        let muted_foreground = match v.weak_text_color {
            Some(c) => c,
            None => v.derived_weak_text_color,
        };
        Tokens {
            background: v.panel_fill,
            foreground,
            heading: foreground,
            muted: v.faint_bg_color,
            muted_foreground,
            accent,
            accent_foreground: v.hovered.fg_stroke,
            border: v.noninteractive.bg_stroke,
            tag: v.faint_bg_color,
            tag_foreground: accent,
        }
    }

    /// The tektite-only tokens, as stored on install.
    pub fn extras(&self) -> (e: TektiteExtras)
        ensures
            e == (TektiteExtras {
                heading: self.heading,
                tag: self.tag,
                tag_foreground: self.tag_foreground,
            }),
    {
        TektiteExtras { heading: self.heading, tag: self.tag, tag_foreground: self.tag_foreground }
    }

    /// Resolve the active tokens: read the glazier-compatible tokens from the
    /// visuals, then overlay the tektite extras stored on install, if any.
    pub fn resolve(visuals: &VisualSlots, extras: Option<TektiteExtras>) -> (t: Tokens)
        ensures
            t == Tokens::resolved(*visuals, extras),
    {
        let base = Self::from_visuals(visuals);
        match extras {
            Some(e) => Tokens {
                heading: e.heading,
                tag: e.tag,
                tag_foreground: e.tag_foreground,
                ..base
            },
            None => base,
        }
    }
}

impl Default for Tokens {
    fn default() -> (t: Tokens)
        ensures
            t == Tokens::spec_dark(),
    {
        Self::dark()
    }
}

/// The shared (glazier-compatible) tokens survive writing them into any
/// visuals and reading them back.
pub proof fn lemma_shared_tokens_round_trip(t: Tokens, v: VisualSlots)
    ensures
        ({
            let back = Tokens::read_from(t.applied_to(v));
            &&& back.background == t.background
            &&& back.foreground == t.foreground
            &&& back.muted == t.muted
            &&& back.muted_foreground == t.muted_foreground
            &&& back.accent == t.accent
            &&& back.accent_foreground == t.accent_foreground
            &&& back.border == t.border
        }),
{
}

/// Installing tokens — writing the shared ones into the visuals and storing
/// the extras — then resolving gives back exactly the installed tokens.
pub proof fn lemma_install_then_resolve(t: Tokens, v: VisualSlots)
    ensures
        Tokens::resolved(
            t.applied_to(v),
            Some(TektiteExtras { heading: t.heading, tag: t.tag, tag_foreground: t.tag_foreground }),
        ) == t,
{
}

/// Applying the same tokens twice leaves the visuals as one application did.
pub proof fn lemma_apply_idempotent(t: Tokens, v: VisualSlots)
    ensures
        t.applied_to(t.applied_to(v)) == t.applied_to(v),
{
}

/// Text sits on its surface in the matching token: once tokens are applied,
/// every widget state drawn on the accent surface (hovered, active, open)
/// has the accent fill and `accent_foreground` text, and the resting states
/// (non-interactive, inactive) have `foreground` text, whatever the visuals
/// held before.
pub proof fn lemma_text_matches_its_surface(t: Tokens, v: VisualSlots)
    ensures
        ({
            let w = t.applied_to(v);
            &&& w.hovered.bg_fill == t.accent && w.hovered.fg_stroke == t.accent_foreground
            &&& w.active.bg_fill == t.accent && w.active.fg_stroke == t.accent_foreground
            &&& w.open.bg_fill == t.accent && w.open.fg_stroke == t.accent_foreground
            &&& w.noninteractive.fg_stroke == t.foreground
            &&& w.inactive.fg_stroke == t.foreground
        }),
{
}

/// Prose and heading colours are read from the non-interactive text slot,
/// the one applying tokens writes `foreground` to and glazier reads: for
/// any visuals, the tokens read back have `foreground` and `heading` equal
/// to that slot, and nothing read depends on the inactive (button) slots.
pub proof fn lemma_foreground_read_from_label_slot(v: VisualSlots, inactive: WidgetSlots)
    ensures
        Tokens::read_from(v).foreground == v.noninteractive.fg_stroke,
        Tokens::read_from(v).heading == v.noninteractive.fg_stroke,
        Tokens::read_from(VisualSlots { inactive, ..v }) == Tokens::read_from(v),
{
}

} // verus!
