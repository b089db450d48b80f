//! Colour tokens: palettes, writing them into the visuals and reading them back.

use egui::{Color32, Visuals};
use tektite::{Color, TektiteExtras, Tokens, VisualSlots, WidgetSlots};

fn color(c: Color32) -> Color {
    let [r, g, b, a] = c.to_array();
    Color { r, g, b, a }
}

fn widget_slots(w: &egui::style::WidgetVisuals) -> WidgetSlots {
    WidgetSlots {
        bg_fill: color(w.bg_fill),
        weak_bg_fill: color(w.weak_bg_fill),
        bg_stroke: color(w.bg_stroke.color),
        fg_stroke: color(w.fg_stroke.color),
    }
}

/// The colour slots of an egui `Visuals`.
fn slots(v: &Visuals) -> VisualSlots {
    VisualSlots {
        panel_fill: color(v.panel_fill),
        window_fill: color(v.window_fill),
        extreme_bg_color: color(v.extreme_bg_color),
        faint_bg_color: color(v.faint_bg_color),
        code_bg_color: color(v.code_bg_color),
        weak_text_color: v.weak_text_color.map(color),
        derived_weak_text_color: color(v.text_color().gamma_multiply(v.weak_text_alpha)),
        hyperlink_color: color(v.hyperlink_color),
        window_stroke: color(v.window_stroke.color),
        noninteractive: widget_slots(&v.widgets.noninteractive),
        inactive: widget_slots(&v.widgets.inactive),
        hovered: widget_slots(&v.widgets.hovered),
        active: widget_slots(&v.widgets.active),
        open: widget_slots(&v.widgets.open),
    }
}

fn same(a: Color, b: Color) -> bool {
    (a.r, a.g, a.b, a.a) == (b.r, b.g, b.b, b.a)
}

fn same_tokens(a: &Tokens, b: &Tokens) -> bool {
    same(a.background, b.background)
        && same(a.foreground, b.foreground)
        && same(a.heading, b.heading)
        && same(a.muted, b.muted)
        && same(a.muted_foreground, b.muted_foreground)
        && same(a.accent, b.accent)
        && same(a.accent_foreground, b.accent_foreground)
        && same(a.border, b.border)
        && same(a.tag, b.tag)
        && same(a.tag_foreground, b.tag_foreground)
}

/// The shared (glazier-compatible) tokens survive an `apply` → `from_visuals`
/// round-trip through the visuals. Extras (`heading`/`tag`/`tag_foreground`)
/// are deliberately excluded — they have no visuals slot.
#[test]
fn shared_tokens_round_trip_through_visuals() {
    for dark in [true, false] {
        let tokens = Tokens::for_mode(dark);
        let mut v = if dark { slots(&Visuals::dark()) } else { slots(&Visuals::light()) };
        tokens.apply(&mut v);
        let back = Tokens::from_visuals(&v);

        assert!(same(back.background, tokens.background), "background ({dark})");
        assert!(same(back.foreground, tokens.foreground), "foreground ({dark})");
        assert!(same(back.muted, tokens.muted), "muted ({dark})");
        assert!(
            same(back.muted_foreground, tokens.muted_foreground),
            "muted_foreground ({dark})"
        );
        assert!(same(back.accent, tokens.accent), "accent ({dark})");
        assert!(
            same(back.accent_foreground, tokens.accent_foreground),
            "accent_foreground ({dark})"
        );
        assert!(same(back.border, tokens.border), "border ({dark})");
    }
}

/// tektite reads `accent` from the **same** visuals slot glazier writes it
/// to (`widgets.hovered.bg_fill`).
#[test]
fn accent_shares_glaziers_visuals_slot() {
    let mut v = slots(&Visuals::dark());
    let probe = Color::from_rgb(0x12, 0x34, 0x56);
    v.hovered.bg_fill = probe;
    assert!(same(Tokens::from_visuals(&v).accent, probe));
}

#[test]
fn dark_and_light_palettes() {
    let dark = Tokens::dark();
    assert!(same(dark.background, Color::from_rgb(0x1e, 0x1e, 0x1e)));
    assert!(same(dark.accent, Color::from_rgb(0x70, 0x5d, 0xcf)));
    assert!(same(dark.tag_foreground, Color::from_rgb(0x9b, 0x8f, 0xe8)));
    let light = Tokens::light();
    assert!(same(light.background, Color::from_rgb(0xff, 0xff, 0xff)));
    assert!(same(light.heading, Color::from_rgb(0x0d, 0x0d, 0x0d)));
    assert!(same(light.border, Color::from_rgb(0xd4, 0xd4, 0xd4)));
    assert_eq!(dark.background.a, 255);
    assert!(same_tokens(&Tokens::for_mode(true), &dark));
    assert!(same_tokens(&Tokens::for_mode(false), &light));
    assert!(same_tokens(&Tokens::default(), &dark));
}

#[test]
fn apply_writes_the_glazier_slots() {
    let t = Tokens::light();
    let mut v = slots(&Visuals::dark());
    let open_stroke = v.open.bg_stroke;
    t.apply(&mut v);
    assert!(same(v.panel_fill, t.background));
    assert!(same(v.window_fill, t.background));
    assert!(same(v.extreme_bg_color, t.background));
    assert!(same(v.faint_bg_color, t.muted));
    assert!(same(v.code_bg_color, t.muted));
    assert!(same(v.weak_text_color.unwrap(), t.muted_foreground));
    assert!(same(v.hyperlink_color, t.foreground));
    assert!(same(v.window_stroke, t.border));
    assert!(same(v.noninteractive.weak_bg_fill, t.muted));
    assert!(same(v.inactive.bg_fill, t.muted));
    assert!(same(v.hovered.fg_stroke, t.accent_foreground));
    assert!(same(v.active.bg_stroke, t.accent));
    assert!(same(v.open.bg_fill, t.accent));
    // The open state's stroke is left as it was.
    assert!(same(v.open.bg_stroke, open_stroke));
}

#[test]
fn reading_plain_visuals_derives_the_extras() {
    let mut v = slots(&Visuals::light());
    Tokens::dark().apply(&mut v);
    let t = Tokens::resolve(&v, None);
    assert!(same(t.heading, t.foreground));
    assert!(same(t.tag, t.muted));
    assert!(same(t.tag_foreground, t.accent));
    assert!(same(t.heading, Tokens::dark().foreground));
}

#[test]
fn unset_weak_text_falls_back_to_the_derived_colour() {
    let mut v = slots(&Visuals::dark());
    v.weak_text_color = None;
    v.derived_weak_text_color = Color::from_rgb(1, 2, 3);
    assert!(same(Tokens::from_visuals(&v).muted_foreground, Color::from_rgb(1, 2, 3)));
    v.weak_text_color = Some(Color::from_rgb(9, 8, 7));
    assert!(same(Tokens::from_visuals(&v).muted_foreground, Color::from_rgb(9, 8, 7)));
}

#[test]
fn install_then_resolve_gives_back_the_tokens() {
    for dark in [true, false] {
        let t = Tokens::for_mode(dark);
        let mut v = slots(&Visuals::light());
        t.apply(&mut v);
        let back = Tokens::resolve(&v, Some(t.extras()));
        assert!(same_tokens(&back, &t));
    }
}

#[test]
fn stored_extras_override_the_fallbacks() {
    let v = slots(&Visuals::dark());
    let extras = TektiteExtras {
        heading: Color::from_rgb(1, 1, 1),
        tag: Color::from_rgb(2, 2, 2),
        tag_foreground: Color::from_rgb(3, 3, 3),
    };
    let t = Tokens::resolve(&v, Some(extras));
    assert!(same(t.heading, Color::from_rgb(1, 1, 1)));
    assert!(same(t.tag, Color::from_rgb(2, 2, 2)));
    assert!(same(t.tag_foreground, Color::from_rgb(3, 3, 3)));
    assert!(same(t.accent, color(Visuals::dark().widgets.hovered.bg_fill)));
}

#[test]
fn applying_twice_is_applying_once() {
    let t = Tokens::dark();
    let mut once = slots(&Visuals::light());
    t.apply(&mut once);
    let mut twice = once;
    t.apply(&mut twice);
    assert!(same_tokens(&Tokens::from_visuals(&once), &Tokens::from_visuals(&twice)));
    assert!(same(once.open.bg_stroke, twice.open.bg_stroke));
}
