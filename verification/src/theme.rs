//! Style variables and the palette they resolve to.
//!
//! A variable resolves through four layers, later ones winning: the builtin
//! palette, the active theme, the global overrides and the overrides of the
//! session. A name that no layer defines resolves to `onBackground`. A theme may name a
//! role as the mobile client does.

use crate::json::{member_keys, member_string, members, members_or_empty, parse_or_empty, string_of};
use crate::text::{
    concat, join, joined, opt, str_eq, str_less, texts, to_chars, trim_leading, without_leading,
};
use vstd::prelude::*;

verus! {

/// An RGB color.
#[derive(Clone, Copy, Debug, PartialEq, Eq, Structural)]
pub struct Color {
    pub r: u8,
    pub g: u8,
    pub b: u8,
}

/// The color of a number `0xrrggbb`.
pub open spec fn rgb_spec(hex: u32) -> Color {
    Color {
        r: ((hex / 65536) % 256) as u8,
        g: ((hex / 256) % 256) as u8,
        b: (hex % 256) as u8,
    }
}

/// The color of a number `0xrrggbb`.
pub fn rgb(hex: u32) -> (r: Color)
    ensures
        r == rgb_spec(hex),
{
    Color {
        r: ((hex / 65536) % 256) as u8,
        g: ((hex / 256) % 256) as u8,
        b: (hex % 256) as u8,
    }
}

/// The value of a hexadecimal digit.
pub open spec fn hex_digit(c: char) -> Option<int> {
    if '0' <= c && c <= '9' {
        Some(c as int - 48)
    } else if 'a' <= c && c <= 'f' {
        Some(c as int - 87)
    } else if 'A' <= c && c <= 'F' {
        Some(c as int - 55)
    } else {
        None
    }
}

/// The byte that two characters denote: two digits, or a plus sign and one.
pub open spec fn hex_byte(a: char, b: char) -> Option<int> {
    if a == '+' {
        hex_digit(b)
    } else if hex_digit(a) is Some && hex_digit(b) is Some {
        Some(hex_digit(a)->0 * 16 + hex_digit(b)->0)
    } else {
        None
    }
}

/// The color that a text of six hexadecimal digits denotes, with or without
/// leading `#`.
pub open spec fn hex_color(s: Seq<char>) -> Option<Color> {
    let t = without_leading(s, '#');
    if t.len() == 6 && hex_byte(t[0], t[1]) is Some && hex_byte(t[2], t[3]) is Some && hex_byte(
        t[4],
        t[5],
    ) is Some {
        Some(
            Color {
                r: hex_byte(t[0], t[1])->0 as u8,
                g: hex_byte(t[2], t[3])->0 as u8,
                b: hex_byte(t[4], t[5])->0 as u8,
            },
        )
    } else {
        None
    }
}

fn digit_hex(c: char) -> (r: Option<u8>)
    ensures
        match r {
            Some(n) => hex_digit(c) == Some(n as int) && n < 16,
            None => hex_digit(c) is None,
        },
{
    if '0' <= c && c <= '9' {
        Some(c as u8 - 48)
    } else if 'a' <= c && c <= 'f' {
        Some(c as u8 - 87)
    } else if 'A' <= c && c <= 'F' {
        Some(c as u8 - 55)
    } else {
        None
    }
}

fn byte_hex(a: char, b: char) -> (r: Option<u8>)
    ensures
        match r {
            Some(n) => hex_byte(a, b) == Some(n as int),
            None => hex_byte(a, b) is None,
        },
{
    if a == '+' {
        return digit_hex(b);
    }
    match (digit_hex(a), digit_hex(b)) {
        (Some(x), Some(y)) => Some(x * 16 + y),
        _ => None,
    }
}

/// Reads a color like `#rrggbb`.
pub fn parse_hex(s: &str) -> (r: Option<Color>)
    ensures
        r == hex_color(s@),
{
    let v = to_chars(s);
    let t = trim_leading(&v, '#');
    if t.len() != 6 {
        return None;
    }
    match (byte_hex(t[0], t[1]), byte_hex(t[2], t[3]), byte_hex(t[4], t[5])) {
        (Some(r), Some(g), Some(b)) => Some(Color { r, g, b }),
        _ => None,
    }
}

/// The resolved palette: the core roles, and the variables of plugins.
pub struct Palette {
    pub background: Color,
    pub on_background: Color,
    pub surface: Color,
    pub on_surface: Color,
    pub surface_variant: Color,
    pub on_surface_variant: Color,
    pub primary: Color,
    pub on_primary: Color,
    pub secondary: Color,
    pub on_secondary: Color,
    pub tertiary: Color,
    pub on_tertiary: Color,
    pub success: Color,
    pub on_success: Color,
    pub error: Color,
    pub on_error: Color,
    pub outline: Color,
    pub outline_variant: Color,
    /// Variables beyond the core roles; a later entry wins.
    pub custom: Vec<(String, Color)>,
}

/// The variables that some entries define; a later entry wins.
pub open spec fn customs(s: Seq<(String, Color)>) -> Map<Seq<char>, Color>
    decreases s.len(),
{
    if s.len() == 0 {
        Map::empty()
    } else {
        customs(s.drop_last()).insert(s.last().0@, s.last().1)
    }
}

/// The palette by variable names: the core roles, then the custom variables,
/// then the fallback.
pub open spec fn lookup(p: Palette, var: Seq<char>) -> Color {
    if var == "background"@ {
        p.background
    } else if var == "onBackground"@ {
        p.on_background
    } else if var == "surface"@ {
        p.surface
    } else if var == "onSurface"@ {
        p.on_surface
    } else if var == "surfaceVariant"@ {
        p.surface_variant
    } else if var == "onSurfaceVariant"@ {
        p.on_surface_variant
    } else if var == "primary"@ {
        p.primary
    } else if var == "onPrimary"@ {
        p.on_primary
    } else if var == "secondary"@ {
        p.secondary
    } else if var == "onSecondary"@ {
        p.on_secondary
    } else if var == "tertiary"@ {
        p.tertiary
    } else if var == "onTertiary"@ {
        p.on_tertiary
    } else if var == "success"@ {
        p.success
    } else if var == "onSuccess"@ {
        p.on_success
    } else if var == "error"@ {
        p.error
    } else if var == "onError"@ {
        p.on_error
    } else if var == "outline"@ {
        p.outline
    } else if var == "outlineVariant"@ {
        p.outline_variant
    } else if customs(p.custom@).contains_key(var) {
        customs(p.custom@)[var]
    } else {
        p.on_background
    }
}

/// Whether a variable is one of the core roles.
pub open spec fn is_core(var: Seq<char>) -> bool {
    var == "background"@
        || var == "onBackground"@
        || var == "surface"@
        || var == "onSurface"@
        || var == "surfaceVariant"@
        || var == "onSurfaceVariant"@
        || var == "primary"@
        || var == "onPrimary"@
        || var == "secondary"@
        || var == "onSecondary"@
        || var == "tertiary"@
        || var == "onTertiary"@
        || var == "success"@
        || var == "onSuccess"@
        || var == "error"@
        || var == "onError"@
        || var == "outline"@
        || var == "outlineVariant"@
}

impl Palette {
    /// The color of a variable. A name that nothing defines has the color of
    /// `onBackground`.
    pub fn get(&self, var: &str) -> (r: Option<Color>)
        ensures
            r == Some(lookup(*self, var@)),
    {
        if str_eq(var, "background") {
            Some(self.background)
        } else if str_eq(var, "onBackground") {
            Some(self.on_background)
        } else if str_eq(var, "surface") {
            Some(self.surface)
        } else if str_eq(var, "onSurface") {
            Some(self.on_surface)
        } else if str_eq(var, "surfaceVariant") {
            Some(self.surface_variant)
        } else if str_eq(var, "onSurfaceVariant") {
            Some(self.on_surface_variant)
        } else if str_eq(var, "primary") {
            Some(self.primary)
        } else if str_eq(var, "onPrimary") {
            Some(self.on_primary)
        } else if str_eq(var, "secondary") {
            Some(self.secondary)
        } else if str_eq(var, "onSecondary") {
            Some(self.on_secondary)
        } else if str_eq(var, "tertiary") {
            Some(self.tertiary)
        } else if str_eq(var, "onTertiary") {
            Some(self.on_tertiary)
        } else if str_eq(var, "success") {
            Some(self.success)
        } else if str_eq(var, "onSuccess") {
            Some(self.on_success)
        } else if str_eq(var, "error") {
            Some(self.error)
        } else if str_eq(var, "onError") {
            Some(self.on_error)
        } else if str_eq(var, "outline") {
            Some(self.outline)
        } else if str_eq(var, "outlineVariant") {
            Some(self.outline_variant)
        } else {
            let mut i: usize = self.custom.len();
            assert(self.custom@.take(i as int) =~= self.custom@);
            while i > 0
                invariant
                    i <= self.custom@.len(),
                    customs(self.custom@).contains_key(var@) == customs(
                        self.custom@.take(i as int),
                    ).contains_key(var@),
                    customs(self.custom@).contains_key(var@) ==> customs(self.custom@)[var@]
                        == customs(self.custom@.take(i as int))[var@],
                    !is_core(var@),
                decreases i,
            {
                assert(self.custom@.take(i as int).drop_last() =~= self.custom@.take(i - 1));
                if str_eq(self.custom[i - 1].0.as_str(), var) {
                    return Some(self.custom[i - 1].1);
                }
                i = i - 1;
            }
            Some(self.on_background)
        }
    }

    /// Sets the color of a variable.
    pub fn set(&mut self, var: &str, color: Color)
        ensures
            *final(self) == painted(*old(self), var@, color, final(self).custom),
            final(self).custom@ == (if is_core(var@) {
                old(self).custom@
            } else {
                old(self).custom@.push((final(self).custom@.last().0, color))
            }),
            !is_core(var@) ==> final(self).custom@.last().0@ == var@,
            is_core(var@) ==> final(self).custom == old(self).custom,
    {
        if str_eq(var, "background") {
            self.background = color;
        } else if str_eq(var, "onBackground") {
            self.on_background = color;
        } else if str_eq(var, "surface") {
            self.surface = color;
        } else if str_eq(var, "onSurface") {
            self.on_surface = color;
        } else if str_eq(var, "surfaceVariant") {
            self.surface_variant = color;
        } else if str_eq(var, "onSurfaceVariant") {
            self.on_surface_variant = color;
        } else if str_eq(var, "primary") {
            self.primary = color;
        } else if str_eq(var, "onPrimary") {
            self.on_primary = color;
        } else if str_eq(var, "secondary") {
            self.secondary = color;
        } else if str_eq(var, "onSecondary") {
            self.on_secondary = color;
        } else if str_eq(var, "tertiary") {
            self.tertiary = color;
        } else if str_eq(var, "onTertiary") {
            self.on_tertiary = color;
        } else if str_eq(var, "success") {
            self.success = color;
        } else if str_eq(var, "onSuccess") {
            self.on_success = color;
        } else if str_eq(var, "error") {
            self.error = color;
        } else if str_eq(var, "onError") {
            self.on_error = color;
        } else if str_eq(var, "outline") {
            self.outline = color;
        } else if str_eq(var, "outlineVariant") {
            self.outline_variant = color;
        } else {
            self.custom.push((var.to_owned(), color));
        }
    }
}

/// A palette with a core role set, or with other custom variables.
pub open spec fn painted(
    p: Palette,
    var: Seq<char>,
    color: Color,
    custom: Vec<(String, Color)>,
) -> Palette {
    if var == "background"@ {
        Palette { background: color, ..p }
    } else if var == "onBackground"@ {
        Palette { on_background: color, ..p }
    } else if var == "surface"@ {
        Palette { surface: color, ..p }
    } else if var == "onSurface"@ {
        Palette { on_surface: color, ..p }
    } else if var == "surfaceVariant"@ {
        Palette { surface_variant: color, ..p }
    } else if var == "onSurfaceVariant"@ {
        Palette { on_surface_variant: color, ..p }
    } else if var == "primary"@ {
        Palette { primary: color, ..p }
    } else if var == "onPrimary"@ {
        Palette { on_primary: color, ..p }
    } else if var == "secondary"@ {
        Palette { secondary: color, ..p }
    } else if var == "onSecondary"@ {
        Palette { on_secondary: color, ..p }
    } else if var == "tertiary"@ {
        Palette { tertiary: color, ..p }
    } else if var == "onTertiary"@ {
        Palette { on_tertiary: color, ..p }
    } else if var == "success"@ {
        Palette { success: color, ..p }
    } else if var == "onSuccess"@ {
        Palette { on_success: color, ..p }
    } else if var == "error"@ {
        Palette { error: color, ..p }
    } else if var == "onError"@ {
        Palette { on_error: color, ..p }
    } else if var == "outline"@ {
        Palette { outline: color, ..p }
    } else if var == "outlineVariant"@ {
        Palette { outline_variant: color, ..p }
    } else {
        Palette { custom, ..p }
    }
}

/// Setting one variable sets that one and no other, except that a name which
/// nothing defines follows `onBackground`.
pub proof fn law_set_is_seen(before: Palette, after: Palette, var: Seq<char>, color: Color, other: Seq<char>)
    requires
        after == painted(before, var, color, after.custom),
        is_core(var) ==> after.custom == before.custom,
        !is_core(var) ==> after.custom@.len() > 0 && after.custom@.drop_last() == before.custom@
            && after.custom@.last().0@ == var && after.custom@.last().1 == color,
    ensures
        lookup(after, var) == color,
        other != var && (is_core(other) || customs(before.custom@).contains_key(other)) ==> lookup(
            after,
            other,
        ) == lookup(before, other),
        other != var && !is_core(other) && !customs(before.custom@).contains_key(other) ==> lookup(
            after,
            other,
        ) == after.on_background,
{
    reveal_strlit("background");
    reveal_strlit("onBackground");
    reveal_strlit("surface");
    reveal_strlit("onSurface");
    reveal_strlit("surfaceVariant");
    reveal_strlit("onSurfaceVariant");
    reveal_strlit("primary");
    reveal_strlit("onPrimary");
    reveal_strlit("secondary");
    reveal_strlit("onSecondary");
    reveal_strlit("tertiary");
    reveal_strlit("onTertiary");
    reveal_strlit("success");
    reveal_strlit("onSuccess");
    reveal_strlit("error");
    reveal_strlit("onError");
    reveal_strlit("outline");
    reveal_strlit("outlineVariant");
    lemma_role_names();
}

/// The names of the core roles are different from each other.
proof fn lemma_role_names()
    ensures
        "background"@ != "onBackground"@,
        "background"@ != "surface"@,
        "background"@ != "onSurface"@,
        "background"@ != "surfaceVariant"@,
        "background"@ != "onSurfaceVariant"@,
        "background"@ != "primary"@,
        "background"@ != "onPrimary"@,
        "background"@ != "secondary"@,
        "background"@ != "onSecondary"@,
        "background"@ != "tertiary"@,
        "background"@ != "onTertiary"@,
        "background"@ != "success"@,
        "background"@ != "onSuccess"@,
        "background"@ != "error"@,
        "background"@ != "onError"@,
        "background"@ != "outline"@,
        "background"@ != "outlineVariant"@,
        "onBackground"@ != "surface"@,
        "onBackground"@ != "onSurface"@,
        "onBackground"@ != "surfaceVariant"@,
        "onBackground"@ != "onSurfaceVariant"@,
        "onBackground"@ != "primary"@,
        "onBackground"@ != "onPrimary"@,
        "onBackground"@ != "secondary"@,
        "onBackground"@ != "onSecondary"@,
        "onBackground"@ != "tertiary"@,
        "onBackground"@ != "onTertiary"@,
        "onBackground"@ != "success"@,
        "onBackground"@ != "onSuccess"@,
        "onBackground"@ != "error"@,
        "onBackground"@ != "onError"@,
        "onBackground"@ != "outline"@,
        "onBackground"@ != "outlineVariant"@,
        "surface"@ != "onSurface"@,
        "surface"@ != "surfaceVariant"@,
        "surface"@ != "onSurfaceVariant"@,
        "surface"@ != "primary"@,
        "surface"@ != "onPrimary"@,
        "surface"@ != "secondary"@,
        "surface"@ != "onSecondary"@,
        "surface"@ != "tertiary"@,
        "surface"@ != "onTertiary"@,
        "surface"@ != "success"@,
        "surface"@ != "onSuccess"@,
        "surface"@ != "error"@,
        "surface"@ != "onError"@,
        "surface"@ != "outline"@,
        "surface"@ != "outlineVariant"@,
        "onSurface"@ != "surfaceVariant"@,
        "onSurface"@ != "onSurfaceVariant"@,
        "onSurface"@ != "primary"@,
        "onSurface"@ != "onPrimary"@,
        "onSurface"@ != "secondary"@,
        "onSurface"@ != "onSecondary"@,
        "onSurface"@ != "tertiary"@,
        "onSurface"@ != "onTertiary"@,
        "onSurface"@ != "success"@,
        "onSurface"@ != "onSuccess"@,
        "onSurface"@ != "error"@,
        "onSurface"@ != "onError"@,
        "onSurface"@ != "outline"@,
        "onSurface"@ != "outlineVariant"@,
        "surfaceVariant"@ != "onSurfaceVariant"@,
        "surfaceVariant"@ != "primary"@,
        "surfaceVariant"@ != "onPrimary"@,
        "surfaceVariant"@ != "secondary"@,
        "surfaceVariant"@ != "onSecondary"@,
        "surfaceVariant"@ != "tertiary"@,
        "surfaceVariant"@ != "onTertiary"@,
        "surfaceVariant"@ != "success"@,
        "surfaceVariant"@ != "onSuccess"@,
        "surfaceVariant"@ != "error"@,
        "surfaceVariant"@ != "onError"@,
        "surfaceVariant"@ != "outline"@,
        "surfaceVariant"@ != "outlineVariant"@,
        "onSurfaceVariant"@ != "primary"@,
        "onSurfaceVariant"@ != "onPrimary"@,
        "onSurfaceVariant"@ != "secondary"@,
        "onSurfaceVariant"@ != "onSecondary"@,
        "onSurfaceVariant"@ != "tertiary"@,
        "onSurfaceVariant"@ != "onTertiary"@,
        "onSurfaceVariant"@ != "success"@,
        "onSurfaceVariant"@ != "onSuccess"@,
        "onSurfaceVariant"@ != "error"@,
        "onSurfaceVariant"@ != "onError"@,
        "onSurfaceVariant"@ != "outline"@,
        "onSurfaceVariant"@ != "outlineVariant"@,
        "primary"@ != "onPrimary"@,
        "primary"@ != "secondary"@,
        "primary"@ != "onSecondary"@,
        "primary"@ != "tertiary"@,
        "primary"@ != "onTertiary"@,
        "primary"@ != "success"@,
        "primary"@ != "onSuccess"@,
        "primary"@ != "error"@,
        "primary"@ != "onError"@,
        "primary"@ != "outline"@,
        "primary"@ != "outlineVariant"@,
        "onPrimary"@ != "secondary"@,
        "onPrimary"@ != "onSecondary"@,
        "onPrimary"@ != "tertiary"@,
        "onPrimary"@ != "onTertiary"@,
        "onPrimary"@ != "success"@,
        "onPrimary"@ != "onSuccess"@,
        "onPrimary"@ != "error"@,
        "onPrimary"@ != "onError"@,
        "onPrimary"@ != "outline"@,
        "onPrimary"@ != "outlineVariant"@,
        "secondary"@ != "onSecondary"@,
        "secondary"@ != "tertiary"@,
        "secondary"@ != "onTertiary"@,
        "secondary"@ != "success"@,
        "secondary"@ != "onSuccess"@,
        "secondary"@ != "error"@,
        "secondary"@ != "onError"@,
        "secondary"@ != "outline"@,
        "secondary"@ != "outlineVariant"@,
        "onSecondary"@ != "tertiary"@,
        "onSecondary"@ != "onTertiary"@,
        "onSecondary"@ != "success"@,
        "onSecondary"@ != "onSuccess"@,
        "onSecondary"@ != "error"@,
        "onSecondary"@ != "onError"@,
        "onSecondary"@ != "outline"@,
        "onSecondary"@ != "outlineVariant"@,
        "tertiary"@ != "onTertiary"@,
        "tertiary"@ != "success"@,
        "tertiary"@ != "onSuccess"@,
        "tertiary"@ != "error"@,
        "tertiary"@ != "onError"@,
        "tertiary"@ != "outline"@,
        "tertiary"@ != "outlineVariant"@,
        "onTertiary"@ != "success"@,
        "onTertiary"@ != "onSuccess"@,
        "onTertiary"@ != "error"@,
        "onTertiary"@ != "onError"@,
        "onTertiary"@ != "outline"@,
        "onTertiary"@ != "outlineVariant"@,
        "success"@ != "onSuccess"@,
        "success"@ != "error"@,
        "success"@ != "onError"@,
        "success"@ != "outline"@,
        "success"@ != "outlineVariant"@,
        "onSuccess"@ != "error"@,
        "onSuccess"@ != "onError"@,
        "onSuccess"@ != "outline"@,
        "onSuccess"@ != "outlineVariant"@,
        "error"@ != "onError"@,
        "error"@ != "outline"@,
        "error"@ != "outlineVariant"@,
        "onError"@ != "outline"@,
        "onError"@ != "outlineVariant"@,
        "outline"@ != "outlineVariant"@,
{
    reveal_strlit("background");
    reveal_strlit("onBackground");
    reveal_strlit("surface");
    reveal_strlit("onSurface");
    reveal_strlit("surfaceVariant");
    reveal_strlit("onSurfaceVariant");
    reveal_strlit("primary");
    reveal_strlit("onPrimary");
    reveal_strlit("secondary");
    reveal_strlit("onSecondary");
    reveal_strlit("tertiary");
    reveal_strlit("onTertiary");
    reveal_strlit("success");
    reveal_strlit("onSuccess");
    reveal_strlit("error");
    reveal_strlit("onError");
    reveal_strlit("outline");
    reveal_strlit("outlineVariant");
    assert("background"@.len() != "onBackground"@.len());
    assert("background"@.len() != "surface"@.len());
    assert("background"@.len() != "onSurface"@.len());
    assert("background"@.len() != "surfaceVariant"@.len());
    assert("background"@.len() != "onSurfaceVariant"@.len());
    assert("background"@.len() != "primary"@.len());
    assert("background"@.len() != "onPrimary"@.len());
    assert("background"@.len() != "secondary"@.len());
    assert("background"@.len() != "onSecondary"@.len());
    assert("background"@.len() != "tertiary"@.len());
    assert("background"@[0] != "onTertiary"@[0]);
    assert("background"@.len() != "success"@.len());
    assert("background"@.len() != "onSuccess"@.len());
    assert("background"@.len() != "error"@.len());
    assert("background"@.len() != "onError"@.len());
    assert("background"@.len() != "outline"@.len());
    assert("background"@.len() != "outlineVariant"@.len());
    assert("onBackground"@.len() != "surface"@.len());
    assert("onBackground"@.len() != "onSurface"@.len());
    assert("onBackground"@.len() != "surfaceVariant"@.len());
    assert("onBackground"@.len() != "onSurfaceVariant"@.len());
    assert("onBackground"@.len() != "primary"@.len());
    assert("onBackground"@.len() != "onPrimary"@.len());
    assert("onBackground"@.len() != "secondary"@.len());
    assert("onBackground"@.len() != "onSecondary"@.len());
    assert("onBackground"@.len() != "tertiary"@.len());
    assert("onBackground"@.len() != "onTertiary"@.len());
    assert("onBackground"@.len() != "success"@.len());
    assert("onBackground"@.len() != "onSuccess"@.len());
    assert("onBackground"@.len() != "error"@.len());
    assert("onBackground"@.len() != "onError"@.len());
    assert("onBackground"@.len() != "outline"@.len());
    assert("onBackground"@.len() != "outlineVariant"@.len());
    assert("surface"@.len() != "onSurface"@.len());
    assert("surface"@.len() != "surfaceVariant"@.len());
    assert("surface"@.len() != "onSurfaceVariant"@.len());
    assert("surface"@[0] != "primary"@[0]);
    assert("surface"@.len() != "onPrimary"@.len());
    assert("surface"@.len() != "secondary"@.len());
    assert("surface"@.len() != "onSecondary"@.len());
    assert("surface"@.len() != "tertiary"@.len());
    assert("surface"@.len() != "onTertiary"@.len());
    assert("surface"@[2] != "success"@[2]);
    assert("surface"@.len() != "onSuccess"@.len());
    assert("surface"@.len() != "error"@.len());
    assert("surface"@[0] != "onError"@[0]);
    assert("surface"@[0] != "outline"@[0]);
    assert("surface"@.len() != "outlineVariant"@.len());
    assert("onSurface"@.len() != "surfaceVariant"@.len());
    assert("onSurface"@.len() != "onSurfaceVariant"@.len());
    assert("onSurface"@.len() != "primary"@.len());
    assert("onSurface"@[2] != "onPrimary"@[2]);
    assert("onSurface"@[0] != "secondary"@[0]);
    assert("onSurface"@.len() != "onSecondary"@.len());
    assert("onSurface"@.len() != "tertiary"@.len());
    assert("onSurface"@.len() != "onTertiary"@.len());
    assert("onSurface"@.len() != "success"@.len());
    assert("onSurface"@[4] != "onSuccess"@[4]);
    assert("onSurface"@.len() != "error"@.len());
    assert("onSurface"@.len() != "onError"@.len());
    assert("onSurface"@.len() != "outline"@.len());
    assert("onSurface"@.len() != "outlineVariant"@.len());
    assert("surfaceVariant"@.len() != "onSurfaceVariant"@.len());
    assert("surfaceVariant"@.len() != "primary"@.len());
    assert("surfaceVariant"@.len() != "onPrimary"@.len());
    assert("surfaceVariant"@.len() != "secondary"@.len());
    assert("surfaceVariant"@.len() != "onSecondary"@.len());
    assert("surfaceVariant"@.len() != "tertiary"@.len());
    assert("surfaceVariant"@.len() != "onTertiary"@.len());
    assert("surfaceVariant"@.len() != "success"@.len());
    assert("surfaceVariant"@.len() != "onSuccess"@.len());
    assert("surfaceVariant"@.len() != "error"@.len());
    assert("surfaceVariant"@.len() != "onError"@.len());
    assert("surfaceVariant"@.len() != "outline"@.len());
    assert("surfaceVariant"@[0] != "outlineVariant"@[0]);
    assert("onSurfaceVariant"@.len() != "primary"@.len());
    assert("onSurfaceVariant"@.len() != "onPrimary"@.len());
    assert("onSurfaceVariant"@.len() != "secondary"@.len());
    assert("onSurfaceVariant"@.len() != "onSecondary"@.len());
    assert("onSurfaceVariant"@.len() != "tertiary"@.len());
    assert("onSurfaceVariant"@.len() != "onTertiary"@.len());
    assert("onSurfaceVariant"@.len() != "success"@.len());
    assert("onSurfaceVariant"@.len() != "onSuccess"@.len());
    assert("onSurfaceVariant"@.len() != "error"@.len());
    assert("onSurfaceVariant"@.len() != "onError"@.len());
    assert("onSurfaceVariant"@.len() != "outline"@.len());
    assert("onSurfaceVariant"@.len() != "outlineVariant"@.len());
    assert("primary"@.len() != "onPrimary"@.len());
    assert("primary"@.len() != "secondary"@.len());
    assert("primary"@.len() != "onSecondary"@.len());
    assert("primary"@.len() != "tertiary"@.len());
    assert("primary"@.len() != "onTertiary"@.len());
    assert("primary"@[0] != "success"@[0]);
    assert("primary"@.len() != "onSuccess"@.len());
    assert("primary"@.len() != "error"@.len());
    assert("primary"@[0] != "onError"@[0]);
    assert("primary"@[0] != "outline"@[0]);
    assert("primary"@.len() != "outlineVariant"@.len());
    assert("onPrimary"@[0] != "secondary"@[0]);
    assert("onPrimary"@.len() != "onSecondary"@.len());
    assert("onPrimary"@.len() != "tertiary"@.len());
    assert("onPrimary"@.len() != "onTertiary"@.len());
    assert("onPrimary"@.len() != "success"@.len());
    assert("onPrimary"@[2] != "onSuccess"@[2]);
    assert("onPrimary"@.len() != "error"@.len());
    assert("onPrimary"@.len() != "onError"@.len());
    assert("onPrimary"@.len() != "outline"@.len());
    assert("onPrimary"@.len() != "outlineVariant"@.len());
    assert("secondary"@.len() != "onSecondary"@.len());
    assert("secondary"@.len() != "tertiary"@.len());
    assert("secondary"@.len() != "onTertiary"@.len());
    assert("secondary"@.len() != "success"@.len());
    assert("secondary"@[0] != "onSuccess"@[0]);
    assert("secondary"@.len() != "error"@.len());
    assert("secondary"@.len() != "onError"@.len());
    assert("secondary"@.len() != "outline"@.len());
    assert("secondary"@.len() != "outlineVariant"@.len());
    assert("onSecondary"@.len() != "tertiary"@.len());
    assert("onSecondary"@.len() != "onTertiary"@.len());
    assert("onSecondary"@.len() != "success"@.len());
    assert("onSecondary"@.len() != "onSuccess"@.len());
    assert("onSecondary"@.len() != "error"@.len());
    assert("onSecondary"@.len() != "onError"@.len());
    assert("onSecondary"@.len() != "outline"@.len());
    assert("onSecondary"@.len() != "outlineVariant"@.len());
    assert("tertiary"@.len() != "onTertiary"@.len());
    assert("tertiary"@.len() != "success"@.len());
    assert("tertiary"@.len() != "onSuccess"@.len());
    assert("tertiary"@.len() != "error"@.len());
    assert("tertiary"@.len() != "onError"@.len());
    assert("tertiary"@.len() != "outline"@.len());
    assert("tertiary"@.len() != "outlineVariant"@.len());
    assert("onTertiary"@.len() != "success"@.len());
    assert("onTertiary"@.len() != "onSuccess"@.len());
    assert("onTertiary"@.len() != "error"@.len());
    assert("onTertiary"@.len() != "onError"@.len());
    assert("onTertiary"@.len() != "outline"@.len());
    assert("onTertiary"@.len() != "outlineVariant"@.len());
    assert("success"@.len() != "onSuccess"@.len());
    assert("success"@.len() != "error"@.len());
    assert("success"@[0] != "onError"@[0]);
    assert("success"@[0] != "outline"@[0]);
    assert("success"@.len() != "outlineVariant"@.len());
    assert("onSuccess"@.len() != "error"@.len());
    assert("onSuccess"@.len() != "onError"@.len());
    assert("onSuccess"@.len() != "outline"@.len());
    assert("onSuccess"@.len() != "outlineVariant"@.len());
    assert("error"@.len() != "onError"@.len());
    assert("error"@.len() != "outline"@.len());
    assert("error"@.len() != "outlineVariant"@.len());
    assert("onError"@[1] != "outline"@[1]);
    assert("onError"@.len() != "outlineVariant"@.len());
    assert("outline"@.len() != "outlineVariant"@.len());
}

/// The builtin dark palette, the base of every other.
pub open spec fn dark_colors(custom: Vec<(String, Color)>) -> Palette {
    Palette {
        background: rgb_spec(0x0f172a),
        on_background: rgb_spec(0xf9fafb),
        surface: rgb_spec(0x1e293b),
        on_surface: rgb_spec(0xf9fafb),
        surface_variant: rgb_spec(0x1f2937),
        on_surface_variant: rgb_spec(0x9ca3af),
        primary: rgb_spec(0x3b82f6),
        on_primary: rgb_spec(0xffffff),
        secondary: rgb_spec(0x38bdf8),
        on_secondary: rgb_spec(0x082f49),
        tertiary: rgb_spec(0xa855f7),
        on_tertiary: rgb_spec(0xffffff),
        success: rgb_spec(0x22c55e),
        on_success: rgb_spec(0x052e16),
        error: rgb_spec(0xef4444),
        on_error: rgb_spec(0xffffff),
        outline: rgb_spec(0x334155),
        outline_variant: rgb_spec(0x6b7280),
        custom,
    }
}

/// The builtin dark palette, the base of every other.
pub fn dark_palette() -> (r: Palette)
    ensures
        r == dark_colors(r.custom),
        r.custom@.len() == 0,
{
    Palette {
        background: rgb(0x0f172a),
        on_background: rgb(0xf9fafb),
        surface: rgb(0x1e293b),
        on_surface: rgb(0xf9fafb),
        surface_variant: rgb(0x1f2937),
        on_surface_variant: rgb(0x9ca3af),
        primary: rgb(0x3b82f6),
        on_primary: rgb(0xffffff),
        secondary: rgb(0x38bdf8),
        on_secondary: rgb(0x082f49),
        tertiary: rgb(0xa855f7),
        on_tertiary: rgb(0xffffff),
        success: rgb(0x22c55e),
        on_success: rgb(0x052e16),
        error: rgb(0xef4444),
        on_error: rgb(0xffffff),
        outline: rgb(0x334155),
        outline_variant: rgb(0x6b7280),
        custom: Vec::new(),
    }
}

/// The builtin light palette.
pub open spec fn light_colors(custom: Vec<(String, Color)>) -> Palette {
    Palette {
        background: rgb_spec(0xf8fafc),
        on_background: rgb_spec(0x0f172a),
        surface: rgb_spec(0xffffff),
        on_surface: rgb_spec(0x0f172a),
        surface_variant: rgb_spec(0xe2e8f0),
        on_surface_variant: rgb_spec(0x475569),
        primary: rgb_spec(0x2563eb),
        on_primary: rgb_spec(0xffffff),
        secondary: rgb_spec(0x0284c7),
        on_secondary: rgb_spec(0xffffff),
        tertiary: rgb_spec(0x9333ea),
        on_tertiary: rgb_spec(0xffffff),
        success: rgb_spec(0x16a34a),
        on_success: rgb_spec(0xffffff),
        error: rgb_spec(0xdc2626),
        on_error: rgb_spec(0xffffff),
        outline: rgb_spec(0xcbd5e1),
        outline_variant: rgb_spec(0x94a3b8),
        custom,
    }
}

/// The builtin light palette.
pub fn light_palette() -> (r: Palette)
    ensures
        r == light_colors(r.custom),
        r.custom@.len() == 0,
{
    Palette {
        background: rgb(0xf8fafc),
        on_background: rgb(0x0f172a),
        surface: rgb(0xffffff),
        on_surface: rgb(0x0f172a),
        surface_variant: rgb(0xe2e8f0),
        on_surface_variant: rgb(0x475569),
        primary: rgb(0x2563eb),
        on_primary: rgb(0xffffff),
        secondary: rgb(0x0284c7),
        on_secondary: rgb(0xffffff),
        tertiary: rgb(0x9333ea),
        on_tertiary: rgb(0xffffff),
        success: rgb(0x16a34a),
        on_success: rgb(0xffffff),
        error: rgb(0xdc2626),
        on_error: rgb(0xffffff),
        outline: rgb(0xcbd5e1),
        outline_variant: rgb(0x94a3b8),
        custom: Vec::new(),
    }
}

/// The id of the builtin dark theme.
pub const BUILTIN_DARK_ID: &'static str = "builtin-dark";

/// The id of the builtin light theme.
pub const BUILTIN_LIGHT_ID: &'static str = "builtin-light";

/// One entry of a builtin theme: a role, the name that the mobile client knows
/// it by, and a color.
pub struct Seed {
    pub role: &'static str,
    pub alias: &'static str,
    pub color: &'static str,
}

/// A JSON member with a string that needs no escape.
pub open spec fn pair_text(key: Seq<char>, value: Seq<char>) -> Seq<char> {
    "\""@ + key + "\":\""@ + value + "\""@
}

/// The members that some entries make, each color under both of its names.
pub open spec fn seed_pairs(s: Seq<(Seq<char>, Seq<char>, Seq<char>)>) -> Seq<Seq<char>>
    decreases s.len(),
{
    if s.len() == 0 {
        Seq::empty()
    } else {
        let e = s.last();
        seed_pairs(s.drop_last()).push(pair_text(e.0, e.2)).push(pair_text(e.1, e.2))
    }
}

/// The JSON text of a builtin theme.
pub open spec fn seed_text(s: Seq<(Seq<char>, Seq<char>, Seq<char>)>) -> Seq<char> {
    "{"@ + joined(seed_pairs(s), ","@) + "}"@
}

/// The entries of a builtin theme as texts.
pub open spec fn seeds(s: Seq<Seed>) -> Seq<(Seq<char>, Seq<char>, Seq<char>)> {
    s.map_values(|e: Seed| (e.role@, e.alias@, e.color@))
}

fn pair(key: &str, value: &str) -> (r: String)
    ensures
        r@ == pair_text(key@, value@),
{
    let a = concat("\"", key);
    let b = concat(a.as_str(), "\":\"");
    let c = concat(b.as_str(), value);
    concat(c.as_str(), "\"")
}

fn seed_json(s: &Vec<Seed>) -> (r: String)
    ensures
        r@ == seed_text(seeds(s@)),
{
    let mut parts: Vec<String> = Vec::new();
    assert(texts(parts@) =~= seed_pairs(seeds(s@).take(0)));
    for i in 0..s.len()
        invariant
            texts(parts@) == seed_pairs(seeds(s@).take(i as int)),
    {
        let ghost before = texts(parts@);
        let ghost all = seeds(s@);
        assert(all.take(i + 1).drop_last() =~= all.take(i as int));
        let a = pair(s[i].role, s[i].color);
        let b = pair(s[i].alias, s[i].color);
        let ghost x = a@;
        let ghost y = b@;
        parts.push(a);
        parts.push(b);
        assert(texts(parts@) =~= before.push(x).push(y));
    }
    assert(seeds(s@).take(s@.len() as int) =~= seeds(s@));
    let body = join(&parts, ",");
    concat(concat("{", body.as_str()).as_str(), "}")
}

/// The entries of the builtin dark theme.
pub open spec fn dark_seed() -> Seq<(Seq<char>, Seq<char>, Seq<char>)> {
    seq![
        ("background"@, "bg"@, "#0f172a"@),
        ("onBackground"@, "text"@, "#f9fafb"@),
        ("surface"@, "surface"@, "#1e293b"@),
        ("surfaceVariant"@, "border"@, "#1f2937"@),
        ("onSurfaceVariant"@, "textDim"@, "#9ca3af"@),
        ("primary"@, "accent"@, "#3b82f6"@),
        ("onPrimary"@, "onAccent"@, "#ffffff"@),
        ("success"@, "statusDone"@, "#22c55e"@),
        ("error"@, "danger"@, "#ef4444"@),
        ("tertiary"@, "statusAgent"@, "#a855f7"@),
        ("outline"@, "treeLine"@, "#334155"@),
        ("outlineVariant"@, "textFaint"@, "#6b7280"@),
    ]
}

/// The colors of the builtin dark theme as JSON, under the names of both clients.
pub fn dark_seed_json() -> (r: String)
    ensures
        r@ == seed_text(dark_seed()),
{
    let mut v: Vec<Seed> = Vec::new();
    v.push(Seed { role: "background", alias: "bg", color: "#0f172a" });
    v.push(Seed { role: "onBackground", alias: "text", color: "#f9fafb" });
    v.push(Seed { role: "surface", alias: "surface", color: "#1e293b" });
    v.push(Seed { role: "surfaceVariant", alias: "border", color: "#1f2937" });
    v.push(Seed { role: "onSurfaceVariant", alias: "textDim", color: "#9ca3af" });
    v.push(Seed { role: "primary", alias: "accent", color: "#3b82f6" });
    v.push(Seed { role: "onPrimary", alias: "onAccent", color: "#ffffff" });
    v.push(Seed { role: "success", alias: "statusDone", color: "#22c55e" });
    v.push(Seed { role: "error", alias: "danger", color: "#ef4444" });
    v.push(Seed { role: "tertiary", alias: "statusAgent", color: "#a855f7" });
    v.push(Seed { role: "outline", alias: "treeLine", color: "#334155" });
    v.push(Seed { role: "outlineVariant", alias: "textFaint", color: "#6b7280" });
    assert(seeds(v@) =~= dark_seed());
    seed_json(&v)
}

/// The entries of the builtin light theme.
pub open spec fn light_seed() -> Seq<(Seq<char>, Seq<char>, Seq<char>)> {
    seq![
        ("background"@, "bg"@, "#f8fafc"@),
        ("onBackground"@, "text"@, "#0f172a"@),
        ("surface"@, "surface"@, "#ffffff"@),
        ("surfaceVariant"@, "border"@, "#e2e8f0"@),
        ("onSurfaceVariant"@, "textDim"@, "#475569"@),
        ("primary"@, "accent"@, "#2563eb"@),
        ("onPrimary"@, "onAccent"@, "#ffffff"@),
        ("success"@, "statusDone"@, "#16a34a"@),
        ("error"@, "danger"@, "#dc2626"@),
        ("tertiary"@, "statusAgent"@, "#9333ea"@),
        ("outline"@, "treeLine"@, "#cbd5e1"@),
        ("outlineVariant"@, "textFaint"@, "#94a3b8"@),
    ]
}

/// The colors of the builtin light theme as JSON, under the names of both clients.
pub fn light_seed_json() -> (r: String)
    ensures
        r@ == seed_text(light_seed()),
{
    let mut v: Vec<Seed> = Vec::new();
    v.push(Seed { role: "background", alias: "bg", color: "#f8fafc" });
    v.push(Seed { role: "onBackground", alias: "text", color: "#0f172a" });
    v.push(Seed { role: "surface", alias: "surface", color: "#ffffff" });
    v.push(Seed { role: "surfaceVariant", alias: "border", color: "#e2e8f0" });
    v.push(Seed { role: "onSurfaceVariant", alias: "textDim", color: "#475569" });
    v.push(Seed { role: "primary", alias: "accent", color: "#2563eb" });
    v.push(Seed { role: "onPrimary", alias: "onAccent", color: "#ffffff" });
    v.push(Seed { role: "success", alias: "statusDone", color: "#16a34a" });
    v.push(Seed { role: "error", alias: "danger", color: "#dc2626" });
    v.push(Seed { role: "tertiary", alias: "statusAgent", color: "#9333ea" });
    v.push(Seed { role: "outline", alias: "treeLine", color: "#cbd5e1" });
    v.push(Seed { role: "outlineVariant", alias: "textFaint", color: "#94a3b8" });
    assert(seeds(v@) =~= light_seed());
    seed_json(&v)
}

// ---------- layers ----------

/// A resolved theme.
pub struct Theme {
    pub name: String,
    pub colors: Palette,
}

/// The color that a layer of entries gives a variable: that of the last entry
/// for it that denotes one.
pub open spec fn layer_color(entries: Seq<(String, String)>, var: Seq<char>) -> Option<Color>
    decreases entries.len(),
{
    if entries.len() == 0 {
        None
    } else {
        let e = entries.last();
        if e.0@ == var && hex_color(e.1@) is Some {
            hex_color(e.1@)
        } else {
            layer_color(entries.drop_last(), var)
        }
    }
}

/// The first of two colors that is there.
pub open spec fn or_else(a: Option<Color>, b: Option<Color>) -> Option<Color> {
    match a {
        Some(c) => Some(c),
        None => b,
    }
}

/// What a palette itself defines: no fallback.
pub open spec fn defined(p: Palette, var: Seq<char>) -> Option<Color> {
    if is_core(var) || customs(p.custom@).contains_key(var) {
        Some(lookup(p, var))
    } else {
        None
    }
}

/// Lays a layer of entries over a palette. Entries without a color do nothing.
pub fn apply_layer(palette: &mut Palette, entries: &Vec<(String, String)>)
    ensures
        forall|var: Seq<char>| #[trigger]
            defined(*final(palette), var) == or_else(
                layer_color(entries@, var),
                defined(*old(palette), var),
            ),
{
    assert(entries@.take(0) =~= Seq::empty());
    for i in 0..entries.len()
        invariant
            forall|var: Seq<char>| #[trigger]
                defined(*palette, var) == or_else(
                    layer_color(entries@.take(i as int), var),
                    defined(*old(palette), var),
                ),
    {
        let ghost before = *palette;
        let ghost e = entries@[i as int];
        assert(entries@.take(i + 1).drop_last() =~= entries@.take(i as int));
        assert(entries@.take(i + 1).last() == e);
        apply_color(palette, entries[i].0.as_str(), entries[i].1.as_str());
        assert forall|var: Seq<char>| #[trigger]
            defined(*palette, var) == or_else(
                layer_color(entries@.take(i + 1), var),
                defined(*old(palette), var),
            ) by {
            assert(defined(before, var) == or_else(
                layer_color(entries@.take(i as int), var),
                defined(*old(palette), var),
            ));
        }
    }
    assert(entries@.take(entries@.len() as int) =~= entries@);
}

/// The role that the mobile client knows by a name.
pub open spec fn role_of(alias: Seq<char>) -> Option<Seq<char>> {
    if alias == "bg"@ {
        Some("background"@)
    } else if alias == "text"@ {
        Some("onBackground"@)
    } else if alias == "border"@ {
        Some("surfaceVariant"@)
    } else if alias == "textDim"@ {
        Some("onSurfaceVariant"@)
    } else if alias == "accent"@ {
        Some("primary"@)
    } else if alias == "onAccent"@ {
        Some("onPrimary"@)
    } else if alias == "statusDone"@ {
        Some("success"@)
    } else if alias == "danger"@ {
        Some("error"@)
    } else if alias == "statusAgent"@ {
        Some("tertiary"@)
    } else if alias == "treeLine"@ {
        Some("outline"@)
    } else if alias == "textFaint"@ {
        Some("outlineVariant"@)
    } else {
        None
    }
}

fn aliased_role(alias: &str) -> (r: Option<&'static str>)
    ensures
        match r {
            Some(role) => role_of(alias@) == Some(role@),
            None => role_of(alias@) is None,
        },
{
    if str_eq(alias, "bg") {
        Some("background")
    } else if str_eq(alias, "text") {
        Some("onBackground")
    } else if str_eq(alias, "border") {
        Some("surfaceVariant")
    } else if str_eq(alias, "textDim") {
        Some("onSurfaceVariant")
    } else if str_eq(alias, "accent") {
        Some("primary")
    } else if str_eq(alias, "onAccent") {
        Some("onPrimary")
    } else if str_eq(alias, "statusDone") {
        Some("success")
    } else if str_eq(alias, "danger") {
        Some("error")
    } else if str_eq(alias, "statusAgent") {
        Some("tertiary")
    } else if str_eq(alias, "treeLine") {
        Some("outline")
    } else if str_eq(alias, "textFaint") {
        Some("outlineVariant")
    } else {
        None
    }
}

/// The color that a layer of entries gives a role under its mobile name.
pub open spec fn alias_color(entries: Seq<(String, String)>, role: Seq<char>) -> Option<Color>
    decreases entries.len(),
{
    if entries.len() == 0 {
        None
    } else {
        let e = entries.last();
        if role_of(e.0@) == Some(role) && hex_color(e.1@) is Some {
            hex_color(e.1@)
        } else {
            alias_color(entries.drop_last(), role)
        }
    }
}

/// The color that a theme gives a variable: that of its own name, else that of its
/// mobile name.
pub open spec fn theme_color(entries: Seq<(String, String)>, var: Seq<char>) -> Option<Color> {
    or_else(layer_color(entries, var), alias_color(entries, var))
}

fn apply_aliases(palette: &mut Palette, entries: &Vec<(String, String)>)
    ensures
        forall|var: Seq<char>| #[trigger]
            defined(*final(palette), var) == or_else(
                alias_color(entries@, var),
                defined(*old(palette), var),
            ),
{
    assert(entries@.take(0) =~= Seq::empty());
    for i in 0..entries.len()
        invariant
            forall|var: Seq<char>| #[trigger]
                defined(*palette, var) == or_else(
                    alias_color(entries@.take(i as int), var),
                    defined(*old(palette), var),
                ),
    {
        let ghost before = *palette;
        let ghost e = entries@[i as int];
        assert(entries@.take(i + 1).drop_last() =~= entries@.take(i as int));
        assert(entries@.take(i + 1).last() == e);
        if let Some(role) = aliased_role(entries[i].0.as_str()) {
            apply_color(palette, role, entries[i].1.as_str());
        }
        assert forall|var: Seq<char>| #[trigger]
            defined(*palette, var) == or_else(
                alias_color(entries@.take(i + 1), var),
                defined(*old(palette), var),
            ) by {
            assert(defined(before, var) == or_else(
                alias_color(entries@.take(i as int), var),
                defined(*old(palette), var),
            ));
        }
    }
    assert(entries@.take(entries@.len() as int) =~= entries@);
}

/// Lays the colors of a theme over a palette. Roles may go by their mobile names; their
/// own names win where both are there.
pub fn merge_colors(palette: &mut Palette, entries: &Vec<(String, String)>)
    ensures
        forall|var: Seq<char>| #[trigger]
            defined(*final(palette), var) == or_else(
                theme_color(entries@, var),
                defined(*old(palette), var),
            ),
{
    apply_aliases(palette, entries);
    let ghost middle = *palette;
    apply_layer(palette, entries);
    assert forall|var: Seq<char>| #[trigger]
        defined(*palette, var) == or_else(
            theme_color(entries@, var),
            defined(*old(palette), var),
        ) by {
        assert(defined(middle, var) == or_else(
            alias_color(entries@, var),
            defined(*old(palette), var),
        ));
    }
}

/// A theme that names a role sets it, and one that names it only as the mobile client
/// does sets it as well; the role's own name wins.
pub proof fn law_roles_win_over_mobile_names(
    before: Palette,
    after: Palette,
    entries: Seq<(String, String)>,
    role: Seq<char>,
)
    requires
        forall|v: Seq<char>| #[trigger]
            defined(after, v) == or_else(theme_color(entries, v), defined(before, v)),
    ensures
        layer_color(entries, role) is Some ==> lookup(after, role) == layer_color(entries, role)->0,
        layer_color(entries, role) is None && alias_color(entries, role) is Some ==> lookup(
            after,
            role,
        ) == alias_color(entries, role)->0,
        is_core(role) && theme_color(entries, role) is None ==> lookup(after, role) == lookup(
            before,
            role,
        ),
{
    assert(defined(after, role) == or_else(theme_color(entries, role), defined(before, role)));
}

/// Sets a variable from a text like `#rrggbb`; any other text does nothing.
pub fn apply_color(palette: &mut Palette, var: &str, hex: &str)
    ensures
        forall|v: Seq<char>| #[trigger]
            defined(*final(palette), v) == (if v == var@ && hex_color(hex@) is Some {
                hex_color(hex@)
            } else {
                defined(*old(palette), v)
            }),
        hex_color(hex@) is None ==> *final(palette) == *old(palette),
{
    if let Some(color) = parse_hex(hex) {
        palette.set(var, color);
        proof {
            let before = *old(palette);
            let after = *palette;
            if !is_core(var@) {
                assert(after.custom@.drop_last() =~= before.custom@);
            }
            assert forall|v: Seq<char>| #[trigger]
                defined(after, v) == (if v == var@ {
                    hex_color(hex@)
                } else {
                    defined(before, v)
                }) by {
                law_set_is_seen(before, after, var@, color, v);
            }
        }
    }
}

/// The theme that the settings select: the selected one in explicit mode, the
/// builtin dark one in any other.
pub open spec fn active_theme(mode: Option<Seq<char>>, selected: Option<Seq<char>>) -> Seq<char> {
    if mode == Some("explicit"@) && selected is Some {
        selected->0
    } else {
        "builtin-dark"@
    }
}

/// The id of the theme that the settings select.
pub fn active_theme_id(mode: &Option<String>, selected: &Option<String>) -> (r: String)
    ensures
        r@ == active_theme(opt(*mode), opt(*selected)),
{
    let explicit = match mode {
        Some(m) => str_eq(m.as_str(), "explicit"),
        None => false,
    };
    match selected {
        Some(id) => {
            if explicit {
                id.clone()
            } else {
                "builtin-dark".to_string()
            }
        },
        None => "builtin-dark".to_string(),
    }
}

impl Theme {
    /// The theme where nothing else is to be had.
    pub fn builtin_dark() -> (r: Theme)
        ensures
            r.name@ == "Cordanui Dark"@,
            r.colors == dark_colors(r.colors.custom),
            r.colors.custom@.len() == 0,
    {
        Theme { name: "Cordanui Dark".to_string(), colors: dark_palette() }
    }

    /// The color of a variable: that of the session, else the global override,
    /// else the theme's, else the builtin one; the fallback where none has one.
    pub fn resolve(
        name: String,
        theme: &Vec<(String, String)>,
        global: &Vec<(String, String)>,
        session: &Vec<(String, String)>,
    ) -> (r: Theme)
        ensures
            r.name == name,
            forall|var: Seq<char>| #[trigger]
                defined(r.colors, var) == resolved(theme@, global@, session@, var),
    {
        let mut colors = dark_palette();
        proof {
            assert(customs(colors.custom@) =~= Map::empty());
            assert forall|var: Seq<char>| #[trigger] defined(colors, var) == builtin(var) by {}
        }
        merge_colors(&mut colors, theme);
        apply_layer(&mut colors, global);
        apply_layer(&mut colors, session);
        Theme { name, colors }
    }
}

/// The builtin color of a variable.
pub open spec fn builtin(var: Seq<char>) -> Option<Color> {
    if var == "background"@ {
        Some(rgb_spec(0x0f172a))
    } else if var == "onBackground"@ {
        Some(rgb_spec(0xf9fafb))
    } else if var == "surface"@ {
        Some(rgb_spec(0x1e293b))
    } else if var == "onSurface"@ {
        Some(rgb_spec(0xf9fafb))
    } else if var == "surfaceVariant"@ {
        Some(rgb_spec(0x1f2937))
    } else if var == "onSurfaceVariant"@ {
        Some(rgb_spec(0x9ca3af))
    } else if var == "primary"@ {
        Some(rgb_spec(0x3b82f6))
    } else if var == "onPrimary"@ {
        Some(rgb_spec(0xffffff))
    } else if var == "secondary"@ {
        Some(rgb_spec(0x38bdf8))
    } else if var == "onSecondary"@ {
        Some(rgb_spec(0x082f49))
    } else if var == "tertiary"@ {
        Some(rgb_spec(0xa855f7))
    } else if var == "onTertiary"@ {
        Some(rgb_spec(0xffffff))
    } else if var == "success"@ {
        Some(rgb_spec(0x22c55e))
    } else if var == "onSuccess"@ {
        Some(rgb_spec(0x052e16))
    } else if var == "error"@ {
        Some(rgb_spec(0xef4444))
    } else if var == "onError"@ {
        Some(rgb_spec(0xffffff))
    } else if var == "outline"@ {
        Some(rgb_spec(0x334155))
    } else if var == "outlineVariant"@ {
        Some(rgb_spec(0x6b7280))
    } else {
        None
    }
}

/// The color of a variable through all layers.
pub open spec fn resolved(
    theme: Seq<(String, String)>,
    global: Seq<(String, String)>,
    session: Seq<(String, String)>,
    var: Seq<char>,
) -> Option<Color> {
    or_else(
        layer_color(session, var),
        or_else(layer_color(global, var), or_else(theme_color(theme, var), builtin(var))),
    )
}

/// A variable that no layer defines has the color of `onBackground`; one that a
/// layer defines has the color of the last such layer.
pub proof fn law_later_layers_win(
    p: Palette,
    theme: Seq<(String, String)>,
    global: Seq<(String, String)>,
    session: Seq<(String, String)>,
    var: Seq<char>,
)
    requires
        forall|v: Seq<char>| #[trigger] defined(p, v) == resolved(theme, global, session, v),
    ensures
        layer_color(session, var) is Some ==> lookup(p, var) == layer_color(session, var)->0,
        layer_color(session, var) is None && layer_color(global, var) is Some ==> lookup(p, var)
            == layer_color(global, var)->0,
        layer_color(session, var) is None && layer_color(global, var) is None && theme_color(
            theme,
            var,
        ) is Some ==> lookup(p, var) == theme_color(theme, var)->0,
        resolved(theme, global, session, var) is None ==> lookup(p, var) == p.on_background,
{
    assert(defined(p, var) == resolved(theme, global, session, var));
}

/// Whether some entries are the members of an object that are strings, in the
/// order of their names.
pub open spec fn color_list(m: Map<Seq<char>, Seq<char>>, r: Seq<(String, String)>) -> bool {
    &&& forall|i: int, j: int|
        0 <= i < j < r.len() ==> str_less((#[trigger] r[i]).0@, (#[trigger] r[j]).0@)
    &&& forall|i: int|
        0 <= i < r.len() ==> m.contains_key((#[trigger] r[i]).0@) && string_of(m[r[i].0@]) == Some(
            r[i].1@,
        )
    &&& forall|k: Seq<char>| #[trigger]
        m.contains_key(k) && string_of(m[k]) is Some ==> exists|i: int|
            0 <= i < r.len() && (#[trigger] r[i]).0@ == k
}

/// The members of an object that are strings, in the order of their names.
pub fn entries_of(m: &serde_json::Map<String, serde_json::Value>) -> (r: Vec<(String, String)>)
    ensures
        color_list(members(*m), r@),
{
    let keys = member_keys(m);
    let ghost all = texts(keys@);
    let ghost map = members(*m);
    let mut out: Vec<(String, String)> = Vec::new();
    let n: usize = keys.len();
    let mut i: usize = 0;
    while i < n
        invariant
            i <= n == keys@.len(),
            map == members(*m),
            all == texts(keys@),
            all.to_set() == map.dom(),
            forall|a: int, b: int|
                0 <= a < b < keys@.len() ==> str_less((#[trigger] keys@[a])@, (#[trigger] keys@[b])@),
            forall|a: int, b: int|
                0 <= a < b < out@.len() ==> str_less(
                    (#[trigger] out@[a]).0@,
                    (#[trigger] out@[b]).0@,
                ),
            forall|a: int|
                0 <= a < out@.len() ==> map.contains_key((#[trigger] out@[a]).0@) && string_of(
                    map[out@[a].0@],
                ) == Some(out@[a].1@) && exists|b: int|
                    0 <= b < i && (#[trigger] keys@[b])@ == out@[a].0@,
            forall|b: int|
                0 <= b < i && string_of(map[(#[trigger] keys@[b])@]) is Some ==> exists|a: int|
                    0 <= a < out@.len() && (#[trigger] out@[a]).0@ == keys@[b]@,
        decreases n - i,
    {
        let ghost prev = out@;
        assert(all[i as int] == keys@[i as int]@);
        assert(all.to_set().contains(keys@[i as int]@));
        if let Some(v) = member_string(m, keys[i].as_str()) {
            let k = keys[i].clone();
            out.push((k, v));
        }
        proof {
            assert forall|a: int, b: int| 0 <= a < b < out@.len() implies str_less(
                (#[trigger] out@[a]).0@,
                (#[trigger] out@[b]).0@,
            ) by {
                if b == prev.len() {
                    assert(prev[a] == out@[a]);
                    let c = choose|c: int| 0 <= c < i && (#[trigger] keys@[c])@ == prev[a].0@;
                    assert(str_less(keys@[c]@, keys@[i as int]@));
                } else {
                    assert(prev[a] == out@[a] && prev[b] == out@[b]);
                }
            }
            assert forall|a: int| 0 <= a < out@.len() implies map.contains_key(
                (#[trigger] out@[a]).0@,
            ) && string_of(map[out@[a].0@]) == Some(out@[a].1@) && exists|b: int|
                0 <= b < i + 1 && (#[trigger] keys@[b])@ == out@[a].0@ by {
                if a < prev.len() {
                    assert(prev[a] == out@[a]);
                    let b = choose|b: int| 0 <= b < i && (#[trigger] keys@[b])@ == prev[a].0@;
                    assert(keys@[b]@ == out@[a].0@);
                } else {
                    assert(keys@[i as int]@ == out@[a].0@);
                }
            }
            assert forall|b: int|
                0 <= b < i + 1 && string_of(map[(#[trigger] keys@[b])@]) is Some implies exists|
                a: int,
            |
                0 <= a < out@.len() && (#[trigger] out@[a]).0@ == keys@[b]@ by {
                if b < i {
                    let a = choose|a: int|
                        0 <= a < prev.len() && (#[trigger] prev[a]).0@ == keys@[b]@;
                    assert(out@[a].0@ == keys@[b]@);
                } else {
                    assert(out@[prev.len() as int].0@ == keys@[b]@);
                }
            }
        }
        i = i + 1;
    }
    assert forall|k: Seq<char>| #[trigger]
        map.contains_key(k) && string_of(map[k]) is Some implies exists|a: int|
        0 <= a < out@.len() && (#[trigger] out@[a]).0@ == k by {
        assert(all.to_set().contains(k));
        let b = choose|b: int| 0 <= b < all.len() && all[b] == k;
        assert(keys@[b]@ == k);
    }
    out
}

/// Reads the color strings of a theme in the order of their names.
pub fn color_entries(colors_json: &str) -> (r: Vec<(String, String)>)
    ensures
        color_list(members_or_empty(Some(colors_json@)), r@),
{
    let text = Some(colors_json.to_owned());
    let m = parse_or_empty(&text);
    entries_of(&m)
}

/// Whether a character is the hexadecimal digit of a number, in small or capital letters.
pub open spec fn is_hex(c: char, n: int) -> bool {
    0 <= n < 16 && (c == "0123456789abcdef"@[n] || c == "0123456789ABCDEF"@[n])
}

proof fn lemma_hex_digit(c: char, n: int)
    requires
        is_hex(c, n),
    ensures
        hex_digit(c) == Some(n),
        c != '+',
        c != '#',
{
    reveal_strlit("0123456789abcdef");
    reveal_strlit("0123456789ABCDEF");
    assert(n == 0 || n == 1 || n == 2 || n == 3 || n == 4 || n == 5 || n == 6 || n == 7 || n == 8
        || n == 9 || n == 10 || n == 11 || n == 12 || n == 13 || n == 14 || n == 15);
}

/// Six hexadecimal digits denote the color of the three bytes that they spell, with and
/// without a `#` in front.
pub proof fn law_six_digits_make_a_color(d: Seq<char>, n: Seq<int>)
    requires
        d.len() == 6,
        n.len() == 6,
        forall|i: int| 0 <= i < 6 ==> is_hex(#[trigger] d[i], n[i]),
    ensures
        hex_color(d) == Some(
            Color {
                r: (n[0] * 16 + n[1]) as u8,
                g: (n[2] * 16 + n[3]) as u8,
                b: (n[4] * 16 + n[5]) as u8,
            },
        ),
        hex_color(seq!['#'] + d) == hex_color(d),
{
    lemma_hex_digit(d[0], n[0]);
    lemma_hex_digit(d[1], n[1]);
    lemma_hex_digit(d[2], n[2]);
    lemma_hex_digit(d[3], n[3]);
    lemma_hex_digit(d[4], n[4]);
    lemma_hex_digit(d[5], n[5]);
    let s = seq!['#'] + d;
    assert(s.drop_first() =~= d);
    assert(without_leading(d, '#') == d);
    assert(without_leading(s, '#') == d);
}

/// A text that denotes a color has six characters behind its `#`, and each is a digit or a
/// plus sign.
pub proof fn law_only_digits_make_a_color(s: Seq<char>, i: int)
    requires
        s.len() > 0 ==> s[0] != '#',
        hex_color(s) is Some,
    ensures
        s.len() == 6,
        0 <= i < 6 ==> s[i] == '+' || exists|n: int| is_hex(s[i], n),
{
    assert(without_leading(s, '#') == s);
    if 0 <= i < 6 && s[i] != '+' {
        reveal_strlit("0123456789abcdef");
        reveal_strlit("0123456789ABCDEF");
        let n = hex_digit(s[i])->0;
        assert(hex_digit(s[i]) is Some);
        assert(n == 0 || n == 1 || n == 2 || n == 3 || n == 4 || n == 5 || n == 6 || n == 7 || n
            == 8 || n == 9 || n == 10 || n == 11 || n == 12 || n == 13 || n == 14 || n == 15);
        assert(is_hex(s[i], n));
    }
}

/// A number is the color of its three lowest bytes.
pub proof fn law_a_number_holds_three_bytes(r: u8, g: u8, b: u8)
    ensures
        rgb_spec((r * 65536 + g * 256 + b) as u32) == (Color { r, g, b }),
{
}

/// Each role is looked up in its own field.
pub proof fn law_roles_have_their_own_field(p: Palette)
    ensures
        lookup(p, "background"@) == p.background,
        lookup(p, "onBackground"@) == p.on_background,
        lookup(p, "surface"@) == p.surface,
        lookup(p, "onSurface"@) == p.on_surface,
        lookup(p, "surfaceVariant"@) == p.surface_variant,
        lookup(p, "onSurfaceVariant"@) == p.on_surface_variant,
        lookup(p, "primary"@) == p.primary,
        lookup(p, "onPrimary"@) == p.on_primary,
        lookup(p, "secondary"@) == p.secondary,
        lookup(p, "onSecondary"@) == p.on_secondary,
        lookup(p, "tertiary"@) == p.tertiary,
        lookup(p, "onTertiary"@) == p.on_tertiary,
        lookup(p, "success"@) == p.success,
        lookup(p, "onSuccess"@) == p.on_success,
        lookup(p, "error"@) == p.error,
        lookup(p, "onError"@) == p.on_error,
        lookup(p, "outline"@) == p.outline,
        lookup(p, "outlineVariant"@) == p.outline_variant,
{
    lemma_role_names();
}

/// Whether a text denotes a color.
#[verifier::opaque]
pub open spec fn denotes(text: Seq<char>, color: Color) -> bool {
    hex_color(text) == Some(color)
}

proof fn lemma_color_of(s: Seq<char>, a: int, b: int, c: int, d: int, e: int, f: int, hex: u32)
    requires
        s.len() == 7,
        s[0] == '#',
        hex_digit(s[1]) == Some(a),
        hex_digit(s[2]) == Some(b),
        hex_digit(s[3]) == Some(c),
        hex_digit(s[4]) == Some(d),
        hex_digit(s[5]) == Some(e),
        hex_digit(s[6]) == Some(f),
        0 <= a < 16 && 0 <= b < 16 && 0 <= c < 16 && 0 <= d < 16 && 0 <= e < 16 && 0 <= f < 16,
        hex == a * 1048576 + b * 65536 + c * 4096 + d * 256 + e * 16 + f,
    ensures
        denotes(s, rgb_spec(hex)),
{
    reveal(denotes);
    let t = s.drop_first();
    assert(t[0] == s[1] && t[1] == s[2] && t[2] == s[3] && t[3] == s[4] && t[4] == s[5] && t[5]
        == s[6]);
    assert(without_leading(t, '#') == t);
    assert(without_leading(s, '#') == t);
    law_a_number_holds_three_bytes((a * 16 + b) as u8, (c * 16 + d) as u8, (e * 16 + f) as u8);
    assert(hex == (a * 16 + b) * 65536 + (c * 16 + d) * 256 + (e * 16 + f));
}

#[verifier::rlimit(60)]
proof fn lemma_dark_colors()
    ensures
        denotes("#0f172a"@, rgb_spec(0x0f172a)),
        denotes("#f9fafb"@, rgb_spec(0xf9fafb)),
        denotes("#1e293b"@, rgb_spec(0x1e293b)),
        denotes("#1f2937"@, rgb_spec(0x1f2937)),
        denotes("#9ca3af"@, rgb_spec(0x9ca3af)),
        denotes("#3b82f6"@, rgb_spec(0x3b82f6)),
        denotes("#ffffff"@, rgb_spec(0xffffff)),
        denotes("#22c55e"@, rgb_spec(0x22c55e)),
        denotes("#ef4444"@, rgb_spec(0xef4444)),
        denotes("#a855f7"@, rgb_spec(0xa855f7)),
        denotes("#334155"@, rgb_spec(0x334155)),
        denotes("#6b7280"@, rgb_spec(0x6b7280)),
{
    assert(denotes("#0f172a"@, rgb_spec(0x0f172a))) by {
        reveal_strlit("#0f172a");
        lemma_color_of("#0f172a"@, 0, 15, 1, 7, 2, 10, 0x0f172a);
    }
    assert(denotes("#f9fafb"@, rgb_spec(0xf9fafb))) by {
        reveal_strlit("#f9fafb");
        lemma_color_of("#f9fafb"@, 15, 9, 15, 10, 15, 11, 0xf9fafb);
    }
    assert(denotes("#1e293b"@, rgb_spec(0x1e293b))) by {
        reveal_strlit("#1e293b");
        lemma_color_of("#1e293b"@, 1, 14, 2, 9, 3, 11, 0x1e293b);
    }
    assert(denotes("#1f2937"@, rgb_spec(0x1f2937))) by {
        reveal_strlit("#1f2937");
        lemma_color_of("#1f2937"@, 1, 15, 2, 9, 3, 7, 0x1f2937);
    }
    assert(denotes("#9ca3af"@, rgb_spec(0x9ca3af))) by {
        reveal_strlit("#9ca3af");
        lemma_color_of("#9ca3af"@, 9, 12, 10, 3, 10, 15, 0x9ca3af);
    }
    assert(denotes("#3b82f6"@, rgb_spec(0x3b82f6))) by {
        reveal_strlit("#3b82f6");
        lemma_color_of("#3b82f6"@, 3, 11, 8, 2, 15, 6, 0x3b82f6);
    }
    assert(denotes("#ffffff"@, rgb_spec(0xffffff))) by {
        reveal_strlit("#ffffff");
        lemma_color_of("#ffffff"@, 15, 15, 15, 15, 15, 15, 0xffffff);
    }
    assert(denotes("#22c55e"@, rgb_spec(0x22c55e))) by {
        reveal_strlit("#22c55e");
        lemma_color_of("#22c55e"@, 2, 2, 12, 5, 5, 14, 0x22c55e);
    }
    assert(denotes("#ef4444"@, rgb_spec(0xef4444))) by {
        reveal_strlit("#ef4444");
        lemma_color_of("#ef4444"@, 14, 15, 4, 4, 4, 4, 0xef4444);
    }
    assert(denotes("#a855f7"@, rgb_spec(0xa855f7))) by {
        reveal_strlit("#a855f7");
        lemma_color_of("#a855f7"@, 10, 8, 5, 5, 15, 7, 0xa855f7);
    }
    assert(denotes("#334155"@, rgb_spec(0x334155))) by {
        reveal_strlit("#334155");
        lemma_color_of("#334155"@, 3, 3, 4, 1, 5, 5, 0x334155);
    }
    assert(denotes("#6b7280"@, rgb_spec(0x6b7280))) by {
        reveal_strlit("#6b7280");
        lemma_color_of("#6b7280"@, 6, 11, 7, 2, 8, 0, 0x6b7280);
    }
}

#[verifier::rlimit(60)]
proof fn lemma_light_colors()
    ensures
        denotes("#f8fafc"@, rgb_spec(0xf8fafc)),
        denotes("#0f172a"@, rgb_spec(0x0f172a)),
        denotes("#ffffff"@, rgb_spec(0xffffff)),
        denotes("#e2e8f0"@, rgb_spec(0xe2e8f0)),
        denotes("#475569"@, rgb_spec(0x475569)),
        denotes("#2563eb"@, rgb_spec(0x2563eb)),
        denotes("#16a34a"@, rgb_spec(0x16a34a)),
        denotes("#dc2626"@, rgb_spec(0xdc2626)),
        denotes("#9333ea"@, rgb_spec(0x9333ea)),
        denotes("#cbd5e1"@, rgb_spec(0xcbd5e1)),
        denotes("#94a3b8"@, rgb_spec(0x94a3b8)),
{
    assert(denotes("#f8fafc"@, rgb_spec(0xf8fafc))) by {
        reveal_strlit("#f8fafc");
        lemma_color_of("#f8fafc"@, 15, 8, 15, 10, 15, 12, 0xf8fafc);
    }
    assert(denotes("#0f172a"@, rgb_spec(0x0f172a))) by {
        reveal_strlit("#0f172a");
        lemma_color_of("#0f172a"@, 0, 15, 1, 7, 2, 10, 0x0f172a);
    }
    assert(denotes("#ffffff"@, rgb_spec(0xffffff))) by {
        reveal_strlit("#ffffff");
        lemma_color_of("#ffffff"@, 15, 15, 15, 15, 15, 15, 0xffffff);
    }
    assert(denotes("#e2e8f0"@, rgb_spec(0xe2e8f0))) by {
        reveal_strlit("#e2e8f0");
        lemma_color_of("#e2e8f0"@, 14, 2, 14, 8, 15, 0, 0xe2e8f0);
    }
    assert(denotes("#475569"@, rgb_spec(0x475569))) by {
        reveal_strlit("#475569");
        lemma_color_of("#475569"@, 4, 7, 5, 5, 6, 9, 0x475569);
    }
    assert(denotes("#2563eb"@, rgb_spec(0x2563eb))) by {
        reveal_strlit("#2563eb");
        lemma_color_of("#2563eb"@, 2, 5, 6, 3, 14, 11, 0x2563eb);
    }
    assert(denotes("#16a34a"@, rgb_spec(0x16a34a))) by {
        reveal_strlit("#16a34a");
        lemma_color_of("#16a34a"@, 1, 6, 10, 3, 4, 10, 0x16a34a);
    }
    assert(denotes("#dc2626"@, rgb_spec(0xdc2626))) by {
        reveal_strlit("#dc2626");
        lemma_color_of("#dc2626"@, 13, 12, 2, 6, 2, 6, 0xdc2626);
    }
    assert(denotes("#9333ea"@, rgb_spec(0x9333ea))) by {
        reveal_strlit("#9333ea");
        lemma_color_of("#9333ea"@, 9, 3, 3, 3, 14, 10, 0x9333ea);
    }
    assert(denotes("#cbd5e1"@, rgb_spec(0xcbd5e1))) by {
        reveal_strlit("#cbd5e1");
        lemma_color_of("#cbd5e1"@, 12, 11, 13, 5, 14, 1, 0xcbd5e1);
    }
    assert(denotes("#94a3b8"@, rgb_spec(0x94a3b8))) by {
        reveal_strlit("#94a3b8");
        lemma_color_of("#94a3b8"@, 9, 4, 10, 3, 11, 8, 0x94a3b8);
    }
}

/// The builtin themes as they are stored hold the colors of the builtin palettes, each
/// under its role.
pub proof fn law_builtin_themes_are_the_builtin_palettes(custom: Vec<(String, Color)>)
    ensures
        dark_seed().len() == 12,
        light_seed().len() == 12,
        dark_seed()[0].0 == "background"@ && light_seed()[0].0 == "background"@,
        denotes(dark_seed()[0].2, dark_colors(custom).background),
        denotes(light_seed()[0].2, light_colors(custom).background),
        dark_seed()[1].0 == "onBackground"@ && light_seed()[1].0 == "onBackground"@,
        denotes(dark_seed()[1].2, dark_colors(custom).on_background),
        denotes(light_seed()[1].2, light_colors(custom).on_background),
        dark_seed()[2].0 == "surface"@ && light_seed()[2].0 == "surface"@,
        denotes(dark_seed()[2].2, dark_colors(custom).surface),
        denotes(light_seed()[2].2, light_colors(custom).surface),
        dark_seed()[3].0 == "surfaceVariant"@ && light_seed()[3].0 == "surfaceVariant"@,
        denotes(dark_seed()[3].2, dark_colors(custom).surface_variant),
        denotes(light_seed()[3].2, light_colors(custom).surface_variant),
        dark_seed()[4].0 == "onSurfaceVariant"@ && light_seed()[4].0 == "onSurfaceVariant"@,
        denotes(dark_seed()[4].2, dark_colors(custom).on_surface_variant),
        denotes(light_seed()[4].2, light_colors(custom).on_surface_variant),
        dark_seed()[5].0 == "primary"@ && light_seed()[5].0 == "primary"@,
        denotes(dark_seed()[5].2, dark_colors(custom).primary),
        denotes(light_seed()[5].2, light_colors(custom).primary),
        dark_seed()[6].0 == "onPrimary"@ && light_seed()[6].0 == "onPrimary"@,
        denotes(dark_seed()[6].2, dark_colors(custom).on_primary),
        denotes(light_seed()[6].2, light_colors(custom).on_primary),
        dark_seed()[7].0 == "success"@ && light_seed()[7].0 == "success"@,
        denotes(dark_seed()[7].2, dark_colors(custom).success),
        denotes(light_seed()[7].2, light_colors(custom).success),
        dark_seed()[8].0 == "error"@ && light_seed()[8].0 == "error"@,
        denotes(dark_seed()[8].2, dark_colors(custom).error),
        denotes(light_seed()[8].2, light_colors(custom).error),
        dark_seed()[9].0 == "tertiary"@ && light_seed()[9].0 == "tertiary"@,
        denotes(dark_seed()[9].2, dark_colors(custom).tertiary),
        denotes(light_seed()[9].2, light_colors(custom).tertiary),
        dark_seed()[10].0 == "outline"@ && light_seed()[10].0 == "outline"@,
        denotes(dark_seed()[10].2, dark_colors(custom).outline),
        denotes(light_seed()[10].2, light_colors(custom).outline),
        dark_seed()[11].0 == "outlineVariant"@ && light_seed()[11].0 == "outlineVariant"@,
        denotes(dark_seed()[11].2, dark_colors(custom).outline_variant),
        denotes(light_seed()[11].2, light_colors(custom).outline_variant),
{
    lemma_dark_colors();
    lemma_light_colors();
}

/// The second name of a color in a builtin theme is that by which the mobile client knows
/// the role that is its first.
pub proof fn law_builtin_themes_have_the_mobile_names()
    ensures
        role_of(dark_seed()[0].1) == Some("background"@) && light_seed()[0].1 == dark_seed()[0].1,
        role_of(dark_seed()[1].1) == Some("onBackground"@) && light_seed()[1].1 == dark_seed()[1].1,
        dark_seed()[2].1 == "surface"@ && light_seed()[2].1 == "surface"@,
        role_of(dark_seed()[3].1) == Some("surfaceVariant"@) && light_seed()[3].1 == dark_seed()[3].1,
        role_of(dark_seed()[4].1) == Some("onSurfaceVariant"@) && light_seed()[4].1 == dark_seed()[4].1,
        role_of(dark_seed()[5].1) == Some("primary"@) && light_seed()[5].1 == dark_seed()[5].1,
        role_of(dark_seed()[6].1) == Some("onPrimary"@) && light_seed()[6].1 == dark_seed()[6].1,
        role_of(dark_seed()[7].1) == Some("success"@) && light_seed()[7].1 == dark_seed()[7].1,
        role_of(dark_seed()[8].1) == Some("error"@) && light_seed()[8].1 == dark_seed()[8].1,
        role_of(dark_seed()[9].1) == Some("tertiary"@) && light_seed()[9].1 == dark_seed()[9].1,
        role_of(dark_seed()[10].1) == Some("outline"@) && light_seed()[10].1 == dark_seed()[10].1,
        role_of(dark_seed()[11].1) == Some("outlineVariant"@) && light_seed()[11].1 == dark_seed()[11].1,
{
    lemma_mobile_names();
}

proof fn lemma_mobile_names()
    ensures
        role_of("bg"@) == Some("background"@),
        role_of("text"@) == Some("onBackground"@),
        role_of("border"@) == Some("surfaceVariant"@),
        role_of("textDim"@) == Some("onSurfaceVariant"@),
        role_of("accent"@) == Some("primary"@),
        role_of("onAccent"@) == Some("onPrimary"@),
        role_of("statusDone"@) == Some("success"@),
        role_of("danger"@) == Some("error"@),
        role_of("statusAgent"@) == Some("tertiary"@),
        role_of("treeLine"@) == Some("outline"@),
        role_of("textFaint"@) == Some("outlineVariant"@),
{
    reveal_strlit("bg");
    reveal_strlit("text");
    reveal_strlit("border");
    reveal_strlit("textDim");
    reveal_strlit("accent");
    reveal_strlit("onAccent");
    reveal_strlit("statusDone");
    reveal_strlit("danger");
    reveal_strlit("statusAgent");
    reveal_strlit("treeLine");
    reveal_strlit("textFaint");
    assert("bg"@.len() != "text"@.len());
    assert("bg"@.len() != "border"@.len());
    assert("bg"@.len() != "textDim"@.len());
    assert("bg"@.len() != "accent"@.len());
    assert("bg"@.len() != "onAccent"@.len());
    assert("bg"@.len() != "statusDone"@.len());
    assert("bg"@.len() != "danger"@.len());
    assert("bg"@.len() != "statusAgent"@.len());
    assert("bg"@.len() != "treeLine"@.len());
    assert("bg"@.len() != "textFaint"@.len());
    assert("text"@.len() != "border"@.len());
    assert("text"@.len() != "textDim"@.len());
    assert("text"@.len() != "accent"@.len());
    assert("text"@.len() != "onAccent"@.len());
    assert("text"@.len() != "statusDone"@.len());
    assert("text"@.len() != "danger"@.len());
    assert("text"@.len() != "statusAgent"@.len());
    assert("text"@.len() != "treeLine"@.len());
    assert("text"@.len() != "textFaint"@.len());
    assert("border"@.len() != "textDim"@.len());
    assert("border"@[0] != "accent"@[0]);
    assert("border"@.len() != "onAccent"@.len());
    assert("border"@.len() != "statusDone"@.len());
    assert("border"@[0] != "danger"@[0]);
    assert("border"@.len() != "statusAgent"@.len());
    assert("border"@.len() != "treeLine"@.len());
    assert("border"@.len() != "textFaint"@.len());
    assert("textDim"@.len() != "accent"@.len());
    assert("textDim"@.len() != "onAccent"@.len());
    assert("textDim"@.len() != "statusDone"@.len());
    assert("textDim"@.len() != "danger"@.len());
    assert("textDim"@.len() != "statusAgent"@.len());
    assert("textDim"@.len() != "treeLine"@.len());
    assert("textDim"@.len() != "textFaint"@.len());
    assert("accent"@.len() != "onAccent"@.len());
    assert("accent"@.len() != "statusDone"@.len());
    assert("accent"@[0] != "danger"@[0]);
    assert("accent"@.len() != "statusAgent"@.len());
    assert("accent"@.len() != "treeLine"@.len());
    assert("accent"@.len() != "textFaint"@.len());
    assert("onAccent"@.len() != "statusDone"@.len());
    assert("onAccent"@.len() != "danger"@.len());
    assert("onAccent"@.len() != "statusAgent"@.len());
    assert("onAccent"@[0] != "treeLine"@[0]);
    assert("onAccent"@.len() != "textFaint"@.len());
    assert("statusDone"@.len() != "danger"@.len());
    assert("statusDone"@.len() != "statusAgent"@.len());
    assert("statusDone"@.len() != "treeLine"@.len());
    assert("statusDone"@.len() != "textFaint"@.len());
    assert("danger"@.len() != "statusAgent"@.len());
    assert("danger"@.len() != "treeLine"@.len());
    assert("danger"@.len() != "textFaint"@.len());
    assert("statusAgent"@.len() != "treeLine"@.len());
    assert("statusAgent"@.len() != "textFaint"@.len());
    assert("treeLine"@.len() != "textFaint"@.len());
}

/// The builtin color of a role is that of the dark palette, and no other name has one.
pub proof fn law_the_dark_palette_is_builtin(custom: Vec<(String, Color)>, var: Seq<char>)
    ensures
        builtin(var) == (if is_core(var) {
            Some(lookup(dark_colors(custom), var))
        } else {
            None
        }),
{
}

/// The last entry of a layer that names a variable and denotes a color counts; where there
/// is none, the layer gives the variable no color.
pub proof fn law_the_last_entry_counts(entries: Seq<(String, String)>, var: Seq<char>)
    ensures
        match layer_color(entries, var) {
            Some(c) => exists|k: int|
                0 <= k < entries.len() && (#[trigger] entries[k]).0@ == var && hex_color(
                    entries[k].1@,
                ) == Some(c) && forall|j: int|
                    k < j < entries.len() && (#[trigger] entries[j]).0@ == var ==> hex_color(
                        entries[j].1@,
                    ) is None,
            None => forall|k: int|
                0 <= k < entries.len() && (#[trigger] entries[k]).0@ == var ==> hex_color(
                    entries[k].1@,
                ) is None,
        },
    decreases entries.len(),
{
    if entries.len() > 0 {
        let t = entries.drop_last();
        law_the_last_entry_counts(t, var);
        let n = entries.len() - 1;
        assert(entries[n] == entries.last());
        assert(forall|k: int| 0 <= k < n ==> t[k] == #[trigger] entries[k]);
        if !(entries[n].0@ == var && hex_color(entries[n].1@) is Some) && layer_color(
            t,
            var,
        ) is Some {
            let c = layer_color(t, var)->0;
            let k = choose|k: int|
                0 <= k < t.len() && (#[trigger] t[k]).0@ == var && hex_color(t[k].1@) == Some(c)
                    && forall|j: int|
                    k < j < t.len() && (#[trigger] t[j]).0@ == var ==> hex_color(t[j].1@) is None;
            assert(entries[k].0@ == var);
            assert forall|j: int|
                k < j < entries.len() && (#[trigger] entries[j]).0@ == var implies hex_color(
                entries[j].1@,
            ) is None by {
                if j < n {
                    assert(t[j].0@ == var);
                }
            }
        }
    }
}

/// A mobile name counts as an entry for its role does: the last one that denotes a color.
pub proof fn law_the_last_mobile_name_counts(entries: Seq<(String, String)>, role: Seq<char>)
    ensures
        match alias_color(entries, role) {
            Some(c) => exists|k: int|
                0 <= k < entries.len() && role_of((#[trigger] entries[k]).0@) == Some(role)
                    && hex_color(entries[k].1@) == Some(c) && forall|j: int|
                    k < j < entries.len() && role_of((#[trigger] entries[j]).0@) == Some(role)
                        ==> hex_color(entries[j].1@) is None,
            None => forall|k: int|
                0 <= k < entries.len() && role_of((#[trigger] entries[k]).0@) == Some(role)
                    ==> hex_color(entries[k].1@) is None,
        },
    decreases entries.len(),
{
    if entries.len() > 0 {
        let t = entries.drop_last();
        law_the_last_mobile_name_counts(t, role);
        let n = entries.len() - 1;
        assert(entries[n] == entries.last());
        assert(forall|k: int| 0 <= k < n ==> t[k] == #[trigger] entries[k]);
        if !(role_of(entries[n].0@) == Some(role) && hex_color(entries[n].1@) is Some)
            && alias_color(t, role) is Some {
            let c = alias_color(t, role)->0;
            let k = choose|k: int|
                0 <= k < t.len() && role_of((#[trigger] t[k]).0@) == Some(role) && hex_color(
                    t[k].1@,
                ) == Some(c) && forall|j: int|
                    k < j < t.len() && role_of((#[trigger] t[j]).0@) == Some(role) ==> hex_color(
                        t[j].1@,
                    ) is None;
            assert(role_of(entries[k].0@) == Some(role));
            assert forall|j: int|
                k < j < entries.len() && role_of((#[trigger] entries[j]).0@) == Some(
                    role,
                ) implies hex_color(entries[j].1@) is None by {
                if j < n {
                    assert(role_of(t[j].0@) == Some(role));
                }
            }
        }
    }
}

/// A theme is selected in explicit mode alone.
pub proof fn law_a_theme_is_selected_explicitly(mode: Option<Seq<char>>, selected: Seq<char>)
    ensures
        active_theme(Some("explicit"@), Some(selected)) == selected,
        mode != Some("explicit"@) ==> active_theme(mode, Some(selected)) == "builtin-dark"@,
        active_theme(mode, None) == "builtin-dark"@,
{
}

/// A stored theme has two members for each color, one for its role and one for its mobile
/// name, both with the color as a string.
pub proof fn law_colors_are_stored_under_two_names(
    s: Seq<(Seq<char>, Seq<char>, Seq<char>)>,
    i: int,
)
    requires
        0 <= i < s.len(),
    ensures
        seed_pairs(s).len() == 2 * s.len(),
        seed_pairs(s)[2 * i] == "\""@ + s[i].0 + "\""@ + ":"@ + "\""@ + s[i].2 + "\""@,
        seed_pairs(s)[2 * i + 1] == "\""@ + s[i].1 + "\""@ + ":"@ + "\""@ + s[i].2 + "\""@,
        seed_text(s) == "{"@ + joined(seed_pairs(s), ","@) + "}"@,
    decreases s.len(),
{
    reveal_strlit("\"");
    reveal_strlit(":");
    reveal_strlit("\":\"");
    let t = s.drop_last();
    if t.len() > 0 {
        law_colors_are_stored_under_two_names(t, if i < t.len() {
            i
        } else {
            0
        });
    } else {
        assert(seed_pairs(t) =~= Seq::empty());
    }
    assert(seed_pairs(t).len() == 2 * t.len());
    if i == t.len() {
        let e = s[i];
        assert(s.last() == e);
        assert(pair_text(e.0, e.2) =~= "\""@ + e.0 + "\""@ + ":"@ + "\""@ + e.2 + "\""@);
        assert(pair_text(e.1, e.2) =~= "\""@ + e.1 + "\""@ + ":"@ + "\""@ + e.2 + "\""@);
    }
}

} // verus!
