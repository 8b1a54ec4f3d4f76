//! The color data model: an ARGB color, the fixed set of named color roles
//! that make up one light or dark scheme, and a light/dark theme pair.

use vstd::prelude::*;

use crate::text::{ascii_chars, hex2, hex2_push};

verus! {

/// A color with four 8-bit channels.
#[derive(Debug, Clone, Copy, PartialEq, Eq, Structural, Default)]
pub struct MateyArgb {
    pub alpha: u8,
    pub red: u8,
    pub green: u8,
    pub blue: u8,
}

/// The six upper-case hexadecimal digits of a color, red, green, blue;
/// the alpha channel is excluded.
pub open spec fn argb_hex(c: MateyArgb) -> Seq<u8> {
    hex2(c.red) + hex2(c.green) + hex2(c.blue)
}

impl MateyArgb {
    /// The six-digit upper-case hexadecimal form of the color.
    pub fn to_hex(&self) -> (r: String)
        ensures
            r@ == ascii_chars(argb_hex(*self)),
    {
        let mut bytes: Vec<u8> = Vec::new();
        hex2_push(&mut bytes, self.red);
        hex2_push(&mut bytes, self.green);
        hex2_push(&mut bytes, self.blue);
        let mut r = String::new();
        let n = bytes.len();
        let mut i: usize = 0;
        while i < n
            invariant
                n == bytes@.len(),
                i <= n,
                bytes@ == argb_hex(*self),
                r@ =~= ascii_chars(bytes@.subrange(0, i as int)),
            decreases n - i,
        {
            crate::text::push_char(&mut r, bytes[i] as char);
            i = i + 1;
            proof {
                assert(r@ =~= ascii_chars(bytes@.subrange(0, i as int)));
            }
        }
        proof {
            assert(bytes@.subrange(0, n as int) =~= bytes@);
        }
        r
    }

    /// The six upper-case hexadecimal digits of the color, appended to
    /// `out`.
    pub fn push_hex(&self, out: &mut Vec<u8>)
        ensures
            final(out)@ == old(out)@ + argb_hex(*self),
    {
        hex2_push(out, self.red);
        hex2_push(out, self.green);
        hex2_push(out, self.blue);
        proof {
            assert(final(out)@ =~= old(out)@ + argb_hex(*self));
        }
    }
}

/// One light or dark scheme: the fixed, ordered set of named color roles.
#[derive(Debug, Clone, Copy, Default)]
pub struct MateyScheme {
    pub primary: MateyArgb,
    pub on_primary: MateyArgb,
    pub primary_container: MateyArgb,
    pub on_primary_container: MateyArgb,
    pub inverse_primary: MateyArgb,
    pub primary_fixed: MateyArgb,
    pub primary_fixed_dim: MateyArgb,
    pub on_primary_fixed: MateyArgb,
    pub on_primary_fixed_variant: MateyArgb,
    pub secondary: MateyArgb,
    pub on_secondary: MateyArgb,
    pub secondary_container: MateyArgb,
    pub on_secondary_container: MateyArgb,
    pub secondary_fixed: MateyArgb,
    pub secondary_fixed_dim: MateyArgb,
    pub on_secondary_fixed: MateyArgb,
    pub on_secondary_fixed_variant: MateyArgb,
    pub tertiary: MateyArgb,
    pub on_tertiary: MateyArgb,
    pub tertiary_container: MateyArgb,
    pub on_tertiary_container: MateyArgb,
    pub tertiary_fixed: MateyArgb,
    pub tertiary_fixed_dim: MateyArgb,
    pub on_tertiary_fixed: MateyArgb,
    pub on_tertiary_fixed_variant: MateyArgb,
    pub error: MateyArgb,
    pub on_error: MateyArgb,
    pub error_container: MateyArgb,
    pub on_error_container: MateyArgb,
    pub surface_dim: MateyArgb,
    pub surface: MateyArgb,
    pub surface_tint: MateyArgb,
    pub surface_bright: MateyArgb,
    pub surface_container_lowest: MateyArgb,
    pub surface_container_low: MateyArgb,
    pub surface_container: MateyArgb,
    pub surface_container_high: MateyArgb,
    pub surface_container_highest: MateyArgb,
    pub on_surface: MateyArgb,
    pub on_surface_variant: MateyArgb,
    pub outline: MateyArgb,
    pub outline_variant: MateyArgb,
    pub inverse_surface: MateyArgb,
    pub inverse_on_surface: MateyArgb,
    pub surface_variant: MateyArgb,
    pub background: MateyArgb,
    pub on_background: MateyArgb,
    pub shadow: MateyArgb,
    pub scrim: MateyArgb,
}

/// The (role name, color) pairs of a scheme, in their fixed order.
pub open spec fn scheme_entries(s: MateyScheme) -> Seq<(Seq<char>, MateyArgb)> {
    seq![
        ("primary"@, s.primary),
        ("on_primary"@, s.on_primary),
        ("primary_container"@, s.primary_container),
        ("on_primary_container"@, s.on_primary_container),
        ("inverse_primary"@, s.inverse_primary),
        ("primary_fixed"@, s.primary_fixed),
        ("primary_fixed_dim"@, s.primary_fixed_dim),
        ("on_primary_fixed"@, s.on_primary_fixed),
        ("on_primary_fixed_variant"@, s.on_primary_fixed_variant),
        ("secondary"@, s.secondary),
        ("on_secondary"@, s.on_secondary),
        ("secondary_container"@, s.secondary_container),
        ("on_secondary_container"@, s.on_secondary_container),
        ("secondary_fixed"@, s.secondary_fixed),
        ("secondary_fixed_dim"@, s.secondary_fixed_dim),
        ("on_secondary_fixed"@, s.on_secondary_fixed),
        ("on_secondary_fixed_variant"@, s.on_secondary_fixed_variant),
        ("tertiary"@, s.tertiary),
        ("on_tertiary"@, s.on_tertiary),
        ("tertiary_container"@, s.tertiary_container),
        ("on_tertiary_container"@, s.on_tertiary_container),
        ("tertiary_fixed"@, s.tertiary_fixed),
        ("tertiary_fixed_dim"@, s.tertiary_fixed_dim),
        ("on_tertiary_fixed"@, s.on_tertiary_fixed),
        ("on_tertiary_fixed_variant"@, s.on_tertiary_fixed_variant),
        ("error"@, s.error),
        ("on_error"@, s.on_error),
        ("error_container"@, s.error_container),
        ("on_error_container"@, s.on_error_container),
        ("surface_dim"@, s.surface_dim),
        ("surface"@, s.surface),
        ("surface_tint"@, s.surface_tint),
        ("surface_bright"@, s.surface_bright),
        ("surface_container_lowest"@, s.surface_container_lowest),
        ("surface_container_low"@, s.surface_container_low),
        ("surface_container"@, s.surface_container),
        ("surface_container_high"@, s.surface_container_high),
        ("surface_container_highest"@, s.surface_container_highest),
        ("on_surface"@, s.on_surface),
        ("on_surface_variant"@, s.on_surface_variant),
        ("outline"@, s.outline),
        ("outline_variant"@, s.outline_variant),
        ("inverse_surface"@, s.inverse_surface),
        ("inverse_on_surface"@, s.inverse_on_surface),
        ("surface_variant"@, s.surface_variant),
        ("background"@, s.background),
        ("on_background"@, s.on_background),
        ("shadow"@, s.shadow),
        ("scrim"@, s.scrim),
    ]
}

/// The view of a vector of (role name, color) pairs.
pub open spec fn pairs_view(v: Seq<(String, MateyArgb)>) -> Seq<(Seq<char>, MateyArgb)> {
    v.map_values(|p: (String, MateyArgb)| (p.0@, p.1))
}

impl MateyScheme {
/// The (role name, color) pairs of the scheme, in their fixed order.
pub fn roles(&self) -> (r: Vec<(String, MateyArgb)>)
    ensures
        pairs_view(r@) == scheme_entries(*self),
{
    let mut v: Vec<(String, MateyArgb)> = Vec::new();
    v.push((String::from_str("primary"), self.primary));
    v.push((String::from_str("on_primary"), self.on_primary));
    v.push((String::from_str("primary_container"), self.primary_container));
    v.push((String::from_str("on_primary_container"), self.on_primary_container));
    v.push((String::from_str("inverse_primary"), self.inverse_primary));
    v.push((String::from_str("primary_fixed"), self.primary_fixed));
    v.push((String::from_str("primary_fixed_dim"), self.primary_fixed_dim));
    v.push((String::from_str("on_primary_fixed"), self.on_primary_fixed));
    v.push((String::from_str("on_primary_fixed_variant"), self.on_primary_fixed_variant));
    v.push((String::from_str("secondary"), self.secondary));
    v.push((String::from_str("on_secondary"), self.on_secondary));
    v.push((String::from_str("secondary_container"), self.secondary_container));
    v.push((String::from_str("on_secondary_container"), self.on_secondary_container));
    v.push((String::from_str("secondary_fixed"), self.secondary_fixed));
    v.push((String::from_str("secondary_fixed_dim"), self.secondary_fixed_dim));
    v.push((String::from_str("on_secondary_fixed"), self.on_secondary_fixed));
    v.push((String::from_str("on_secondary_fixed_variant"), self.on_secondary_fixed_variant));
    v.push((String::from_str("tertiary"), self.tertiary));
    v.push((String::from_str("on_tertiary"), self.on_tertiary));
    v.push((String::from_str("tertiary_container"), self.tertiary_container));
    v.push((String::from_str("on_tertiary_container"), self.on_tertiary_container));
    v.push((String::from_str("tertiary_fixed"), self.tertiary_fixed));
    v.push((String::from_str("tertiary_fixed_dim"), self.tertiary_fixed_dim));
    v.push((String::from_str("on_tertiary_fixed"), self.on_tertiary_fixed));
    v.push((String::from_str("on_tertiary_fixed_variant"), self.on_tertiary_fixed_variant));
    v.push((String::from_str("error"), self.error));
    v.push((String::from_str("on_error"), self.on_error));
    v.push((String::from_str("error_container"), self.error_container));
    v.push((String::from_str("on_error_container"), self.on_error_container));
    v.push((String::from_str("surface_dim"), self.surface_dim));
    v.push((String::from_str("surface"), self.surface));
    v.push((String::from_str("surface_tint"), self.surface_tint));
    v.push((String::from_str("surface_bright"), self.surface_bright));
    v.push((String::from_str("surface_container_lowest"), self.surface_container_lowest));
    v.push((String::from_str("surface_container_low"), self.surface_container_low));
    v.push((String::from_str("surface_container"), self.surface_container));
    v.push((String::from_str("surface_container_high"), self.surface_container_high));
    v.push((String::from_str("surface_container_highest"), self.surface_container_highest));
    v.push((String::from_str("on_surface"), self.on_surface));
    v.push((String::from_str("on_surface_variant"), self.on_surface_variant));
    v.push((String::from_str("outline"), self.outline));
    v.push((String::from_str("outline_variant"), self.outline_variant));
    v.push((String::from_str("inverse_surface"), self.inverse_surface));
    v.push((String::from_str("inverse_on_surface"), self.inverse_on_surface));
    v.push((String::from_str("surface_variant"), self.surface_variant));
    v.push((String::from_str("background"), self.background));
    v.push((String::from_str("on_background"), self.on_background));
    v.push((String::from_str("shadow"), self.shadow));
    v.push((String::from_str("scrim"), self.scrim));
    proof {
        assert(pairs_view(v@) =~= scheme_entries(*self));
    }
    v
}
}

/// A light/dark pair of schemes.
#[derive(Debug, Clone, Copy)]
pub struct MateyTheme {
    pub light: MateyScheme,
    pub dark: MateyScheme,
}

impl MateyTheme {
    pub fn new(light: MateyScheme, dark: MateyScheme) -> (r: Self)
        ensures
            r.light == light,
            r.dark == dark,
    {
        MateyTheme { light, dark }
    }
}

} // verus!
