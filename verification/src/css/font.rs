//! Font properties read from CSS input.

use vstd::prelude::*;
use crate::css::error::{CssError, CssErrorKind, SourceLocation};
use crate::css::input::{current_location, next_token, tokenizer_error, CssToken};
use crate::css::keywords::{eq_ignore_ascii_case, eq_ignore_ascii_case_spec};

verus! {

/// The weight of a font, from 0 to 1000 (400 is normal, 700 bold).
#[derive(Debug, Clone, Copy, PartialEq, Eq, Structural)]
pub struct FontWeight(pub u16);

/// The weight `normal` names.
pub const NORMAL_FONT_WEIGHT: u16 = 400;

/// The weight `bold` names.
pub const BOLD_FONT_WEIGHT: u16 = 700;

/// The font weight a token at `location` gives: `normal`, `bold`, or a whole
/// number from 0 to 1000.
pub open spec fn font_weight_token(t: CssToken, location: SourceLocation) -> Result<FontWeight, CssError> {
    let invalid = CssError { kind: CssErrorKind::InvalidFontWeight, location: Some(location) };
    match t {
        CssToken::Ident(s) => if eq_ignore_ascii_case_spec(s@, "normal"@) {
            Ok(FontWeight(NORMAL_FONT_WEIGHT))
        } else if eq_ignore_ascii_case_spec(s@, "bold"@) {
            Ok(FontWeight(BOLD_FONT_WEIGHT))
        } else {
            Err(invalid)
        },
        CssToken::Number { int_value: Some(v) } => if 0 <= v <= 1000 {
            Ok(FontWeight(v as u16))
        } else {
            Err(invalid)
        },
        _ => Err(invalid),
    }
}

/// A font weight, from the token at `location`.
pub fn font_weight_from_token(t: &CssToken, location: SourceLocation) -> (r: Result<FontWeight, CssError>)
    ensures
        r == font_weight_token(*t, location),
{
    match t {
        CssToken::Ident(s) => {
            if eq_ignore_ascii_case(s.as_str(), "normal") {
                Ok(FontWeight(NORMAL_FONT_WEIGHT))
            } else if eq_ignore_ascii_case(s.as_str(), "bold") {
                Ok(FontWeight(BOLD_FONT_WEIGHT))
            } else {
                Err(CssError::new_located(CssErrorKind::InvalidFontWeight, location))
            }
        },
        CssToken::Number { int_value: Some(v) } => {
            if 0 <= *v && *v <= 1000 {
                Ok(FontWeight(*v as u16))
            } else {
                Err(CssError::new_located(CssErrorKind::InvalidFontWeight, location))
            }
        },
        _ => Err(CssError::new_located(CssErrorKind::InvalidFontWeight, location)),
    }
}

/// Reads a font weight.
pub fn parse_font_weight(parser: &mut cssparser::Parser) -> (r: Result<FontWeight, CssError>)
    ensures
        r matches Ok(w) ==> w.0 <= 1000,
        r matches Err(e) ==> tokenizer_error(e) || (e.kind == CssErrorKind::InvalidFontWeight && e.location is Some),
{
    let location = current_location(parser);
    let token = next_token(parser)?;
    font_weight_from_token(&token, location)
}

/// What a font-weight token gives: `normal` is 400 and `bold` 700 (in any
/// ASCII case); a whole number from 0 to 1000 is that weight; anything else
/// is the font-weight error at its place.
pub proof fn lemma_font_weight_token(t: CssToken, location: SourceLocation)
    ensures
        ({
            let r = font_weight_token(t, location);
            let invalid = Err::<FontWeight, CssError>(CssError { kind: CssErrorKind::InvalidFontWeight, location: Some(location) });
            match t {
                CssToken::Ident(s) => {
                    &&& eq_ignore_ascii_case_spec(s@, "normal"@) ==> r == Ok::<FontWeight, CssError>(FontWeight(400))
                    &&& eq_ignore_ascii_case_spec(s@, "bold"@) ==> r == Ok::<FontWeight, CssError>(FontWeight(700))
                    &&& !eq_ignore_ascii_case_spec(s@, "normal"@) && !eq_ignore_ascii_case_spec(s@, "bold"@) ==> r == invalid
                },
                CssToken::Number { int_value: Some(v) } => r == if 0 <= v <= 1000 {
                    Ok::<FontWeight, CssError>(FontWeight(v as u16))
                } else {
                    invalid
                },
                _ => r == invalid,
            }
        }),
{
    reveal_strlit("normal");
    reveal_strlit("bold");
    if let CssToken::Ident(s) = t {
        if eq_ignore_ascii_case_spec(s@, "bold"@) {
            assert(!eq_ignore_ascii_case_spec(s@, "normal"@));
        }
    }
}

} // verus!

