//! `@font-face` rules: the declarations they hold and the font face they make.

use vstd::prelude::*;
use crate::css::error::{CssError, CssErrorKind, SourceLocation};
use crate::css::input::{current_location, next_token, read_source, tokenizer_error, CssToken, SourceRead};
use crate::css::keywords::{eq_ignore_ascii_case, eq_ignore_ascii_case_spec};
use crate::css::values::{string_from_token, unexpected};

verus! {

/// Where a font comes from.
#[derive(Debug, Clone, PartialEq, Eq)]
pub enum FontFaceSource {
    /// A path to a font file.
    Path(String),
    /// A font installed on the system.
    Local(String),
}

/// One declaration of a `@font-face` rule.
#[derive(Debug, Clone)]
pub enum FontFaceProperty {
    /// `font-family`
    FamilyName(String),
    /// `src`
    Source(FontFaceSource),
    /// A declaration that could not be read.
    Error(CssError),
}

/// A font face: its family name and source, and the errors met reading it.
#[derive(Debug, Clone)]
pub struct FontFace {
    /// Family name.
    pub family_name: String,
    /// Where the font comes from.
    pub source: FontFaceSource,
    /// Errors of declarations that could not be read.
    pub errors: Vec<CssError>,
}

impl FontFaceProperty {
    /// An error declaration becomes its error; any other stays as it is.
    pub fn into_parse_result(self) -> (r: Result<FontFaceProperty, CssError>)
        ensures
            match self {
                FontFaceProperty::Error(e) => r == Err::<FontFaceProperty, CssError>(e),
                _ => r == Ok::<FontFaceProperty, CssError>(self),
            },
    {
        match self {
            FontFaceProperty::Error(err) => Err(err),
            other => Ok(other),
        }
    }
}

/// The family name the last `font-family` declaration gives, if any.
pub open spec fn last_family_name(props: Seq<FontFaceProperty>) -> Option<String>
    decreases props.len(),
{
    if props.len() == 0 {
        None
    } else {
        match props.last() {
            FontFaceProperty::FamilyName(f) => Some(f),
            _ => last_family_name(props.drop_last()),
        }
    }
}

/// The source the last `src` declaration gives, if any.
pub open spec fn last_source(props: Seq<FontFaceProperty>) -> Option<FontFaceSource>
    decreases props.len(),
{
    if props.len() == 0 {
        None
    } else {
        match props.last() {
            FontFaceProperty::Source(s) => Some(s),
            _ => last_source(props.drop_last()),
        }
    }
}

/// The errors of the declarations, in order.
pub open spec fn property_errors(props: Seq<FontFaceProperty>) -> Seq<CssError>
    decreases props.len(),
{
    if props.len() == 0 {
        Seq::empty()
    } else {
        match props.last() {
            FontFaceProperty::Error(e) => property_errors(props.drop_last()).push(e),
            _ => property_errors(props.drop_last()),
        }
    }
}

/// Builds the font face of a `@font-face` rule from its declarations: the
/// last family name and the last source win, and the errors are kept. Without
/// a family name or a source, the rule is incomplete.
pub fn font_face_from_properties(properties: Vec<FontFaceProperty>) -> (r: Result<FontFace, CssError>)
    ensures
        match (last_family_name(properties@), last_source(properties@)) {
            (Some(family), Some(source)) => r matches Ok(face) && face.family_name == family
                && face.source == source && face.errors@ == property_errors(properties@),
            _ => r == Err::<FontFace, CssError>((CssError { kind: CssErrorKind::IncompleteFontFaceRule, location: None })),
        },
{
    let ghost props = properties@;
    let mut errors: Vec<CssError> = Vec::new();
    let mut family_name: Option<String> = None;
    let mut source: Option<FontFaceSource> = None;
    let mut rest = properties;
    let mut i: usize = 0;
    let n = rest.len();
    while rest.len() > 0
        invariant
            i <= n,
            n == props.len(),
            rest@ == props.skip(i as int),
            family_name == last_family_name(props.take(i as int)),
            source == last_source(props.take(i as int)),
            errors@ == property_errors(props.take(i as int)),
        decreases rest.len(),
    {
        assert(props.take(i as int + 1).drop_last() =~= props.take(i as int));
        assert(rest@[0] == props[i as int]);
        let property = rest.remove(0);
        match property {
            FontFaceProperty::FamilyName(family) => {
                family_name = Some(family);
            },
            FontFaceProperty::Source(s) => {
                source = Some(s);
            },
            FontFaceProperty::Error(error) => {
                errors.push(error);
            },
        }
        i = i + 1;
        assert(rest@ =~= props.skip(i as int));
    }
    assert(props.take(i as int) =~= props);
    match (family_name, source) {
        (Some(family_name), Some(source)) => Ok(FontFace { family_name, source, errors }),
        _ => Err(CssError::new_unlocated(CssErrorKind::IncompleteFontFaceRule)),
    }
}

/// The font source a `src` value gives once its start is read at
/// `location`: an unquoted URL, a quoted string or `url("...")` is a path;
/// `local("...")` is a system font; an error inside `url(` becomes an
/// unexpected token, one inside `local(` stays; anything else does not fit.
pub open spec fn source_from_read(read: SourceRead, location: SourceLocation) -> Result<FontFaceSource, CssError> {
    match read {
        SourceRead::Token(CssToken::UnquotedUrl(s)) => Ok(FontFaceSource::Path(s)),
        SourceRead::Token(CssToken::QuotedString(s)) => Ok(FontFaceSource::Path(s)),
        SourceRead::Token(_) => Err(unexpected(location)),
        SourceRead::Function(name, inside) => if eq_ignore_ascii_case_spec(name@, "url"@) {
            match inside {
                Ok(s) => Ok(FontFaceSource::Path(s)),
                Err(_) => Err(unexpected(location)),
            }
        } else {
            match inside {
                Ok(s) => Ok(FontFaceSource::Local(s)),
                Err(e) => Err(e),
            }
        },
    }
}

/// The font source a `src` value gives once its start is read at `location`.
pub fn font_source_from_read(read: SourceRead, location: SourceLocation) -> (r: Result<FontFaceSource, CssError>)
    ensures
        r == source_from_read(read, location),
{
    match read {
        SourceRead::Token(CssToken::UnquotedUrl(s)) => Ok(FontFaceSource::Path(s)),
        SourceRead::Token(CssToken::QuotedString(s)) => Ok(FontFaceSource::Path(s)),
        SourceRead::Token(_) => Err(CssError::new_located(CssErrorKind::UnexpectedToken, location)),
        SourceRead::Function(name, inside) => {
            if eq_ignore_ascii_case(name.as_str(), "url") {
                match inside {
                    Ok(s) => Ok(FontFaceSource::Path(s)),
                    Err(_) => Err(CssError::new_located(CssErrorKind::UnexpectedToken, location)),
                }
            } else {
                match inside {
                    Ok(s) => Ok(FontFaceSource::Local(s)),
                    Err(e) => Err(e),
                }
            }
        },
    }
}

/// Reads the value of `src`: a path, as an unquoted URL, a quoted string or
/// `url("...")`, or a system font as `local("...")`.
fn parse_source(parser: &mut cssparser::Parser) -> (r: Result<FontFaceProperty, CssError>)
    ensures
        r matches Ok(p) ==> p is Source,
        r matches Err(e) ==> e.location is Some,
{
    let location = current_location(parser);
    let read = read_source(parser)?;
    match font_source_from_read(read, location) {
        Ok(source) => Ok(FontFaceProperty::Source(source)),
        Err(e) => Err(e),
    }
}

/// Reads one declaration of a `@font-face` rule; only `font-family` and `src` exist.
pub fn parse_font_face_property(property_name: &str, parser: &mut cssparser::Parser) -> (r: FontFaceProperty)
    ensures
        (r == FontFaceProperty::Error((CssError { kind: CssErrorKind::UnexpectedFontFaceProperty, location: None })))
            <==> (!eq_ignore_ascii_case_spec(property_name@, "font-family"@)
            && !eq_ignore_ascii_case_spec(property_name@, "src"@)),
        eq_ignore_ascii_case_spec(property_name@, "font-family"@) ==> (r is FamilyName || r is Error),
        !eq_ignore_ascii_case_spec(property_name@, "font-family"@) && eq_ignore_ascii_case_spec(property_name@, "src"@)
            ==> (r is Source || r is Error),
{
    if eq_ignore_ascii_case(property_name, "font-family") {
        let location = current_location(parser);
        match next_token(parser) {
            Ok(token) => match string_from_token(&token, location) {
                Ok(family) => FontFaceProperty::FamilyName(family),
                Err(e) => FontFaceProperty::Error(e),
            },
            Err(e) => FontFaceProperty::Error(e),
        }
    } else if eq_ignore_ascii_case(property_name, "src") {
        match parse_source(parser) {
            Ok(p) => p,
            Err(e) => FontFaceProperty::Error(e),
        }
    } else {
        FontFaceProperty::Error(CssError::new_unlocated(CssErrorKind::UnexpectedFontFaceProperty))
    }
}

/// The last `src` declaration wins: the source found is the one of a `src`
/// declaration after which no other `src` comes, and there is none exactly
/// when no declaration is a `src`.
pub proof fn lemma_last_source_wins(props: Seq<FontFaceProperty>)
    ensures
        match last_source(props) {
            Some(s) => exists|k: int| 0 <= k < props.len() && props[k] == FontFaceProperty::Source(s)
                && forall|j: int| k < j < props.len() ==> !(#[trigger] props[j] is Source),
            None => forall|j: int| 0 <= j < props.len() ==> !(#[trigger] props[j] is Source),
        },
    decreases props.len(),
{
    if props.len() > 0 {
        let rest = props.drop_last();
        lemma_last_source_wins(rest);
        match props.last() {
            FontFaceProperty::Source(s) => {
                assert(props[props.len() - 1] == FontFaceProperty::Source(s));
            },
            _ => {
                match last_source(rest) {
                    Some(s) => {
                        let k = choose|k: int| 0 <= k < rest.len() && rest[k] == FontFaceProperty::Source(s)
                            && forall|j: int| k < j < rest.len() ==> !(#[trigger] rest[j] is Source);
                        assert(props[k] == FontFaceProperty::Source(s));
                        assert forall|j: int| k < j < props.len() implies !(#[trigger] props[j] is Source) by {
                            if j < rest.len() {
                                assert(props[j] == rest[j]);
                            }
                        }
                    },
                    None => {
                        assert forall|j: int| 0 <= j < props.len() implies !(#[trigger] props[j] is Source) by {
                            if j < rest.len() {
                                assert(props[j] == rest[j]);
                            }
                        }
                    },
                }
            },
        }
    }
}

/// The last `font-family` declaration wins, as the last `src` does.
pub proof fn lemma_last_family_name_wins(props: Seq<FontFaceProperty>)
    ensures
        match last_family_name(props) {
            Some(f) => exists|k: int| 0 <= k < props.len() && props[k] == FontFaceProperty::FamilyName(f)
                && forall|j: int| k < j < props.len() ==> !(#[trigger] props[j] is FamilyName),
            None => forall|j: int| 0 <= j < props.len() ==> !(#[trigger] props[j] is FamilyName),
        },
    decreases props.len(),
{
    if props.len() > 0 {
        let rest = props.drop_last();
        lemma_last_family_name_wins(rest);
        match props.last() {
            FontFaceProperty::FamilyName(f) => {
                assert(props[props.len() - 1] == FontFaceProperty::FamilyName(f));
            },
            _ => {
                match last_family_name(rest) {
                    Some(f) => {
                        let k = choose|k: int| 0 <= k < rest.len() && rest[k] == FontFaceProperty::FamilyName(f)
                            && forall|j: int| k < j < rest.len() ==> !(#[trigger] rest[j] is FamilyName);
                        assert(props[k] == FontFaceProperty::FamilyName(f));
                        assert forall|j: int| k < j < props.len() implies !(#[trigger] props[j] is FamilyName) by {
                            if j < rest.len() {
                                assert(props[j] == rest[j]);
                            }
                        }
                    },
                    None => {
                        assert forall|j: int| 0 <= j < props.len() implies !(#[trigger] props[j] is FamilyName) by {
                            if j < rest.len() {
                                assert(props[j] == rest[j]);
                            }
                        }
                    },
                }
            },
        }
    }
}

/// The errors kept are the error declarations, each once, in order: adding
/// an error declaration adds its error last, any other declaration adds none.
pub proof fn lemma_property_errors_in_order(props: Seq<FontFaceProperty>, p: FontFaceProperty)
    ensures
        property_errors(props.push(p)) == match p {
            FontFaceProperty::Error(e) => property_errors(props).push(e),
            _ => property_errors(props),
        },
        property_errors(Seq::<FontFaceProperty>::empty()) == Seq::<CssError>::empty(),
{
    assert(props.push(p).drop_last() =~= props);
}

} // verus!

