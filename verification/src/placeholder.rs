//! Values that stand for something known only once the style sheet is
//! built, such as a font given by the family name of a `@font-face` rule.

use vstd::prelude::*;
use crate::layers::str_equal;

verus! {

/// No `@font-face` rule defines this family name.
#[derive(Debug, Clone, PartialEq, Eq)]
pub struct FontFamilyNotFound(pub String);

/// A font given by the family name of a `@font-face` rule.
#[derive(Debug, Clone, PartialEq, Eq)]
pub struct FontTypePlaceholder {
    /// The family name.
    pub font_family: String,
}

/// The font the last face named `family` among `faces` gives, if any.
pub open spec fn font_face_lookup<H>(faces: Seq<(String, H)>, family: Seq<char>) -> Option<H>
    decreases faces.len(),
{
    if faces.len() == 0 {
        None
    } else if faces.last().0@ == family {
        Some(faces.last().1)
    } else {
        font_face_lookup(faces.drop_last(), family)
    }
}

impl FontTypePlaceholder {
    /// A placeholder for the font of family `font_family`.
    pub fn new(font_family: String) -> (r: FontTypePlaceholder)
        ensures
            r.font_family == font_family,
    {
        FontTypePlaceholder { font_family }
    }

    /// The font of the face with this family name among the resolved font
    /// faces `font_faces` (the last one of that name wins), or an error naming
    /// the family when there is none.
    pub fn resolve_placeholder<H: Clone>(&self, font_faces: &Vec<(String, H)>) -> (r: Result<H, FontFamilyNotFound>)
        ensures
            match font_face_lookup(font_faces@, self.font_family@) {
                Some(h) => r matches Ok(x) && cloned(h, x),
                None => r matches Err(e) && e.0@ == self.font_family@,
            },
    {
        let mut i = font_faces.len();
        assert(font_faces@.take(i as int) =~= font_faces@);
        while i > 0
            invariant
                i <= font_faces@.len(),
                font_face_lookup(font_faces@, self.font_family@) == font_face_lookup(font_faces@.take(i as int), self.font_family@),
            decreases i,
        {
            assert(font_faces@.take(i as int).drop_last() =~= font_faces@.take(i as int - 1));
            let (name, handle) = &font_faces[i - 1];
            if str_equal(name.as_str(), self.font_family.as_str()) {
                return Ok(handle.clone());
            }
            i = i - 1;
        }
        Err(FontFamilyNotFound(self.font_family.clone()))
    }
}

} // verus!
