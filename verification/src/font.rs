//! Choosing the dashboard's and the clock's font: the first of the candidate font
//! files that was read and that rusttype can parse.
use rusttype::Font;
use vstd::prelude::*;

verus! {

#[verifier::external_type_specification]
#[verifier::external_body]
pub struct ExFont<'a>(Font<'a>);

/// Whether rusttype parses `data` as a font (the first face of a TrueType or OpenType
/// file or collection).
pub uninterp spec fn font_parses(data: Seq<u8>) -> bool;

/// A font together with the bytes it was parsed from.
pub struct ParsedFont {
    pub font: Font<'static>,
    source: Ghost<Seq<u8>>,
}

impl ParsedFont {
    /// The bytes the font was parsed from.
    pub closed spec fn source(&self) -> Seq<u8> {
        self.source@
    }
}

/// `rusttype::Font::try_from_vec`: the font that `data` holds, `Some` exactly when it
/// parses (named `font_parses`), and then parsed from `data`.
#[verifier::external_body]
fn parse_font(data: &[u8]) -> (r: Option<ParsedFont>)
    ensures
        r is Some <==> font_parses(data@),
        r matches Some(p) ==> p.source() == data@,
{
    match Font::try_from_vec(data.to_vec()) {
        Some(font) => Some(ParsedFont { font, source: Ghost(data@) }),
        None => None,
    }
}

/// Whether candidate `i` was read and parses as a font.
pub open spec fn usable_font(files: Seq<Option<Vec<u8>>>, i: int) -> bool {
    files[i] matches Some(data) && font_parses(data@)
}

/// The first candidate that was read (`Some` holds its bytes) and parses as a font,
/// with its position, parsed from that candidate's bytes; `None` when no candidate does.
pub fn first_font(files: &Vec<Option<Vec<u8>>>) -> (r: Option<(usize, ParsedFont)>)
    ensures
        r is None <==> forall|i: int| 0 <= i < files@.len() ==> !usable_font(files@, i),
        r matches Some((i, f)) ==> {
            &&& i < files@.len()
            &&& usable_font(files@, i as int)
            &&& forall|j: int| 0 <= j < i ==> !usable_font(files@, j)
            &&& files@[i as int] matches Some(d) && f.source() == d@
        },
{
    let mut i: usize = 0;
    while i < files.len()
        invariant
            i <= files@.len(),
            forall|j: int| 0 <= j < i ==> !usable_font(files@, j),
        decreases files@.len() - i,
    {
        if let Some(data) = &files[i] {
            if let Some(font) = parse_font(data.as_slice()) {
                assert(usable_font(files@, i as int));
                return Some((i, font));
            }
        }
        i = i + 1;
    }
    None
}

} // verus!
