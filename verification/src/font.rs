//! Choosing the terminal's fonts.

use vstd::prelude::*;

use crate::config::{opt_view, Settings};
use crate::labels::missing_font_note;
use crate::text::texts;

verus! {

/// A font database of the crate `fontdb`: the faces that were loaded into it.
#[verifier::external_type_specification]
#[verifier::external_body]
pub struct ExDatabase(fontdb::Database);

/// The identity of a face in a `fontdb::Database`.
#[verifier::external_type_specification]
#[verifier::external_body]
pub struct ExFaceId(fontdb::ID);

/// What `fontdb` knows of a face.
pub struct FaceView {
    pub families: Seq<Seq<char>>,
    pub weight: u16,
    /// The width class, from one to nine; five is normal.
    pub stretch: u16,
    /// Zero is upright, one italic, two oblique.
    pub slant: u8,
}

/// The faces in a database.
pub uninterp spec fn faces_of(db: fontdb::Database) -> Map<fontdb::ID, FaceView>;

/// The face that `fontdb::Database::query` finds among `faces` for a family and a
/// weight, at normal stretch and upright.
pub uninterp spec fn closest_face(
    faces: Map<fontdb::ID, FaceView>,
    family: Seq<char>,
    weight: u16,
) -> Option<fontdb::ID>;

/// Whether face `id` is one of the family.
pub open spec fn in_family(
    faces: Map<fontdb::ID, FaceView>,
    id: fontdb::ID,
    family: Seq<char>,
) -> bool {
    faces.contains_key(id) && faces[id].families.contains(family)
}

/// Whether face `id` is one of the family, of just this weight, of normal stretch
/// and upright.
pub open spec fn is_exact(
    faces: Map<fontdb::ID, FaceView>,
    id: fontdb::ID,
    family: Seq<char>,
    weight: u16,
) -> bool {
    in_family(faces, id, family) && faces[id].weight == weight && faces[id].stretch == 5
        && faces[id].slant == 0
}

/// Calls `fontdb::Database::query` for one family, a weight, normal stretch and
/// upright style. It finds a face of the family where there is any, and an exact one
/// where there is such a one.
#[verifier::external_body]
fn query(db: &fontdb::Database, family: &str, weight: u16) -> (r: Option<fontdb::ID>)
    ensures
        r == closest_face(faces_of(*db), family@, weight),
        r matches Some(id) ==> in_family(faces_of(*db), id, family@),
        r is None ==> forall|id: fontdb::ID| !#[trigger] in_family(faces_of(*db), id, family@),
        r matches Some(found) ==> forall|id: fontdb::ID| #[trigger]
            is_exact(faces_of(*db), id, family@, weight) ==> is_exact(
                faces_of(*db),
                found,
                family@,
                weight,
            ),
{
    db.query(
        &fontdb::Query {
            families: &[fontdb::Family::Name(family)],
            weight: fontdb::Weight(weight),
            stretch: fontdb::Stretch::Normal,
            style: fontdb::Style::Normal,
        },
    )
}

/// Calls `fontdb::Database::face` for the weight of a face: the one that the database
/// holds under this identity, if it does.
#[verifier::external_body]
fn face_weight(db: &fontdb::Database, id: fontdb::ID) -> (r: Option<u16>)
    ensures
        r == (if faces_of(*db).contains_key(id) {
            Some(faces_of(*db)[id].weight)
        } else {
            None
        }),
{
    db.face(id).map(|face| face.weight.0)
}

/// The face that was found, unless it only stands in for the weight that is required.
pub open spec fn accepted(
    found: Option<fontdb::ID>,
    its_weight: Option<u16>,
    weight: u16,
    require_weight: bool,
) -> Option<fontdb::ID> {
    if require_weight && its_weight != Some(weight) {
        None
    } else {
        found
    }
}

/// Accepts the face that was found, unless `require_weight` and it is a mere
/// approximation (a regular face standing in for a requested bold).
pub fn accept_face(
    found: Option<fontdb::ID>,
    its_weight: Option<u16>,
    weight: u16,
    require_weight: bool,
) -> (r: Option<fontdb::ID>)
    ensures
        r == accepted(found, its_weight, weight, require_weight),
{
    let exact = match its_weight {
        Some(w) => w == weight,
        None => false,
    };
    if require_weight && !exact {
        None
    } else {
        found
    }
}

/// The face of a family that has the weight, or the closest one unless it has to.
pub open spec fn font_choice(
    faces: Map<fontdb::ID, FaceView>,
    family: Option<Seq<char>>,
    weight: u16,
    require_weight: bool,
) -> Option<fontdb::ID> {
    match family {
        None => None,
        Some(family) => match closest_face(faces, family, weight) {
            None => None,
            Some(id) => accepted(Some(id), Some(faces[id].weight), weight, require_weight),
        },
    }
}

impl Settings {
    /// The face of the configured font, if a `font-family` is set and matches an
    /// installed font. `None` means "use the bundled default".
    pub fn load_font(&self, db: &fontdb::Database) -> (r: Option<fontdb::ID>)
        ensures
            r == font_choice(faces_of(*db), self@.font_family, 400, false),
            r is Some <==> self@.font_family is Some && exists|id: fontdb::ID| #[trigger]
                in_family(faces_of(*db), id, self@.font_family->0),
            r matches Some(id) ==> in_family(faces_of(*db), id, self@.font_family->0),
    {
        self.query_font(db, 400, false)
    }

    /// The bold face of the configured font, for cells with the bold attribute.
    /// `None` when no `font-family` is set (the bundled bold is used) or the family
    /// ships no true bold (bold is then synthesised).
    pub fn load_bold_font(&self, db: &fontdb::Database) -> (r: Option<fontdb::ID>)
        ensures
            r == font_choice(faces_of(*db), self@.font_family, 700, true),
            r matches Some(id) ==> in_family(faces_of(*db), id, self@.font_family->0)
                && faces_of(*db)[id].weight == 700,
            self@.font_family is Some && (exists|id: fontdb::ID| #[trigger]
                is_exact(faces_of(*db), id, self@.font_family->0, 700)) ==> r is Some,
    {
        self.query_font(db, 700, true)
    }

    fn query_font(&self, db: &fontdb::Database, weight: u16, require_weight: bool) -> (r: Option<
        fontdb::ID,
    >)
        ensures
            r == font_choice(faces_of(*db), self@.font_family, weight, require_weight),
            r matches Some(id) ==> in_family(faces_of(*db), id, self@.font_family->0) && (
            require_weight ==> faces_of(*db)[id].weight == weight),
            !require_weight && self@.font_family is Some && (exists|id: fontdb::ID| #[trigger]
                in_family(faces_of(*db), id, self@.font_family->0)) ==> r is Some,
            self@.font_family is Some && (exists|id: fontdb::ID| #[trigger]
                is_exact(faces_of(*db), id, self@.font_family->0, weight)) ==> r is Some,
    {
        let family = match &self.font_family {
            Some(family) => family,
            None => {
                return None;
            },
        };
        match query(db, family.as_str(), weight) {
            Some(id) => {
                proof {
                    let faces = faces_of(*db);
                    if exists|e: fontdb::ID| #[trigger] is_exact(faces, e, family@, weight) {
                        assert(is_exact(faces, id, family@, weight));
                    }
                }
                accept_face(Some(id), face_weight(db, id), weight, require_weight)
            },
            None => {
                proof {
                    let faces = faces_of(*db);
                    if exists|e: fontdb::ID| #[trigger] is_exact(faces, e, family@, weight) {
                        let e = choose|e: fontdb::ID| #[trigger]
                            is_exact(faces, e, family@, weight);
                        assert(in_family(faces, e, family@));
                    }
                }
                None
            },
        }
    }

    /// The note for a configured font that was not found.
    pub fn font_note(&self, found: bool) -> (r: Option<String>)
        ensures
            opt_view(r) == (if self@.font_family is Some && !found {
                Some(
                    "tessera: font-family '"@ + self@.font_family->0
                        + "' not found, using the default font"@,
                )
            } else {
                None
            }),
    {
        match &self.font_family {
            Some(family) => if found {
                None
            } else {
                Some(missing_font_note(family.as_str()))
            },
            None => None,
        }
    }
}

/// The name of the font family that holds the bold terminal face. Only registered
/// when a true bold face exists.
pub const BOLD_FAMILY: &'static str = "mono-bold";

/// Where the bold terminal face comes from.
#[derive(Clone, Copy, Debug, PartialEq, Eq, Structural)]
pub enum BoldFace {
    /// The configured font's own bold.
    User,
    /// The bundled bold, which matches the bundled default font.
    Bundled,
    /// There is none, and the terminal synthesises bold: mixing another typeface's
    /// bold in would look worse.
    Absent,
}

/// Where the bold terminal face comes from.
pub open spec fn bold_face_of(user_font: bool, user_bold: bool) -> BoldFace {
    if !user_font {
        BoldFace::Bundled
    } else if user_bold {
        BoldFace::User
    } else {
        BoldFace::Absent
    }
}

/// The fonts to register, by family: the names of the faces in the order in which
/// they are tried.
#[derive(Debug)]
pub struct FontPlan {
    pub monospace: Vec<String>,
    pub proportional: Vec<String>,
    pub bold_face: BoldFace,
    /// The faces of the bold family, where it is registered.
    pub bold: Vec<String>,
}

/// The faces of the monospace family: the configured font is tried first, the
/// symbols last.
pub open spec fn monospace_of(default: Seq<Seq<char>>, user_font: bool) -> Seq<Seq<char>> {
    (if user_font {
        seq!["user_mono"@] + default
    } else {
        default
    }).push("nerd_symbols"@)
}

/// The faces of the bold family.
pub open spec fn bold_of(face: BoldFace) -> Seq<Seq<char>> {
    if face is Absent {
        Seq::empty()
    } else {
        seq!["mono_bold"@, "nerd_symbols"@]
    }
}

/// Decides which fonts to register: the user's font (if any) as the primary monospace
/// face, a symbols fallback behind both default families so that prompt icons still
/// render, and a bold family where there is a true bold face. `monospace` and
/// `proportional` are the families by default.
pub fn font_plan(
    monospace: Vec<String>,
    proportional: Vec<String>,
    user_font: bool,
    user_bold: bool,
) -> (r: FontPlan)
    ensures
        texts(r.monospace@) == monospace_of(texts(monospace@), user_font),
        texts(r.proportional@) == texts(proportional@).push("nerd_symbols"@),
        r.bold_face == bold_face_of(user_font, user_bold),
        texts(r.bold@) == bold_of(r.bold_face),
{
    let ghost default_mono = texts(monospace@);
    let mut mono = monospace;
    if user_font {
        mono.insert(0, "user_mono".to_owned());
        assert(texts(mono@) =~= seq!["user_mono"@] + default_mono);
    }
    let ghost before = texts(mono@);
    mono.push("nerd_symbols".to_owned());
    assert(texts(mono@) =~= before.push("nerd_symbols"@));
    let ghost default_prop = texts(proportional@);
    let mut prop = proportional;
    prop.push("nerd_symbols".to_owned());
    assert(texts(prop@) =~= default_prop.push("nerd_symbols"@));
    let bold_face = if !user_font {
        BoldFace::Bundled
    } else if user_bold {
        BoldFace::User
    } else {
        BoldFace::Absent
    };
    let mut bold: Vec<String> = Vec::new();
    match bold_face {
        BoldFace::Absent => {},
        _ => {
            bold.push("mono_bold".to_owned());
            bold.push("nerd_symbols".to_owned());
        },
    }
    assert(texts(bold@) =~= bold_of(bold_face));
    FontPlan { monospace: mono, proportional: prop, bold_face, bold }
}

/// The symbols are the last resort of every family, and the configured font is the
/// first face of the monospace family.
pub proof fn law_font_order(default: Seq<Seq<char>>, user_font: bool)
    ensures
        monospace_of(default, user_font).last() == "nerd_symbols"@,
        user_font ==> monospace_of(default, user_font)[0] == "user_mono"@,
        forall|face: BoldFace| !(face is Absent) ==> #[trigger] bold_of(face).last()
            == "nerd_symbols"@,
{
}

/// A face that was found is taken, unless the weight is required and it has another.
pub proof fn law_accepted(found: Option<fontdb::ID>, w: Option<u16>, weight: u16)
    ensures
        accepted(found, w, weight, false) == found,
        accepted(found, Some(weight), weight, true) == found,
        w != Some(weight) ==> accepted(found, w, weight, true) is None,
{
}

/// Where the bold face comes from: the bundled one goes with the bundled font alone.
pub proof fn law_bold_face(user_font: bool, user_bold: bool)
    ensures
        bold_face_of(false, user_bold) == BoldFace::Bundled,
        bold_face_of(true, true) == BoldFace::User,
        bold_face_of(true, false) == BoldFace::Absent,
{
}

/// The default faces stay, in their order, between the configured font and the symbols.
pub proof fn law_default_faces_stay(default: Seq<Seq<char>>)
    ensures
        monospace_of(default, false).drop_last() == default,
        monospace_of(default, true).drop_last().skip(1) == default,
        bold_of(BoldFace::User) == seq!["mono_bold"@, "nerd_symbols"@],
        bold_of(BoldFace::Bundled) == seq!["mono_bold"@, "nerd_symbols"@],
        bold_of(BoldFace::Absent).len() == 0,
{
    assert(monospace_of(default, false).drop_last() =~= default);
    assert(monospace_of(default, true).drop_last().skip(1) =~= default);
}

/// Without a configured family there is no face of the user's, nor where none is found. The
/// closest face is the one, unless the weight is required and it has another.
pub proof fn law_font_choice(
    faces: Map<fontdb::ID, FaceView>,
    family: Seq<char>,
    weight: u16,
    require_weight: bool,
)
    ensures
        font_choice(faces, None, weight, require_weight) is None,
        closest_face(faces, family, weight) is None ==> font_choice(
            faces,
            Some(family),
            weight,
            require_weight,
        ) is None,
        font_choice(faces, Some(family), weight, false) == closest_face(faces, family, weight),
        closest_face(faces, family, weight) matches Some(id) ==> font_choice(
            faces,
            Some(family),
            weight,
            true,
        ) == (if faces[id].weight == weight {
            Some(id)
        } else {
            None
        }),
{
}

} // verus!
