use std::sync::Arc;

use tessera::config::parse;
use tessera::font::{accept_face, font_plan, BoldFace, BOLD_FAMILY};

fn face(family: &str, weight: u16, style: fontdb::Style) -> fontdb::FaceInfo {
    fontdb::FaceInfo {
        id: fontdb::ID::dummy(),
        source: fontdb::Source::Binary(Arc::new(Vec::<u8>::new())),
        index: 0,
        families: vec![(family.to_string(), fontdb::Language::English_UnitedStates)],
        post_script_name: String::new(),
        style,
        weight: fontdb::Weight(weight),
        stretch: fontdb::Stretch::Normal,
        monospaced: true,
    }
}

#[test]
fn the_configured_family_is_found() {
    let mut db = fontdb::Database::new();
    let hack = db.push_face_info(face("Hack", 400, fontdb::Style::Normal));
    let hack_bold = db.push_face_info(face("Hack", 700, fontdb::Style::Normal));
    let thin = db.push_face_info(face("Thin", 300, fontdb::Style::Italic));
    db.push_face_info(face("Thin", 600, fontdb::Style::Normal));

    let (s, _) = parse("font-family = Hack");
    assert_eq!(s.load_font(&db), Some(hack));
    assert_eq!(s.load_bold_font(&db), Some(hack_bold));

    // The closest face will do as the regular one, but not as a bold.
    let (s, _) = parse("font-family = Thin");
    assert!(s.load_font(&db).is_some() && s.load_font(&db) != Some(thin));
    assert_eq!(s.load_bold_font(&db), None);

    // Family names have to match.
    let (s, _) = parse("font-family = hack");
    assert_eq!(s.load_font(&db), None);
    assert_eq!(
        s.font_note(false).as_deref(),
        Some("tessera: font-family 'hack' not found, using the default font")
    );
    assert_eq!(s.font_note(true), None);

    let (s, _) = parse("");
    assert_eq!((s.load_font(&db), s.load_bold_font(&db)), (None, None));
    assert_eq!(s.font_note(false), None);
}

#[test]
fn a_real_font_file() {
    let fonts = egui::FontDefinitions::default();
    let mut db = fontdb::Database::new();
    db.load_font_data(fonts.font_data["Hack"].font.to_vec());
    let (s, _) = parse("font-family = Hack");
    let id = s.load_font(&db).unwrap();
    assert_eq!(db.face(id).unwrap().weight, fontdb::Weight::NORMAL);
    assert_eq!(s.load_bold_font(&db), None);
}

#[test]
fn approximations_are_refused_where_the_weight_is_required() {
    let mut db = fontdb::Database::new();
    let id = db.push_face_info(face("A", 400, fontdb::Style::Normal));
    assert_eq!(accept_face(Some(id), Some(400), 700, false), Some(id));
    assert_eq!(accept_face(Some(id), Some(400), 700, true), None);
    assert_eq!(accept_face(Some(id), Some(700), 700, true), Some(id));
    assert_eq!(accept_face(Some(id), None, 700, true), None);
    assert_eq!(accept_face(None, None, 700, false), None);
}

#[test]
fn which_fonts_are_registered() {
    let names = |v: &[&str]| v.iter().map(|s| s.to_string()).collect::<Vec<String>>();
    let plan = |font, bold| font_plan(names(&["Hack", "Emoji"]), names(&["Ubuntu"]), font, bold);
    let p = plan(false, false);
    assert_eq!(p.monospace, names(&["Hack", "Emoji", "nerd_symbols"]));
    assert_eq!(p.proportional, names(&["Ubuntu", "nerd_symbols"]));
    assert_eq!(p.bold_face, BoldFace::Bundled);
    assert_eq!(p.bold, names(&["mono_bold", "nerd_symbols"]));
    let p = plan(true, true);
    assert_eq!(p.monospace, names(&["user_mono", "Hack", "Emoji", "nerd_symbols"]));
    assert_eq!(p.bold_face, BoldFace::User);
    let p = plan(true, false);
    assert_eq!(p.bold_face, BoldFace::Absent);
    assert!(p.bold.is_empty());
    assert_eq!(plan(false, true).bold_face, BoldFace::Bundled);
    assert_eq!(BOLD_FAMILY, "mono-bold");
}
