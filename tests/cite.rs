use vittusave::cite::{format_id, HtmlIdTy};

fn check_samples() {
    // 1    - Template-generated Proton path from website (8/29/25)
    // 2-3  - Undertale Linux notes (8/29/25)
    // 4    - My Summer Car Unity note (8/29/25)
    let (sample_ref_1, sample_note_1) = (
        "cite_ref-Proton_path_note_4-0",
        "cite_note-Proton_path_note-4",
    );
    let (sample_ref_2, sample_note_2) = ("cite_ref-Steam_old_3-0", "cite_note-Steam_old-3");
    let (sample_ref_3, sample_note_3) = ("cite_ref-Steam_2-0", "cite_note-Steam-2");
    let (sample_ref_4, sample_note_4) = ("cite_ref-2", "cite_note-2");
    let correct1 = "Proton_path_note";
    let correct2 = "Steam_old";
    let correct3 = "Steam";
    let correct4 = "";

    assert_eq!(format_id(sample_ref_1, HtmlIdTy::CiteRef), Some(correct1));
    assert_eq!(format_id(sample_ref_2, HtmlIdTy::CiteRef), Some(correct2));
    assert_eq!(format_id(sample_ref_3, HtmlIdTy::CiteRef), Some(correct3));
    assert_eq!(format_id(sample_ref_4, HtmlIdTy::CiteRef), Some(correct4));
    assert_eq!(format_id(sample_note_1, HtmlIdTy::CiteNote), Some(correct1));
    assert_eq!(format_id(sample_note_2, HtmlIdTy::CiteNote), Some(correct2));
    assert_eq!(format_id(sample_note_3, HtmlIdTy::CiteNote), Some(correct3));
    assert_eq!(format_id(sample_note_4, HtmlIdTy::CiteNote), Some(correct4));
}

#[test]
fn game_data_test_format_id() {
    check_samples();
}

#[test]
fn utils_test_format_id() {
    check_samples();
}

#[test]
fn format_id_without_prefix_or_separator_is_none() {
    assert_eq!(format_id("reference-3", HtmlIdTy::CiteNote), None);
    assert_eq!(format_id("cite_note-Steam", HtmlIdTy::CiteRef), None);
    assert_eq!(format_id("cite_refname", HtmlIdTy::CiteRef), None);
}

#[test]
fn format_id_with_separator_before_name_is_none() {
    assert_eq!(format_id("x_cite_ref-abc", HtmlIdTy::CiteRef), None);
}

#[test]
fn format_id_reads_name_after_leading_text() {
    assert_eq!(format_id("mw-cite_note-Linux_saves-7", HtmlIdTy::CiteNote), Some("Linux_saves"));
}
