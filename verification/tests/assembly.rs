use latex2anki::deck::{assemble_run, build_deck, build_package, image_field, media_files};

#[test]
fn image_field_embeds_file_name() {
    assert_eq!(
        image_field("q01234.jpg"),
        "<img src=\"q01234.jpg\">".to_string()
    );
}

#[test]
fn media_list_has_two_entries_per_card_in_card_order() {
    let files = media_files(2, 55);
    assert_eq!(
        files,
        vec![
            "q055.jpg".to_string(),
            "r055.jpg".to_string(),
            "q155.jpg".to_string(),
            "r155.jpg".to_string(),
        ]
    );
}

#[test]
fn media_list_of_empty_run_is_empty() {
    assert_eq!(media_files(0, 99), Vec::<String>::new());
}

#[test]
fn media_names_stay_distinct_even_with_equal_stamp() {
    let files = media_files(6, 7);
    assert_eq!(files.len(), 12);
    for a in 0..files.len() {
        for b in (a + 1)..files.len() {
            assert_ne!(files[a], files[b]);
        }
    }
}

#[test]
fn deck_builds_for_every_card() {
    let _empty = build_deck(0, 1234);
    let _three = build_deck(3, 1234);
}

#[test]
fn run_assembles_package_and_media_list() {
    let (_package, media) = assemble_run(2, 1699999999);
    assert_eq!(
        media,
        vec![
            "q01699999999.jpg".to_string(),
            "r01699999999.jpg".to_string(),
            "q11699999999.jpg".to_string(),
            "r11699999999.jpg".to_string(),
        ]
    );
}

#[test]
fn packaging_accepts_any_media_list() {
    let deck = build_deck(1, 42);
    let media = media_files(1, 42);
    let _package = build_package(deck, &media);
}
