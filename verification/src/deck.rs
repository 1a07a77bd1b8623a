//! The deck assembler: one note per parsed card, each referencing the two
//! rendered images of that card, collected into one deck and packaged for
//! writing.
//!
//! The package format itself is an external collaborator: the genanki types
//! are opaque here, and only what their sources plainly show is assumed of
//! them. What this module proves is the shape of what goes in: which fields
//! every note carries, and which media files the package lists.

use vstd::prelude::*;
use vstd::string::*;
use crate::naming::{artifact_stem, stem_seq};
use crate::parser::push_string;
use crate::pipeline::{raster_file, raster_name};

verus! {

#[verifier::external_type_specification]
#[verifier::external_body]
pub struct ExDeck(genanki_rs::Deck);

#[verifier::external_type_specification]
#[verifier::external_body]
pub struct ExNote(genanki_rs::Note);

#[verifier::external_type_specification]
#[verifier::external_body]
pub struct ExModel(genanki_rs::Model);

#[verifier::external_type_specification]
#[verifier::external_body]
pub struct ExPackage(genanki_rs::Package);

#[verifier::external_type_specification]
#[verifier::external_body]
pub struct ExGenankiError(genanki_rs::Error);

/// What a deck holds: for each of its notes in insertion order, that note's
/// fields.
pub uninterp spec fn deck_notes(d: genanki_rs::Deck) -> Seq<Seq<Seq<char>>>;

/// The fields of a note, in order.
pub uninterp spec fn note_fields(n: genanki_rs::Note) -> Seq<Seq<char>>;

/// Whether a model is genanki's built-in two-field front/back note model.
pub uninterp spec fn is_basic_model(m: genanki_rs::Model) -> bool;

/// A deck's display name.
pub uninterp spec fn deck_name(d: genanki_rs::Deck) -> Seq<char>;

/// A deck's description.
pub uninterp spec fn deck_description(d: genanki_rs::Deck) -> Seq<char>;

/// What a package will write: for each of its decks in order, that deck's
/// notes.
pub uninterp spec fn package_deck_notes(p: genanki_rs::Package) -> Seq<Seq<Seq<Seq<char>>>>;

/// The media file paths a package carries, in order.
pub uninterp spec fn package_media(p: genanki_rs::Package) -> Seq<Seq<char>>;

/// Relies on genanki_rs::Deck::new: a fresh deck holds no notes and stores
/// the given name and description verbatim.
#[verifier::external_body]
fn new_deck(id: i64, name: &str, description: &str) -> (d: genanki_rs::Deck)
    ensures
        deck_notes(d) == Seq::<Seq<Seq<char>>>::empty(),
        deck_name(d) == name@,
        deck_description(d) == description@,
{
    genanki_rs::Deck::new(id, name, description)
}

/// Relies on genanki_rs::Deck::add_note: appends the note to the deck's
/// note list and changes nothing else of the deck.
#[verifier::external_body]
fn deck_add_note(d: &mut genanki_rs::Deck, note: genanki_rs::Note)
    ensures
        deck_notes(*final(d)) == deck_notes(*old(d)).push(note_fields(note)),
        deck_name(*final(d)) == deck_name(*old(d)),
        deck_description(*final(d)) == deck_description(*old(d)),
{
    d.add_note(note)
}

/// Relies on genanki_rs::basic_model: the built-in two-field
/// front/back note model.
#[verifier::external_body]
fn basic_note_model() -> (m: genanki_rs::Model)
    ensures
        is_basic_model(m),
{
    genanki_rs::basic_model()
}

/// Relies on genanki_rs::Note::new: with the built-in front/back model it
/// always succeeds, and the note stores exactly the given field strings, in
/// order. Only that model is admitted: its single card template requires
/// only the first of the two fields given here, so neither the error path
/// nor the field-indexing panic of genanki's required-fields computation is
/// reachable; with an arbitrary model the call could panic.
#[verifier::external_body]
fn new_front_back_note(model: genanki_rs::Model, front: &str, back: &str) -> (r: Result<
    genanki_rs::Note,
    genanki_rs::Error,
>)
    requires
        is_basic_model(model),
    ensures
        r matches Ok(n) ==> note_fields(n) == seq![front@, back@],
        r.is_ok(),
{
    genanki_rs::Note::new(model, vec![front, back])
}

/// Relies on genanki_rs::Package::new: it stores the given decks and media
/// paths verbatim, and it cannot fail, since its only error path converts
/// media paths infallibly.
#[verifier::external_body]
fn new_package(decks: Vec<genanki_rs::Deck>, media: &Vec<String>) -> (r: Result<
    genanki_rs::Package,
    genanki_rs::Error,
>)
    ensures
        r.is_ok(),
        r matches Ok(p) ==> package_media(p) == media.deep_view(),
        r matches Ok(p) ==> package_deck_notes(p) == decks@.map_values(
            |d: genanki_rs::Deck| deck_notes(d),
        ),
{
    genanki_rs::Package::new(decks, media.iter().map(|s| s.as_str()).collect())
}

/// Relies on rand::random: a machine-generated 64-bit deck identifier;
/// nothing is promised of its value.
#[verifier::external_body]
fn random_deck_id() -> i64 {
    rand::random::<i64>()
}

/// The image-tag field referencing one media file.
pub open spec fn image_field_text(file: Seq<char>) -> Seq<char> {
    "<img src=\""@ + file + "\">"@
}

/// The two fields of the note for card `i`: an image tag for the question
/// image and one for the answer image.
pub open spec fn card_note_fields(i: nat, stamp: nat) -> Seq<Seq<char>> {
    seq![
        image_field_text(raster_name(stem_seq(true, i, stamp))),
        image_field_text(raster_name(stem_seq(false, i, stamp))),
    ]
}

/// The notes of a run with `n` cards, in card order.
pub open spec fn run_notes(n: nat, stamp: nat) -> Seq<Seq<Seq<char>>> {
    Seq::new(n, |i: int| card_note_fields(i as nat, stamp))
}

/// The media files of a run with `n` cards: the question image then the
/// answer image of each card, in card order.
pub open spec fn run_media(n: nat, stamp: nat) -> Seq<Seq<char>> {
    Seq::new(2 * n, |k: int| raster_name(stem_seq(k % 2 == 0, (k / 2) as nat, stamp)))
}

/// All media files of one run carry distinct names, however many cards the
/// run has: the side letter and the card index already separate them, with
/// no help from the run stamp.
pub proof fn lemma_media_names_distinct(n: nat, stamp: nat, j: int, k: int)
    requires
        0 <= j < k < 2 * n,
    ensures
        run_media(n, stamp)[j] != run_media(n, stamp)[k],
{
    let qj = j % 2 == 0;
    let qk = k % 2 == 0;
    let ij = (j / 2) as nat;
    let ik = (k / 2) as nat;
    assert(qj != qk || ij != ik);
    crate::naming::lemma_stems_distinct(qj, ij, qk, ik, stamp);
    crate::naming::lemma_suffix_keeps_distinct(
        stem_seq(qj, ij, stamp),
        stem_seq(qk, ik, stamp),
        ".jpg"@,
    );
}

/// Builds the image-tag field for one media file.
pub fn image_field(file: &str) -> (r: String)
    ensures
        r@ == image_field_text(file@),
{
    let mut s = "<img src=\"".to_owned();
    s.append(file);
    s.append("\">");
    s
}

/// Lists the media files of a run with `n_cards` cards: exactly two per
/// card, the question image then the answer image, in card order.
pub fn media_files(n_cards: usize, stamp: u64) -> (r: Vec<String>)
    requires
        n_cards <= usize::MAX / 2,
    ensures
        r.deep_view() == run_media(n_cards as nat, stamp as nat),
{
    let ghost media = run_media(n_cards as nat, stamp as nat);
    let mut files: Vec<String> = Vec::new();
    let mut i: usize = 0;
    proof {
        assert(files.deep_view() =~= media.take(0));
    }
    while i < n_cards
        invariant
            0 <= i <= n_cards,
            n_cards <= usize::MAX / 2,
            media == run_media(n_cards as nat, stamp as nat),
            files.deep_view() == media.take(2 * i as int),
        decreases n_cards - i,
    {
        let q_stem = artifact_stem(true, i as u64, stamp);
        push_string(&mut files, raster_file(q_stem.as_str()));
        let a_stem = artifact_stem(false, i as u64, stamp);
        push_string(&mut files, raster_file(a_stem.as_str()));
        proof {
            assert(files.deep_view() =~= media.take(2 * (i + 1))) by {
                assert(media[2 * i as int] == raster_name(stem_seq(true, i as nat, stamp as nat)));
                assert(media[2 * i as int + 1] == raster_name(stem_seq(false, i as nat, stamp as nat)));
            }
        }
        i += 1;
    }
    proof {
        assert(media.take(2 * n_cards as int) =~= media);
    }
    files
}

/// Builds the deck of a run with `n_cards` cards under a random deck
/// identifier: one front/back note per card, in card order, each of whose
/// fields is an image tag referencing that card's question or answer image.
/// Building cannot fail: the built-in note model accepts every such pair of
/// fields. The deck carries the run's fixed display name and description.
pub fn build_deck(n_cards: usize, stamp: u64) -> (d: genanki_rs::Deck)
    ensures
        deck_notes(d) == run_notes(n_cards as nat, stamp as nat),
        deck_name(d) == "Generate Deck"@,
        deck_description(d) == "Generate Deck using latex2anki"@,
{
    let ghost notes = run_notes(n_cards as nat, stamp as nat);
    let id = random_deck_id();
    let mut deck = new_deck(id, "Generate Deck", "Generate Deck using latex2anki");
    let mut i: usize = 0;
    proof {
        assert(deck_notes(deck) =~= notes.take(0));
    }
    while i < n_cards
        invariant
            0 <= i <= n_cards,
            notes == run_notes(n_cards as nat, stamp as nat),
            deck_notes(deck) == notes.take(i as int),
            deck_name(deck) == "Generate Deck"@,
            deck_description(deck) == "Generate Deck using latex2anki"@,
        decreases n_cards - i,
    {
        let q_stem = artifact_stem(true, i as u64, stamp);
        let q_field = image_field(raster_file(q_stem.as_str()).as_str());
        let a_stem = artifact_stem(false, i as u64, stamp);
        let a_field = image_field(raster_file(a_stem.as_str()).as_str());
        let model = basic_note_model();
        let note = match new_front_back_note(model, q_field.as_str(), a_field.as_str()) {
            Ok(note) => note,
            Err(_) => vstd::pervasive::unreached(),
        };
        deck_add_note(&mut deck, note);
        proof {
            assert(deck_notes(deck) =~= notes.take(i + 1)) by {
                assert(notes[i as int] == card_note_fields(i as nat, stamp as nat));
            }
        }
        i += 1;
    }
    proof {
        assert(notes.take(n_cards as int) =~= notes);
    }
    deck
}

/// Wraps the deck and its media files into one package, ready to be written
/// out: the package carries exactly this deck's notes and exactly these
/// media paths. Packaging itself cannot fail.
pub fn build_package(deck: genanki_rs::Deck, media: &Vec<String>) -> (p: genanki_rs::Package)
    ensures
        package_deck_notes(p) == seq![deck_notes(deck)],
        package_media(p) == media.deep_view(),
{
    let ghost deck_contents = deck_notes(deck);
    let mut decks: Vec<genanki_rs::Deck> = Vec::new();
    decks.push(deck);
    proof {
        assert(decks@.map_values(|d: genanki_rs::Deck| deck_notes(d)) =~= seq![deck_contents]);
    }
    match new_package(decks, media) {
        Ok(p) => p,
        Err(_) => vstd::pervasive::unreached(),
    }
}

/// Assembles one run: one package holding the deck of all `n_cards` cards,
/// and the media file list that package carries, exactly two files per
/// card. Assembly cannot fail.
pub fn assemble_run(n_cards: usize, stamp: u64) -> (r: (genanki_rs::Package, Vec<String>))
    requires
        n_cards <= usize::MAX / 2,
    ensures
        r.1.deep_view() == run_media(n_cards as nat, stamp as nat),
        package_media(r.0) == run_media(n_cards as nat, stamp as nat),
        package_deck_notes(r.0) == seq![run_notes(n_cards as nat, stamp as nat)],
{
    let deck = build_deck(n_cards, stamp);
    let media = media_files(n_cards, stamp);
    let package = build_package(deck, &media);
    (package, media)
}

} // verus!
