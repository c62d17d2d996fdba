//! The service's requests and the shaping of its answers.
use vstd::prelude::*;

use crate::champions::{generate_champion_image_url, image_urls_of, ChampionNamesModel};
use crate::notes::NotesError;
use crate::patch::{PatchCard, PatchCardModel};

verus! {

/// A request for the notes about a champion, in a language of the site.
#[derive(Debug, Clone, PartialEq, Eq)]
pub struct PatchNotesInput {
    pub champion_name: String,
    pub language: String,
}

/// A request for one champion, by name.
#[derive(Debug, Clone, PartialEq, Eq)]
pub struct NameInput {
    pub name: String,
}

/// `card` with its portrait URLs replaced by `image`.
pub open spec fn with_image(card: PatchCardModel, image: ChampionNamesModel) -> PatchCardModel {
    PatchCardModel { champion_image: image, ..card }
}

/// Shapes the answer to a request for the notes about `champion_name`: when
/// cards were found, the first one gets the portrait URLs built from the
/// name as requested, and all are answered; when none was found, the answer
/// is `Internal`.
pub fn champion_notes_response(notes: Vec<PatchCard>, champion_name: &str) -> (r: Result<Vec<PatchCard>, NotesError>)
    ensures
        notes@.len() > 0 ==> (r matches Ok(v) && v.deep_view() == notes.deep_view().update(
            0,
            with_image(notes.deep_view()[0], image_urls_of(champion_name@)),
        )),
        notes@.len() == 0 ==> r == Err::<Vec<PatchCard>, NotesError>(NotesError::Internal),
        r matches Ok(v) ==> {
            &&& v@.len() == notes@.len()
            &&& forall|k: int| 1 <= k < v@.len() ==> #[trigger] v.deep_view()[k] == notes.deep_view()[k]
            &&& v@[0].champion_image@ == image_urls_of(champion_name@)
            &&& v@[0].champion_name@ == notes@[0].champion_name@
            &&& v@[0].summary@ == notes@[0].summary@
            &&& v@[0].context@ == notes@[0].context@
            &&& v@[0].abilities.deep_view() == notes@[0].abilities.deep_view()
            &&& v@[0].patch_version@ == notes@[0].patch_version@
        },
{
    let ghost all = notes.deep_view();
    let mut notes = notes;
    if notes.len() > 0 {
        let mut first = notes.remove(0);
        first.champion_image = generate_champion_image_url(champion_name);
        notes.insert(0, first);
        assert(notes.deep_view() =~= all.update(0, with_image(all[0], image_urls_of(champion_name@))));
        proof {
            lemma_with_image_changes_only_the_image(all[0], image_urls_of(champion_name@));
            assert(notes.deep_view()[0] == notes@[0]@);
        }
        Ok(notes)
    } else {
        Err(NotesError::Internal)
    }
}

/// Setting the portrait URLs of a card changes nothing else: the champion's
/// name, the summary, the context, the abilities and the version stay as
/// they were.
pub proof fn lemma_with_image_changes_only_the_image(card: PatchCardModel, image: ChampionNamesModel)
    ensures
        with_image(card, image).champion_image == image,
        with_image(card, image).champion_name == card.champion_name,
        with_image(card, image).summary == card.summary,
        with_image(card, image).context == card.context,
        with_image(card, image).abilities == card.abilities,
        with_image(card, image).patch_version == card.patch_version,
{
}

} // verus!
