//! Patch cards: what a patch-notes page says about one champion.
//!
//! A page lists one change block per champion. The block of the wanted
//! champion gives its summary, the context of the changes, and the changes
//! themselves, grouped under the ability they concern.
use vstd::prelude::*;
use vstd::string::*;

use crate::champions::{generate_champion_image_url, image_urls_of, ChampionNames, ChampionNamesModel, IMAGE_URL_PREFIX};
use crate::html::{element_records, select_records, selector_parses, ElementRecord};
use crate::text::{alphanumerics, clean_champion_name, clean_text, cleaned, name_key, trim, trim_str};

verus! {

/// The changes made to one ability (or to the base stats) of a champion.
#[derive(Debug, Clone, PartialEq, Eq)]
pub struct AbilityChange {
    pub name: String,
    pub changes: Vec<String>,
}

/// The abstract value of an [`AbilityChange`].
pub struct AbilityModel {
    pub name: Seq<char>,
    pub changes: Seq<Seq<char>>,
}

impl DeepView for AbilityChange {
    type V = AbilityModel;

    open spec fn deep_view(&self) -> AbilityModel {
        AbilityModel { name: self.name@, changes: self.changes.deep_view() }
    }
}

/// What one patch says about one champion.
#[derive(Debug, Clone, PartialEq, Eq)]
pub struct PatchCard {
    pub champion_name: String,
    pub champion_image: ChampionNames,
    pub summary: String,
    pub context: String,
    pub abilities: Vec<AbilityChange>,
    pub patch_version: String,
}

/// The abstract value of a [`PatchCard`].
pub struct PatchCardModel {
    pub champion_name: Seq<char>,
    pub champion_image: ChampionNamesModel,
    pub summary: Seq<char>,
    pub context: Seq<char>,
    pub abilities: Seq<AbilityModel>,
    pub patch_version: Seq<char>,
}

impl View for PatchCard {
    type V = PatchCardModel;

    open spec fn view(&self) -> PatchCardModel {
        PatchCardModel {
            champion_name: self.champion_name@,
            champion_image: self.champion_image@,
            summary: self.summary@,
            context: self.context@,
            abilities: self.abilities.deep_view(),
            patch_version: self.patch_version@,
        }
    }
}

impl DeepView for PatchCard {
    type V = PatchCardModel;

    open spec fn deep_view(&self) -> PatchCardModel {
        self@
    }
}

/// The card of no champion: every text empty, no abilities.
pub open spec fn empty_card() -> PatchCardModel {
    PatchCardModel {
        champion_name: Seq::empty(),
        champion_image: ChampionNamesModel { lower: Seq::empty(), upper: Seq::empty() },
        summary: Seq::empty(),
        context: Seq::empty(),
        abilities: Seq::empty(),
        patch_version: Seq::empty(),
    }
}

impl Default for PatchCard {
    fn default() -> (r: Self)
        ensures
            r@ == empty_card(),
    {
        let card = PatchCard {
            champion_name: String::new(),
            champion_image: ChampionNames::default(),
            summary: String::new(),
            context: String::new(),
            abilities: Vec::new(),
            patch_version: String::new(),
        };
        assert(card.abilities.deep_view() =~= Seq::<AbilityModel>::empty());
        card
    }
}

/// A selected element as plain data: tag name, text, texts of its items.
pub type Record = (Seq<char>, Seq<char>, Seq<Seq<char>>);

// ---------------------------------------------------------------------------
// Grouping the changes under abilities
// ---------------------------------------------------------------------------

/// Groups the change details of a block. Going through the headings
/// (`h4`) and lists (`ul`) in page order: a heading closes the group being
/// filled, if it holds changes, and names the next one; the items of a list
/// join the group being filled. `current` names the group being filled and
/// `pending` holds its changes so far.
pub open spec fn group_abilities(details: Seq<Record>, current: Seq<char>, pending: Seq<Seq<char>>) -> Seq<AbilityModel>
    decreases details.len(),
{
    if details.len() == 0 {
        if pending.len() > 0 {
            seq![AbilityModel { name: current, changes: pending }]
        } else {
            Seq::empty()
        }
    } else {
        let d = details[0];
        let rest = details.drop_first();
        if d.0 == "h4"@ {
            let closed = if pending.len() > 0 {
                seq![AbilityModel { name: current, changes: pending }]
            } else {
                Seq::empty()
            };
            closed + group_abilities(rest, trim(d.1), Seq::empty())
        } else if d.0 == "ul"@ {
            group_abilities(rest, current, pending + trimmed_items(d.2))
        } else {
            group_abilities(rest, current, pending)
        }
    }
}

/// Every text of `items`, trimmed.
pub open spec fn trimmed_items(items: Seq<Seq<char>>) -> Seq<Seq<char>> {
    items.map_values(|t: Seq<char>| trim(t))
}

/// The trimmed items of all lists among `details`, in page order.
pub open spec fn list_items(details: Seq<Record>) -> Seq<Seq<char>>
    decreases details.len(),
{
    if details.len() == 0 {
        Seq::empty()
    } else if details[0].0 != "h4"@ && details[0].0 == "ul"@ {
        trimmed_items(details[0].2) + list_items(details.drop_first())
    } else {
        list_items(details.drop_first())
    }
}

/// All changes of `groups`, group after group.
pub open spec fn all_changes(groups: Seq<AbilityModel>) -> Seq<Seq<char>>
    decreases groups.len(),
{
    if groups.len() == 0 {
        Seq::empty()
    } else {
        groups[0].changes + all_changes(groups.drop_first())
    }
}

/// Trims every text of `items`.
fn trim_all(items: &Vec<String>) -> (r: Vec<String>)
    ensures
        r.deep_view() == trimmed_items(items.deep_view()),
{
    let mut out: Vec<String> = Vec::new();
    let mut i: usize = 0;
    while i < items.len()
        invariant
            i <= items.len(),
            out.deep_view() == trimmed_items(items.deep_view().take(i as int)),
        decreases items.len() - i,
    {
        let ghost prev = out.deep_view();
        let t = trim_str(items[i].as_str());
        out.push(t);
        assert(out.deep_view() =~= prev.push(t@));
        assert(items.deep_view().take(i + 1) =~= items.deep_view().take(i as int).push(items[i as int]@));
        assert(trimmed_items(items.deep_view().take(i + 1)) =~= trimmed_items(items.deep_view().take(i as int)).push(trim(items[i as int]@)));
        i = i + 1;
    }
    assert(items.deep_view().take(items.len() as int) =~= items.deep_view());
    out
}

/// Appends `more` to `v`.
fn append_all(v: &mut Vec<String>, more: Vec<String>)
    ensures
        final(v).deep_view() == old(v).deep_view() + more.deep_view(),
{
    let ghost start = v.deep_view();
    let mut i: usize = 0;
    while i < more.len()
        invariant
            i <= more.len(),
            v.deep_view() == start + more.deep_view().take(i as int),
        decreases more.len() - i,
    {
        let ghost prev = v.deep_view();
        let item = more[i].clone();
        v.push(item);
        assert(v.deep_view() =~= prev.push(item@));
        assert(more.deep_view().take(i + 1) =~= more.deep_view().take(i as int).push(more[i as int]@));
        assert(v.deep_view() =~= start + more.deep_view().take(i + 1));
        i = i + 1;
    }
    assert(more.deep_view().take(more.len() as int) =~= more.deep_view());
}

/// Groups the change details of a block under their abilities, starting
/// with a group named `base_stats` for the changes listed before the first
/// heading.
pub fn group_ability_changes(details: &Vec<ElementRecord>, base_stats: &str) -> (r: Vec<AbilityChange>)
    ensures
        r.deep_view() == group_abilities(details.deep_view(), base_stats@, Seq::empty()),
{
    let ghost all = details.deep_view();
    let h4 = String::from_str("h4");
    let ul = String::from_str("ul");
    let mut collected: Vec<AbilityChange> = Vec::new();
    let mut current_ability = String::from_str(base_stats);
    let mut temp_changes: Vec<String> = Vec::new();
    let mut i: usize = 0;
    assert(all.skip(0) =~= all);
    assert(temp_changes.deep_view() =~= Seq::<Seq<char>>::empty());
    assert(collected.deep_view() =~= Seq::<AbilityModel>::empty());
    assert(collected.deep_view() + group_abilities(all, base_stats@, Seq::empty())
        =~= group_abilities(all, base_stats@, Seq::empty()));
    while i < details.len()
        invariant
            all == details.deep_view(),
            h4@ == "h4"@,
            ul@ == "ul"@,
            i <= details.len(),
            collected.deep_view() + group_abilities(all.skip(i as int), current_ability@, temp_changes.deep_view())
                == group_abilities(all, base_stats@, Seq::empty()),
        decreases details.len() - i,
    {
        let ghost rest = all.skip(i as int);
        let ghost before = collected.deep_view();
        assert(rest[0] == details[i as int].deep_view());
        assert(rest.drop_first() =~= all.skip(i + 1));
        let element = &details[i];
        if element.name == h4 {
            if temp_changes.len() > 0 {
                let group = AbilityChange { name: current_ability, changes: temp_changes };
                collected.push(group);
                assert(collected.deep_view() =~= before + seq![group.deep_view()]);
            }
            temp_changes = Vec::new();
            current_ability = trim_str(element.text.as_str());
            assert(temp_changes.deep_view() =~= Seq::<Seq<char>>::empty());
        } else if element.name == ul {
            let changes = trim_all(&element.items);
            append_all(&mut temp_changes, changes);
        }
        assert(collected.deep_view() + group_abilities(all.skip(i + 1), current_ability@, temp_changes.deep_view())
            =~= group_abilities(all, base_stats@, Seq::empty()));
        i = i + 1;
    }
    assert(all.skip(details.len() as int) =~= Seq::<Record>::empty());
    if temp_changes.len() > 0 {
        let ghost before = collected.deep_view();
        let group = AbilityChange { name: current_ability, changes: temp_changes };
        collected.push(group);
        assert(collected.deep_view() =~= before + seq![group.deep_view()]);
    } else {
        assert(collected.deep_view() + Seq::<AbilityModel>::empty() =~= collected.deep_view());
    }
    collected
}

/// No group of changes is empty: a heading with no list after it yields no
/// group.
pub proof fn lemma_groups_have_changes(details: Seq<Record>, current: Seq<char>, pending: Seq<Seq<char>>)
    ensures
        forall|k: int|
            0 <= k < group_abilities(details, current, pending).len()
                ==> #[trigger] group_abilities(details, current, pending)[k].changes.len() > 0,
    decreases details.len(),
{
    if details.len() > 0 {
        let d = details[0];
        let rest = details.drop_first();
        if d.0 == "h4"@ {
            lemma_groups_have_changes(rest, trim(d.1), Seq::empty());
            let closed = if pending.len() > 0 {
                seq![AbilityModel { name: current, changes: pending }]
            } else {
                Seq::empty()
            };
            let tail = group_abilities(rest, trim(d.1), Seq::empty());
            let all = group_abilities(details, current, pending);
            assert(all == closed + tail);
            assert forall|k: int| 0 <= k < all.len() implies #[trigger] all[k].changes.len() > 0 by {
                if k >= closed.len() {
                    assert(all[k] == tail[k - closed.len()]);
                }
            }
        } else if d.0 == "ul"@ {
            lemma_groups_have_changes(rest, current, pending + trimmed_items(d.2));
            assert(group_abilities(details, current, pending) == group_abilities(rest, current, pending + trimmed_items(d.2)));
        } else {
            lemma_groups_have_changes(rest, current, pending);
            assert(group_abilities(details, current, pending) == group_abilities(rest, current, pending));
        }
    } else if pending.len() > 0 {
        let all = group_abilities(details, current, pending);
        assert(all == seq![AbilityModel { name: current, changes: pending }]);
        assert(all[0].changes == pending);
    }
}

/// Whether group `k` of `groups` is named by a heading of `details` (the
/// heading's text, trimmed), or is the first group and named `current`.
pub open spec fn named_by_heading(groups: Seq<AbilityModel>, details: Seq<Record>, current: Seq<char>, k: int) -> bool {
    ||| (k == 0 && groups[k].name == current)
    ||| exists|i: int| 0 <= i < details.len() && (#[trigger] details[i]).0 == "h4"@ && groups[k].name == trim(details[i].1)
}

/// Every group is named by a heading of the details (its text, trimmed),
/// except possibly the first, which may be the group named `current` (the
/// base stats) holding the changes listed before any heading.
pub proof fn lemma_groups_named_by_headings(details: Seq<Record>, current: Seq<char>, pending: Seq<Seq<char>>)
    ensures
        forall|k: int| 0 <= k < group_abilities(details, current, pending).len()
            ==> #[trigger] named_by_heading(group_abilities(details, current, pending), details, current, k),
    decreases details.len(),
{
    let g = group_abilities(details, current, pending);
    if details.len() == 0 {
        if pending.len() > 0 {
            assert(g == seq![AbilityModel { name: current, changes: pending }]);
            assert(named_by_heading(g, details, current, 0));
        } else {
            assert(g.len() == 0);
        }
    } else {
        let d = details[0];
        let rest = details.drop_first();
        if d.0 == "h4"@ {
            lemma_groups_named_by_headings(rest, trim(d.1), Seq::empty());
            let closed = if pending.len() > 0 {
                seq![AbilityModel { name: current, changes: pending }]
            } else {
                Seq::empty()
            };
            let tail = group_abilities(rest, trim(d.1), Seq::empty());
            assert(g == closed + tail);
            assert forall|k: int| 0 <= k < g.len() implies #[trigger] named_by_heading(g, details, current, k) by {
                if k < closed.len() {
                    assert(g[k].name == current);
                } else {
                    let k2 = k - closed.len();
                    assert(g[k] == tail[k2]);
                    assert(named_by_heading(tail, rest, trim(d.1), k2));
                    if k2 == 0 && tail[k2].name == trim(d.1) {
                        assert(details[0].0 == "h4"@);
                    } else {
                        let i = choose|i: int| 0 <= i < rest.len() && (#[trigger] rest[i]).0 == "h4"@ && tail[k2].name == trim(rest[i].1);
                        assert(details[i + 1] == rest[i]);
                    }
                }
            }
        } else {
            let p2 = if d.0 == "ul"@ { pending + trimmed_items(d.2) } else { pending };
            lemma_groups_named_by_headings(rest, current, p2);
            assert(g == group_abilities(rest, current, p2));
            assert forall|k: int| 0 <= k < g.len() implies #[trigger] named_by_heading(g, details, current, k) by {
                assert(named_by_heading(g, rest, current, k));
                if !(k == 0 && g[k].name == current) {
                    let i = choose|i: int| 0 <= i < rest.len() && (#[trigger] rest[i]).0 == "h4"@ && g[k].name == trim(rest[i].1);
                    assert(details[i + 1] == rest[i]);
                }
            }
        }
    }
}

proof fn lemma_all_changes_append(a: Seq<AbilityModel>, b: Seq<AbilityModel>)
    ensures
        all_changes(a + b) == all_changes(a) + all_changes(b),
    decreases a.len(),
{
    if a.len() == 0 {
        assert(a + b =~= b);
    } else {
        lemma_all_changes_append(a.drop_first(), b);
        assert((a + b).drop_first() =~= a.drop_first() + b);
        assert(all_changes(a) + all_changes(b) =~= a[0].changes + (all_changes(a.drop_first()) + all_changes(b)));
    }
}

/// Grouping loses and reorders nothing: the changes of all groups, in
/// order, are the pending changes followed by the trimmed items of every
/// list, in page order.
pub proof fn lemma_grouping_keeps_every_item(details: Seq<Record>, current: Seq<char>, pending: Seq<Seq<char>>)
    ensures
        all_changes(group_abilities(details, current, pending)) == pending + list_items(details),
    decreases details.len(),
{
    reveal_with_fuel(all_changes, 2);
    if details.len() == 0 {
        assert(pending + Seq::<Seq<char>>::empty() =~= pending);
        if pending.len() > 0 {
            assert(seq![AbilityModel { name: current, changes: pending }].drop_first() =~= Seq::<AbilityModel>::empty());
            assert(pending + Seq::<Seq<char>>::empty() =~= pending);
        }
    } else {
        let d = details[0];
        let rest = details.drop_first();
        if d.0 == "h4"@ {
            lemma_grouping_keeps_every_item(rest, trim(d.1), Seq::empty());
            let closed = if pending.len() > 0 {
                seq![AbilityModel { name: current, changes: pending }]
            } else {
                Seq::empty()
            };
            lemma_all_changes_append(closed, group_abilities(rest, trim(d.1), Seq::empty()));
            if pending.len() > 0 {
                assert(closed.drop_first() =~= Seq::<AbilityModel>::empty());
                assert(all_changes(closed) =~= pending);
            } else {
                assert(all_changes(closed) =~= Seq::<Seq<char>>::empty());
            }
            assert(Seq::<Seq<char>>::empty() + list_items(rest) =~= list_items(rest));
        } else if d.0 == "ul"@ {
            lemma_grouping_keeps_every_item(rest, current, pending + trimmed_items(d.2));
            assert(pending + trimmed_items(d.2) + list_items(rest) =~= pending + (trimmed_items(d.2) + list_items(rest)));
        } else {
            lemma_grouping_keeps_every_item(rest, current, pending);
        }
    }
}

// ---------------------------------------------------------------------------
// Reading the block of a champion
// ---------------------------------------------------------------------------

/// The selector of the change blocks on a patch-notes page.
pub const CHANGE_BLOCK_SELECTOR: &'static str = "div.patch-change-block";
/// Inside a block: the champion's name.
pub const CHAMPION_NAME_SELECTOR: &'static str = "h3.change-title a";
/// Inside a block: the summary.
pub const SUMMARY_SELECTOR: &'static str = "p.summary";
/// Inside a block: the context of the changes.
pub const CONTEXT_SELECTOR: &'static str = "blockquote.blockquote.context";
/// Inside a block: ability headings and change lists, in page order.
pub const DETAIL_SELECTOR: &'static str = "h4.change-detail-title, ul";
/// Inside a change list: one change.
pub const CHANGE_ITEM_SELECTOR: &'static str = "li";

/// The selectors of the parts of a block, in the order in which the records
/// of a block list them: name, summary, context, details.
pub open spec fn block_part_selectors() -> Seq<Seq<char>> {
    seq![CHAMPION_NAME_SELECTOR@, SUMMARY_SELECTOR@, CONTEXT_SELECTOR@, DETAIL_SELECTOR@]
}

/// The records of part `j` of a block (none if the block has no such part).
pub open spec fn part(block: Seq<Seq<Record>>, j: int) -> Seq<Record> {
    if 0 <= j < block.len() {
        block[j]
    } else {
        Seq::empty()
    }
}

/// The text of the first record, or the empty text.
pub open spec fn first_text(records: Seq<Record>) -> Seq<char> {
    if records.len() > 0 {
        records[0].1
    } else {
        Seq::empty()
    }
}

/// The champion's name as a block states it.
pub open spec fn block_champion(block: Seq<Seq<Record>>) -> Seq<char> {
    first_text(part(block, 0))
}

/// Whether `block` is about the champion `desired`: the keys of the two
/// names are the same.
pub open spec fn is_block_of(block: Seq<Seq<Record>>, desired: Seq<char>) -> bool {
    name_key(block_champion(block), false) == name_key(desired, false)
}

/// The index of the first block from `start` on that is about `desired`.
pub open spec fn first_block_of(blocks: Seq<Seq<Seq<Record>>>, desired: Seq<char>, start: int) -> Option<int>
    decreases blocks.len() - start,
{
    if start < 0 || start >= blocks.len() {
        None
    } else if is_block_of(blocks[start], desired) {
        Some(start)
    } else {
        first_block_of(blocks, desired, start + 1)
    }
}

/// The card that a block gives: the champion's name and portrait URLs, the
/// summary, the cleaned context, and the grouped changes.
pub open spec fn card_of_block(block: Seq<Seq<Record>>, base_stats: Seq<char>, patch_version: Seq<char>) -> PatchCardModel {
    let name = block_champion(block);
    PatchCardModel {
        champion_name: name,
        champion_image: image_urls_of(name),
        summary: first_text(part(block, 1)),
        context: if part(block, 2).len() > 0 { cleaned(part(block, 2)[0].1) } else { Seq::empty() },
        abilities: group_abilities(part(block, 3), base_stats, Seq::empty()),
        patch_version: patch_version,
    }
}

/// The card of `desired` in the blocks of a page, if a block is about it.
pub open spec fn card_in_blocks(
    blocks: Seq<Seq<Seq<Record>>>,
    desired: Seq<char>,
    base_stats: Seq<char>,
    patch_version: Seq<char>,
) -> Option<PatchCardModel> {
    match first_block_of(blocks, desired, 0) {
        Some(k) => Some(card_of_block(blocks[k], base_stats, patch_version)),
        None => None,
    }
}

/// What the search among the blocks of a page finds, over all blocks from
/// `start` on.
proof fn lemma_first_block_of(blocks: Seq<Seq<Seq<Record>>>, desired: Seq<char>, start: int)
    requires
        0 <= start,
    ensures
        match first_block_of(blocks, desired, start) {
            Some(k) => start <= k < blocks.len() && is_block_of(blocks[k], desired)
                && forall|j: int| start <= j < k ==> !is_block_of(#[trigger] blocks[j], desired),
            None => forall|j: int| start <= j < blocks.len() ==> !is_block_of(#[trigger] blocks[j], desired),
        },
    decreases blocks.len() - start,
{
    if start < blocks.len() && !is_block_of(blocks[start], desired) {
        lemma_first_block_of(blocks, desired, start + 1);
    }
}

/// A card is found for `desired` exactly when some block's champion name has
/// the same key (`clean_champion_name`) as `desired`; the card found is the
/// one of the first such block: it names that block's champion, whose key is
/// the key of `desired`, and no block before it has that key. So a block
/// titled `"Kai'Sa"` is found for `"Kaisa"` (both keys are `"Kaisa"`).
pub proof fn lemma_card_found_iff_keys_match(
    blocks: Seq<Seq<Seq<Record>>>,
    desired: Seq<char>,
    base_stats: Seq<char>,
    patch_version: Seq<char>,
)
    ensures
        card_in_blocks(blocks, desired, base_stats, patch_version) is Some <==> exists|k: int|
            0 <= k < blocks.len() && name_key(first_text(part(#[trigger] blocks[k], 0)), false) == name_key(desired, false),
        card_in_blocks(blocks, desired, base_stats, patch_version) matches Some(c) ==> exists|k: int|
            0 <= k < blocks.len()
            && c == card_of_block(#[trigger] blocks[k], base_stats, patch_version)
            && c.champion_name == first_text(part(blocks[k], 0))
            && c.champion_image.lower == IMAGE_URL_PREFIX@ + name_key(c.champion_name, false) + ".png"@
            && c.champion_image.upper == IMAGE_URL_PREFIX@ + alphanumerics(c.champion_name) + ".png"@
            && c.summary == first_text(part(blocks[k], 1))
            && c.context == (if part(blocks[k], 2).len() > 0 { cleaned(part(blocks[k], 2)[0].1) } else { Seq::empty() })
            && c.abilities == group_abilities(part(blocks[k], 3), base_stats, Seq::empty())
            && c.patch_version == patch_version
            && name_key(c.champion_name, false) == name_key(desired, false)
            && forall|j: int| 0 <= j < k ==> name_key(first_text(part(#[trigger] blocks[j], 0)), false) != name_key(desired, false),
{
    lemma_first_block_of(blocks, desired, 0);
    match first_block_of(blocks, desired, 0) {
        Some(k) => {
            assert(name_key(first_text(part(blocks[k], 0)), false) == name_key(desired, false));
            assert forall|j: int| 0 <= j < k implies name_key(first_text(part(#[trigger] blocks[j], 0)), false) != name_key(desired, false) by {
                assert(!is_block_of(blocks[j], desired));
            }
        },
        None => {
            assert forall|k: int| 0 <= k < blocks.len() implies name_key(first_text(part(#[trigger] blocks[k], 0)), false) != name_key(desired, false) by {
                assert(!is_block_of(blocks[k], desired));
            }
        },
    }
}

/// The text of the first record of `records`, or the empty text.
fn first_record_text(records: &Vec<ElementRecord>) -> (r: String)
    ensures
        r@ == first_text(records.deep_view()),
{
    if records.len() > 0 {
        records[0].text.clone()
    } else {
        String::new()
    }
}

/// The records of part `j` of a block.
fn block_part(block: &Vec<Vec<ElementRecord>>, j: usize) -> (r: Vec<ElementRecord>)
    ensures
        r.deep_view() == part(block.deep_view(), j as int),
{
    let mut out: Vec<ElementRecord> = Vec::new();
    if j < block.len() {
        let records = &block[j];
        let mut i: usize = 0;
        while i < records.len()
            invariant
                i <= records.len(),
                out.deep_view() == records.deep_view().take(i as int),
            decreases records.len() - i,
        {
            let ghost prev = out.deep_view();
            let record = ElementRecord {
                name: records[i].name.clone(),
                text: records[i].text.clone(),
                items: clone_texts(&records[i].items),
            };
            out.push(record);
            assert(out.deep_view() =~= prev.push(record.deep_view()));
            assert(records.deep_view().take(i + 1) =~= records.deep_view().take(i as int).push(records[i as int].deep_view()));
            i = i + 1;
        }
        assert(records.deep_view().take(records.len() as int) =~= records.deep_view());
    } else {
        assert(out.deep_view() =~= Seq::<Record>::empty());
    }
    out
}

/// A copy of `texts`.
fn clone_texts(texts: &Vec<String>) -> (r: Vec<String>)
    ensures
        r.deep_view() == texts.deep_view(),
{
    let mut out: Vec<String> = Vec::new();
    let mut i: usize = 0;
    while i < texts.len()
        invariant
            i <= texts.len(),
            out.deep_view() == texts.deep_view().take(i as int),
        decreases texts.len() - i,
    {
        let ghost prev = out.deep_view();
        let t = texts[i].clone();
        out.push(t);
        assert(out.deep_view() =~= prev.push(t@));
        assert(texts.deep_view().take(i + 1) =~= texts.deep_view().take(i as int).push(texts[i as int]@));
        i = i + 1;
    }
    assert(texts.deep_view().take(texts.len() as int) =~= texts.deep_view());
    out
}

/// Builds the card that a block gives.
fn card_from_block(block: &Vec<Vec<ElementRecord>>, base_stats: &str, patch_version: &str) -> (r: PatchCard)
    ensures
        r@ == card_of_block(block.deep_view(), base_stats@, patch_version@),
{
    let champion_name = first_record_text(&block_part(block, 0));
    let summary = first_record_text(&block_part(block, 1));
    let contexts = block_part(block, 2);
    let context = if contexts.len() > 0 {
        clean_text(contexts[0].text.as_str())
    } else {
        String::new()
    };
    let abilities = group_ability_changes(&block_part(block, 3), base_stats);
    let champion_image = generate_champion_image_url(champion_name.as_str());
    PatchCard {
        champion_name,
        champion_image,
        summary,
        context,
        abilities,
        patch_version: String::from_str(patch_version),
    }
}

/// Finds the block of `desired` among the blocks of a page (the first block
/// whose champion name has the same key as `desired`) and builds its card.
/// `None` when no block is about `desired`.
pub fn card_from_blocks(
    blocks: &Vec<Vec<Vec<ElementRecord>>>,
    desired: &str,
    base_stats: &str,
    patch_version: &str,
) -> (r: Option<PatchCard>)
    ensures
        match card_in_blocks(blocks.deep_view(), desired@, base_stats@, patch_version@) {
            Some(card) => r matches Some(c) && c@ == card,
            None => r is None,
        },
{
    let ghost all = blocks.deep_view();
    let wanted = clean_champion_name(desired);
    let mut k: usize = 0;
    while k < blocks.len()
        invariant
            all == blocks.deep_view(),
            wanted@ == name_key(desired@, false),
            k <= blocks.len(),
            first_block_of(all, desired@, 0) == first_block_of(all, desired@, k as int),
        decreases blocks.len() - k,
    {
        let name = first_record_text(&block_part(&blocks[k], 0));
        assert(blocks[k as int].deep_view() == all[k as int]);
        if clean_champion_name(name.as_str()) == wanted {
            assert(first_block_of(all, desired@, k as int) == Some(k as int));
            return Some(card_from_block(&blocks[k], base_stats, patch_version));
        }
        k = k + 1;
    }
    None
}

/// Whether the HTML parser accepts every selector used to read change
/// blocks.
pub open spec fn blocks_readable() -> bool {
    &&& selector_parses(CHANGE_BLOCK_SELECTOR@)
    &&& selector_parses(CHANGE_ITEM_SELECTOR@)
    &&& forall|i: int| 0 <= i < 4 ==> selector_parses(#[trigger] block_part_selectors()[i])
}

/// What a patch-notes page says about `desired`: `None` when the block
/// selectors are refused, otherwise the card of `desired` if a block is
/// about it.
pub open spec fn card_on_page(
    page: Seq<char>,
    desired: Seq<char>,
    base_stats: Seq<char>,
    patch_version: Seq<char>,
) -> Option<Option<PatchCardModel>> {
    if blocks_readable() {
        Some(card_in_blocks(
            element_records(page, CHANGE_BLOCK_SELECTOR@, block_part_selectors(), CHANGE_ITEM_SELECTOR@),
            desired,
            base_stats,
            patch_version,
        ))
    } else {
        None
    }
}

/// Reads the card of `desired` from a patch-notes page: the first change
/// block (`div.patch-change-block`) whose champion (`h3.change-title a`)
/// has the same name key as `desired`, with its summary (`p.summary`), its
/// cleaned context (`blockquote.blockquote.context`) and its changes
/// (`h4.change-detail-title, ul`, with `li` items) grouped under abilities,
/// the first group named `base_stats`.
///
/// `None` when one of these selectors is not accepted by the HTML parser;
/// `Some(None)` when no block is about `desired`.
pub fn patch_card_from_page(page: &str, desired: &str, base_stats: &str, patch_version: &str) -> (r: Option<Option<PatchCard>>)
    ensures
        r.deep_view() == card_on_page(page@, desired@, base_stats@, patch_version@),
{
    let parts: Vec<String> = vec![
        String::from_str(CHAMPION_NAME_SELECTOR),
        String::from_str(SUMMARY_SELECTOR),
        String::from_str(CONTEXT_SELECTOR),
        String::from_str(DETAIL_SELECTOR),
    ];
    assert(parts.deep_view() =~= block_part_selectors());
    match select_records(page, CHANGE_BLOCK_SELECTOR, &parts, CHANGE_ITEM_SELECTOR) {
        Some(blocks) => {
            assert(blocks_readable()) by {
                assert forall|i: int| 0 <= i < 4 implies selector_parses(#[trigger] block_part_selectors()[i]) by {
                    assert(parts@[i]@ == block_part_selectors()[i]);
                }
            }
            Some(card_from_blocks(&blocks, desired, base_stats, patch_version))
        },
        None => {
            assert(!blocks_readable()) by {
                if blocks_readable() {
                    assert forall|i: int| 0 <= i < parts@.len() implies selector_parses(#[trigger] parts@[i]@) by {
                        assert(parts@[i]@ == block_part_selectors()[i]);
                    }
                }
            }
            None
        },
    }
}

} // verus!
