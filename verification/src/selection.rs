//! Item selection and generated items.
use vstd::prelude::*;
use crate::config::{ItemSelectConfig, SelectionResult, TieBreak};
use crate::segment::ItemEvalState;
use crate::strmap::{StrMap, text_view};
use crate::accumulator::{GenerateItemsAction, DynamicItemMapping};
use crate::text::{chars_of, string_from, str_eq, concat_str, bool_text, bool_to_string};

verus! {

/// The candidate a tie-break picks: the first, the last, or (for `Random`,
/// which is deterministic) the first.
pub open spec fn spec_break_tie(candidates: Seq<usize>, tie_break: TieBreak) -> usize {
    match tie_break {
        TieBreak::Last => candidates.last(),
        _ => candidates[0],
    }
}

/// Picks one of the tied candidates (see `spec_break_tie`).
pub fn break_tie(candidates: &Vec<usize>, tie_break: TieBreak) -> (r: usize)
    requires
        candidates@.len() > 0,
    ensures
        r == spec_break_tie(candidates@, tie_break),
{
    match tie_break {
        TieBreak::First => candidates[0],
        TieBreak::Last => candidates[candidates.len() - 1],
        TieBreak::Random => candidates[0],
    }
}

/// Why item selection failed.
pub enum ItemSelectError {
    /// There were no items to select from.
    NoItems,
    /// The strategy found no winner; the text says why.
    Strategy(String),
}

/// The ids of all items but the winner, in order.
pub open spec fn eliminated(items: Seq<ItemEvalState>, winner: int) -> Seq<Seq<char>>
    decreases items.len(),
{
    if items.len() == 0 {
        Seq::empty()
    } else if items.len() - 1 == winner {
        eliminated(items.drop_last(), winner)
    } else {
        eliminated(items.drop_last(), winner).push(items.last().item_id@)
    }
}

/// The views of a list of strings.
pub open spec fn texts(v: Seq<String>) -> Seq<Seq<char>> {
    v.map_values(|s: String| s@)
}

/// The result that names `items[winner]` the winner.
pub open spec fn selection_of(r: SelectionResult, items: Seq<ItemEvalState>, winner: int) -> bool {
    &&& r.winner_id@ == items[winner].item_id@
    &&& texts(r.eliminated_ids@) == eliminated(items, winner)
    &&& r.winner_vars.entries@ == items[winner].pipeline_vars.entries@
}

fn selection_for(items: &Vec<ItemEvalState>, winner: usize) -> (r: SelectionResult)
    requires
        winner < items@.len(),
    ensures
        selection_of(r, items@, winner as int),
{
    let mut elim: Vec<String> = Vec::new();
    let mut i: usize = 0;
    assert(items@.take(0) =~= Seq::<ItemEvalState>::empty());
    assert(texts(elim@) =~= Seq::<Seq<char>>::empty());
    while i < items.len()
        invariant
            i <= items@.len(),
            winner < items@.len(),
            texts(elim@) == eliminated(items@.take(i as int), winner as int),
        decreases items@.len() - i,
    {
        assert(items@.take(i + 1).drop_last() =~= items@.take(i as int));
        assert(items@.take(i + 1).last() == items@[i as int]);
        if i != winner {
            let ghost before = texts(elim@);
            elim.push(items[i].item_id.clone());
            assert(texts(elim@) =~= before.push(items@[i as int].item_id@));
        }
        i = i + 1;
    }
    assert(items@.take(items@.len() as int) =~= items@);
    SelectionResult {
        winner_id: items[winner].item_id.clone(),
        eliminated_ids: elim,
        winner_vars: items[winner].pipeline_vars.copy(),
    }
}

/// Selects the winning item. No items is an error; a single item wins
/// outright; otherwise `ranked` is what the strategy found (the indices of
/// the best-ranked items, tied, or why there is none) and the tie-break of
/// `config` picks among them.
pub fn execute_item_select(
    item_states: &Vec<ItemEvalState>,
    config: &ItemSelectConfig,
    ranked: &Result<Vec<usize>, String>,
) -> (r: Result<SelectionResult, ItemSelectError>)
    requires
        item_states@.len() >= 2 ==> (ranked matches Ok(c) ==> (c@.len() > 0 && forall|k: int|
            0 <= k < c@.len() ==> c@[k] < item_states@.len())),
    ensures
        item_states@.len() == 0 ==> r matches Err(ItemSelectError::NoItems),
        item_states@.len() == 1 ==> (r matches Ok(s) && selection_of(s, item_states@, 0)),
        item_states@.len() >= 2 ==> match ranked {
            Err(e) => (r matches Err(ItemSelectError::Strategy(m)) && m@ == e@),
            Ok(c) => (r matches Ok(s) && selection_of(
                s,
                item_states@,
                spec_break_tie(c@, config.tie_break) as int,
            )),
        },
{
    if item_states.len() == 0 {
        return Err(ItemSelectError::NoItems);
    }
    if item_states.len() == 1 {
        return Ok(selection_for(item_states, 0));
    }
    match ranked {
        Err(e) => Err(ItemSelectError::Strategy(e.clone())),
        Ok(c) => {
            let w = break_tie(c, config.tie_break);
            Ok(selection_for(item_states, w))
        },
    }
}

/// Every item but the winner is eliminated: one fewer than the items.
pub proof fn law_all_but_winner_eliminated(items: Seq<ItemEvalState>, winner: int)
    requires
        0 <= winner < items.len(),
    ensures
        eliminated(items, winner).len() == items.len() - 1,
    decreases items.len(),
{
    if items.len() - 1 != winner {
        law_all_but_winner_eliminated(items.drop_last(), winner);
    } else {
        lemma_eliminated_all(items.drop_last(), winner);
    }
}

proof fn lemma_eliminated_all(items: Seq<ItemEvalState>, winner: int)
    requires
        winner >= items.len(),
    ensures
        eliminated(items, winner).len() == items.len(),
    decreases items.len(),
{
    if items.len() > 0 {
        lemma_eliminated_all(items.drop_last(), winner);
    }
}

} // verus!
