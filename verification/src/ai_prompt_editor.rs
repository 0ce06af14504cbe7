//! The prompts of the writing assistant, as rows of a name and a prompt.

use vstd::prelude::*;

use crate::draft;
use crate::graphql_client::NamedPrompt;
use crate::json;
use crate::json::{Json, JsonV};
use crate::text;

verus! {

/// A row that is being edited.
#[derive(Debug, Clone)]
pub struct PromptRow {
    pub name: String,
    pub prompt: String,
}

/// What a row is saved as: nothing where its name is blank. A prompt may be
/// empty.
pub open spec fn row_value(name: Seq<char>, prompt: Seq<char>) -> Option<JsonV> {
    if text::is_blank(name) {
        None
    } else {
        Some(
            JsonV::Object(
                seq![
                    ("name"@, JsonV::Text(text::trimmed(name))),
                    ("prompt"@, JsonV::Text(prompt)),
                ],
            ),
        )
    }
}

impl PromptRow {
    /// A row.
    pub fn new(name: String, prompt: String) -> (r: PromptRow)
        ensures
            r.name == name,
            r.prompt == prompt,
    {
        PromptRow { name, prompt }
    }

    /// What a row is saved as.
    pub fn to_value(&self) -> (r: Option<Json>)
        ensures
            draft::opt_value(r) == row_value(self.name@, self.prompt@),
    {
        let name = text::trim(self.name.as_str());
        if name.as_str().is_empty() {
            return None;
        }
        Some(
            json::object2(
                "name",
                json::of_str(name.as_str()),
                "prompt",
                json::of_str(self.prompt.as_str()),
            ),
        )
    }
}

/// The rows of prompts.
pub fn rows_from(list: &[NamedPrompt]) -> (r: Vec<PromptRow>)
    ensures
        r@.len() == list@.len(),
        forall|i: int|
            0 <= i < list@.len() ==> (#[trigger] r@[i]).name@ == list@[i].name@ && r@[i].prompt@
                == list@[i].prompt@,
{
    let mut out: Vec<PromptRow> = Vec::new();
    let mut i: usize = 0;
    while i < list.len()
        invariant
            i <= list@.len(),
            out@.len() == i,
            forall|k: int|
                0 <= k < i ==> (#[trigger] out@[k]).name@ == list@[k].name@ && out@[k].prompt@
                    == list@[k].prompt@,
        decreases list@.len() - i,
    {
        out.push(PromptRow::new(list[i].name.clone(), list[i].prompt.clone()));
        i += 1;
    }
    out
}

/// What rows are saved as: those with a name, in order.
pub open spec fn rows_value(rows: Seq<PromptRow>) -> Seq<JsonV>
    decreases rows.len(),
{
    if rows.len() == 0 {
        seq![]
    } else {
        match row_value(rows.last().name@, rows.last().prompt@) {
            Some(v) => rows_value(rows.drop_last()).push(v),
            None => rows_value(rows.drop_last()),
        }
    }
}

/// What rows are saved as.
pub fn rows_to_value(rows: &Vec<PromptRow>) -> (r: Vec<Json>)
    ensures
        json::items_view(r@) == rows_value(rows@),
{
    let mut out: Vec<Json> = Vec::new();
    let mut i: usize = 0;
    assert(json::items_view(out@) =~= seq![]);
    while i < rows.len()
        invariant
            i <= rows@.len(),
            json::items_view(out@) == rows_value(rows@.take(i as int)),
        decreases rows@.len() - i,
    {
        assert(rows@.take(i + 1).drop_last() =~= rows@.take(i as int));
        if let Some(v) = rows[i].to_value() {
            json::add_item(&mut out, v);
        }
        i += 1;
    }
    assert(rows@.take(i as int) =~= rows@);
    out
}

/// Rows without the one at a position; all of them where there is none there.
pub fn remove_row(rows: &mut Vec<PromptRow>, i: usize)
    ensures
        final(rows)@ == (if i < old(rows)@.len() {
            old(rows)@.remove(i as int)
        } else {
            old(rows)@
        }),
{
    if i < rows.len() {
        rows.remove(i);
    }
}

// ---------------------------------------------------------------------------
// Laws
// ---------------------------------------------------------------------------

/// The values of prompts that are all named, without blanks around the names.
pub open spec fn prompts_value(list: Seq<NamedPrompt>) -> Seq<JsonV> {
    Seq::new(
        list.len(),
        |i: int|
            JsonV::Object(
                seq![
                    ("name"@, JsonV::Text(list[i].name@)),
                    ("prompt"@, JsonV::Text(list[i].prompt@)),
                ],
            ),
    )
}

/// Prompts whose names are not blank and have no blanks around them are saved
/// as they were loaded, every one in its place.
pub proof fn prompts_survive(list: Seq<NamedPrompt>, rows: Seq<PromptRow>)
    requires
        rows.len() == list.len(),
        forall|i: int|
            0 <= i < list.len() ==> (#[trigger] rows[i]).name@ == list[i].name@ && rows[i].prompt@
                == list[i].prompt@ && !text::is_blank(rows[i].name@) && text::trimmed(rows[i].name@)
                == rows[i].name@,
    ensures
        rows_value(rows) == prompts_value(list),
    decreases rows.len(),
{
    if rows.len() > 0 {
        let n = rows.len() - 1;
        let init = rows.drop_last();
        assert forall|i: int| 0 <= i < list.drop_last().len() implies (#[trigger] init[i]).name@
            == list.drop_last()[i].name@ && init[i].prompt@ == list.drop_last()[i].prompt@
            && !text::is_blank(init[i].name@) && text::trimmed(init[i].name@) == init[i].name@ by {
            assert(init[i] == rows[i]);
        }
        prompts_survive(list.drop_last(), init);
        assert(rows.last() == rows[n]);
        assert(prompts_value(list.drop_last()).push(prompts_value(list)[n]) =~= prompts_value(
            list,
        ));
    } else {
        assert(rows_value(rows) =~= prompts_value(list));
    }
}

/// A row is saved under its name, without the white space around it, with its
/// prompt as it is; one whose name is blank is not. Rows are saved in their
/// order.
pub proof fn named_rows_are_saved(
    rows: Seq<PromptRow>,
    row: PromptRow,
    a: Seq<char>,
    m: Seq<char>,
    b: Seq<char>,
)
    requires
        text::all_white(a),
        text::all_white(b),
        m.len() > 0 ==> !text::is_white(m[0]) && !text::is_white(m.last()),
        row.name@ == a + m + b,
    ensures
        rows_value(seq![]) == Seq::<JsonV>::empty(),
        rows_value(rows.push(row)) == (if m.len() == 0 {
            rows_value(rows)
        } else {
            rows_value(rows).push(
                JsonV::Object(
                    seq![("name"@, JsonV::Text(m)), ("prompt"@, JsonV::Text(row.prompt@))],
                ),
            )
        }),
{
    text::trimmed_is_the_middle(a, m, b);
    assert(rows_value(seq![]) =~= seq![]);
    assert(rows.push(row).drop_last() =~= rows);
    assert(rows.push(row).last() == row);
}

} // verus!
