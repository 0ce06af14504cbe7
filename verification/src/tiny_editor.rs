//! What the rich text editor is given.

use vstd::prelude::*;

use crate::draft;
use crate::json;
use crate::json::{Json, JsonV};
use crate::text;

verus! {

/// Whether a value is a document of the editor: a list of steps, or an object
/// that holds one.
pub open spec fn is_document(j: JsonV) -> bool {
    match j {
        JsonV::Array(_) => true,
        JsonV::Object(_) => json::member(j, "ops"@) is Some,
        _ => false,
    }
}

/// A document that inserts one text.
pub open spec fn inserts(s: Seq<char>) -> JsonV {
    JsonV::Object(
        seq![
            (
                "ops"@,
                JsonV::Array(seq![JsonV::Object(seq![("insert"@, JsonV::Text(s))])]),
            ),
        ],
    )
}

/// What the editor is given for a detail, given the value that it spells:
/// nothing for a blank one, a document as it is, else a document that inserts
/// the text and ends the line.
pub open spec fn document_of(detail: Seq<char>, parsed: Option<JsonV>) -> Seq<char> {
    let d = text::trimmed(detail);
    if d.len() == 0 {
        Seq::empty()
    } else if parsed is Some && is_document(parsed->0) {
        d
    } else {
        json::json_text(inserts(d + "\n"@))
    }
}

/// Tests [`is_document`].
fn holds_document(j: &Json) -> (r: bool)
    ensures
        r == is_document(j@),
{
    match j {
        Json::Array(a) => {
            proof {
                json::array_view(*a);
            }
            true
        },
        Json::Object(o) => {
            proof {
                json::object_view(*o);
            }
            j.get("ops").is_some()
        },
        _ => false,
    }
}

/// What the editor is given for a detail, given the value that it spells.
pub fn delta_given(detail: &str, parsed: Option<Json>) -> (r: String)
    ensures
        r@ == document_of(detail@, draft::opt_value(parsed)),
{
    let d = text::trim(detail);
    if d.as_str().is_empty() {
        assert(d@ =~= Seq::<char>::empty());
        return d;
    }
    if let Some(j) = parsed {
        if holds_document(&j) {
            return d;
        }
    }
    let line = text::concat2(d.as_str(), "\n");
    let step = json::object1("insert", json::of_str(line.as_str()));
    let mut steps: Vec<Json> = Vec::new();
    json::add_item(&mut steps, step);
    assert(json::items_view(steps@) =~= seq![step@]);
    let doc = json::object1("ops", json::array(steps));
    json::write(&doc)
}

/// What the editor is given for a detail.
pub fn normalize_delta(detail: &str) -> (r: String)
    ensures
        r@ == document_of(detail@, json::read_content(text::trimmed(detail@))),
{
    let d = text::trim(detail);
    delta_given(detail, json::read(d.as_str()))
}

// ---------------------------------------------------------------------------
// Laws
// ---------------------------------------------------------------------------

/// A document is given to the editor as it is, but for blanks around it, and
/// giving it again changes nothing.
pub proof fn documents_stay(detail: Seq<char>, j: JsonV)
    requires
        is_document(j),
    ensures
        document_of(detail, Some(j)) == text::trimmed(detail),
        document_of(document_of(detail, Some(j)), Some(j)) == document_of(detail, Some(j)),
{
    text::trim_idempotent(detail);
    let d = text::trimmed(detail);
    if d.len() == 0 {
        assert(d =~= Seq::<char>::empty());
    }
}

/// A blank detail is nothing to the editor; a list of steps, or an object that
/// has `ops`, is a document; any other text is made into one that inserts it
/// and ends the line.
pub proof fn plain_details_are_inserted(
    a: Seq<char>,
    m: Seq<char>,
    b: Seq<char>,
    j: JsonV,
    list: Seq<JsonV>,
)
    requires
        text::all_white(a),
        text::all_white(b),
        m.len() > 0 ==> !text::is_white(m[0]) && !text::is_white(m.last()),
    ensures
        m.len() == 0 ==> document_of(a + m + b, Some(j)).len() == 0,
        document_of(a + m + b, Some(JsonV::Array(list))) == m,
        json::member(j, "ops"@) is Some ==> document_of(a + m + b, Some(j)) == m,
        m.len() > 0 && !(j is Array) && json::member(j, "ops"@) is None ==> document_of(
            a + m + b,
            Some(j),
        ) == json::json_text(inserts(m + seq!['\n'])),
        m.len() > 0 ==> document_of(a + m + b, None) == json::json_text(inserts(m + seq!['\n'])),
        inserts(m) == JsonV::Object(
            seq![("ops"@, JsonV::Array(seq![JsonV::Object(seq![("insert"@, JsonV::Text(m))])]))],
        ),
{
    reveal_strlit("\n");
    assert("\n"@ =~= seq!['\n']);
    text::trimmed_is_the_middle(a, m, b);
    if m.len() == 0 {
        assert(m =~= Seq::<char>::empty());
    }
}

} // verus!
