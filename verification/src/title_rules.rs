//! The rules that color titles, as they are edited in the settings of a view.

use vstd::prelude::*;

use crate::json;
use crate::json::{Json, JsonV};
use crate::text;

verus! {

/// The color of a new rule.
pub const RULE_COLOR: &'static str = "#3b82f6";

/// A rule that is being edited.
#[derive(Debug, Clone)]
pub struct TitleRule {
    pub id: u32,
    /// The condition as an expression.
    pub expr: String,
    pub color: String,
    /// The expression that was filled in for a rule that was there; empty until
    /// it arrives.
    pub cached_expr: String,
    /// The condition of a rule that was there; null for a new one.
    pub cached_ast: Json,
}

/// The content of a rule.
pub struct TitleRuleV {
    pub id: u32,
    pub expr: Seq<char>,
    pub color: Seq<char>,
    pub cached_expr: Seq<char>,
    pub cached_ast: JsonV,
}

impl View for TitleRule {
    type V = TitleRuleV;

    open spec fn view(&self) -> TitleRuleV {
        TitleRuleV {
            id: self.id,
            expr: self.expr@,
            color: self.color@,
            cached_expr: self.cached_expr@,
            cached_ast: self.cached_ast@,
        }
    }
}

/// The contents of rules.
pub open spec fn rules_view(rows: Seq<TitleRule>) -> Seq<TitleRuleV> {
    Seq::new(rows.len(), |i: int| rows[i]@)
}

/// The row of a rule that was there, before its expression arrives.
pub open spec fn row_of(i: int, rule: JsonV) -> TitleRuleV {
    TitleRuleV {
        id: i as u32,
        expr: ""@,
        color: match json::opt_str_of(json::member(rule, "color"@)) {
            Some(c) => c,
            None => RULE_COLOR@,
        },
        cached_expr: ""@,
        cached_ast: match json::member(rule, "query"@) {
            Some(q) => q,
            None => JsonV::Null,
        },
    }
}

/// The rows of the rules of a view.
pub open spec fn rows_of(colors: JsonV) -> Seq<TitleRuleV> {
    match json::items_of(colors) {
        Some(a) => Seq::new(a.len(), |i: int| row_of(i, a[i])),
        None => seq![],
    }
}

/// The row of a rule that was there.
fn make_row(i: usize, rule: &Json) -> (r: TitleRule)
    ensures
        r@ == row_of(i as int, rule@),
{
    let color = match rule.get("color") {
        Some(c) => match c.as_str() {
            Some(s) => s.to_owned(),
            None => RULE_COLOR.to_owned(),
        },
        None => RULE_COLOR.to_owned(),
    };
    let ast = match rule.get("query") {
        Some(q) => q.copy(),
        None => Json::Null,
    };
    TitleRule {
        id: i as u32,
        expr: "".to_owned(),
        color,
        cached_expr: "".to_owned(),
        cached_ast: ast,
    }
}

/// The rows of the rules of a view.
pub fn rule_rows(colors: &Json) -> (r: Vec<TitleRule>)
    ensures
        rules_view(r@) == rows_of(colors@),
{
    let mut out: Vec<TitleRule> = Vec::new();
    match colors.as_array() {
        Some(a) => {
            let ghost want = rows_of(colors@);
            let mut i: usize = 0;
            assert(rules_view(out@) =~= want.take(0));
            while i < a.len()
                invariant
                    i <= a@.len(),
                    json::items_of(colors@) == Some(json::items_view(a@)),
                    want == rows_of(colors@),
                    rules_view(out@) == want.take(i as int),
                decreases a@.len() - i,
            {
                let ghost before = out@;
                let row = make_row(i, &a[i]);
                out.push(row);
                assert(row@ == want[i as int]);
                assert(rules_view(out@) =~= rules_view(before).push(row@));
                i += 1;
                assert(rules_view(out@) =~= want.take(i as int));
            }
            assert(want.take(i as int) =~= want);
        },
        None => {
            assert(rules_view(out@) =~= seq![]);
        },
    }
    out
}

/// A new rule.
pub fn new_rule(id: u32) -> (r: TitleRule)
    ensures
        r@ == (TitleRuleV {
            id,
            expr: ""@,
            color: RULE_COLOR@,
            cached_expr: ""@,
            cached_ast: JsonV::Null,
        }),
{
    TitleRule {
        id,
        expr: "".to_owned(),
        color: RULE_COLOR.to_owned(),
        cached_expr: "".to_owned(),
        cached_ast: Json::Null,
    }
}

/// A rule after its expression arrived: what was typed meanwhile stays.
pub open spec fn filled_in(row: TitleRuleV, expr: Seq<char>) -> TitleRuleV {
    if row.expr.len() == 0 {
        TitleRuleV { expr, cached_expr: expr, ..row }
    } else {
        row
    }
}

/// Fills in the expression of a rule that was there.
pub fn fill_in(row: &mut TitleRule, expr: &str)
    ensures
        final(row)@ == filled_in(old(row)@, expr@),
{
    if row.expr.as_str().is_empty() {
        row.expr = expr.to_owned();
        row.cached_expr = expr.to_owned();
    }
}

/// What becomes of a rule that is saved.
#[derive(Debug, Clone, Copy, PartialEq, Eq, Structural)]
pub enum RuleFate {
    /// Its expression was edited and is read anew.
    Read,
    /// Its condition is kept.
    Keep,
    /// It is left out.
    Omit,
}

/// What becomes of a rule that is saved: an edited expression is read; one that
/// was emptied takes the rule away; else the condition that was there is kept,
/// if there was one.
pub open spec fn fate(row: TitleRuleV) -> RuleFate {
    if !text::is_blank(row.expr) && row.expr != row.cached_expr {
        RuleFate::Read
    } else if text::is_blank(row.expr) && row.cached_expr.len() > 0 {
        RuleFate::Omit
    } else if row.cached_ast is Null {
        RuleFate::Omit
    } else {
        RuleFate::Keep
    }
}

/// What becomes of a rule that is saved.
pub fn rule_fate(row: &TitleRule) -> (r: RuleFate)
    ensures
        r == fate(row@),
{
    let blank = text::blank(row.expr.as_str());
    if !blank && !text::same(row.expr.as_str(), row.cached_expr.as_str()) {
        RuleFate::Read
    } else if blank && !row.cached_expr.as_str().is_empty() {
        RuleFate::Omit
    } else if row.cached_ast.is_null() {
        RuleFate::Omit
    } else {
        RuleFate::Keep
    }
}

/// A rule as it is saved.
pub open spec fn rule_json(ast: JsonV, color: Seq<char>) -> JsonV {
    JsonV::Object(seq![("query"@, ast), ("color"@, JsonV::Text(color))])
}

/// Where the saving of rules stands.
#[derive(Debug, Clone)]
pub struct RuleSave {
    /// The rule whose turn it is.
    pub at: usize,
    /// The rules done.
    pub out: Vec<Json>,
}

/// What is to be done next.
#[derive(Debug, Clone, Copy, PartialEq, Eq, Structural)]
pub enum RuleStep {
    /// The expression of this rule is to be read.
    Read(usize),
    /// All rules are done.
    Done,
}

/// Where the saving stands after the rules from a position on that need no
/// reading.
pub open spec fn settled(
    rows: Seq<TitleRuleV>,
    at: int,
    out: Seq<JsonV>,
) -> (int, Seq<JsonV>)
    decreases rows.len() - at,
{
    if at < 0 || at >= rows.len() || fate(rows[at]) == RuleFate::Read {
        (at, out)
    } else if fate(rows[at]) == RuleFate::Keep {
        settled(rows, at + 1, out.push(rule_json(rows[at].cached_ast, rows[at].color)))
    } else {
        settled(rows, at + 1, out)
    }
}

/// What [`settled`] stops at.
proof fn settled_stops(rows: Seq<TitleRuleV>, at: int, out: Seq<JsonV>)
    requires
        0 <= at <= rows.len(),
    ensures
        at <= settled(rows, at, out).0 <= rows.len(),
        settled(rows, at, out).0 < rows.len() ==> fate(rows[settled(rows, at, out).0])
            == RuleFate::Read,
    decreases rows.len() - at,
{
    if at < rows.len() && fate(rows[at]) != RuleFate::Read {
        if fate(rows[at]) == RuleFate::Keep {
            settled_stops(rows, at + 1, out.push(rule_json(rows[at].cached_ast, rows[at].color)));
        } else {
            settled_stops(rows, at + 1, out);
        }
    }
}

impl RuleSave {
    /// A saving that begins.
    pub fn new() -> (r: RuleSave)
        ensures
            r.at == 0,
            json::items_view(r.out@) == Seq::<JsonV>::empty(),
    {
        let r = RuleSave { at: 0, out: Vec::new() };
        assert(json::items_view(r.out@) =~= Seq::<JsonV>::empty());
        r
    }

    /// Goes through the rules that need no reading; stops at one that does.
    pub fn go_on(&mut self, rows: &Vec<TitleRule>) -> (r: RuleStep)
        requires
            old(self).at <= rows@.len(),
        ensures
            (final(self).at as int, json::items_view(final(self).out@)) == settled(
                rules_view(rows@),
                old(self).at as int,
                json::items_view(old(self).out@),
            ),
            final(self).at <= rows@.len(),
            r == (if final(self).at < rows@.len() {
                RuleStep::Read(final(self).at)
            } else {
                RuleStep::Done
            }),
            r is Read ==> fate(rules_view(rows@)[final(self).at as int]) == RuleFate::Read,
    {
        let ghost all = rules_view(rows@);
        let ghost from = self.at as int;
        let ghost first = json::items_view(self.out@);
        proof {
            settled_stops(all, from, first);
        }
        while self.at < rows.len()
            invariant
                self.at <= rows@.len(),
                all == rules_view(rows@),
                settled(all, from, first) == settled(
                    all,
                    self.at as int,
                    json::items_view(self.out@),
                ),
                settled(all, from, first).0 <= all.len(),
                settled(all, from, first).0 < all.len() ==> fate(all[settled(all, from, first).0])
                    == RuleFate::Read,
                from == old(self).at,
                first == json::items_view(old(self).out@),
            decreases rows@.len() - self.at,
        {
            let row = &rows[self.at];
            assert(row@ == all[self.at as int]);
            match rule_fate(row) {
                RuleFate::Read => {
                    return RuleStep::Read(self.at);
                },
                RuleFate::Keep => {
                    let rule = json::object2(
                        "query",
                        row.cached_ast.copy(),
                        "color",
                        json::of_str(row.color.as_str()),
                    );
                    assert(rule@ == rule_json(row@.cached_ast, row@.color));
                    json::add_item(&mut self.out, rule);
                },
                RuleFate::Omit => {},
            }
            self.at += 1;
        }
        RuleStep::Done
    }

    /// Takes in the condition that was read for the rule whose turn it is.
    pub fn was_read(&mut self, rows: &Vec<TitleRule>, ast: Json)
        requires
            old(self).at < rows.len(),
        ensures
            final(self).at == old(self).at + 1,
            json::items_view(final(self).out@) == json::items_view(old(self).out@).push(
                rule_json(ast@, rows@[old(self).at as int].color@),
            ),
    {
        let rule = json::object2(
            "query",
            ast,
            "color",
            json::of_str(rows[self.at].color.as_str()),
        );
        assert(rule@ == rule_json(ast@, rows@[self.at as int].color@));
        json::add_item(&mut self.out, rule);
        self.at += 1;
    }

    /// The rules done, as they are saved.
    pub fn result(self) -> (r: Json)
        ensures
            r@ == JsonV::Array(json::items_view(self.out@)),
    {
        json::array(self.out)
    }
}

/// What is said where an expression could not be read.
pub fn bad_rule(e: &str) -> (r: String)
    ensures
        r@ == "标题颜色规则条件无效："@ + e@,
{
    text::concat2("标题颜色规则条件无效：", e)
}

/// What is said where the timeline could not be saved.
pub fn timeline_failed(e: &str) -> (r: String)
    ensures
        r@ == "时间轴配置未保存："@ + e@,
{
    text::concat2("时间轴配置未保存：", e)
}

// ---------------------------------------------------------------------------
// Laws
// ---------------------------------------------------------------------------

/// Whether a value is a rule: a condition and a color, and no more.
pub open spec fn is_rule(j: JsonV) -> bool {
    exists|ast: JsonV, color: Seq<char>|
        ast !is Null && j == #[trigger] rule_json(ast, color)
}

/// The rows of rules after their expressions arrived, none edited.
pub open spec fn rows_filled(colors: JsonV, exprs: Seq<Seq<char>>) -> Seq<TitleRuleV> {
    Seq::new(rows_of(colors).len(), |i: int| filled_in(rows_of(colors)[i], exprs[i]))
}

/// The row of a rule: its condition and its color.
proof fn row_of_rule(i: int, ast: JsonV, color: Seq<char>)
    ensures
        row_of(i, rule_json(ast, color)).cached_ast == ast,
        row_of(i, rule_json(ast, color)).color == color,
{
    let o = seq![("query"@, ast), ("color"@, JsonV::Text(color))];
    reveal_strlit("query");
    reveal_strlit("color");
    assert("query"@.len() == 5 && "query"@[0] == 'q');
    assert("color"@.len() == 5 && "color"@[0] == 'c');
    assert("query"@ != "color"@);
    json::key_index_is(o, "query"@, 0);
    json::key_index_is(o, "color"@, 1);
}

/// Rules kept from a position on.
proof fn kept_from(rows: Seq<TitleRuleV>, a: Seq<JsonV>, at: int)
    requires
        0 <= at <= rows.len(),
        rows.len() == a.len(),
        forall|i: int|
            0 <= i < rows.len() ==> fate(#[trigger] rows[i]) == RuleFate::Keep && rule_json(
                rows[i].cached_ast,
                rows[i].color,
            ) == a[i],
    ensures
        settled(rows, at, a.take(at)) == (rows.len() as int, a),
    decreases rows.len() - at,
{
    if at < rows.len() {
        assert(a.take(at).push(a[at]) =~= a.take(at + 1));
        assert(fate(rows[at]) == RuleFate::Keep);
        kept_from(rows, a, at + 1);
    } else {
        assert(a.take(at) =~= a);
    }
}

/// Rules that nobody edited are saved as they were, nothing being read: whether
/// their expressions arrived (none blank) or did not.
pub proof fn unedited_rules_stay(a: Seq<JsonV>, exprs: Seq<Seq<char>>)
    requires
        forall|i: int| 0 <= i < a.len() ==> is_rule(#[trigger] a[i]),
        exprs.len() == a.len(),
        forall|i: int| 0 <= i < exprs.len() ==> !text::is_blank(#[trigger] exprs[i]),
    ensures
        settled(rows_of(JsonV::Array(a)), 0, seq![]) == (a.len() as int, a),
        settled(rows_filled(JsonV::Array(a), exprs), 0, seq![]) == (a.len() as int, a),
{
    let bare = rows_of(JsonV::Array(a));
    let full = rows_filled(JsonV::Array(a), exprs);
    reveal_strlit("");
    assert forall|i: int| 0 <= i < a.len() implies fate(#[trigger] bare[i]) == RuleFate::Keep
        && rule_json(bare[i].cached_ast, bare[i].color) == a[i] && fate(full[i]) == RuleFate::Keep
        && rule_json(full[i].cached_ast, full[i].color) == a[i] by {
        assert(is_rule(a[i]));
        let (ast, color) = choose|ast: JsonV, color: Seq<char>|
            ast !is Null && a[i] == #[trigger] rule_json(ast, color);
        row_of_rule(i, ast, color);
        assert(bare[i] == row_of(i, a[i]));
        assert(""@ =~= Seq::<char>::empty());
        assert(text::trim_start(""@) == ""@);
        assert(text::is_blank(""@));
        assert(full[i] == filled_in(bare[i], exprs[i]));
        assert(!text::is_blank(exprs[i]));
    }
    assert forall|i: int| 0 <= i < full.len() implies fate(#[trigger] full[i]) == RuleFate::Keep
        && rule_json(full[i].cached_ast, full[i].color) == a[i] by {
        assert(fate(bare[i]) == RuleFate::Keep);
    }
    kept_from(bare, a, 0);
    kept_from(full, a, 0);
    assert(a.take(0) =~= seq![]);
}

} // verus!
