//! The plan runner's two drivers. Script assembly renders a whole plan as
//! one shell script, one comment line per described item, suppressing a
//! directory change that repeats the previous one. Direct execution is
//! driven by the caller spawning each item's invocations; the per-item
//! continue-on-error policy decides whether a failure aborts the whole
//! plan.

use vstd::prelude::*;
use vstd::string::{StrSliceExecFns, StringExecFns};

use crate::Context;
use crate::actions::{ActionV, Plan, PlanItemV, PlanV};
use crate::compile::spec_action_lines;
use crate::{spec_cargo_bin, spec_gh_bin};

verus! {

/// Statements that change directory: what the dedup step tracks.
pub open spec fn spec_is_cd(line: Seq<char>) -> bool {
    line.len() >= 3 && line.subrange(0, 3) == "cd "@
}

/// The comment line announcing a described item.
pub open spec fn spec_comment_line(description: Seq<char>) -> Seq<char> {
    "# "@ + description
}

/// All statement and comment lines of one plan item, before dedup.
pub open spec fn spec_item_lines(item: PlanItemV, cargo: Seq<char>, gh: Seq<char>) -> Seq<
    Seq<char>,
> {
    (match item.description {
        Some(d) => seq![spec_comment_line(d)],
        None => Seq::<Seq<char>>::empty(),
    }) + spec_action_lines(item.action, item.continue_on_error, cargo, gh)
}

/// All lines of a plan, in item order, before dedup.
pub open spec fn spec_plan_lines(items: Seq<PlanItemV>, cargo: Seq<char>, gh: Seq<char>) -> Seq<
    Seq<char>,
>
    decreases items.len(),
{
    if items.len() == 0 {
        Seq::empty()
    } else {
        spec_item_lines(items[0], cargo, gh) + spec_plan_lines(items.skip(1), cargo, gh)
    }
}

/// The dedup pass: a line equal to the directory change most recently
/// emitted is dropped; every other line is kept, and a kept directory
/// change becomes the one tracked. Returns the emitted lines and the
/// tracked directory change after the pass.
pub open spec fn spec_dedup(lines: Seq<Seq<char>>, prev_cd: Option<Seq<char>>) -> (Seq<Seq<char>>, Option<
    Seq<char>,
>)
    decreases lines.len(),
{
    if lines.len() == 0 {
        (Seq::empty(), prev_cd)
    } else {
        let l = lines[0];
        if prev_cd == Some(l) {
            spec_dedup(lines.skip(1), prev_cd)
        } else {
            let np = if spec_is_cd(l) {
                Some(l)
            } else {
                prev_cd
            };
            let rest = spec_dedup(lines.skip(1), np);
            (seq![l] + rest.0, rest.1)
        }
    }
}

/// The lines of the assembled script, after dedup.
pub open spec fn spec_script_lines(p: PlanV, cargo: Seq<char>, gh: Seq<char>) -> Seq<Seq<char>> {
    spec_dedup(spec_plan_lines(p.items, cargo, gh), None).0
}

/// Lines joined into text, one newline after each.
pub open spec fn spec_joined_lines(lines: Seq<Seq<char>>) -> Seq<char>
    decreases lines.len(),
{
    if lines.len() == 0 {
        Seq::empty()
    } else {
        lines[0] + "\n"@ + spec_joined_lines(lines.skip(1))
    }
}

/// The whole script: shebang, `set -ev`, then the deduped lines.
pub open spec fn spec_script_text(p: PlanV, cargo: Seq<char>, gh: Seq<char>) -> Seq<char> {
    "#!/bin/sh\n\nset -ev\n\n"@ + spec_joined_lines(spec_script_lines(p, cargo, gh))
}

fn is_cd(line: &String) -> (r: bool)
    ensures
        r == spec_is_cd(line@),
{
    proof {
        reveal_strlit("cd ");
    }
    let s = line.as_str();
    let n = s.unicode_len();
    if n < 3 {
        return false;
    }
    let r = s.get_char(0) == 'c' && s.get_char(1) == 'd' && s.get_char(2) == ' ';
    proof {
        if r {
            assert(line@.subrange(0, 3) =~= "cd "@);
        } else {
            assert(line@.subrange(0, 3) != "cd "@) by {
                if line@.subrange(0, 3) == "cd "@ {
                    assert(line@.subrange(0, 3)[0] == 'c');
                    assert(line@.subrange(0, 3)[1] == 'd');
                    assert(line@.subrange(0, 3)[2] == ' ');
                }
            }
        }
    }
    r
}

/// Appending one line extends the joined text by that line and a newline.
proof fn lemma_joined_snoc(lines: Seq<Seq<char>>, l: Seq<char>)
    ensures
        spec_joined_lines(lines.push(l)) == spec_joined_lines(lines) + l + "\n"@,
    decreases lines.len(),
{
    if lines.len() == 0 {
        assert(lines.push(l).skip(1) =~= lines);
        assert(lines.push(l)[0] == l);
        assert(spec_joined_lines(lines) == Seq::<char>::empty());
        assert(spec_joined_lines(lines.push(l)) =~= spec_joined_lines(lines) + l + "\n"@);
    } else {
        assert(lines.push(l).skip(1) =~= lines.skip(1).push(l));
        assert(lines.push(l)[0] == lines[0]);
        lemma_joined_snoc(lines.skip(1), l);
        let head = lines[0] + "\n"@;
        let mid = spec_joined_lines(lines.skip(1));
        assert(spec_joined_lines(lines.push(l)) == lines[0] + "\n"@ + (mid + l + "\n"@));
        assert(lines[0] + "\n"@ + (mid + l + "\n"@) =~= (lines[0] + "\n"@ + mid) + l + "\n"@);
        assert(spec_joined_lines(lines) == lines[0] + "\n"@ + mid);
    }
}

impl Plan {
    /// Assemble this plan's whole shell script: shebang and `set -ev`
    /// header, a comment line per described item, each item's compiled
    /// statements in item order, and no directory change repeating the one
    /// most recently emitted. `None` would be returned should any item's
    /// action admit no shell representation.
    pub fn as_shell_script(&self, context: &mut Context) -> (r: Option<String>)
        ensures
            *final(context) == *old(context),
            r matches Some(s) && s@ == spec_script_text(
                self@,
                spec_cargo_bin(*old(context)),
                spec_gh_bin(*old(context)),
            ),
    {
        let ghost cargo = spec_cargo_bin(*context);
        let ghost gh = spec_gh_bin(*context);
        let ghost itemsv = self@.items;
        // Gather every item's lines, in order.
        let mut flat: Vec<String> = Vec::new();
        let mut i: usize = 0;
        proof {
            assert(itemsv.skip(0) =~= itemsv);
        }
        while i < self.items.len()
            invariant
                i <= itemsv.len(),
                itemsv == self@.items,
                itemsv.len() == self.items@.len(),
                *context == *old(context),
                cargo == spec_cargo_bin(*context),
                gh == spec_gh_bin(*context),
                flat.deep_view() + spec_plan_lines(itemsv.skip(i as int), cargo, gh)
                    == spec_plan_lines(itemsv, cargo, gh),
            decreases itemsv.len() - i,
        {
            let item = &self.items[i];
            proof {
                assert(itemsv[i as int] == item@);
                assert(itemsv.skip(i as int)[0] == itemsv[i as int]);
                assert(itemsv.skip(i as int).skip(1) =~= itemsv.skip(i + 1));
            }
            let ghost flat0 = flat.deep_view();
            match &item.description {
                Some(d) => {
                    let mut c = "# ".to_owned();
                    c.append(d.as_str());
                    let ghost prev_dv = flat.deep_view();
                    let ghost cv = c@;
                    flat.push(c);
                    proof {
                        assert forall|j: int| 0 <= j < prev_dv.len() implies flat.deep_view()[j]
                            == prev_dv[j] by {}
                        assert(flat.deep_view()[prev_dv.len() as int] == cv);
                        assert(flat.deep_view() =~= prev_dv.push(cv));
                    }
                },
                None => {},
            }
            let cmds = match item.action.as_shell_command(item.continue_on_error, context) {
                Some(cmds) => cmds,
                None => {
                    proof {
                        assert(false);
                    }
                    return None;
                },
            };
            let ghost actv = spec_action_lines(
                itemsv[i as int].action,
                itemsv[i as int].continue_on_error,
                cargo,
                gh,
            );
            assert(cmds.deep_view() == actv);
            let ghost mid = flat.deep_view();
            assert(mid =~= flat0 + (match itemsv[i as int].description {
                Some(d) => seq![spec_comment_line(d)],
                None => Seq::<Seq<char>>::empty(),
            }));
            let mut j: usize = 0;
            while j < cmds.len()
                invariant
                    j <= cmds@.len(),
                    cmds.deep_view() == actv,
                    flat.deep_view() == mid + actv.subrange(0, j as int),
                decreases cmds@.len() - j,
            {
                let ghost prev_dv = flat.deep_view();
                let ghost lv = cmds@[j as int]@;
                flat.push(cmds[j].clone());
                proof {
                    assert(lv == actv[j as int]);
                    assert forall|k: int| 0 <= k < prev_dv.len() implies flat.deep_view()[k]
                        == prev_dv[k] by {}
                    assert(flat.deep_view()[prev_dv.len() as int] == lv);
                    assert(flat.deep_view() =~= prev_dv.push(lv));
                    assert(actv.subrange(0, j + 1) =~= actv.subrange(0, j as int).push(
                        actv[j as int],
                    ));
                    assert(flat.deep_view() =~= mid + actv.subrange(0, j + 1));
                }
                j += 1;
            }
            proof {
                assert(actv.subrange(0, actv.len() as int) =~= actv);
                assert(flat.deep_view() =~= flat0 + spec_item_lines(itemsv[i as int], cargo, gh));
                assert(flat.deep_view() + spec_plan_lines(itemsv.skip(i + 1), cargo, gh)
                    =~= spec_plan_lines(itemsv, cargo, gh));
            }
            i += 1;
        }
        proof {
            assert(spec_plan_lines(itemsv.skip(itemsv.len() as int), cargo, gh)
                == Seq::<Seq<char>>::empty());
            assert(flat.deep_view() + Seq::<Seq<char>>::empty() =~= flat.deep_view());
        }
        let ghost flat_all = flat.deep_view();
        assert(flat_all == spec_plan_lines(itemsv, cargo, gh));
        // Dedup pass.
        let mut out: Vec<String> = Vec::new();
        let mut prev_cd: Option<String> = None;
        let ghost target = spec_dedup(flat_all, None).0;
        let mut i: usize = 0;
        proof {
            assert(flat_all.skip(0) =~= flat_all);
        }
        while i < flat.len()
            invariant
                i <= flat_all.len(),
                flat.deep_view() == flat_all,
                flat_all.len() == flat@.len(),
                target == spec_dedup(flat_all, None).0,
                out.deep_view() + spec_dedup(
                    flat_all.skip(i as int),
                    crate::actions::view_opt_string(prev_cd),
                ).0 == target,
            decreases flat_all.len() - i,
        {
            let ghost pv = crate::actions::view_opt_string(prev_cd);
            let line = &flat[i];
            proof {
                assert(flat_all.skip(i as int)[0] == flat_all[i as int]);
                assert(flat_all.skip(i as int).skip(1) =~= flat_all.skip(i + 1));
                assert(flat_all[i as int] == line@);
            }
            let same = match &prev_cd {
                Some(p) => *p == *line,
                None => false,
            };
            assert(same == (pv == Some(line@)));
            if !same {
                if is_cd(line) {
                    prev_cd = Some(line.clone());
                }
                let ghost prev_dv = out.deep_view();
                let ghost lv = line@;
                out.push(line.clone());
                proof {
                    assert forall|k: int| 0 <= k < prev_dv.len() implies out.deep_view()[k]
                        == prev_dv[k] by {}
                    assert(out.deep_view()[prev_dv.len() as int] == lv);
                    assert(out.deep_view() =~= prev_dv.push(lv));
                    let np = crate::actions::view_opt_string(prev_cd);
                    assert(spec_dedup(flat_all.skip(i as int), pv).0 == seq![lv] + spec_dedup(
                        flat_all.skip(i + 1),
                        np,
                    ).0);
                    assert(prev_dv.push(lv) + spec_dedup(flat_all.skip(i + 1), np).0
                        =~= prev_dv + (seq![lv] + spec_dedup(flat_all.skip(i + 1), np).0));
                }
            }
            i += 1;
        }
        proof {
            assert(spec_dedup(
                flat_all.skip(flat_all.len() as int),
                crate::actions::view_opt_string(prev_cd),
            ).0 == Seq::<Seq<char>>::empty());
            assert(out.deep_view() + Seq::<Seq<char>>::empty() =~= out.deep_view());
            assert(out.deep_view() == target);
        }
        // Join into the script text.
        let mut text = "#!/bin/sh\n\nset -ev\n\n".to_owned();
        let ghost header = text@;
        let mut i: usize = 0;
        while i < out.len()
            invariant
                i <= out@.len(),
                out.deep_view() == target,
                out@.len() == target.len(),
                text@ == header + spec_joined_lines(target.subrange(0, i as int)),
            decreases out@.len() - i,
        {
            text.append(out[i].as_str());
            text.append("\n");
            proof {
                lemma_joined_snoc(target.subrange(0, i as int), target[i as int]);
                assert(target.subrange(0, i + 1) =~= target.subrange(0, i as int).push(
                    target[i as int],
                ));
                assert(text@ =~= header + spec_joined_lines(target.subrange(0, i + 1)));
            }
            i += 1;
        }
        proof {
            assert(target.subrange(0, target.len() as int) =~= target);
        }
        Some(text)
    }
}


/// A comment line is never a directory change.
proof fn lemma_comment_not_cd(d: Seq<char>)
    ensures
        !spec_is_cd(spec_comment_line(d)),
{
    reveal_strlit("# ");
    reveal_strlit("cd ");
    if spec_is_cd(spec_comment_line(d)) {
        assert(spec_comment_line(d).subrange(0, 3)[0] == 'c');
        assert(spec_comment_line(d)[0] == '#');
    }
}

/// A directory-change statement is recognized as one.
proof fn lemma_cd_is_cd(repository: Seq<char>)
    ensures
        spec_is_cd(crate::compile::spec_cd_line(repository)),
{
    reveal_strlit("cd ");
    let l = crate::compile::spec_cd_line(repository);
    assert(l.len() >= 3);
    assert(l.subrange(0, 3) =~= "cd "@);
}

/// Nonempty compiled statement sequences open with the directory change
/// into the action's repository.
pub proof fn lemma_action_lines_head(a: ActionV, coe: bool, cargo: Seq<char>, gh: Seq<char>)
    requires
        spec_action_lines(a, coe, cargo, gh).len() > 0,
    ensures
        spec_action_lines(a, coe, cargo, gh)[0] == crate::compile::spec_cd_line(a.repository()),
{
    match a {
        ActionV::CratesIO { repository, inner } => {},
        ActionV::Github { repository, inner } => {},
        ActionV::Local { repository, inner } => {},
    }
}

/// Lines that are no directory change and differ from the tracked one pass
/// through the dedup unchanged and leave its state alone.
proof fn lemma_dedup_transparent(lines: Seq<Seq<char>>, p: Option<Seq<char>>)
    requires
        forall|k: int| 0 <= k < lines.len() ==> !spec_is_cd(#[trigger] lines[k]) && Some(lines[k])
            != p,
    ensures
        spec_dedup(lines, p) == (lines, p),
    decreases lines.len(),
{
    if lines.len() == 0 {
        assert(spec_dedup(lines, p).0 =~= lines);
    } else {
        assert(!spec_is_cd(lines[0]) && Some(lines[0]) != p);
        lemma_dedup_transparent(lines.skip(1), p);
        assert(spec_dedup(lines, p).0 =~= lines);
    }
}

/// The dedup of concatenated line sequences: the first sequence's pass
/// hands its tracked state to the second's.
proof fn lemma_dedup_append(xs: Seq<Seq<char>>, ys: Seq<Seq<char>>, p: Option<Seq<char>>)
    ensures
        spec_dedup(xs + ys, p).0 == spec_dedup(xs, p).0 + spec_dedup(ys, spec_dedup(xs, p).1).0,
        spec_dedup(xs + ys, p).1 == spec_dedup(ys, spec_dedup(xs, p).1).1,
    decreases xs.len(),
{
    if xs.len() == 0 {
        assert(xs + ys =~= ys);
        assert(spec_dedup(xs, p).0 =~= Seq::<Seq<char>>::empty());
        assert(spec_dedup(xs, p).0 + spec_dedup(ys, p).0 =~= spec_dedup(ys, p).0);
    } else {
        let l = xs[0];
        assert((xs + ys)[0] == l);
        assert((xs + ys).skip(1) =~= xs.skip(1) + ys);
        if p == Some(l) {
            lemma_dedup_append(xs.skip(1), ys, p);
        } else {
            let np = if spec_is_cd(l) {
                Some(l)
            } else {
                p
            };
            lemma_dedup_append(xs.skip(1), ys, np);
            assert(seq![l] + (spec_dedup(xs.skip(1), np).0 + spec_dedup(
                ys,
                spec_dedup(xs.skip(1), np).1,
            ).0) =~= (seq![l] + spec_dedup(xs.skip(1), np).0) + spec_dedup(
                ys,
                spec_dedup(xs.skip(1), np).1,
            ).0);
        }
    }
}

/// Consecutive items targeting the same repository share one directory
/// change: in the script of a two-item plan whose items are bound to the
/// same repository, the second item's opening directory change repeats the
/// first's and is suppressed, and every other line is kept. (The
/// hypothesis that no later statement is itself a directory change rules
/// out a tool resolved to a binary literally named "cd".)
pub proof fn lemma_two_items_one_cd(i1: PlanItemV, i2: PlanItemV, cargo: Seq<char>, gh: Seq<char>)
    requires
        i1.action.repository() == i2.action.repository(),
        spec_action_lines(i1.action, i1.continue_on_error, cargo, gh).len() > 0,
        spec_action_lines(i2.action, i2.continue_on_error, cargo, gh).len() > 0,
        forall|k: int|
            1 <= k < spec_action_lines(i1.action, i1.continue_on_error, cargo, gh).len()
                ==> !spec_is_cd(#[trigger] spec_action_lines(
                i1.action,
                i1.continue_on_error,
                cargo,
                gh,
            )[k]),
        forall|k: int|
            1 <= k < spec_action_lines(i2.action, i2.continue_on_error, cargo, gh).len()
                ==> !spec_is_cd(#[trigger] spec_action_lines(
                i2.action,
                i2.continue_on_error,
                cargo,
                gh,
            )[k]),
    ensures
        spec_script_lines(PlanV { items: seq![i1, i2] }, cargo, gh) == spec_item_lines(
            i1,
            cargo,
            gh,
        ) + (match i2.description {
            Some(d) => seq![spec_comment_line(d)],
            None => Seq::<Seq<char>>::empty(),
        }) + spec_action_lines(i2.action, i2.continue_on_error, cargo, gh).skip(1),
{
    let repo = i1.action.repository();
    let cd = crate::compile::spec_cd_line(repo);
    let a1 = spec_action_lines(i1.action, i1.continue_on_error, cargo, gh);
    let a2 = spec_action_lines(i2.action, i2.continue_on_error, cargo, gh);
    let c1 = match i1.description {
        Some(d) => seq![spec_comment_line(d)],
        None => Seq::<Seq<char>>::empty(),
    };
    let c2 = match i2.description {
        Some(d) => seq![spec_comment_line(d)],
        None => Seq::<Seq<char>>::empty(),
    };
    lemma_action_lines_head(i1.action, i1.continue_on_error, cargo, gh);
    lemma_action_lines_head(i2.action, i2.continue_on_error, cargo, gh);
    lemma_cd_is_cd(repo);
    // The flat line sequence of the two-item plan.
    let items = seq![i1, i2];
    assert(items.skip(1) =~= seq![i2]);
    assert(seq![i2].skip(1) =~= Seq::<PlanItemV>::empty());
    assert(spec_plan_lines(Seq::<PlanItemV>::empty(), cargo, gh) == Seq::<Seq<char>>::empty());
    let il1 = spec_item_lines(i1, cargo, gh);
    let il2 = spec_item_lines(i2, cargo, gh);
    assert(spec_plan_lines(seq![i2], cargo, gh) =~= il2);
    assert(items[0] == i1);
    assert(spec_plan_lines(items, cargo, gh) == spec_item_lines(items[0], cargo, gh)
        + spec_plan_lines(items.skip(1), cargo, gh));
    assert(spec_plan_lines(items, cargo, gh) =~= il1 + il2);
    // First item: comment kept, directory change kept and tracked, rest kept.
    match i1.description {
        Some(d) => {
            lemma_comment_not_cd(d);
        },
        None => {},
    }
    lemma_dedup_transparent(c1, None);
    lemma_dedup_append(c1, a1, None);
    assert(il1 =~= c1 + a1);
    assert(a1[0] == cd);
    assert forall|k: int| 0 <= k < a1.skip(1).len() implies !spec_is_cd(#[trigger] a1.skip(1)[k])
        && Some(a1.skip(1)[k]) != Some(cd) by {
        assert(a1.skip(1)[k] == a1[k + 1]);
    }
    lemma_dedup_transparent(a1.skip(1), Some(cd));
    assert(spec_dedup(a1, None).0 =~= a1);
    assert(spec_dedup(a1, None).1 == Some(cd));
    assert(spec_dedup(il1, None).0 =~= il1);
    assert(spec_dedup(il1, None).1 == Some(cd));
    // Second item: comment kept, directory change suppressed, rest kept.
    match i2.description {
        Some(d) => {
            lemma_comment_not_cd(d);
        },
        None => {},
    }
    lemma_dedup_transparent(c2, Some(cd));
    lemma_dedup_append(c2, a2, Some(cd));
    assert(il2 =~= c2 + a2);
    assert(a2[0] == cd);
    assert forall|k: int| 0 <= k < a2.skip(1).len() implies !spec_is_cd(#[trigger] a2.skip(1)[k])
        && Some(a2.skip(1)[k]) != Some(cd) by {
        assert(a2.skip(1)[k] == a2[k + 1]);
    }
    lemma_dedup_transparent(a2.skip(1), Some(cd));
    assert(spec_dedup(a2, Some(cd)) == spec_dedup(a2.skip(1), Some(cd)));
    assert(spec_dedup(il2, Some(cd)).0 =~= c2 + a2.skip(1));
    // The whole plan.
    lemma_dedup_append(il1, il2, None);
    assert(spec_dedup(il1 + il2, None).0 =~= il1 + (c2 + a2.skip(1)));
    assert(spec_script_lines(PlanV { items }, cargo, gh) =~= il1 + c2 + a2.skip(1));
}

/// Whether an item's failure is fatal to the whole plan.
pub open spec fn spec_fatal(continue_on_error: bool, failed: bool) -> bool {
    failed && !continue_on_error
}

/// What the runner does after an item: go on to the next item, or abort
/// the plan.
#[derive(Debug, Clone, Copy, PartialEq, Eq, Structural)]
pub enum ItemDecision {
    Proceed,
    Abort,
}

/// Decide an item's aftermath: abort exactly when the item failed and was
/// not marked continue-on-error. On any other outcome the plan proceeds —
/// a failure under continue-on-error is reported and the next item runs.
pub fn item_decision(continue_on_error: bool, failed: bool) -> (r: ItemDecision)
    ensures
        r is Abort <==> spec_fatal(continue_on_error, failed),
{
    if failed && !continue_on_error {
        ItemDecision::Abort
    } else {
        ItemDecision::Proceed
    }
}

/// How many items of a plan run, given which of them would fail: items run
/// in order until the first fatal failure, which is the last item to run.
pub open spec fn spec_executed_count(items: Seq<PlanItemV>, fails: Seq<bool>) -> nat
    decreases items.len(),
{
    if items.len() == 0 {
        0
    } else if spec_fatal(items[0].continue_on_error, fails[0]) {
        1
    } else {
        1 + spec_executed_count(items.skip(1), fails.skip(1))
    }
}

/// The continue-on-error policy: items run strictly in order; every item
/// before the last executed one was non-fatal (failed items among them
/// were marked continue-on-error and the plan proceeded); and if the run
/// stops short of the whole plan, the last executed item was fatal — no
/// later item runs.
pub proof fn lemma_run_policy(items: Seq<PlanItemV>, fails: Seq<bool>)
    requires
        fails.len() == items.len(),
    ensures
        spec_executed_count(items, fails) <= items.len(),
        forall|i: int|
            0 <= i < spec_executed_count(items, fails) - 1 ==> !spec_fatal(
                items[i].continue_on_error,
                #[trigger] fails[i],
            ),
        spec_executed_count(items, fails) < items.len() ==> spec_fatal(
            items[spec_executed_count(items, fails) - 1].continue_on_error,
            fails[spec_executed_count(items, fails) - 1],
        ),
    decreases items.len(),
{
    if items.len() == 0 {
    } else if spec_fatal(items[0].continue_on_error, fails[0]) {
    } else {
        lemma_run_policy(items.skip(1), fails.skip(1));
        let k = spec_executed_count(items, fails);
        let k1 = spec_executed_count(items.skip(1), fails.skip(1));
        assert(k == k1 + 1);
        assert forall|i: int| 0 <= i < k - 1 implies !spec_fatal(
            items[i].continue_on_error,
            #[trigger] fails[i],
        ) by {
            if i > 0 {
                assert(items.skip(1)[i - 1] == items[i]);
                assert(fails.skip(1)[i - 1] == fails[i]);
            }
        }
        if k < items.len() {
            assert(items.skip(1)[k1 - 1] == items[k - 1]);
            assert(fails.skip(1)[k1 - 1] == fails[k - 1]);
        }
    }
}

} // verus!
