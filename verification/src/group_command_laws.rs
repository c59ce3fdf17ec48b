//! What each command of a group sends, and what its members say and remember, from its arguments
//! and what is known of the members.
use vstd::prelude::*;

use crate::command_laws::{
    brings_to, colors, is_known, keeps_level, lemma_brings_to, lemma_remembered, lemma_stated,
    lemma_switches, lemma_whitens, ramp_asked, says_level, switches, whitens,
};
use crate::group::{GroupMemberView, MemberCallsView};
use crate::group_command::{group_command, group_plan, highest, level_of, on_now};
use crate::host::CallView;
use crate::json::{Json, Number};
use crate::law_terms::{count_in, held, inner, member, names_in, tells, truth_in};
use crate::light::{remembered, stated, tint_stated, Pair};

verus! {

/// The words that laws tell apart are different.
proof fn lemma_words()
    ensures
        "on"@.len() == 2 && "on"@[0] == 'o',
        "off"@.len() == 3 && "off"@[0] == 'o',
        "toggle"@.len() == 6 && "toggle"@[0] == 't',
        "set_level"@.len() == 9 && "set_level"@[0] == 's' && "set_level"@[4] == 'l',
        "set_cct"@.len() == 7 && "set_cct"@[0] == 's',
        "set_color"@.len() == 9 && "set_color"@[0] == 's' && "set_color"@[4] == 'c',
        "ramp_start"@.len() == 10,
        "ramp_stop"@.len() == 9 && "ramp_stop"@[0] == 'r',
        "level"@.len() == 5 && "level"@[0] == 'l',
        "kelvin"@.len() == 6 && "kelvin"@[0] == 'k',
        "hue"@.len() == 3 && "hue"@[0] == 'h',
        "sat"@.len() == 3 && "sat"@[0] == 's',
        "ramp_ms"@.len() == 7 && "ramp_ms"@[0] == 'r',
        "direction"@.len() == 9 && "direction"@[0] == 'd',
        "cct_changed"@.len() == 11,
        "color_changed"@.len() == 13,
        "color"@.len() == 5 && "color"@[0] == 'c',
        "xy"@.len() == 2 && "xy"@[0] == 'x',
        "x"@.len() == 1 && "x"@[0] == 'x',
        "y"@.len() == 1 && "y"@[0] == 'y',
        "up"@.len() == 2 && "up"@[0] == 'u',
{
    reveal_strlit("on");
    reveal_strlit("off");
    reveal_strlit("toggle");
    reveal_strlit("set_level");
    reveal_strlit("set_cct");
    reveal_strlit("set_color");
    reveal_strlit("ramp_start");
    reveal_strlit("ramp_stop");
    reveal_strlit("level");
    reveal_strlit("kelvin");
    reveal_strlit("hue");
    reveal_strlit("sat");
    reveal_strlit("ramp_ms");
    reveal_strlit("direction");
    reveal_strlit("cct_changed");
    reveal_strlit("color_changed");
    reveal_strlit("color");
    reveal_strlit("xy");
    reveal_strlit("x");
    reveal_strlit("y");
    reveal_strlit("up");
}

/// Whether a member is lit: it is shown at a level above 0, or remembered on.
pub open spec fn is_lit(m: GroupMemberView) -> bool {
    ||| count_in(held(m.state, "level"@)) matches Some(level) && level > 0
    ||| truth_in(held(m.instance.scratch, "on"@)) == Some(true)
}

/// The level at which a member comes back: the one remembered, else the one shown, else full
/// brightness, and from 1 to 100 in any case.
pub open spec fn own_level(m: GroupMemberView) -> int {
    let level: int = match (
        count_in(held(m.instance.scratch, "level"@)),
        count_in(held(m.state, "level"@)),
    ) {
        (Some(level), _) => level as int,
        (None, Some(level)) => level as int,
        (None, None) => 100,
    };
    if level < 1 {
        1
    } else if level > 100 {
        100
    } else {
        level
    }
}

/// Whether a member answers that it goes to a level.
pub open spec fn answers_level(m: GroupMemberView, answer: MemberCallsView, level: int) -> bool {
    &&& answer.device == m.device
    &&& says_level(answer.calls, 0, level)
    &&& answer.scratch matches Some(after) && keeps_level(m.instance.scratch, after, level)
}

/// Whether every member answers that it goes to one level.
pub open spec fn all_go_to(
    members: Seq<GroupMemberView>,
    answers: Seq<MemberCallsView>,
    level: int,
) -> bool {
    &&& answers.len() == members.len()
    &&& forall|i: int|
        0 <= i < members.len() ==> answers_level(members[i], #[trigger] answers[i], level)
}

/// Whether every member answers that it comes back at its own level.
pub open spec fn all_come_back(
    members: Seq<GroupMemberView>,
    answers: Seq<MemberCallsView>,
) -> bool {
    &&& answers.len() == members.len()
    &&& forall|i: int|
        0 <= i < members.len() ==> answers_level(
            members[i],
            #[trigger] answers[i],
            own_level(members[i]),
        )
}

proof fn lemma_answers(
    members: Seq<GroupMemberView>,
    cmd: Seq<char>,
    args: Map<Seq<char>, Json>,
    xy: Pair,
    i: int,
    level: u8,
)
    requires
        0 <= i < members.len(),
        cmd != "set_cct"@,
        cmd != "set_color"@,
        group_command(members, cmd, args, xy) matches Ok((body, answers)) && answers[i].scratch
            == Some(remembered(members[i].instance.scratch, level)) && answers[i].calls == stated(
            level,
        ) + tint_stated(members[i].proxy, cmd, args),
    ensures
        group_command(members, cmd, args, xy) matches Ok((body, answers)) && answers_level(
            members[i],
            answers[i],
            level as int,
        ),
{
    assert(tint_stated(members[i].proxy, cmd, args) =~= Seq::empty());
    let (body, answers) = group_command(members, cmd, args, xy)->Ok_0;
    assert(answers[i].calls =~= stated(level));
    lemma_stated(answers[i].calls, 0, level);
    lemma_remembered(members[i].instance.scratch, level);
}

proof fn lemma_all_go_to(
    members: Seq<GroupMemberView>,
    cmd: Seq<char>,
    args: Map<Seq<char>, Json>,
    xy: Pair,
    level: u8,
)
    requires
        cmd != "set_cct"@,
        cmd != "set_color"@,
        group_plan(members, cmd, args, xy) matches Some(plan) && !plan.restore_each && plan.shared
            == Some(level),
    ensures
        group_command(members, cmd, args, xy) matches Ok((body, answers)) && all_go_to(
            members,
            answers,
            level as int,
        ),
{
    let (body, answers) = group_command(members, cmd, args, xy)->Ok_0;
    assert forall|i: int| 0 <= i < members.len() implies answers_level(
        members[i],
        #[trigger] answers[i],
        level as int,
    ) by {
        lemma_answers(members, cmd, args, xy, i, level);
    }
}

proof fn lemma_all_come_back(
    members: Seq<GroupMemberView>,
    cmd: Seq<char>,
    args: Map<Seq<char>, Json>,
    xy: Pair,
)
    requires
        cmd != "set_cct"@,
        cmd != "set_color"@,
        group_plan(members, cmd, args, xy) matches Some(plan) && plan.restore_each,
    ensures
        group_command(members, cmd, args, xy) matches Ok((body, answers)) && all_come_back(
            members,
            answers,
        ),
{
    let (body, answers) = group_command(members, cmd, args, xy)->Ok_0;
    assert forall|i: int| 0 <= i < members.len() implies answers_level(
        members[i],
        #[trigger] answers[i],
        own_level(members[i]),
    ) by {
        assert(level_of(members[i]) == own_level(members[i]));
        lemma_answers(members, cmd, args, xy, i, level_of(members[i]));
    }
}

/// `on` of a group only switches it on, and each light comes back at its own level.
pub proof fn law_a_group_is_switched_on(
    members: Seq<GroupMemberView>,
    args: Map<Seq<char>, Json>,
    xy: Pair,
)
    ensures
        group_command(members, "on"@, args, xy) matches Ok((body, answers)) && switches(
            body,
            true,
            ramp_asked(args),
        ) && all_come_back(members, answers),
{
    lemma_words();
    lemma_switches(true, ramp_asked(args));
    lemma_all_come_back(members, "on"@, args, xy);
}

/// `off` of a group only switches it off.
pub proof fn law_a_group_is_switched_off(
    members: Seq<GroupMemberView>,
    args: Map<Seq<char>, Json>,
    xy: Pair,
)
    ensures
        group_command(members, "off"@, args, xy) matches Ok((body, answers)) && switches(
            body,
            false,
            ramp_asked(args),
        ) && all_go_to(members, answers, 0),
{
    lemma_words();
    lemma_switches(false, ramp_asked(args));
    lemma_all_go_to(members, "off"@, args, xy, 0);
}

/// A group in which any light is lit toggles off: whichever member it is, the group is switched
/// off and every member says so.
pub proof fn law_one_lit_light_toggles_the_group_off(
    members: Seq<GroupMemberView>,
    args: Map<Seq<char>, Json>,
    xy: Pair,
    i: int,
)
    requires
        0 <= i < members.len(),
        is_lit(members[i]),
    ensures
        group_command(members, "toggle"@, args, xy) matches Ok((body, answers)) && switches(
            body,
            false,
            ramp_asked(args),
        ) && all_go_to(members, answers, 0),
{
    lemma_words();
    lemma_switches(false, ramp_asked(args));
    assert(on_now(members[i]));
    lemma_all_go_to(members, "toggle"@, args, xy, 0);
}

/// A group in which no light is lit toggles on, and each light comes back at its own level.
pub proof fn law_a_dark_group_toggles_on(
    members: Seq<GroupMemberView>,
    args: Map<Seq<char>, Json>,
    xy: Pair,
)
    requires
        forall|i: int| 0 <= i < members.len() ==> !is_lit(#[trigger] members[i]),
    ensures
        group_command(members, "toggle"@, args, xy) matches Ok((body, answers)) && switches(
            body,
            true,
            ramp_asked(args),
        ) && all_come_back(members, answers),
{
    lemma_words();
    lemma_switches(true, ramp_asked(args));
    assert forall|i: int| 0 <= i < members.len() implies !on_now(#[trigger] members[i]) by {
        assert(!is_lit(members[i]));
    }
    lemma_all_come_back(members, "toggle"@, args, xy);
}

/// `set_level` brings a whole group to the level that is asked for, at most 100; to 0, which is
/// off, where none is.
pub proof fn law_a_group_is_brought_to_a_level(
    members: Seq<GroupMemberView>,
    args: Map<Seq<char>, Json>,
    xy: Pair,
    level: int,
)
    requires
        level == match count_in(held(args, "level"@)) {
            Some(n) => if n > 100 {
                100
            } else {
                n as int
            },
            None => 0,
        },
    ensures
        group_command(members, "set_level"@, args, xy) matches Ok((body, answers)) && brings_to(
            body,
            level,
            ramp_asked(args),
        ) && all_go_to(members, answers, level),
{
    lemma_words();
    lemma_brings_to(level as u8, ramp_asked(args));
    lemma_all_go_to(members, "set_level"@, args, xy, level as u8);
}

/// A ramp of a group is a fade of four seconds, up to full brightness or down to the dimmest.
pub proof fn law_a_group_ramps(
    members: Seq<GroupMemberView>,
    args: Map<Seq<char>, Json>,
    xy: Pair,
    level: int,
)
    requires
        level == if held(args, "direction"@) == Some(Json::Str("up"@)) {
            100int
        } else {
            1int
        },
    ensures
        group_command(members, "ramp_start"@, args, xy) matches Ok((body, answers)) && brings_to(
            body,
            level,
            Some(4000),
        ) && all_go_to(members, answers, level),
{
    lemma_words();
    lemma_brings_to(level as u8, Some(4000));
    lemma_all_go_to(members, "ramp_start"@, args, xy, level as u8);
}

proof fn lemma_highest(members: Seq<GroupMemberView>)
    requires
        members.len() > 0,
    ensures
        forall|i: int|
            0 <= i < members.len() ==> own_level(#[trigger] members[i]) <= highest(members),
        exists|i: int|
            0 <= i < members.len() && own_level(#[trigger] members[i]) == highest(members),
    decreases members.len(),
{
    let rest = members.drop_last();
    let last = members.last();
    assert(level_of(last) == own_level(last));
    assert(members[members.len() - 1] == last);
    if rest.len() > 0 {
        lemma_highest(rest);
        assert forall|i: int| 0 <= i < members.len() implies own_level(#[trigger] members[i])
            <= highest(members) by {
            if i < rest.len() {
                assert(rest[i] == members[i]);
            }
        }
        let k = choose|k: int|
            0 <= k < rest.len() && own_level(#[trigger] rest[k]) == highest(rest);
        assert(members[k] == rest[k]);
    } else {
        assert(highest(rest) == 0);
    }
}

/// Stopping the ramp of a group brings all of it to one level: the highest of the members' own,
/// or full brightness where there is no member.
pub proof fn law_a_group_stops_at_its_highest_level(
    members: Seq<GroupMemberView>,
    args: Map<Seq<char>, Json>,
    xy: Pair,
) -> (level: int)
    ensures
        members.len() == 0 ==> level == 100,
        forall|i: int| 0 <= i < members.len() ==> own_level(#[trigger] members[i]) <= level,
        members.len() > 0 ==> exists|i: int|
            0 <= i < members.len() && own_level(#[trigger] members[i]) == level,
        group_command(members, "ramp_stop"@, args, xy) matches Ok((body, answers)) && brings_to(
            body,
            level,
            Some(4000),
        ) && all_go_to(members, answers, level),
{
    lemma_words();
    let level: u8 = if members.len() == 0 {
        100
    } else {
        lemma_highest(members);
        highest(members)
    };
    lemma_brings_to(level, Some(4000));
    lemma_all_go_to(members, "ramp_stop"@, args, xy, level);
    level as int
}

/// Whether a member answers on its own binding, and remembers nothing new.
pub open spec fn answers_tint(m: GroupMemberView, answer: MemberCallsView) -> bool {
    &&& answer.device == m.device
    &&& answer.scratch == Some(m.instance.scratch)
    &&& forall|i: int|
        0 <= i < answer.calls.len() ==> (#[trigger] answer.calls[i] matches CallView::Notify {
            proxy,
            ..
        } && proxy == m.proxy)
}

/// `set_cct` sets the white of a whole group, and each member says it on its own binding if it was
/// asked for.
pub proof fn law_a_group_is_set_to_a_white(
    members: Seq<GroupMemberView>,
    args: Map<Seq<char>, Json>,
    xy: Pair,
    asked: Option<u64>,
    kelvin: int,
    i: int,
)
    requires
        asked == count_in(held(args, "kelvin"@)),
        kelvin == match asked {
            Some(0) => 1,
            Some(k) => k as int,
            None => 2700,
        },
        0 <= i < members.len(),
    ensures
        group_command(members, "set_cct"@, args, xy) matches Ok((body, answers)) && {
            &&& whitens(body, kelvin)
            &&& answers.len() == members.len()
            &&& answers_tint(members[i], answers[i])
            &&& match asked {
                Some(k) => answers[i].calls.len() == 1 && tells(
                    answers[i].calls[0],
                    members[i].proxy,
                    "cct_changed"@,
                    "kelvin"@,
                    Json::Number(Number::PosInt(k)),
                ),
                None => answers[i].calls.len() == 0,
            }
        },
{
    lemma_words();
    let k = match asked {
        Some(k) => k,
        None => 2700,
    };
    lemma_whitens(k);
    let (body, answers) = group_command(members, "set_cct"@, args, xy)->Ok_0;
    if answers[i].calls.len() > 0 {
        match answers[i].calls[0] {
            CallView::Notify { args, .. } => assert(args.dom() =~= set!["kelvin"@]),
            _ => {},
        }
    }
}

/// `set_color` sets a whole group to the point that is given, and each member says the hue and
/// saturation on its own binding as they were asked for.
pub proof fn law_a_group_is_set_to_a_color(
    members: Seq<GroupMemberView>,
    args: Map<Seq<char>, Json>,
    xy: Pair,
    i: int,
)
    requires
        0 <= i < members.len(),
    ensures
        group_command(members, "set_color"@, args, xy) matches Ok((body, answers)) && {
            let nought = Json::Number(Number::Float(0));
            &&& colors(body, xy)
            &&& answers.len() == members.len()
            &&& answers_tint(members[i], answers[i])
            &&& answers[i].calls.len() == 1
            &&& answers[i].calls[0] matches CallView::Notify { name, args: said, .. }
            &&& name == "color_changed"@
            &&& said.dom() == set!["hue"@, "sat"@]
            &&& said["hue"@] == match held(args, "hue"@) {
                Some(hue) => hue,
                None => nought,
            }
            &&& said["sat"@] == match held(args, "sat"@) {
                Some(sat) => sat,
                None => nought,
            }
        },
{
    lemma_words();
    let (body, answers) = group_command(members, "set_color"@, args, xy)->Ok_0;
    assert(names_in(body) =~= set!["color"@]);
    let point = inner(member(body, "color"@), "xy"@)->0;
    assert(names_in(point) =~= set!["x"@, "y"@]);
    match answers[i].calls[0] {
        CallView::Notify { args: said, .. } => assert(said.dom() =~= set!["hue"@, "sat"@]),
        _ => {},
    }
}

/// A group is refused exactly the commands that a light does not know, by name.
pub proof fn law_a_group_refuses_what_it_does_not_know(
    members: Seq<GroupMemberView>,
    cmd: Seq<char>,
    args: Map<Seq<char>, Json>,
    xy: Pair,
)
    ensures
        is_known(cmd) <==> group_command(members, cmd, args, xy) is Ok,
        !is_known(cmd) ==> group_command(members, cmd, args, xy) == Err::<
            (Json, Seq<MemberCallsView>),
            Seq<char>,
        >("Hue grouped control does not support `"@ + cmd + "`"@),
{
}

} // verus!
