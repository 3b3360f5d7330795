//! The victory screen: shown once the last level is cleared, with the
//! attempt's death count and a remark for notable totals.

use vstd::prelude::*;
use vstd::string::StringExecFns;

use crate::progress::append_dec;
use crate::progress::dec_digits;
use crate::states::GameState;

verus! {

/// The remark appended to the death count on the victory screen.
pub open spec fn death_comment_spec(total: usize) -> Seq<char> {
    if total == 0 {
        " - flawless!"@
    } else if total == 69 {
        " - nice"@
    } else if total == 42 {
        " - the answer!"@
    } else if total == 100 {
        " - centurion!"@
    } else if total > 200 {
        " - respect for perseverance!"@
    } else {
        ""@
    }
}

/// Pick the remark for a death total.
pub fn death_comment(total: usize) -> (s: &'static str)
    ensures
        s@ == death_comment_spec(total),
{
    if total == 0 {
        " - flawless!"
    } else if total == 69 {
        " - nice"
    } else if total == 42 {
        " - the answer!"
    } else if total == 100 {
        " - centurion!"
    } else if total > 200 {
        " - respect for perseverance!"
    } else {
        ""
    }
}

/// What the engine must do after a victory frame: return to the menu and
/// discard the attempt's death counter.
#[derive(Clone, Copy, Debug)]
pub struct VictoryOutcome {
    pub next_state: Option<GameState>,
    pub discard_deaths: bool,
}

/// Confirm the victory screen: back to the menu, the death counter is done
/// with; without a confirmation nothing happens.
pub fn victory_action(activate: bool) -> (o: VictoryOutcome)
    ensures
        activate ==> o.next_state == Some(GameState::Menu) && o.discard_deaths,
        !activate ==> o.next_state is None && !o.discard_deaths,
{
    if activate {
        VictoryOutcome { next_state: Some(GameState::Menu), discard_deaths: true }
    } else {
        VictoryOutcome { next_state: None, discard_deaths: false }
    }
}

/// The headline of the victory screen: the death total and its remark.
pub open spec fn victory_text_spec(total: usize) -> Seq<char> {
    "You died: "@ + dec_digits(total as int) + death_comment_spec(total)
}

/// Render the victory headline.
pub fn victory_text(total: usize) -> (s: String)
    ensures
        s@ == victory_text_spec(total),
{
    let mut s = String::from_str("You died: ");
    append_dec(&mut s, total);
    let comment = death_comment(total);
    s.append(comment);
    proof {
        assert(s@ =~= victory_text_spec(total));
    }
    s
}

} // verus!
