use vstd::prelude::*;

verus! {

/// The screens of the dashboard, visited in a fixed cycle:
/// Splash, AnimatingIntro, Graph, AnimatingZoom, Detail, then Splash again.
#[derive(Clone, Copy, Debug, PartialEq, Eq, Structural)]
pub enum StateMachine {
    Splash,
    AnimatingIntro,
    Graph,
    AnimatingZoom,
    Detail,
}

/// The screen that follows `s` in the cycle.
pub open spec fn next_state(s: StateMachine) -> StateMachine {
    match s {
        StateMachine::Splash => StateMachine::AnimatingIntro,
        StateMachine::AnimatingIntro => StateMachine::Graph,
        StateMachine::Graph => StateMachine::AnimatingZoom,
        StateMachine::AnimatingZoom => StateMachine::Detail,
        StateMachine::Detail => StateMachine::Splash,
    }
}

/// The text shown for `s` in the status bar.
pub open spec fn state_label(s: StateMachine) -> Seq<char> {
    match s {
        StateMachine::Splash => "SPLASH"@,
        StateMachine::AnimatingIntro => "ANIMATING INTRO"@,
        StateMachine::Graph => "GRAPH"@,
        StateMachine::AnimatingZoom => "ANIMATING ZOOM"@,
        StateMachine::Detail => "DETAIL"@,
    }
}

/// `n` steps of the cycle from `s`.
pub open spec fn advance_by(s: StateMachine, n: nat) -> StateMachine
    decreases n,
{
    if n == 0 {
        s
    } else {
        next_state(advance_by(s, (n - 1) as nat))
    }
}

impl StateMachine {
    /// The screen that follows this one.
    pub fn transition(self) -> (next: Self)
        ensures
            next == next_state(self),
    {
        match self {
            StateMachine::Splash => StateMachine::AnimatingIntro,
            StateMachine::AnimatingIntro => StateMachine::Graph,
            StateMachine::Graph => StateMachine::AnimatingZoom,
            StateMachine::AnimatingZoom => StateMachine::Detail,
            StateMachine::Detail => StateMachine::Splash,
        }
    }

    /// The status-bar text of this screen.
    pub fn label(&self) -> (text: &'static str)
        ensures
            text@ == state_label(*self),
    {
        match self {
            StateMachine::Splash => "SPLASH",
            StateMachine::AnimatingIntro => "ANIMATING INTRO",
            StateMachine::Graph => "GRAPH",
            StateMachine::AnimatingZoom => "ANIMATING ZOOM",
            StateMachine::Detail => "DETAIL",
        }
    }
}

/// Five transitions bring every screen back to itself, and no fewer do:
/// the screens form a single cycle of length five.
pub proof fn lemma_transition_cycle(s: StateMachine)
    ensures
        advance_by(s, 5) == s,
        forall|n: nat| 0 < n < 5 ==> #[trigger] advance_by(s, n) != s,
{
    reveal_with_fuel(advance_by, 6);
}

/// Starting from the splash screen, the cycle visits the screens in the
/// order Splash, AnimatingIntro, Graph, AnimatingZoom, Detail.
pub proof fn lemma_transition_order()
    ensures
        advance_by(StateMachine::Splash, 1) == StateMachine::AnimatingIntro,
        advance_by(StateMachine::Splash, 2) == StateMachine::Graph,
        advance_by(StateMachine::Splash, 3) == StateMachine::AnimatingZoom,
        advance_by(StateMachine::Splash, 4) == StateMachine::Detail,
{
    reveal_with_fuel(advance_by, 5);
}

/// Different screens carry different status-bar labels.
pub proof fn lemma_labels_distinct(a: StateMachine, b: StateMachine)
    ensures
        a != b ==> state_label(a) != state_label(b),
{
    reveal_strlit("SPLASH");
    reveal_strlit("ANIMATING INTRO");
    reveal_strlit("GRAPH");
    reveal_strlit("ANIMATING ZOOM");
    reveal_strlit("DETAIL");
    if a != b {
        let la = state_label(a);
        let lb = state_label(b);
        if la.len() == lb.len() {
            // equal-length labels differ in their first character
            assert(la[0] != lb[0]);
        }
    }
}

} // verus!
