use vstd::prelude::*;

verus! {

/// What is known about the integrations before an install run.
#[derive(Debug, Clone, PartialEq, Eq)]
pub struct RegistrationState {
    pub codex_app_installed: bool,
    pub context_menu_registered: bool,
    pub cli_registered: bool,
    pub cli_path_registered: bool,
}

/// One step that an install run may take.
#[derive(Debug, Clone, Copy, PartialEq, Eq, Structural)]
pub enum RegistrationAction {
    SkipMissingCodexApp,
    RegisterContextMenu,
    InstallCliShim,
    RegisterCliPath,
}

/// The steps that an install run takes from `state`, in order.
pub open spec fn planned_actions(state: RegistrationState) -> Seq<RegistrationAction> {
    if !state.codex_app_installed {
        seq![RegistrationAction::SkipMissingCodexApp]
    } else {
        (if state.context_menu_registered { Seq::empty() } else { seq![RegistrationAction::RegisterContextMenu] })
        + (if state.cli_registered { Seq::empty() } else { seq![RegistrationAction::InstallCliShim] })
        + (if state.cli_path_registered { Seq::empty() } else { seq![RegistrationAction::RegisterCliPath] })
    }
}

pub fn plan_registration(state: &RegistrationState) -> (actions: Vec<RegistrationAction>)
    ensures
        actions@ == planned_actions(*state),
{
    if !state.codex_app_installed {
        return vec![RegistrationAction::SkipMissingCodexApp];
    }
    let mut actions = Vec::new();
    if !state.context_menu_registered {
        actions.push(RegistrationAction::RegisterContextMenu);
    }
    if !state.cli_registered {
        actions.push(RegistrationAction::InstallCliShim);
    }
    if !state.cli_path_registered {
        actions.push(RegistrationAction::RegisterCliPath);
    }
    actions
}

} // verus!

verus! {

/// The plan skips everything, and does nothing else, exactly when the Codex app is missing.
pub proof fn law_plan_skips_iff_app_missing(state: RegistrationState)
    ensures
        planned_actions(state).contains(RegistrationAction::SkipMissingCodexApp)
            <==> !state.codex_app_installed,
        !state.codex_app_installed ==> planned_actions(state) == seq![
            RegistrationAction::SkipMissingCodexApp,
        ],
{
    let p = planned_actions(state);
    if !state.codex_app_installed {
        assert(p[0] == RegistrationAction::SkipMissingCodexApp);
    } else {
        assert forall|i: int| 0 <= i < p.len() implies p[i] != RegistrationAction::SkipMissingCodexApp by {}
    }
}

/// With the Codex app installed, the plan holds an action for a piece exactly when that piece
/// is missing.
pub proof fn law_plan_covers_missing_pieces(state: RegistrationState)
    requires
        state.codex_app_installed,
    ensures
        planned_actions(state).contains(RegistrationAction::RegisterContextMenu)
            <==> !state.context_menu_registered,
        planned_actions(state).contains(RegistrationAction::InstallCliShim) <==> !state.cli_registered,
        planned_actions(state).contains(RegistrationAction::RegisterCliPath)
            <==> !state.cli_path_registered,
{
    let a = if state.context_menu_registered {
        Seq::<RegistrationAction>::empty()
    } else {
        seq![RegistrationAction::RegisterContextMenu]
    };
    let b = if state.cli_registered {
        Seq::<RegistrationAction>::empty()
    } else {
        seq![RegistrationAction::InstallCliShim]
    };
    let c = if state.cli_path_registered {
        Seq::<RegistrationAction>::empty()
    } else {
        seq![RegistrationAction::RegisterCliPath]
    };
    let p = planned_actions(state);
    assert(p == a + b + c);
    assert forall|x: RegistrationAction| p.contains(x) <==> (a.contains(x) || b.contains(x) || c.contains(x)) by {
        if p.contains(x) {
            let i = choose|i: int| 0 <= i < p.len() && p[i] == x;
            if i < a.len() {
                assert(a[i] == x);
            } else if i < a.len() + b.len() {
                assert(b[i - a.len()] == x);
            } else {
                assert(c[i - a.len() - b.len()] == x);
            }
        }
        if a.contains(x) {
            let i = choose|i: int| 0 <= i < a.len() && a[i] == x;
            assert(p[i] == x);
        }
        if b.contains(x) {
            let i = choose|i: int| 0 <= i < b.len() && b[i] == x;
            assert(p[a.len() + i] == x);
        }
        if c.contains(x) {
            let i = choose|i: int| 0 <= i < c.len() && c[i] == x;
            assert(p[a.len() + b.len() + i] == x);
        }
    }
    if !state.context_menu_registered {
        assert(a[0] == RegistrationAction::RegisterContextMenu);
    }
    if !state.cli_registered {
        assert(b[0] == RegistrationAction::InstallCliShim);
    }
    if !state.cli_path_registered {
        assert(c[0] == RegistrationAction::RegisterCliPath);
    }
}

/// The plan is empty exactly when the app is installed and every piece is registered, and it
/// never plans an action twice.
pub proof fn law_plan_empty_iff_complete(state: RegistrationState)
    ensures
        planned_actions(state).len() == 0 <==> (state.codex_app_installed
            && state.context_menu_registered && state.cli_registered && state.cli_path_registered),
        planned_actions(state).no_duplicates(),
{
    let p = planned_actions(state);
    assert forall|i: int, j: int| 0 <= i < p.len() && 0 <= j < p.len() && i != j implies p[i] != p[j] by {
        if state.codex_app_installed {
            let a = if state.context_menu_registered {
                Seq::<RegistrationAction>::empty()
            } else {
                seq![RegistrationAction::RegisterContextMenu]
            };
            let b = if state.cli_registered {
                Seq::<RegistrationAction>::empty()
            } else {
                seq![RegistrationAction::InstallCliShim]
            };
            let c = if state.cli_path_registered {
                Seq::<RegistrationAction>::empty()
            } else {
                seq![RegistrationAction::RegisterCliPath]
            };
            assert(p == a + b + c);
        }
    }
}

} // verus!
