//! Read-only projections of the entity model for external consumers:
//! the workspace listing a status bar renders, and the command and
//! keybinding descriptions outside tools exchange with the manager.

use vstd::prelude::*;
use vstd::seq_lib::{to_multiset_build, to_multiset_insert};

use crate::commands::{command_of, WmCommands};
use crate::config::WmCommand;
use crate::windowmanager::{has_screen, screen_idx, unique_screen_roots, WindowManagerState};
use crate::workspace::Workspace;

verus! {

/// One command as an outside tool names it: the command token and
/// its optional argument.
pub struct Command {
    pub command: String,
    pub args: Option<String>,
}

/// One keybinding as an outside tool sees it: the key chord, the
/// command token, and the argument.
pub struct Keybinding {
    pub keys: Vec<String>,
    pub command: String,
    pub args: Option<String>,
}

/// The token naming each command kind.
pub open spec fn token_of(c: WmCommands) -> Seq<char> {
    match c {
        WmCommands::Focus => seq!['f', 'o', 'c', 'u', 's'],
        WmCommands::Move => seq!['m', 'o', 'v', 'e'],
        WmCommands::Kill => seq!['k', 'i', 'l', 'l'],
        WmCommands::Layout => seq!['l', 'a', 'y', 'o', 'u', 't'],
        WmCommands::NextLayout => seq!['n', 'e', 'x', 't', 'l', 'a', 'y', 'o', 'u', 't'],
        WmCommands::GoToWorkspace => seq![
            'g',
            'o',
            't',
            'o',
            'w',
            'o',
            'r',
            'k',
            's',
            'p',
            'a',
            'c',
            'e',
        ],
        WmCommands::NewWorkspace => seq![
            'n',
            'e',
            'w',
            'w',
            'o',
            'r',
            'k',
            's',
            'p',
            'a',
            'c',
            'e',
        ],
        WmCommands::Exec => seq!['e', 'x', 'e', 'c'],
        WmCommands::ExecAlways => seq!['e', 'x', 'e', 'c', 'a', 'l', 'w', 'a', 'y', 's'],
        WmCommands::Restart => seq!['r', 'e', 's', 't', 'a', 'r', 't'],
        WmCommands::Quit => seq!['q', 'u', 'i', 't'],
    }
}

/// The printable token of a command kind.
pub fn command_token(c: WmCommands) -> (r: String)
    ensures
        r@ == token_of(c),
{
    proof {
        reveal_strlit("focus");
        reveal_strlit("move");
        reveal_strlit("kill");
        reveal_strlit("layout");
        reveal_strlit("nextlayout");
        reveal_strlit("gotoworkspace");
        reveal_strlit("newworkspace");
        reveal_strlit("exec");
        reveal_strlit("execalways");
        reveal_strlit("restart");
        reveal_strlit("quit");
        assert("focus"@ =~= token_of(WmCommands::Focus));
        assert("move"@ =~= token_of(WmCommands::Move));
        assert("kill"@ =~= token_of(WmCommands::Kill));
        assert("layout"@ =~= token_of(WmCommands::Layout));
        assert("nextlayout"@ =~= token_of(WmCommands::NextLayout));
        assert("gotoworkspace"@ =~= token_of(WmCommands::GoToWorkspace));
        assert("newworkspace"@ =~= token_of(WmCommands::NewWorkspace));
        assert("exec"@ =~= token_of(WmCommands::Exec));
        assert("execalways"@ =~= token_of(WmCommands::ExecAlways));
        assert("restart"@ =~= token_of(WmCommands::Restart));
        assert("quit"@ =~= token_of(WmCommands::Quit));
    }
    match c {
        WmCommands::Focus => "focus".to_owned(),
        WmCommands::Move => "move".to_owned(),
        WmCommands::Kill => "kill".to_owned(),
        WmCommands::Layout => "layout".to_owned(),
        WmCommands::NextLayout => "nextlayout".to_owned(),
        WmCommands::GoToWorkspace => "gotoworkspace".to_owned(),
        WmCommands::NewWorkspace => "newworkspace".to_owned(),
        WmCommands::Exec => "exec".to_owned(),
        WmCommands::ExecAlways => "execalways".to_owned(),
        WmCommands::Restart => "restart".to_owned(),
        WmCommands::Quit => "quit".to_owned(),
    }
}

/// Every command token parses back to the command it names: printing
/// and parsing a command kind is a round trip.
pub proof fn lemma_command_token_round_trip(c: WmCommands)
    ensures
        command_of(token_of(c)) == Some(c),
{
    let t = token_of(c);
    match c {
        WmCommands::Focus => {},
        WmCommands::Move => {},
        WmCommands::Kill => {
            assert(crate::commands::lower_char(t[0])
                != crate::commands::lower_char(seq!['m', 'o', 'v', 'e'][0]));
        },
        WmCommands::Layout => {},
        WmCommands::NextLayout => {},
        WmCommands::GoToWorkspace => {},
        WmCommands::NewWorkspace => {},
        WmCommands::Exec => {
            assert(crate::commands::lower_char(t[0])
                != crate::commands::lower_char(seq!['m', 'o', 'v', 'e'][0]));
            assert(crate::commands::lower_char(t[0])
                != crate::commands::lower_char(seq!['k', 'i', 'l', 'l'][0]));
        },
        WmCommands::ExecAlways => {
            assert(crate::commands::lower_char(t[0]) != crate::commands::lower_char(
                seq!['n', 'e', 'x', 't', 'l', 'a', 'y', 'o', 'u', 't'][0],
            ));
        },
        WmCommands::Restart => {},
        WmCommands::Quit => {
            assert(crate::commands::lower_char(t[0])
                != crate::commands::lower_char(seq!['m', 'o', 'v', 'e'][0]));
            assert(crate::commands::lower_char(t[0])
                != crate::commands::lower_char(seq!['k', 'i', 'l', 'l'][0]));
            assert(crate::commands::lower_char(t[0])
                != crate::commands::lower_char(seq!['e', 'x', 'e', 'c'][0]));
        },
    }
}

impl Keybinding {
    /// The outward description of one configured keybinding.
    pub fn from_wm_command(c: &WmCommand) -> (k: Keybinding)
        ensures
            k.keys@.map_values(|s: String| s@) == c@.keys,
            k.command@ == token_of(c@.command),
            (match k.args {
                Some(a) => Some(a@),
                None => None::<Seq<char>>,
            }) == c@.args,
    {
        let kb = Keybinding {
            keys: crate::config::clone_strings(&c.keys),
            command: command_token(c.command),
            args: match &c.args {
                Some(a) => Some(a.clone()),
                None => None,
            },
        };
        kb
    }
}

/// True when the ids appear in non-decreasing order.
pub open spec fn sorted_ids(s: Seq<u16>) -> bool {
    forall|i: int, j: int| 0 <= i < j < s.len() ==> s[i] <= s[j]
}

/// Inserts an id into a sorted list, keeping it sorted; the contents
/// gain exactly that id.
fn insert_sorted(v: &mut Vec<u16>, x: u16)
    requires
        sorted_ids(old(v)@),
    ensures
        sorted_ids(final(v)@),
        final(v)@.to_multiset() == old(v)@.to_multiset().insert(x),
        final(v)@.len() == old(v)@.len() + 1,
{
    let n = v.len();
    let mut idx: usize = 0;
    while idx < n
        invariant_except_break
            n == v@.len(),
            idx <= n,
            forall|k: int| 0 <= k < idx ==> v@[k] <= x,
        ensures
            n == v@.len(),
            idx <= n,
            forall|k: int| 0 <= k < idx ==> v@[k] <= x,
            idx < n ==> v@[idx as int] > x,
        decreases n - idx,
    {
        if v[idx] > x {
            break;
        }
        idx = idx + 1;
    }
    proof {
        assert(forall|k: int| idx <= k < n ==> v@[idx as int] <= #[trigger] v@[k]);
        to_multiset_insert(v@, idx as int, x);
    }
    v.insert(idx, x);
    proof {
        assert(sorted_ids(v@)) by {
            assert forall|i: int, j: int|
                0 <= i < j < v@.len() implies v@[i] <= v@[j] by {
                let iv = if i < idx as int {
                    old(v)@[i]
                } else if i == idx as int {
                    x
                } else {
                    old(v)@[i - 1]
                };
                assert(v@[i] == iv);
            }
        }
    }
}

impl WindowManagerState {
    /// The index of the screen with this root, if any.
    fn screen_index_of(&self, root: u32) -> (r: Option<usize>)
        requires
            unique_screen_roots(self@.screens),
        ensures
            match r {
                Some(i) => {
                    &&& 0 <= i < self@.screens.len()
                    &&& self@.screens[i as int].root == root
                    &&& screen_idx(self@.screens, root) == i as int
                    &&& has_screen(self@.screens, root)
                },
                None => !has_screen(self@.screens, root),
            },
    {
        let n = self.screeninfo.len();
        for i in 0..n
            invariant
                n == self.screeninfo@.len(),
                unique_screen_roots(self@.screens),
                forall|k: int| 0 <= k < i ==> self@.screens[k].root != root,
        {
            if self.screeninfo[i].root == root {
                proof {
                    assert(0 <= i < self@.screens.len() && self@.screens[i as int].root == root);
                    let k = screen_idx(self@.screens, root);
                    assert(0 <= k < self@.screens.len() && self@.screens[k].root == root);
                    if k < i as int {
                        assert(self@.screens[k].root != self@.screens[i as int].root);
                    }
                    if k > i as int {
                        assert(self@.screens[i as int].root != self@.screens[k].root);
                    }
                }
                return Some(i);
            }
        }
        None
    }

    /// The workspaces of the screen with this root, deep-copied; an
    /// unknown root yields nothing.
    pub fn get_workspaces(&self, screen: u32) -> (r: Option<Vec<Workspace>>)
        requires
            unique_screen_roots(self@.screens),
        ensures
            r is Some <==> has_screen(self@.screens, screen),
            r is Some ==> (r->0)@.map_values(|w: Workspace| w@) == self@.screens[screen_idx(
                self@.screens,
                screen,
            )].workspaces,
    {
        let si = match self.screen_index_of(screen) {
            Some(i) => i,
            None => {
                return None;
            },
        };
        let scr = &self.screeninfo[si];
        let mut out: Vec<Workspace> = Vec::new();
        let n = scr.workspaces.len();
        for i in 0..n
            invariant
                n == scr.workspaces@.len(),
                out@.len() == i,
                forall|k: int| 0 <= k < i ==> out@[k]@ == scr@.workspaces[k],
        {
            out.push(scr.workspaces[i].duplicate());
        }
        proof {
            assert(out@.map_values(|w: Workspace| w@) =~= scr@.workspaces);
        }
        Some(out)
    }

    /// The ids of the workspaces on this screen, in ascending order;
    /// an unknown root yields nothing.
    pub fn get_workspace_list(&self, screen: u32) -> (r: Option<Vec<u16>>)
        requires
            unique_screen_roots(self@.screens),
        ensures
            r is Some <==> has_screen(self@.screens, screen),
            r is Some ==> {
                let names = self@.screens[screen_idx(self@.screens, screen)].workspaces
                    .map_values(|w: crate::workspace::WorkspaceView| w.name);
                &&& sorted_ids((r->0)@)
                &&& (r->0)@.to_multiset() == names.to_multiset()
            },
    {
        let si = match self.screen_index_of(screen) {
            Some(i) => i,
            None => {
                return None;
            },
        };
        let scr = &self.screeninfo[si];
        let ghost names = scr@.workspaces.map_values(
            |w: crate::workspace::WorkspaceView| w.name,
        );
        let mut out: Vec<u16> = Vec::new();
        proof {
            assert(out@ =~= names.take(0));
        }
        let n = scr.workspaces.len();
        let mut i: usize = 0;
        while i < n
            invariant
                n == scr.workspaces@.len(),
                i <= n,
                names == scr@.workspaces.map_values(
                    |w: crate::workspace::WorkspaceView| w.name,
                ),
                n == names.len(),
                sorted_ids(out@),
                out@.to_multiset() == names.take(i as int).to_multiset(),
            decreases n - i,
        {
            let name = scr.workspaces[i].name;
            proof {
                let t1 = names.take(i as int);
                let t2 = names.take(i as int + 1);
                assert(t2 =~= t1.push(names[i as int]));
                to_multiset_build(t1, names[i as int]);
                assert(names[i as int] == name);
            }
            insert_sorted(&mut out, name);
            i = i + 1;
        }
        proof {
            assert(names.take(n as int) =~= names);
        }
        Some(out)
    }

    /// The active workspace id of the screen with this root; an
    /// unknown root yields nothing.
    pub fn get_active_workspace(&self, screen: u32) -> (r: Option<u16>)
        requires
            unique_screen_roots(self@.screens),
        ensures
            r is Some <==> has_screen(self@.screens, screen),
            r is Some ==> r->0 == self@.screens[screen_idx(
                self@.screens,
                screen,
            )].active_workspace,
    {
        match self.screen_index_of(screen) {
            Some(i) => Some(self.screeninfo[i].active_workspace),
            None => None,
        }
    }

    /// For each workspace of this screen, whether it is focused and
    /// its id, in workspace order; an unknown root yields nothing.
    pub fn workspace_tuple(&self, screen: u32) -> (r: Option<Vec<(bool, u16)>>)
        requires
            unique_screen_roots(self@.screens),
        ensures
            r is Some <==> has_screen(self@.screens, screen),
            r is Some ==> {
                let ws = self@.screens[screen_idx(self@.screens, screen)].workspaces;
                &&& (r->0)@.len() == ws.len()
                &&& forall|k: int|
                    0 <= k < ws.len() ==> (r->0)@[k] == ((#[trigger] ws[k]).focused, ws[k].name)
            },
    {
        let si = match self.screen_index_of(screen) {
            Some(i) => i,
            None => {
                return None;
            },
        };
        let scr = &self.screeninfo[si];
        let mut out: Vec<(bool, u16)> = Vec::new();
        let n = scr.workspaces.len();
        for i in 0..n
            invariant
                n == scr.workspaces@.len(),
                out@.len() == i,
                forall|k: int|
                    0 <= k < i ==> out@[k] == ((#[trigger] scr@.workspaces[k]).focused,
                    scr@.workspaces[k].name),
        {
            let w = &scr.workspaces[i];
            out.push((w.focused, w.name));
        }
        Some(out)
    }
}

} // verus!
