//! The manager's configuration: resolved keybinding commands, startup
//! programs, and decoration parameters.  Reading the on-disk form is
//! the surrounding process's business; the library holds the values
//! and their defaults.

use vstd::prelude::*;

use crate::commands::WmCommands;

verus! {

/// Mathematical model of one configured keybinding command.
#[verifier::ext_equal]
pub ghost struct WmCommandView {
    pub keys: Seq<Seq<char>>,
    pub command: WmCommands,
    pub args: Option<Seq<char>>,
}

/// One keybinding: the key chord, the command it fires, and the
/// command's optional argument.
pub struct WmCommand {
    pub keys: Vec<String>,
    pub command: WmCommands,
    pub args: Option<String>,
}

impl View for WmCommand {
    type V = WmCommandView;

    open spec fn view(&self) -> WmCommandView {
        WmCommandView {
            keys: self.keys@.map_values(|k: String| k@),
            command: self.command,
            args: match self.args {
                Some(a) => Some(a@),
                None => None,
            },
        }
    }
}

/// Mathematical model of the configuration.
#[verifier::ext_equal]
pub ghost struct ConfigView {
    pub cmds: Seq<WmCommandView>,
    pub exec_cmds: Seq<Seq<char>>,
    pub exec_always: Seq<Seq<char>>,
    pub border_width: u8,
    pub border_color: Seq<char>,
    pub border_focus_color: Seq<char>,
    pub gap: u8,
}

/// The manager's configuration.
pub struct Config {
    pub cmds: Vec<WmCommand>,
    pub exec_cmds: Vec<String>,
    pub exec_always: Vec<String>,
    pub border_width: u8,
    pub border_color: String,
    pub border_focus_color: String,
    pub gap: u8,
}

impl View for Config {
    type V = ConfigView;

    open spec fn view(&self) -> ConfigView {
        ConfigView {
            cmds: self.cmds@.map_values(|c: WmCommand| c@),
            exec_cmds: self.exec_cmds@.map_values(|e: String| e@),
            exec_always: self.exec_always@.map_values(|e: String| e@),
            border_width: self.border_width,
            border_color: self.border_color@,
            border_focus_color: self.border_focus_color@,
            gap: self.gap,
        }
    }
}

/// The default keybinding set: one binding spawning a terminal.
pub fn default_cmds() -> (r: Vec<WmCommand>)
    ensures
        r@.len() == 1,
        r@[0]@.command == WmCommands::Exec,
        r@[0]@.keys == seq!["A"@, "t"@],
        r@[0]@.args == Some("kitty"@),
{
    let mut keys: Vec<String> = Vec::new();
    keys.push("A".to_owned());
    keys.push("t".to_owned());
    let mut r: Vec<WmCommand> = Vec::new();
    r.push(WmCommand { keys, command: WmCommands::Exec, args: Some("kitty".to_owned()) });
    proof {
        assert(r@[0]@.keys =~= seq!["A"@, "t"@]);
    }
    r
}

/// The default list of programs run once at startup.
pub fn default_exec() -> (r: Vec<String>)
    ensures
        r@.map_values(|e: String| e@) == seq!["L"@, "O"@, "L"@],
{
    let mut r: Vec<String> = Vec::new();
    r.push("L".to_owned());
    r.push("O".to_owned());
    r.push("L".to_owned());
    proof {
        assert(r@.map_values(|e: String| e@) =~= seq!["L"@, "O"@, "L"@]);
    }
    r
}

/// The default list of programs run at startup and on every restart.
pub fn default_exec_always() -> (r: Vec<String>)
    ensures
        r@.map_values(|e: String| e@) == seq!["H"@, "I"@],
{
    let mut r: Vec<String> = Vec::new();
    r.push("H".to_owned());
    r.push("I".to_owned());
    proof {
        assert(r@.map_values(|e: String| e@) =~= seq!["H"@, "I"@]);
    }
    r
}

/// The default decoration border width, in pixels.
pub fn default_border_width() -> (r: u8)
    ensures
        r == 3,
{
    3
}

/// The default border colour (white).
pub fn default_border_color() -> (r: String)
    ensures
        r@ == "0xFFFFFF"@,
{
    "0xFFFFFF".to_owned()
}

/// The default border colour of the focused window (black).
pub fn default_border_focus_color() -> (r: String)
    ensures
        r@ == "0x000000"@,
{
    "0x000000".to_owned()
}

/// The default gap between tiled windows, in pixels.
pub fn default_gap() -> (r: u8)
    ensures
        r == 3,
{
    3
}

/// A command argument as the configuration reader normalises it: an
/// absent, empty or literal `None` argument means no argument.
pub open spec fn normalized_arg(s: Option<Seq<char>>) -> Option<Seq<char>> {
    match s {
        None => None,
        Some(t) => if t.len() == 0 || t =~= "None"@ {
            None
        } else {
            Some(t)
        },
    }
}

/// Normalises an optional command argument: an absent, empty or
/// literal `None` string becomes no argument at all.
pub fn normalize_arg(args: Option<String>) -> (r: Option<String>)
    ensures
        (match r {
            Some(s) => Some(s@),
            None => None,
        }) == normalized_arg(
            match args {
                Some(s) => Some(s@),
                None => None::<Seq<char>>,
            },
        ),
{
    match args {
        None => None,
        Some(s) => {
            let none_word = "None".to_owned();
            if s.as_str().is_empty() || s == none_word {
                None
            } else {
                Some(s)
            }
        },
    }
}

impl Config {
    /// The built-in configuration, used when no configuration file
    /// can be read.
    pub fn default_config() -> (c: Config)
        ensures
            c@.cmds.len() == 1,
            c@.cmds[0].command == WmCommands::Exec,
            c@.exec_cmds == seq!["L"@, "O"@, "L"@],
            c@.exec_always == seq!["H"@, "I"@],
            c@.border_width == 3,
            c@.border_color == "0xFFFFFF"@,
            c@.border_focus_color == "0x000000"@,
            c@.gap == 3,
    {
        let c = Config {
            cmds: default_cmds(),
            exec_cmds: default_exec(),
            exec_always: default_exec_always(),
            border_width: default_border_width(),
            border_color: default_border_color(),
            border_focus_color: default_border_focus_color(),
            gap: default_gap(),
        };
        c
    }

    /// Deep copy; the copy shares no storage with the original.
    pub fn duplicate(&self) -> (c: Config)
        ensures
            c@ == self@,
    {
        let mut cmds: Vec<WmCommand> = Vec::new();
        let n = self.cmds.len();
        for i in 0..n
            invariant
                n == self.cmds@.len(),
                cmds@.len() == i,
                forall|k: int| 0 <= k < i ==> cmds@[k]@ == self@.cmds[k],
        {
            let src = &self.cmds[i];
            let mut keys: Vec<String> = Vec::new();
            let m = src.keys.len();
            for j in 0..m
                invariant
                    m == src.keys@.len(),
                    keys@.len() == j,
                    forall|k: int| 0 <= k < j ==> keys@[k]@ == src.keys@[k]@,
            {
                keys.push(src.keys[j].clone());
            }
            let args = match &src.args {
                Some(a) => Some(a.clone()),
                None => None,
            };
            let copy = WmCommand { keys, command: src.command, args };
            proof {
                assert(copy@.keys =~= src@.keys);
                assert(copy@ =~= self@.cmds[i as int]);
            }
            cmds.push(copy);
        }
        let exec_cmds = clone_strings(&self.exec_cmds);
        let exec_always = clone_strings(&self.exec_always);
        let c = Config {
            cmds,
            exec_cmds,
            exec_always,
            border_width: self.border_width,
            border_color: self.border_color.clone(),
            border_focus_color: self.border_focus_color.clone(),
            gap: self.gap,
        };
        proof {
            assert(c@.cmds =~= self@.cmds);
            assert(c@.exec_cmds =~= self@.exec_cmds);
            assert(c@.exec_always =~= self@.exec_always);
            assert(c@ =~= self@);
        }
        c
    }
}

/// Deep copy of a list of strings.
pub fn clone_strings(v: &Vec<String>) -> (r: Vec<String>)
    ensures
        r@.map_values(|e: String| e@) == v@.map_values(|e: String| e@),
{
    let mut r: Vec<String> = Vec::new();
    let n = v.len();
    for i in 0..n
        invariant
            n == v@.len(),
            r@.len() == i,
            forall|k: int| 0 <= k < i ==> r@[k]@ == v@[k]@,
    {
        r.push(v[i].clone());
    }
    proof {
        assert(r@.map_values(|e: String| e@) =~= v@.map_values(|e: String| e@));
    }
    r
}

} // verus!
