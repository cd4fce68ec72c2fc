//! The closed set of shell dialects for which completions are generated.

use vstd::prelude::*;

verus! {

/// A supported shell dialect.
#[derive(Debug, Clone, Copy, PartialEq, Eq, Structural)]
pub enum Shell {
    Bash,
    Zsh,
    Fish,
    PowerShell,
    Elvish,
}

/// Number of supported shells.
pub const SHELL_COUNT: usize = 5;

/// The shell at position `i` of the fixed emission order.
pub open spec fn shell_at(i: int) -> Shell {
    if i == 0 {
        Shell::Bash
    } else if i == 1 {
        Shell::Zsh
    } else if i == 2 {
        Shell::Fish
    } else if i == 3 {
        Shell::PowerShell
    } else {
        Shell::Elvish
    }
}

/// The supported shells in emission order.
pub open spec fn all_shells() -> Seq<Shell> {
    Seq::new(SHELL_COUNT as nat, |i: int| shell_at(i))
}

impl Shell {
    /// The identifier under which the shell is listed, as characters.
    pub open spec fn label(self) -> Seq<char> {
        match self {
            Shell::Bash => "bash"@,
            Shell::Zsh => "zsh"@,
            Shell::Fish => "fish"@,
            Shell::PowerShell => "powershell"@,
            Shell::Elvish => "elvish"@,
        }
    }

    /// Position of the shell in the emission order.
    pub open spec fn position(self) -> int {
        match self {
            Shell::Bash => 0,
            Shell::Zsh => 1,
            Shell::Fish => 2,
            Shell::PowerShell => 3,
            Shell::Elvish => 4,
        }
    }

    /// The identifier under which the shell is listed.
    pub fn name(self) -> (s: &'static str)
        ensures
            s@ == self.label(),
            vstd::string::is_ascii(s),
    {
        proof {
            label_is_plain(self);
        }
        match self {
            Shell::Bash => "bash",
            Shell::Zsh => "zsh",
            Shell::Fish => "fish",
            Shell::PowerShell => "powershell",
            Shell::Elvish => "elvish",
        }
    }

    /// Every supported shell, in emission order.
    pub fn all() -> (v: Vec<Shell>)
        ensures
            v@ == all_shells(),
    {
        let mut v: Vec<Shell> = Vec::new();
        v.push(Shell::Bash);
        v.push(Shell::Zsh);
        v.push(Shell::Fish);
        v.push(Shell::PowerShell);
        v.push(Shell::Elvish);
        assert(v@ =~= all_shells());
        v
    }
}

/// The identifier of a shell is made of lower-case letters only.
pub proof fn label_is_plain(s: Shell)
    ensures
        s.label().len() > 0,
        forall|i: int| 0 <= i < s.label().len() ==> 'a' <= #[trigger] s.label()[i] <= 'z',
{
    reveal_strlit("bash");
    reveal_strlit("zsh");
    reveal_strlit("fish");
    reveal_strlit("powershell");
    reveal_strlit("elvish");
}

/// Every shell occupies exactly one position of the emission order.
pub proof fn each_shell_listed_once(s: Shell)
    ensures
        0 <= s.position() < SHELL_COUNT,
        shell_at(s.position()) == s,
        forall|i: int| 0 <= i < SHELL_COUNT && shell_at(i) == s ==> i == s.position(),
{
}

} // verus!
