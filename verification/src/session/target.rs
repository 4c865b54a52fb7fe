//! What is compiled, and for which environment.
use vstd::prelude::*;
use vstd::string::*;
use crate::text::same_text;

verus! {

/// What kind of project is compiled.
#[derive(Clone, Copy, PartialEq, Eq, Debug, Structural)]
pub enum ProjectType {
    /// A program that can be run
    Program,
    /// A library that can be linked into a program
    Library,
}

impl Default for ProjectType {
    fn default() -> (ty: Self)
        ensures
            ty == ProjectType::Program,
    {
        ProjectType::Program
    }
}

/// The environments that the rollup has.
#[derive(Clone, Copy, PartialEq, Eq, Debug, Structural)]
pub enum RollupTarget {
    Account,
    NoteScript,
    TransactionScript,
    /// A component that has exactly one procedure, which authenticates
    AuthComponent,
}

impl Default for RollupTarget {
    fn default() -> (target: Self)
        ensures
            target == RollupTarget::Account,
    {
        RollupTarget::Account
    }
}

/// The environment that is compiled for.
#[derive(Clone, Copy, PartialEq, Eq, Debug, Structural)]
pub enum TargetEnv {
    /// The emulator, which has fewer instructions
    Emu,
    /// The virtual machine
    Base,
    /// The rollup, with its kernel
    Rollup { target: RollupTarget },
}

impl Default for TargetEnv {
    fn default() -> (target: Self)
        ensures
            target == TargetEnv::Base,
    {
        TargetEnv::Base
    }
}

impl ProjectType {
    /// What is compiled for an environment, unless the user says otherwise. The emulator can run
    /// single functions, so it is given a library.
    pub fn default_for_target(target: TargetEnv) -> (ty: Self)
        ensures
            ty == if target is Emu {
                ProjectType::Library
            } else {
                ProjectType::Program
            },
    {
        match target {
            TargetEnv::Base | TargetEnv::Rollup { .. } => ProjectType::Program,
            TargetEnv::Emu => ProjectType::Library,
        }
    }
}

impl RollupTarget {
    /// The name of the environment.
    pub open spec fn label(self) -> Seq<char> {
        match self {
            RollupTarget::Account => "account"@,
            RollupTarget::NoteScript => "note-script"@,
            RollupTarget::TransactionScript => "transaction-script"@,
            RollupTarget::AuthComponent => "authentication-component"@,
        }
    }

    /// The name of the environment.
    pub fn name(&self) -> (name: &'static str)
        ensures
            name@ == self.label(),
    {
        match self {
            RollupTarget::Account => "account",
            RollupTarget::NoteScript => "note-script",
            RollupTarget::TransactionScript => "transaction-script",
            RollupTarget::AuthComponent => "authentication-component",
        }
    }
}

/// The environment that a text names.
pub open spec fn target_named(s: Seq<char>) -> Option<TargetEnv> {
    if s == "emu"@ {
        Some(TargetEnv::Emu)
    } else if s == "base"@ {
        Some(TargetEnv::Base)
    } else if s == "rollup"@ || s == "rollup:account"@ {
        Some(TargetEnv::Rollup { target: RollupTarget::Account })
    } else if s == "rollup:note-script"@ {
        Some(TargetEnv::Rollup { target: RollupTarget::NoteScript })
    } else if s == "rollup:transaction-script"@ {
        Some(TargetEnv::Rollup { target: RollupTarget::TransactionScript })
    } else if s == "rollup:authentication-component"@ {
        Some(TargetEnv::Rollup { target: RollupTarget::AuthComponent })
    } else {
        None
    }
}

impl TargetEnv {
    /// The environment as text.
    pub open spec fn shown(self) -> Seq<char> {
        match self {
            TargetEnv::Emu => "emu"@,
            TargetEnv::Base => "base"@,
            TargetEnv::Rollup { target } => "rollup:"@ + target.label(),
        }
    }

    /// The environment as text.
    pub fn show(&self) -> (out: String)
        ensures
            out@ == self.shown(),
    {
        match self {
            TargetEnv::Emu => "emu".to_owned(),
            TargetEnv::Base => "base".to_owned(),
            TargetEnv::Rollup { target } => {
                let mut out = "rollup:".to_owned();
                out.append(target.name());
                out
            },
        }
    }

    /// The environment that a text names, if it names one. The rollup alone stands for accounts.
    pub fn parse(s: &str) -> (target: Option<TargetEnv>)
        ensures
            target == target_named(s@),
    {
        if same_text(s, "emu") {
            Some(TargetEnv::Emu)
        } else if same_text(s, "base") {
            Some(TargetEnv::Base)
        } else if same_text(s, "rollup") || same_text(s, "rollup:account") {
            Some(TargetEnv::Rollup { target: RollupTarget::Account })
        } else if same_text(s, "rollup:note-script") {
            Some(TargetEnv::Rollup { target: RollupTarget::NoteScript })
        } else if same_text(s, "rollup:transaction-script") {
            Some(TargetEnv::Rollup { target: RollupTarget::TransactionScript })
        } else if same_text(s, "rollup:authentication-component") {
            Some(TargetEnv::Rollup { target: RollupTarget::AuthComponent })
        } else {
            None
        }
    }
}

/// An environment is the one that its text names.
pub proof fn targets_read_back(target: TargetEnv)
    ensures
        target_named(target.shown()) == Some(target),
{
    reveal_strlit("emu");
    reveal_strlit("base");
    reveal_strlit("rollup");
    reveal_strlit("rollup:");
    reveal_strlit("account");
    reveal_strlit("note-script");
    reveal_strlit("transaction-script");
    reveal_strlit("authentication-component");
    reveal_strlit("rollup:account");
    reveal_strlit("rollup:note-script");
    reveal_strlit("rollup:transaction-script");
    reveal_strlit("rollup:authentication-component");
    assert("emu"@.len() == 3 && "base"@.len() == 4 && "rollup"@.len() == 6);
    assert("rollup:account"@.len() == 14);
    assert("rollup:note-script"@.len() == 18);
    assert("rollup:transaction-script"@.len() == 25);
    assert("rollup:authentication-component"@.len() == 31);
    assert("rollup:account"@ =~= "rollup:"@ + "account"@);
    assert("rollup:note-script"@ =~= "rollup:"@ + "note-script"@);
    assert("rollup:transaction-script"@ =~= "rollup:"@ + "transaction-script"@);
    assert("rollup:authentication-component"@ =~= "rollup:"@ + "authentication-component"@);
}

} // verus!
