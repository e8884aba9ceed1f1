//! The client-side subcommands, each validating its own arguments.
//!
//! `RunPlugin` turns `run` arguments into the `RunCommand` the portal is
//! asked to execute; the other plugins carry their name and usage and
//! accept the help flag.  Argument splitting itself is `getopts`' work,
//! behind the wrappers in `opts`; the decisions taken on the split
//! arguments are verified here, in `build_run_command`.
use vstd::prelude::*;

use crate::cmd::DotRequest;
use crate::cmd::InfoAction;
use crate::cmd::KageCommand;
use crate::cmd::PortalCall;
use crate::cmd::RunCommand;
use crate::codec::strs_view;
use crate::opts::matches_flag_present;
use crate::opts::matches_free;
use crate::opts::options_new;
use crate::opts::options_optflag;
use crate::opts::options_parse;
use crate::opts::options_usage;

verus! {

/// What a subcommand asks the caller to do after reading its arguments.
#[derive(Clone, Copy, Debug, PartialEq, Eq, Structural)]
pub enum KageAction {
    PrintHelp,
    SendPortalCommand,
}

/// Builds the run request out of split arguments: the first free argument
/// names the profile, the rest are the command to run in its domain, and
/// the TTY flag asks for an interactive session.  The help flag wins over
/// everything; without it a profile name is owed.
pub fn build_run_command(help: bool, tty: bool, free: &Vec<String>) -> (r: Result<
    (KageAction, Option<RunCommand>),
    String,
>)
    ensures
        help ==> (r matches Ok(p) && p.0 is PrintHelp && p.1 is None),
        !help && free@.len() == 0 ==> (r matches Err(e) && e@ == "Need a profile name"@),
        !help && free@.len() > 0 ==> (r matches Ok(p) && p.0 is SendPortalCommand && (
        p.1 matches Some(rc) && rc.profile@ == free@[0]@ && strs_view(rc.command@) == strs_view(
            free@,
        ).skip(1) && rc.stdio == tty)),
{
    broadcast use vstd::seq::group_seq_lemmas_expensive;
    broadcast use crate::codec::lemma_strs_view_len;
    broadcast use crate::codec::lemma_strs_view_index;

    if help {
        return Ok((KageAction::PrintHelp, None));
    }
    if free.len() == 0 {
        return Err(String::from_str("Need a profile name"));
    }
    let profile = free[0].clone();
    let mut command: Vec<String> = Vec::new();
    proof {
        assert(strs_view(command@) =~= strs_view(free@).subrange(1, 1));
    }
    let mut i: usize = 1;
    while i < free.len()
        invariant
            1 <= i <= free@.len(),
            command@.len() + 1 == i,
            strs_view(command@) == strs_view(free@).subrange(1, i as int),
        decreases free@.len() - i,
    {
        let ghost oc = command@;
        let item = free[i].clone();
        proof {
            assert(item == free@[i as int]);
        }
        command.push(item);
        proof {
            assert(command@ == oc.push(free@[i as int]));
            assert forall|t: int| 0 <= t < i as int implies strs_view(command@)[t] == strs_view(
                free@,
            ).subrange(1, i + 1 as int)[t] by {
                assert(strs_view(command@)[t] == command@[t]@);
                assert(strs_view(free@).subrange(1, i + 1 as int)[t] == strs_view(free@)[1 + t]);
                assert(strs_view(free@)[1 + t] == free@[1 + t]@);
                if t < i as int - 1 {
                    assert(command@[t] == oc[t]);
                    assert(strs_view(oc)[t] == oc[t]@);
                    assert(strs_view(oc)[t] == strs_view(free@).subrange(1, i as int)[t]);
                    assert(strs_view(free@).subrange(1, i as int)[t] == strs_view(free@)[1 + t]);
                } else {
                    assert(command@[t] == free@[i as int]);
                }
            }
            assert(strs_view(command@) =~= strs_view(free@).subrange(1, i + 1 as int));
        }
        i = i + 1;
    }
    proof {
        assert(strs_view(command@) =~= strs_view(free@).skip(1));
    }
    Ok((
        KageAction::SendPortalCommand,
        Some(RunCommand { profile, command, stdio: tty }),
    ))
}

/// Copies a list of strings element by element.
pub fn clone_strings(v: &Vec<String>) -> (r: Vec<String>)
    ensures
        r@ == v@,
{
    let mut r: Vec<String> = Vec::new();
    let mut i: usize = 0;
    while i < v.len()
        invariant
            i <= v@.len(),
            r@ == v@.subrange(0, i as int),
        decreases v@.len() - i,
    {
        let item = v[i].clone();
        proof {
            assert(item == v@[i as int]);
        }
        r.push(item);
        proof {
            assert(r@ =~= v@.subrange(0, i + 1 as int));
        }
        i = i + 1;
    }
    proof {
        assert(r@ =~= v@);
    }
    r
}

/// The `run` subcommand: asks the portal to run a profile's command.
pub struct RunPlugin {
    name: String,
    opts: getopts::Options,
    portal_cmd: Option<RunCommand>,
}

impl RunPlugin {
    /// The registry name, for contracts.
    pub closed spec fn spec_name(&self) -> Seq<char> {
        self.name@
    }

    /// The pending request, for contracts.
    pub closed spec fn spec_portal_cmd(&self) -> Option<RunCommand> {
        self.portal_cmd
    }

    /// Sets the subcommand up with its two flags and no pending request.
    pub fn new() -> (r: RunPlugin)
        ensures
            r.spec_name() == "run"@,
            r.spec_portal_cmd() is None,
    {
        let mut opts = options_new();
        proof {
            reveal_strlit("h");
            reveal_strlit("help");
            reveal_strlit("t");
            reveal_strlit("tty");
        }
        options_optflag(&mut opts, "h", "help", "Print this message");
        options_optflag(&mut opts, "t", "tty", "Create and connect to the remote TTY");
        RunPlugin { name: String::from_str("run"), opts, portal_cmd: None }
    }

    /// The subcommand's registry name.
    pub fn get_name(&self) -> (r: &String)
        ensures
            r@ == self.spec_name(),
    {
        &self.name
    }

    /// The request this subcommand has prepared for the portal, if any.
    pub fn get_portal_cmd(&self) -> (r: Option<PortalCall>)
        ensures
            match r {
                Some(c) => self.spec_portal_cmd() matches Some(rc) && (
                c matches PortalCall::Run(crc) && crc@ == rc@),
                None => self.spec_portal_cmd() is None,
            },
    {
        match &self.portal_cmd {
            Some(c) => {
                let copy = RunCommand {
                    profile: c.profile.clone(),
                    command: clone_strings(&c.command),
                    stdio: c.stdio,
                };
                Some(PortalCall::Run(copy))
            },
            None => None,
        }
    }

    /// Reads the subcommand's arguments and prepares the run request.  The
    /// split into flags and free arguments is the parser's; every decision
    /// taken on it is `build_run_command`'s contract.
    pub fn init_client(&mut self, args: &Vec<String>) -> (r: Result<KageAction, String>)
        ensures
            (r matches Ok(a) && a is SendPortalCommand) ==> final(self).spec_portal_cmd()
                is Some,
            (r matches Ok(a) && a is PrintHelp) ==> final(self).spec_portal_cmd() == old(
                self,
            ).spec_portal_cmd(),
            r is Err ==> final(self).spec_portal_cmd() == old(self).spec_portal_cmd(),
            final(self).spec_name() == old(self).spec_name(),
    {
        let matches = match options_parse(&self.opts, args) {
            Ok(m) => m,
            Err(e) => {
                return Err(e);
            },
        };
        if matches_flag_present(&matches, "help") {
            return Ok(KageAction::PrintHelp);
        }
        let tty = matches_flag_present(&matches, "tty");
        let free = matches_free(&matches);
        match build_run_command(false, tty, &free) {
            Ok((action, cmd)) => {
                self.portal_cmd = cmd;
                Ok(action)
            },
            Err(e) => Err(e),
        }
    }

    /// A readable summary of the subcommand's options.
    pub fn get_usage(&self) -> String {
        options_usage(&self.opts, "Usage for the run command")
    }
}

/// The `info` subcommand: asks the portal to describe its protocol.
pub struct InfoPlugin {
    name: String,
    opts: getopts::Options,
}

impl InfoPlugin {
    /// The registry name, for contracts.
    pub closed spec fn spec_name(&self) -> Seq<char> {
        self.name@
    }

    /// Sets the subcommand up with its help flag.
    pub fn new() -> (r: InfoPlugin)
        ensures
            r.spec_name() == "info"@,
    {
        let mut opts = options_new();
        proof {
            reveal_strlit("h");
            reveal_strlit("help");
        }
        options_optflag(&mut opts, "h", "help", "Print this message");
        InfoPlugin { name: String::from_str("info"), opts }
    }

    /// The subcommand's registry name.
    pub fn get_name(&self) -> (r: &String)
        ensures
            r@ == self.spec_name(),
    {
        &self.name
    }

    /// The informational request this subcommand sends.
    pub fn get_portal_cmd(&self) -> (r: Option<PortalCall>)
        ensures
            r matches Some(c) && c == PortalCall::Info(InfoAction::GetDot(DotRequest)),
    {
        Some(PortalCall::Info(InfoAction::GetDot(DotRequest)))
    }

    /// Reads the subcommand's arguments: only the help flag matters; the
    /// informational request itself carries no parameters.
    pub fn init_client(&mut self, args: &Vec<String>) -> (r: Result<KageAction, String>)
        ensures
            *final(self) == *old(self),
    {
        let matches = match options_parse(&self.opts, args) {
            Ok(m) => m,
            Err(e) => {
                return Err(e);
            },
        };
        if matches_flag_present(&matches, "help") {
            return Ok(KageAction::PrintHelp);
        }
        Ok(KageAction::SendPortalCommand)
    }

    /// A readable summary of the subcommand's options.
    pub fn get_usage(&self) -> String {
        options_usage(&self.opts, "Usage for the info command")
    }
}

/// The `mount` subcommand: its action travels on the monitor protocol, so
/// this client side only names it and answers the help flag.
pub struct MountPlugin {
    name: String,
    opts: getopts::Options,
}

impl MountPlugin {
    /// The registry name, for contracts.
    pub closed spec fn spec_name(&self) -> Seq<char> {
        self.name@
    }

    /// Sets the subcommand up with its help flag.
    pub fn new() -> (r: MountPlugin)
        ensures
            r.spec_name() == "mount"@,
    {
        let mut opts = options_new();
        proof {
            reveal_strlit("h");
            reveal_strlit("help");
        }
        options_optflag(&mut opts, "h", "help", "Print this message");
        MountPlugin { name: String::from_str("mount"), opts }
    }

    /// The subcommand's registry name.
    pub fn get_name(&self) -> (r: &String)
        ensures
            r@ == self.spec_name(),
    {
        &self.name
    }

    /// Mount requests go to the monitor, not the portal.
    pub fn get_portal_cmd(&self) -> (r: Option<PortalCall>)
        ensures
            r is None,
    {
        None
    }

    /// Reads the subcommand's arguments: only the help flag is accepted.
    pub fn init_client(&mut self, args: &Vec<String>) -> (r: Result<KageAction, String>)
        ensures
            r matches Ok(a) ==> a is PrintHelp,
            *final(self) == *old(self),
    {
        let matches = match options_parse(&self.opts, args) {
            Ok(m) => m,
            Err(e) => {
                return Err(e);
            },
        };
        if matches_flag_present(&matches, "help") {
            return Ok(KageAction::PrintHelp);
        }
        Err(String::from_str("The mount command is driven over the monitor channel"))
    }

    /// A readable summary of the subcommand's options.
    pub fn get_usage(&self) -> String {
        options_usage(&self.opts, "Usage for the mount command")
    }
}

/// The `shim` subcommand: its action travels on the monitor protocol, so
/// this client side only names it and answers the help flag.
pub struct ShimPlugin {
    name: String,
    opts: getopts::Options,
}

impl ShimPlugin {
    /// The registry name, for contracts.
    pub closed spec fn spec_name(&self) -> Seq<char> {
        self.name@
    }

    /// Sets the subcommand up with its help flag.
    pub fn new() -> (r: ShimPlugin)
        ensures
            r.spec_name() == "shim"@,
    {
        let mut opts = options_new();
        proof {
            reveal_strlit("h");
            reveal_strlit("help");
        }
        options_optflag(&mut opts, "h", "help", "Print this message");
        ShimPlugin { name: String::from_str("shim"), opts }
    }

    /// The subcommand's registry name.
    pub fn get_name(&self) -> (r: &String)
        ensures
            r@ == self.spec_name(),
    {
        &self.name
    }

    /// Shim requests go to the monitor, not the portal.
    pub fn get_portal_cmd(&self) -> (r: Option<PortalCall>)
        ensures
            r is None,
    {
        None
    }

    /// Reads the subcommand's arguments: only the help flag is accepted.
    pub fn init_client(&mut self, args: &Vec<String>) -> (r: Result<KageAction, String>)
        ensures
            r matches Ok(a) ==> a is PrintHelp,
            *final(self) == *old(self),
    {
        let matches = match options_parse(&self.opts, args) {
            Ok(m) => m,
            Err(e) => {
                return Err(e);
            },
        };
        if matches_flag_present(&matches, "help") {
            return Ok(KageAction::PrintHelp);
        }
        Err(String::from_str("The shim command is driven over the monitor channel"))
    }

    /// A readable summary of the subcommand's options.
    pub fn get_usage(&self) -> String {
        options_usage(&self.opts, "Usage for the shim command")
    }
}

impl KageCommand for RunPlugin {
    fn get_name(&self) -> &String {
        RunPlugin::get_name(self)
    }

    fn get_usage(&self) -> String {
        RunPlugin::get_usage(self)
    }

    fn get_portal_cmd(&self) -> Option<PortalCall> {
        RunPlugin::get_portal_cmd(self)
    }

    fn init_client(&mut self, args: &Vec<String>) -> Result<KageAction, String> {
        RunPlugin::init_client(self, args)
    }
}

impl KageCommand for InfoPlugin {
    fn get_name(&self) -> &String {
        InfoPlugin::get_name(self)
    }

    fn get_usage(&self) -> String {
        InfoPlugin::get_usage(self)
    }

    fn get_portal_cmd(&self) -> Option<PortalCall> {
        InfoPlugin::get_portal_cmd(self)
    }

    fn init_client(&mut self, args: &Vec<String>) -> Result<KageAction, String> {
        InfoPlugin::init_client(self, args)
    }
}

impl KageCommand for MountPlugin {
    fn get_name(&self) -> &String {
        MountPlugin::get_name(self)
    }

    fn get_usage(&self) -> String {
        MountPlugin::get_usage(self)
    }

    fn get_portal_cmd(&self) -> Option<PortalCall> {
        MountPlugin::get_portal_cmd(self)
    }

    fn init_client(&mut self, args: &Vec<String>) -> Result<KageAction, String> {
        MountPlugin::init_client(self, args)
    }
}

impl KageCommand for ShimPlugin {
    fn get_name(&self) -> &String {
        ShimPlugin::get_name(self)
    }

    fn get_usage(&self) -> String {
        ShimPlugin::get_usage(self)
    }

    fn get_portal_cmd(&self) -> Option<PortalCall> {
        ShimPlugin::get_portal_cmd(self)
    }

    fn init_client(&mut self, args: &Vec<String>) -> Result<KageAction, String> {
        ShimPlugin::init_client(self, args)
    }
}

} // verus!
