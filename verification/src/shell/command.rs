//! The commands that a line can hold.

use vstd::prelude::*;
use vstd::string::*;

use crate::text;
use crate::text::{same, starts_with, strip_prefix, trim};
use crate::words;
use crate::words::{cut_text, replace, second_word, split_words};

verus! {

/// Where the installer can copy to.
#[derive(Clone, Copy, Debug, PartialEq, Eq, Structural)]
pub enum Target {
    Master,
    Slave,
    Usb,
}

/// The subcommands of `pkg`.
pub enum Pkg<T = String> {
    List,
    Info(T),
    Install(T),
    Remove(T),
    Run(T),
    /// The subcommand needs an argument that is not there.
    InfoUsage,
    InstallUsage,
    RemoveUsage,
    RunUsage,
    Unknown(T),
}

impl View for Pkg {
    type V = Pkg<Seq<char>>;

    open spec fn view(&self) -> Pkg<Seq<char>> {
        match *self {
            Pkg::List => Pkg::List,
            Pkg::Info(t) => Pkg::Info(t@),
            Pkg::Install(t) => Pkg::Install(t@),
            Pkg::Remove(t) => Pkg::Remove(t@),
            Pkg::Run(t) => Pkg::Run(t@),
            Pkg::InfoUsage => Pkg::InfoUsage,
            Pkg::InstallUsage => Pkg::InstallUsage,
            Pkg::RemoveUsage => Pkg::RemoveUsage,
            Pkg::RunUsage => Pkg::RunUsage,
            Pkg::Unknown(t) => Pkg::Unknown(t@),
        }
    }
}

/// The subcommands of `net`.
pub enum Net<T = String> {
    Status,
    Up,
    Arp,
    Dns,
    Flush,
    Unknown(T),
}

impl View for Net {
    type V = Net<Seq<char>>;

    open spec fn view(&self) -> Net<Seq<char>> {
        match *self {
            Net::Status => Net::Status,
            Net::Up => Net::Up,
            Net::Arp => Net::Arp,
            Net::Dns => Net::Dns,
            Net::Flush => Net::Flush,
            Net::Unknown(t) => Net::Unknown(t@),
        }
    }
}

/// The subcommands of `install`.
pub enum Install<T = String> {
    /// `install` alone explains itself.
    Usage,
    List,
    To(Target),
    /// No target was named.
    ToUsage,
    UnknownTarget(T),
    Unknown(T),
}

impl View for Install {
    type V = Install<Seq<char>>;

    open spec fn view(&self) -> Install<Seq<char>> {
        match *self {
            Install::Usage => Install::Usage,
            Install::List => Install::List,
            Install::To(t) => Install::To(t),
            Install::ToUsage => Install::ToUsage,
            Install::UnknownTarget(t) => Install::UnknownTarget(t@),
            Install::Unknown(t) => Install::Unknown(t@),
        }
    }
}

/// What a line asks the shell to do.
pub enum Command {
    /// An empty line.
    Idle,
    Help,
    Clear,
    Reboot,
    Shutdown,
    Panic,
    Uptime,
    Ticks,
    Date,
    Whoami,
    Version,
    List(String),
    Print(String),
    PrintUsage,
    Write { path: String, text: String },
    WriteUsage,
    Compile(Vec<String>),
    CompileUsage,
    Run(String),
    RunUsage,
    CpuInfo,
    Graphics,
    Desktop,
    Calculator,
    UserDemo,
    Memory,
    AddressSpace,
    Pkg(Pkg),
    Pci,
    Usb,
    Install(Install),
    Net(Net),
    Ping(String),
    PingUsage,
    Host(String),
    HostUsage,
    Fetch(String),
    FetchUsage,
    Script(String),
    ScriptUsage,
    Browse,
    Echo(String),
    Unknown(String),
}

pub ghost enum CommandModel {
    Idle,
    Help,
    Clear,
    Reboot,
    Shutdown,
    Panic,
    Uptime,
    Ticks,
    Date,
    Whoami,
    Version,
    List(Seq<char>),
    Print(Seq<char>),
    PrintUsage,
    Write { path: Seq<char>, text: Seq<char> },
    WriteUsage,
    Compile(Seq<Seq<char>>),
    CompileUsage,
    Run(Seq<char>),
    RunUsage,
    CpuInfo,
    Graphics,
    Desktop,
    Calculator,
    UserDemo,
    Memory,
    AddressSpace,
    Pkg(Pkg<Seq<char>>),
    Pci,
    Usb,
    Install(Install<Seq<char>>),
    Net(Net<Seq<char>>),
    Ping(Seq<char>),
    PingUsage,
    Host(Seq<char>),
    HostUsage,
    Fetch(Seq<char>),
    FetchUsage,
    Script(Seq<char>),
    ScriptUsage,
    Browse,
    Echo(Seq<char>),
    Unknown(Seq<char>),
}

impl View for Command {
    type V = CommandModel;

    open spec fn view(&self) -> CommandModel {
        match *self {
            Command::Idle => CommandModel::Idle,
            Command::Help => CommandModel::Help,
            Command::Clear => CommandModel::Clear,
            Command::Reboot => CommandModel::Reboot,
            Command::Shutdown => CommandModel::Shutdown,
            Command::Panic => CommandModel::Panic,
            Command::Uptime => CommandModel::Uptime,
            Command::Ticks => CommandModel::Ticks,
            Command::Date => CommandModel::Date,
            Command::Whoami => CommandModel::Whoami,
            Command::Version => CommandModel::Version,
            Command::List(t) => CommandModel::List(t@),
            Command::Print(t) => CommandModel::Print(t@),
            Command::PrintUsage => CommandModel::PrintUsage,
            Command::Write { path, text } => CommandModel::Write { path: path@, text: text@ },
            Command::WriteUsage => CommandModel::WriteUsage,
            Command::Compile(v) => CommandModel::Compile(text::strings(v@)),
            Command::CompileUsage => CommandModel::CompileUsage,
            Command::Run(t) => CommandModel::Run(t@),
            Command::RunUsage => CommandModel::RunUsage,
            Command::CpuInfo => CommandModel::CpuInfo,
            Command::Graphics => CommandModel::Graphics,
            Command::Desktop => CommandModel::Desktop,
            Command::Calculator => CommandModel::Calculator,
            Command::UserDemo => CommandModel::UserDemo,
            Command::Memory => CommandModel::Memory,
            Command::AddressSpace => CommandModel::AddressSpace,
            Command::Pkg(p) => CommandModel::Pkg(p@),
            Command::Pci => CommandModel::Pci,
            Command::Usb => CommandModel::Usb,
            Command::Install(p) => CommandModel::Install(p@),
            Command::Net(p) => CommandModel::Net(p@),
            Command::Ping(t) => CommandModel::Ping(t@),
            Command::PingUsage => CommandModel::PingUsage,
            Command::Host(t) => CommandModel::Host(t@),
            Command::HostUsage => CommandModel::HostUsage,
            Command::Fetch(t) => CommandModel::Fetch(t@),
            Command::FetchUsage => CommandModel::FetchUsage,
            Command::Script(t) => CommandModel::Script(t@),
            Command::ScriptUsage => CommandModel::ScriptUsage,
            Command::Browse => CommandModel::Browse,
            Command::Echo(t) => CommandModel::Echo(t@),
            Command::Unknown(t) => CommandModel::Unknown(t@),
        }
    }
}

/// What follows the first so many characters, without the white space around
/// it.
pub open spec fn argument(s: Seq<char>, head: Seq<char>) -> Seq<char> {
    text::trimmed(s.skip(head.len() as int))
}

/// Whether the line is this command, alone or with something after it.
pub open spec fn is_command(s: Seq<char>, name: Seq<char>) -> bool {
    s == name || text::has_prefix(s, name + " "@)
}

/// The subcommand, and what follows it.
pub open spec fn subcommand(args: Seq<char>) -> (Seq<char>, Seq<char>) {
    match words::cut(args) {
        (a, Some(b)) => (a, text::trimmed(b)),
        (a, None) => (a, Seq::empty()),
    }
}

pub open spec fn needing(
    rest: Seq<char>,
    found: Pkg<Seq<char>>,
    usage: Pkg<Seq<char>>,
) -> Pkg<Seq<char>> {
    if rest.len() == 0 {
        usage
    } else {
        found
    }
}

/// What the arguments of `pkg` ask for.
pub open spec fn pkg_asked(args: Seq<char>) -> Pkg<Seq<char>> {
    let (sub, rest) = subcommand(args);
    if sub.len() == 0 || sub == "list"@ || sub == "ls"@ {
        Pkg::List
    } else if sub == "info"@ {
        needing(rest, Pkg::Info(rest), Pkg::InfoUsage)
    } else if sub == "install"@ || sub == "add"@ {
        needing(rest, Pkg::Install(rest), Pkg::InstallUsage)
    } else if sub == "remove"@ || sub == "uninstall"@ || sub == "rm"@ {
        needing(rest, Pkg::Remove(rest), Pkg::RemoveUsage)
    } else if sub == "run"@ || sub == "launch"@ {
        needing(rest, Pkg::Run(rest), Pkg::RunUsage)
    } else {
        Pkg::Unknown(sub)
    }
}

/// What the arguments of `net` ask for.
pub open spec fn net_asked(args: Seq<char>) -> Net<Seq<char>> {
    let (sub, rest) = subcommand(args);
    if sub.len() == 0 || sub == "status"@ {
        Net::Status
    } else if sub == "up"@ {
        Net::Up
    } else if sub == "arp"@ {
        Net::Arp
    } else if sub == "dns"@ {
        Net::Dns
    } else if sub == "flush"@ {
        Net::Flush
    } else {
        Net::Unknown(sub)
    }
}

/// What an `install` line with arguments asks for.
pub open spec fn install_asked(s: Seq<char>) -> Install<Seq<char>> {
    match words::nth_word(s, 1) {
        None => Install::List,
        Some(sub) => if sub == "list"@ {
            Install::List
        } else if sub == "to"@ {
            match words::nth_word(s, 2) {
                None => Install::ToUsage,
                Some(t) => if t == "master"@ {
                    Install::To(Target::Master)
                } else if t == "slave"@ {
                    Install::To(Target::Slave)
                } else if t == "usb"@ {
                    Install::To(Target::Usb)
                } else {
                    Install::UnknownTarget(t)
                },
            }
        } else {
            Install::Unknown(sub)
        },
    }
}

/// The text that `write` puts into a file: `@n@` stands for a line end, and
/// the file ends with one. Nothing else is expanded, so that C source comes
/// through as it was typed.
pub open spec fn written(body: Seq<char>) -> Seq<char> {
    let t = words::replaced(body, "@n@"@, "\n"@);
    if t.len() > 0 && t.last() == '\n' {
        t
    } else {
        t.push('\n')
    }
}

pub open spec fn write_asked(s: Seq<char>) -> CommandModel {
    match words::cut(argument(s, "write "@)) {
        (path, body) => if path.len() == 0 {
            CommandModel::WriteUsage
        } else {
            CommandModel::Write {
                path,
                text: written(
                    match body {
                        Some(b) => text::trim_start(b),
                        None => Seq::empty(),
                    },
                ),
            }
        },
    }
}

/// A command with a path as its second word.
pub open spec fn path_asked(
    s: Seq<char>,
    found: spec_fn(Seq<char>) -> CommandModel,
    usage: CommandModel,
) -> CommandModel {
    match words::nth_word(s, 1) {
        Some(p) => found(p),
        None => usage,
    }
}

/// The commands that are one word.
pub open spec fn plain(s: Seq<char>) -> Option<CommandModel> {
    if s == "help"@ {
        Some(CommandModel::Help)
    } else if s == "clear"@ {
        Some(CommandModel::Clear)
    } else if s == "reboot"@ {
        Some(CommandModel::Reboot)
    } else if s == "shutdown"@ || s == "poweroff"@ {
        Some(CommandModel::Shutdown)
    } else if s == "panic"@ {
        Some(CommandModel::Panic)
    } else if s == "uptime"@ {
        Some(CommandModel::Uptime)
    } else if s == "ticks"@ {
        Some(CommandModel::Ticks)
    } else if s == "date"@ {
        Some(CommandModel::Date)
    } else if s == "whoami"@ {
        Some(CommandModel::Whoami)
    } else if s == "version"@ {
        Some(CommandModel::Version)
    } else if s == "ls"@ {
        Some(CommandModel::List("/"@))
    } else if s == "cpuinfo"@ {
        Some(CommandModel::CpuInfo)
    } else if s == "gfx"@ {
        Some(CommandModel::Graphics)
    } else if s == "gui"@ {
        Some(CommandModel::Desktop)
    } else if s == "calc"@ {
        Some(CommandModel::Calculator)
    } else if s == "user"@ {
        Some(CommandModel::UserDemo)
    } else if s == "mem"@ {
        Some(CommandModel::Memory)
    } else if s == "vm"@ {
        Some(CommandModel::AddressSpace)
    } else if s == "pci"@ {
        Some(CommandModel::Pci)
    } else if s == "usb"@ {
        Some(CommandModel::Usb)
    } else if s == "install"@ {
        Some(CommandModel::Install(Install::Usage))
    } else if s == "ping"@ {
        Some(CommandModel::PingUsage)
    } else if s == "wget"@ || s == "curl"@ {
        Some(CommandModel::FetchUsage)
    } else if s == "js"@ {
        Some(CommandModel::ScriptUsage)
    } else if s == "browse"@ || s == "browser"@ {
        Some(CommandModel::Browse)
    } else if s == "echo"@ {
        Some(CommandModel::Echo(Seq::empty()))
    } else if s.len() == 0 {
        Some(CommandModel::Idle)
    } else {
        None
    }
}

/// A command whose argument may be missing.
pub open spec fn with_argument(
    arg: Seq<char>,
    found: CommandModel,
    usage: CommandModel,
) -> CommandModel {
    if arg.len() == 0 {
        usage
    } else {
        found
    }
}

/// The commands that take what follows them as it stands.
pub open spec fn with_address(s: Seq<char>) -> CommandModel {
    if text::has_prefix(s, "ping "@) {
        let a = argument(s, "ping "@);
        with_argument(a, CommandModel::Ping(a), CommandModel::PingUsage)
    } else if text::has_prefix(s, "host "@) {
        let a = argument(s, "host "@);
        with_argument(a, CommandModel::Host(a), CommandModel::HostUsage)
    } else if text::has_prefix(s, "nslookup "@) {
        let a = argument(s, "nslookup "@);
        with_argument(a, CommandModel::Host(a), CommandModel::HostUsage)
    } else if text::has_prefix(s, "wget "@) {
        let a = argument(s, "wget "@);
        with_argument(a, CommandModel::Fetch(a), CommandModel::FetchUsage)
    } else if text::has_prefix(s, "curl "@) {
        let a = argument(s, "curl "@);
        with_argument(a, CommandModel::Fetch(a), CommandModel::FetchUsage)
    } else if text::has_prefix(s, "js "@) {
        CommandModel::Script(argument(s, "js "@))
    } else if text::has_prefix(s, "echo "@) {
        CommandModel::Echo(s.skip("echo "@.len() as int))
    } else {
        CommandModel::Unknown(s)
    }
}

/// The commands that take words, and those of [`with_address`].
pub open spec fn with_arguments(s: Seq<char>) -> CommandModel {
    if text::has_prefix(s, "ls "@) {
        CommandModel::List(
            match words::nth_word(s, 1) {
                Some(p) => p,
                None => "/"@,
            },
        )
    } else if text::has_prefix(s, "cat "@) {
        path_asked(s, |p: Seq<char>| CommandModel::Print(p), CommandModel::PrintUsage)
    } else if text::has_prefix(s, "write "@) {
        write_asked(s)
    } else if is_command(s, "cc"@) {
        let args = words::words(argument(s, "cc"@));
        if args.len() == 0 {
            CommandModel::CompileUsage
        } else {
            CommandModel::Compile(args)
        }
    } else if text::has_prefix(s, "run "@) {
        path_asked(s, |p: Seq<char>| CommandModel::Run(p), CommandModel::RunUsage)
    } else if is_command(s, "pkg"@) {
        CommandModel::Pkg(pkg_asked(argument(s, "pkg"@)))
    } else if text::has_prefix(s, "install "@) {
        CommandModel::Install(install_asked(s))
    } else if is_command(s, "net"@) {
        CommandModel::Net(net_asked(argument(s, "net"@)))
    } else {
        with_address(s)
    }
}

/// What a line asks for.
pub open spec fn asked(s: Seq<char>) -> CommandModel {
    match plain(s) {
        Some(c) => c,
        None => with_arguments(s),
    }
}

fn sub_of(args: &str) -> (r: (String, String))
    ensures
        (r.0@, r.1@) == subcommand(args@),
{
    match cut_text(args) {
        (a, Some(b)) => {
            let t = trim(b.as_str());
            (a, t)
        },
        (a, None) => {
            let t = String::new();
            assert(t@ =~= Seq::empty());
            (a, t)
        },
    }
}

/// Read the arguments of `pkg`.
pub fn pkg_command(args: &str) -> (r: Pkg)
    ensures
        r@ == pkg_asked(args@),
{
    let (sub, rest) = sub_of(args);
    let sub_str = sub.as_str();
    let none = rest.as_str().unicode_len() == 0;
    if sub_str.unicode_len() == 0 || same(sub_str, "list") || same(sub_str, "ls") {
        Pkg::List
    } else if same(sub_str, "info") {
        if none {
            Pkg::InfoUsage
        } else {
            Pkg::Info(rest)
        }
    } else if same(sub_str, "install") || same(sub_str, "add") {
        if none {
            Pkg::InstallUsage
        } else {
            Pkg::Install(rest)
        }
    } else if same(sub_str, "remove") || same(sub_str, "uninstall") || same(sub_str, "rm") {
        if none {
            Pkg::RemoveUsage
        } else {
            Pkg::Remove(rest)
        }
    } else if same(sub_str, "run") || same(sub_str, "launch") {
        if none {
            Pkg::RunUsage
        } else {
            Pkg::Run(rest)
        }
    } else {
        Pkg::Unknown(sub)
    }
}

/// Read the arguments of `net`.
pub fn net_command(args: &str) -> (r: Net)
    ensures
        r@ == net_asked(args@),
{
    let (sub, _rest) = sub_of(args);
    let s = sub.as_str();
    if s.unicode_len() == 0 || same(s, "status") {
        Net::Status
    } else if same(s, "up") {
        Net::Up
    } else if same(s, "arp") {
        Net::Arp
    } else if same(s, "dns") {
        Net::Dns
    } else if same(s, "flush") {
        Net::Flush
    } else {
        Net::Unknown(sub)
    }
}

/// Read an `install` line with arguments.
pub fn install_command(s: &str) -> (r: Install)
    ensures
        r@ == install_asked(s@),
{
    let v = split_words(s);
    assert(text::strings(v@).len() == v@.len());
    if v.len() < 2 {
        return Install::List;
    }
    assert(text::strings(v@)[1] == v@[1]@);
    let sub = v[1].as_str();
    if same(sub, "list") {
        return Install::List;
    }
    if !same(sub, "to") {
        return Install::Unknown(sub.to_owned());
    }
    if v.len() < 3 {
        return Install::ToUsage;
    }
    assert(text::strings(v@)[2] == v@[2]@);
    let t = v[2].as_str();
    if same(t, "master") {
        Install::To(Target::Master)
    } else if same(t, "slave") {
        Install::To(Target::Slave)
    } else if same(t, "usb") {
        Install::To(Target::Usb)
    } else {
        Install::UnknownTarget(t.to_owned())
    }
}

fn write_command(s: &str) -> (r: Command)
    requires
        text::has_prefix(s@, "write "@),
    ensures
        r@ == write_asked(s@),
{
    let rest = match strip_prefix(s, "write ") {
        Some(t) => t,
        None => String::new(),
    };
    let rest = trim(rest.as_str());
    let (path, body) = cut_text(rest.as_str());
    if path.as_str().unicode_len() == 0 {
        return Command::WriteUsage;
    }
    let body = match body {
        Some(b) => text::trim_front(b.as_str()),
        None => {
            let t = String::new();
            assert(t@ =~= Seq::empty());
            t
        },
    };
    proof {
        reveal_strlit("@n@");
    }
    let mut t = replace(body.as_str(), "@n@", "\n");
    let n: usize = t.as_str().unicode_len();
    if n == 0 || t.as_str().get_char(n - 1) != '\n' {
        t.push('\n');
    }
    Command::Write { path, text: t }
}

fn after(s: &str, head: &str) -> (r: String)
    requires
        text::has_prefix(s@, head@),
    ensures
        r@ == argument(s@, head@),
{
    match strip_prefix(s, head) {
        Some(t) => trim(t.as_str()),
        None => String::new(),
    }
}

fn is_one(s: &str, name: &str) -> (r: bool)
    ensures
        r == is_command(s@, name@),
        r ==> text::has_prefix(s@, name@),
{
    if same(s, name) {
        assert(s@.take(name@.len() as int) =~= name@);
        return true;
    }
    let mut longer = name.to_owned();
    longer.append(" ");
    let r = starts_with(s, longer.as_str());
    if r {
        assert(s@.take(name@.len() as int) =~= name@) by {
            assert(s@.take(longer@.len() as int) == longer@);
            assert forall|i: int| 0 <= i < name@.len() implies s@[i] == name@[i] by {
                assert(s@[i] == s@.take(longer@.len() as int)[i]);
                assert(longer@[i] == name@[i]);
            }
        }
    }
    r
}

fn plain_command(s: &str) -> (r: Option<Command>)
    ensures
        match r {
            Some(c) => plain(s@) == Some(c@),
            None => plain(s@) is None,
        },
{
    if same(s, "help") {
        Some(Command::Help)
    } else if same(s, "clear") {
        Some(Command::Clear)
    } else if same(s, "reboot") {
        Some(Command::Reboot)
    } else if same(s, "shutdown") || same(s, "poweroff") {
        Some(Command::Shutdown)
    } else if same(s, "panic") {
        Some(Command::Panic)
    } else if same(s, "uptime") {
        Some(Command::Uptime)
    } else if same(s, "ticks") {
        Some(Command::Ticks)
    } else if same(s, "date") {
        Some(Command::Date)
    } else if same(s, "whoami") {
        Some(Command::Whoami)
    } else if same(s, "version") {
        Some(Command::Version)
    } else if same(s, "ls") {
        Some(Command::List("/".to_owned()))
    } else if same(s, "cpuinfo") {
        Some(Command::CpuInfo)
    } else if same(s, "gfx") {
        Some(Command::Graphics)
    } else if same(s, "gui") {
        Some(Command::Desktop)
    } else if same(s, "calc") {
        Some(Command::Calculator)
    } else if same(s, "user") {
        Some(Command::UserDemo)
    } else if same(s, "mem") {
        Some(Command::Memory)
    } else if same(s, "vm") {
        Some(Command::AddressSpace)
    } else if same(s, "pci") {
        Some(Command::Pci)
    } else if same(s, "usb") {
        Some(Command::Usb)
    } else if same(s, "install") {
        Some(Command::Install(Install::Usage))
    } else if same(s, "ping") {
        Some(Command::PingUsage)
    } else if same(s, "wget") || same(s, "curl") {
        Some(Command::FetchUsage)
    } else if same(s, "js") {
        Some(Command::ScriptUsage)
    } else if same(s, "browse") || same(s, "browser") {
        Some(Command::Browse)
    } else if same(s, "echo") {
        let t = String::new();
        assert(t@ =~= Seq::empty());
        Some(Command::Echo(t))
    } else if s.unicode_len() == 0 {
        Some(Command::Idle)
    } else {
        None
    }
}

fn command_with_arguments(s: &str) -> (r: Command)
    ensures
        r@ == with_arguments(s@),
{
    if starts_with(s, "ls ") {
        return match second_word(s) {
            Some(p) => Command::List(p),
            None => Command::List("/".to_owned()),
        };
    }
    if starts_with(s, "cat ") {
        return match second_word(s) {
            Some(p) => Command::Print(p),
            None => Command::PrintUsage,
        };
    }
    if starts_with(s, "write ") {
        return write_command(s);
    }
    if is_one(s, "cc") {
        let rest = after(s, "cc");
        let args = split_words(rest.as_str());
        assert(text::strings(args@).len() == args@.len());
        return if args.len() == 0 {
            Command::CompileUsage
        } else {
            Command::Compile(args)
        };
    }
    if starts_with(s, "run ") {
        return match second_word(s) {
            Some(p) => Command::Run(p),
            None => Command::RunUsage,
        };
    }
    if is_one(s, "pkg") {
        let rest = after(s, "pkg");
        return Command::Pkg(pkg_command(rest.as_str()));
    }
    if starts_with(s, "install ") {
        return Command::Install(install_command(s));
    }
    if is_one(s, "net") {
        let rest = after(s, "net");
        return Command::Net(net_command(rest.as_str()));
    }
    network_command(s)
}

fn network_command(s: &str) -> (r: Command)
    ensures
        r@ == with_address(s@),
{
    if starts_with(s, "ping ") {
        let a = after(s, "ping ");
        return if a.as_str().unicode_len() == 0 {
            Command::PingUsage
        } else {
            Command::Ping(a)
        };
    }
    if starts_with(s, "host ") {
        let a = after(s, "host ");
        return if a.as_str().unicode_len() == 0 {
            Command::HostUsage
        } else {
            Command::Host(a)
        };
    }
    if starts_with(s, "nslookup ") {
        let a = after(s, "nslookup ");
        return if a.as_str().unicode_len() == 0 {
            Command::HostUsage
        } else {
            Command::Host(a)
        };
    }
    if starts_with(s, "wget ") {
        let a = after(s, "wget ");
        return if a.as_str().unicode_len() == 0 {
            Command::FetchUsage
        } else {
            Command::Fetch(a)
        };
    }
    if starts_with(s, "curl ") {
        let a = after(s, "curl ");
        return if a.as_str().unicode_len() == 0 {
            Command::FetchUsage
        } else {
            Command::Fetch(a)
        };
    }
    if starts_with(s, "js ") {
        return Command::Script(after(s, "js "));
    }
    if let Some(t) = strip_prefix(s, "echo ") {
        return Command::Echo(t);
    }
    Command::Unknown(s.to_owned())
}

/// Read a line as a command.
pub fn execute(s: &str) -> (r: Command)
    ensures
        r@ == asked(s@),
{
    match plain_command(s) {
        Some(c) => c,
        None => command_with_arguments(s),
    }
}

} // verus!
