//! What the lines of the shell mean, stated line by line.

use vstd::prelude::*;
use vstd::string::*;

use crate::shell::command::{
    asked, install_asked, net_asked, pkg_asked, plain, subcommand, written, CommandModel, Install,
    Net, Pkg, Target,
};
use crate::text;
use crate::words;

verus! {

// ── How a line begins ───────────────────────────────────────────────────────

proof fn plain_has_no_blank(s: Seq<char>, i: int)
    requires
        2 <= i <= 8,
        i < s.len(),
        s[i] == ' ',
    ensures
        plain(s) is None,
{
    reveal_strlit("help");
    reveal_strlit("clear");
    reveal_strlit("reboot");
    reveal_strlit("shutdown");
    reveal_strlit("poweroff");
    reveal_strlit("panic");
    reveal_strlit("uptime");
    reveal_strlit("ticks");
    reveal_strlit("date");
    reveal_strlit("whoami");
    reveal_strlit("version");
    reveal_strlit("ls");
    reveal_strlit("cpuinfo");
    reveal_strlit("gfx");
    reveal_strlit("gui");
    reveal_strlit("calc");
    reveal_strlit("user");
    reveal_strlit("mem");
    reveal_strlit("vm");
    reveal_strlit("pci");
    reveal_strlit("usb");
    reveal_strlit("install");
    reveal_strlit("ping");
    reveal_strlit("wget");
    reveal_strlit("curl");
    reveal_strlit("js");
    reveal_strlit("browse");
    reveal_strlit("browser");
    reveal_strlit("echo");
    assert(s.len() >= 3);
}

/// The letters that the commands with arguments begin with.
proof fn head_letters()
    ensures
        "ls "@.len() == 3 && "ls "@[0] == 'l' && "ls "@[1] == 's',
        "cat "@.len() == 4 && "cat "@[0] == 'c' && "cat "@[1] == 'a',
        "write "@.len() == 6 && "write "@[0] == 'w' && "write "@[1] == 'r',
        "cc"@.len() == 2 && "cc"@[0] == 'c' && "cc"@[1] == 'c',
        "run "@.len() == 4 && "run "@[0] == 'r' && "run "@[1] == 'u',
        "pkg"@.len() == 3 && "pkg"@[0] == 'p' && "pkg"@[1] == 'k',
        "install "@.len() == 8 && "install "@[0] == 'i' && "install "@[1] == 'n',
        "net"@.len() == 3 && "net"@[0] == 'n' && "net"@[1] == 'e',
        "ping "@.len() == 5 && "ping "@[0] == 'p' && "ping "@[1] == 'i',
        "host "@.len() == 5 && "host "@[0] == 'h' && "host "@[1] == 'o',
        "nslookup "@.len() == 9 && "nslookup "@[0] == 'n' && "nslookup "@[1] == 's',
        "wget "@.len() == 5 && "wget "@[0] == 'w' && "wget "@[1] == 'g',
        "curl "@.len() == 5 && "curl "@[0] == 'c' && "curl "@[1] == 'u',
        "js "@.len() == 3 && "js "@[0] == 'j' && "js "@[1] == 's',
        "echo "@.len() == 5 && "echo "@[0] == 'e' && "echo "@[1] == 'c',
        " "@.len() == 1 && " "@[0] == ' ',
{
    reveal_strlit("ls ");
    reveal_strlit("cat ");
    reveal_strlit("write ");
    reveal_strlit("cc");
    reveal_strlit("run ");
    reveal_strlit("pkg");
    reveal_strlit("install ");
    reveal_strlit("net");
    reveal_strlit("ping ");
    reveal_strlit("host ");
    reveal_strlit("nslookup ");
    reveal_strlit("wget ");
    reveal_strlit("curl ");
    reveal_strlit("js ");
    reveal_strlit("echo ");
    reveal_strlit(" ");
}

proof fn prefixes_share_letters(s: Seq<char>)
    ensures
        forall|p: Seq<char>| #[trigger]
            text::has_prefix(s, p) && p.len() > 1 ==> s.len() > 1 && p[0] == s[0] && p[1] == s[1],
{
    assert forall|p: Seq<char>| #[trigger] text::has_prefix(s, p) && p.len() > 1 implies s.len() > 1
        && p[0] == s[0] && p[1] == s[1] by {
        assert(s.take(p.len() as int)[0] == s[0]);
        assert(s.take(p.len() as int)[1] == s[1]);
    }
}

/// A line that begins with a head and goes on with `x`.
proof fn line_parts(head: Seq<char>, x: Seq<char>)
    ensures
        text::has_prefix(head + x, head),
        (head + x).skip(head.len() as int) == x,
        forall|i: int| 0 <= i < head.len() ==> (head + x)[i] == head[i],
        (head + x).len() == head.len() + x.len(),
{
    assert((head + x).take(head.len() as int) =~= head);
    assert((head + x).skip(head.len() as int) =~= x);
}

proof fn trimmed_already(x: Seq<char>)
    requires
        text::bare(x),
    ensures
        text::trimmed(x) == x,
        text::trimmed(seq![' '] + x) == x,
{
    text::trimming_removes_the_ends(Seq::empty(), x, Seq::empty());
    assert(Seq::<char>::empty() + x + Seq::<char>::empty() =~= x);
    text::trimming_removes_the_ends(seq![' '], x, Seq::empty());
    assert(seq![' '] + x + Seq::<char>::empty() =~= seq![' '] + x);
}

// ── One word ────────────────────────────────────────────────────────────────

/// Each of the commands that are one word is asked for by that word, and by no
/// other line.
pub proof fn one_word_commands_have_one_word(s: Seq<char>)
    ensures
        asked(s) is Help <==> s == "help"@,
        asked(s) is Clear <==> s == "clear"@,
        asked(s) is Reboot <==> s == "reboot"@,
        asked(s) is Panic <==> s == "panic"@,
        asked(s) is Uptime <==> s == "uptime"@,
        asked(s) is Ticks <==> s == "ticks"@,
        asked(s) is Date <==> s == "date"@,
        asked(s) is Whoami <==> s == "whoami"@,
        asked(s) is Version <==> s == "version"@,
        asked(s) is CpuInfo <==> s == "cpuinfo"@,
        asked(s) is Graphics <==> s == "gfx"@,
        asked(s) is Desktop <==> s == "gui"@,
        asked(s) is Calculator <==> s == "calc"@,
        asked(s) is UserDemo <==> s == "user"@,
        asked(s) is Memory <==> s == "mem"@,
        asked(s) is AddressSpace <==> s == "vm"@,
        asked(s) is Pci <==> s == "pci"@,
        asked(s) is Usb <==> s == "usb"@,
        asked(s) is Shutdown <==> s == "shutdown"@ || s == "poweroff"@,
        asked(s) is Browse <==> s == "browse"@ || s == "browser"@,
        asked(s) is Idle <==> s.len() == 0,
{
    reveal_strlit("help");
    reveal_strlit("clear");
    reveal_strlit("reboot");
    reveal_strlit("shutdown");
    reveal_strlit("poweroff");
    reveal_strlit("panic");
    reveal_strlit("uptime");
    reveal_strlit("ticks");
    reveal_strlit("date");
    reveal_strlit("whoami");
    reveal_strlit("version");
    reveal_strlit("ls");
    reveal_strlit("cpuinfo");
    reveal_strlit("gfx");
    reveal_strlit("gui");
    reveal_strlit("calc");
    reveal_strlit("user");
    reveal_strlit("mem");
    reveal_strlit("vm");
    reveal_strlit("pci");
    reveal_strlit("usb");
    reveal_strlit("install");
    reveal_strlit("ping");
    reveal_strlit("wget");
    reveal_strlit("curl");
    reveal_strlit("js");
    reveal_strlit("browse");
    reveal_strlit("browser");
    reveal_strlit("echo");
    assert("help"@[0] == 'h' && "help"@[1] == 'e');
    assert("clear"@[0] == 'c' && "clear"@[1] == 'l');
    assert("reboot"@[0] == 'r' && "reboot"@[1] == 'e');
    assert("shutdown"@[0] == 's' && "shutdown"@[1] == 'h');
    assert("poweroff"@[0] == 'p' && "poweroff"@[1] == 'o');
    assert("panic"@[0] == 'p' && "panic"@[1] == 'a');
    assert("uptime"@[0] == 'u' && "uptime"@[1] == 'p');
    assert("ticks"@[0] == 't' && "ticks"@[1] == 'i');
    assert("date"@[0] == 'd' && "date"@[1] == 'a');
    assert("whoami"@[0] == 'w' && "whoami"@[1] == 'h');
    assert("version"@[0] == 'v' && "version"@[1] == 'e');
    assert("ls"@[0] == 'l' && "ls"@[1] == 's');
    assert("cpuinfo"@[0] == 'c' && "cpuinfo"@[1] == 'p');
    assert("gfx"@[0] == 'g' && "gfx"@[1] == 'f');
    assert("gui"@[0] == 'g' && "gui"@[1] == 'u');
    assert("calc"@[0] == 'c' && "calc"@[1] == 'a');
    assert("user"@[0] == 'u' && "user"@[1] == 's');
    assert("mem"@[0] == 'm' && "mem"@[1] == 'e');
    assert("vm"@[0] == 'v' && "vm"@[1] == 'm');
    assert("pci"@[0] == 'p' && "pci"@[1] == 'c');
    assert("usb"@[0] == 'u' && "usb"@[1] == 's');
    assert("install"@[0] == 'i' && "install"@[1] == 'n');
    assert("ping"@[0] == 'p' && "ping"@[1] == 'i');
    assert("wget"@[0] == 'w' && "wget"@[1] == 'g');
    assert("curl"@[0] == 'c' && "curl"@[1] == 'u');
    assert("js"@[0] == 'j' && "js"@[1] == 's');
    assert("browse"@[0] == 'b' && "browse"@[1] == 'r');
    assert("browser"@[0] == 'b' && "browser"@[1] == 'r');
    assert("echo"@[0] == 'e' && "echo"@[1] == 'c');
}

// ── Packages ────────────────────────────────────────────────────────────────

proof fn sub_and_rest(sub: Seq<char>, x: Seq<char>)
    requires
        words::unspaced(sub),
        text::bare(x),
    ensures
        subcommand(sub + " "@ + x) == (sub, x),
{
    reveal_strlit(" ");
    assert(" "@ =~= seq![' ']);
    words::cutting_takes_the_first_word(sub, ' ', x);
    trimmed_already(x);
}

proof fn sub_and_blanks(sub: Seq<char>, b: Seq<char>)
    requires
        words::unspaced(sub),
        text::blank(b),
    ensures
        subcommand(sub + b) == (sub, Seq::<char>::empty()),
{
    if b.len() == 0 {
        assert(sub + b =~= sub);
        words::cutting_takes_the_first_word(sub, ' ', b);
    } else {
        assert(text::white_space(b[0]));
        let rest = b.skip(1);
        assert(sub + b =~= sub + seq![b[0]] + rest);
        words::cutting_takes_the_first_word(sub, b[0], rest);
        assert forall|i: int| 0 <= i < rest.len() implies text::white_space(#[trigger] rest[i]) by {
            assert(text::white_space(b[i + 1]));
        }
        text::trimming_removes_the_ends(rest, Seq::empty(), Seq::empty());
        assert(rest + Seq::<char>::empty() + Seq::<char>::empty() =~= rest);
    }
}

proof fn pkg_line(args: Seq<char>)
    requires
        text::bare(args),
    ensures
        asked("pkg "@ + args) == CommandModel::Pkg(pkg_asked(args)),
{
    let s = "pkg "@ + args;
    reveal_strlit("pkg ");
    reveal_strlit("pkg");
    line_parts("pkg "@, args);
    plain_has_no_blank(s, 3);
    head_letters();
    prefixes_share_letters(s);
    assert("pkg"@ + " "@ =~= "pkg "@);
    assert(s.skip(3) =~= seq![' '] + args);
    trimmed_already(args);
}

proof fn net_line(args: Seq<char>)
    requires
        text::bare(args),
    ensures
        asked("net "@ + args) == CommandModel::Net(net_asked(args)),
{
    let s = "net "@ + args;
    reveal_strlit("net ");
    reveal_strlit("net");
    line_parts("net "@, args);
    plain_has_no_blank(s, 3);
    head_letters();
    prefixes_share_letters(s);
    assert("net"@ + " "@ =~= "net "@);
    assert(s.skip(3) =~= seq![' '] + args);
    trimmed_already(args);
}

proof fn pkg_with(line: Seq<char>, sub: Seq<char>, x: Seq<char>)
    requires
        words::unspaced(sub),
        sub.len() > 0,
        text::bare(x),
        x.len() > 0,
        line == "pkg "@ + sub + " "@,
    ensures
        asked(line + x) == CommandModel::Pkg(pkg_asked(sub + " "@ + x)),
        subcommand(sub + " "@ + x) == (sub, x),
{
    let args = sub + " "@ + x;
    reveal_strlit(" ");
    assert(args[0] == sub[0]);
    assert(!text::white_space(sub[0]));
    assert(args[args.len() - 1] == x[x.len() - 1]);
    assert(text::bare(args));
    pkg_line(args);
    assert(line + x =~= "pkg "@ + args);
    sub_and_rest(sub, x);
}

/// What each subcommand of `pkg` asks for, with any argument.
pub proof fn package_lines_name_their_action(x: Seq<char>)
    requires
        x.len() > 0,
        text::bare(x),
    ensures
        asked("pkg info "@ + x) == CommandModel::Pkg(Pkg::Info(x)),
        asked("pkg install "@ + x) == CommandModel::Pkg(Pkg::Install(x)),
        asked("pkg add "@ + x) == CommandModel::Pkg(Pkg::Install(x)),
        asked("pkg remove "@ + x) == CommandModel::Pkg(Pkg::Remove(x)),
        asked("pkg uninstall "@ + x) == CommandModel::Pkg(Pkg::Remove(x)),
        asked("pkg rm "@ + x) == CommandModel::Pkg(Pkg::Remove(x)),
        asked("pkg run "@ + x) == CommandModel::Pkg(Pkg::Run(x)),
        asked("pkg launch "@ + x) == CommandModel::Pkg(Pkg::Run(x)),
        asked("pkg list "@ + x) == CommandModel::Pkg(Pkg::List),
        asked("pkg ls "@ + x) == CommandModel::Pkg(Pkg::List),
{
    package_words();
    pkg_with("pkg info "@, "info"@, x);
    pkg_with("pkg install "@, "install"@, x);
    pkg_with("pkg add "@, "add"@, x);
    pkg_with("pkg remove "@, "remove"@, x);
    pkg_with("pkg uninstall "@, "uninstall"@, x);
    pkg_with("pkg rm "@, "rm"@, x);
    pkg_with("pkg run "@, "run"@, x);
    pkg_with("pkg launch "@, "launch"@, x);
    pkg_with("pkg list "@, "list"@, x);
    pkg_with("pkg ls "@, "ls"@, x);
}

spec fn plain_word(s: Seq<char>, n: nat) -> bool {
    words::unspaced(s) && s.len() == n
}

#[verifier::rlimit(40)]
proof fn package_words()
    ensures
        plain_word("info"@, 4),
        plain_word("install"@, 7),
        plain_word("add"@, 3),
        plain_word("remove"@, 6),
        plain_word("uninstall"@, 9),
        plain_word("rm"@, 2),
        plain_word("run"@, 3),
        plain_word("launch"@, 6),
        plain_word("list"@, 4),
        plain_word("ls"@, 2),
        "pkg info "@ == "pkg "@ + "info"@ + " "@,
        "pkg install "@ == "pkg "@ + "install"@ + " "@,
        "pkg add "@ == "pkg "@ + "add"@ + " "@,
        "pkg remove "@ == "pkg "@ + "remove"@ + " "@,
        "pkg uninstall "@ == "pkg "@ + "uninstall"@ + " "@,
        "pkg rm "@ == "pkg "@ + "rm"@ + " "@,
        "pkg run "@ == "pkg "@ + "run"@ + " "@,
        "pkg launch "@ == "pkg "@ + "launch"@ + " "@,
        "pkg list "@ == "pkg "@ + "list"@ + " "@,
        "pkg ls "@ == "pkg "@ + "ls"@ + " "@,
        "info"@[0] == 'i' && "info"@[2] == 'f',
        "install"@[0] == 'i' && "install"@[2] == 's',
        "add"@[0] == 'a',
        "remove"@[0] == 'r',
        "uninstall"@[0] == 'u',
        "rm"@[0] == 'r',
        "run"@[0] == 'r',
        "launch"@[0] == 'l',
        "list"@[0] == 'l',
        "ls"@[0] == 'l',
{
    reveal_strlit("pkg ");
    reveal_strlit(" ");
    reveal_strlit("info");
    reveal_strlit("install");
    reveal_strlit("add");
    reveal_strlit("remove");
    reveal_strlit("uninstall");
    reveal_strlit("rm");
    reveal_strlit("run");
    reveal_strlit("launch");
    reveal_strlit("list");
    reveal_strlit("ls");
    reveal_strlit("pkg info ");
    reveal_strlit("pkg install ");
    reveal_strlit("pkg add ");
    reveal_strlit("pkg remove ");
    reveal_strlit("pkg uninstall ");
    reveal_strlit("pkg rm ");
    reveal_strlit("pkg run ");
    reveal_strlit("pkg launch ");
    reveal_strlit("pkg list ");
    reveal_strlit("pkg ls ");
    assert("pkg info "@ =~= "pkg "@ + "info"@ + " "@);
    assert("pkg install "@ =~= "pkg "@ + "install"@ + " "@);
    assert("pkg add "@ =~= "pkg "@ + "add"@ + " "@);
    assert("pkg remove "@ =~= "pkg "@ + "remove"@ + " "@);
    assert("pkg uninstall "@ =~= "pkg "@ + "uninstall"@ + " "@);
    assert("pkg rm "@ =~= "pkg "@ + "rm"@ + " "@);
    assert("pkg run "@ =~= "pkg "@ + "run"@ + " "@);
    assert("pkg launch "@ =~= "pkg "@ + "launch"@ + " "@);
    assert("pkg list "@ =~= "pkg "@ + "list"@ + " "@);
    assert("pkg ls "@ =~= "pkg "@ + "ls"@ + " "@);
}

/// Without its argument a subcommand of `pkg` explains itself, however many
/// blanks follow; only the list needs none.
pub proof fn packages_must_be_named(b: Seq<char>)
    requires
        text::blank(b),
    ensures
        pkg_asked("info"@ + b) is InfoUsage,
        pkg_asked("install"@ + b) is InstallUsage,
        pkg_asked("add"@ + b) is InstallUsage,
        pkg_asked("remove"@ + b) is RemoveUsage,
        pkg_asked("uninstall"@ + b) is RemoveUsage,
        pkg_asked("rm"@ + b) is RemoveUsage,
        pkg_asked("run"@ + b) is RunUsage,
        pkg_asked("launch"@ + b) is RunUsage,
        pkg_asked("list"@ + b) is List,
        pkg_asked("ls"@ + b) is List,
        pkg_asked(b) is List,
{
    package_words();
    sub_and_blanks("info"@, b);
    sub_and_blanks("install"@, b);
    sub_and_blanks("add"@, b);
    sub_and_blanks("remove"@, b);
    sub_and_blanks("uninstall"@, b);
    sub_and_blanks("rm"@, b);
    sub_and_blanks("run"@, b);
    sub_and_blanks("launch"@, b);
    sub_and_blanks("list"@, b);
    sub_and_blanks("ls"@, b);
    sub_and_blanks(Seq::empty(), b);
    assert(Seq::<char>::empty() + b =~= b);
}

/// Whether a text begins with this word and goes on behind it.
pub open spec fn begins_with(s: Seq<char>, w: Seq<char>) -> bool {
    text::has_prefix(s, w) && s.len() > w.len() && text::white_space(s[w.len() as int])
}

/// No action on a package is asked for but by its own words, and then on what
/// stands behind them.
pub proof fn package_actions_need_their_words(args: Seq<char>)
    ensures
        match pkg_asked(args) {
            Pkg::Info(t) => begins_with(args, "info"@) && t == text::trimmed(args.skip(5)),
            Pkg::Install(t) => {
                ||| begins_with(args, "install"@) && t == text::trimmed(args.skip(8))
                ||| begins_with(args, "add"@) && t == text::trimmed(args.skip(4))
            },
            Pkg::Remove(t) => {
                ||| begins_with(args, "remove"@) && t == text::trimmed(args.skip(7))
                ||| begins_with(args, "uninstall"@) && t == text::trimmed(args.skip(10))
                ||| begins_with(args, "rm"@) && t == text::trimmed(args.skip(3))
            },
            Pkg::Run(t) => {
                ||| begins_with(args, "run"@) && t == text::trimmed(args.skip(4))
                ||| begins_with(args, "launch"@) && t == text::trimmed(args.skip(7))
            },
            _ => true,
        },
{
    package_words();
    words::word_len_bounds(args);
}

// ── The network ─────────────────────────────────────────────────────────────

proof fn net_with(line: Seq<char>, sub: Seq<char>, x: Seq<char>)
    requires
        words::unspaced(sub),
        sub.len() > 0,
        text::bare(x),
        x.len() > 0,
        line == "net "@ + sub + " "@,
    ensures
        asked(line + x) == CommandModel::Net(net_asked(sub + " "@ + x)),
        subcommand(sub + " "@ + x) == (sub, x),
{
    let args = sub + " "@ + x;
    reveal_strlit(" ");
    assert(args[0] == sub[0]);
    assert(!text::white_space(sub[0]));
    assert(args[args.len() - 1] == x[x.len() - 1]);
    assert(text::bare(args));
    net_line(args);
    assert(line + x =~= "net "@ + args);
    sub_and_rest(sub, x);
}

/// What each subcommand of `net` asks for, whatever follows it and with
/// nothing behind it; blanks alone ask for the status.
pub proof fn network_lines_name_their_action(x: Seq<char>, b: Seq<char>)
    requires
        x.len() > 0,
        text::bare(x),
        text::blank(b),
    ensures
        asked("net status "@ + x) == CommandModel::Net(Net::Status),
        asked("net up "@ + x) == CommandModel::Net(Net::Up),
        asked("net arp "@ + x) == CommandModel::Net(Net::Arp),
        asked("net dns "@ + x) == CommandModel::Net(Net::Dns),
        asked("net flush "@ + x) == CommandModel::Net(Net::Flush),
        net_asked("status"@ + b) is Status,
        net_asked("up"@ + b) is Up,
        net_asked("arp"@ + b) is Arp,
        net_asked("dns"@ + b) is Dns,
        net_asked("flush"@ + b) is Flush,
        net_asked(b) is Status,
{
    network_words();
    net_with("net status "@, "status"@, x);
    net_with("net up "@, "up"@, x);
    net_with("net arp "@, "arp"@, x);
    net_with("net dns "@, "dns"@, x);
    net_with("net flush "@, "flush"@, x);
    sub_and_blanks("status"@, b);
    sub_and_blanks("up"@, b);
    sub_and_blanks("arp"@, b);
    sub_and_blanks("dns"@, b);
    sub_and_blanks("flush"@, b);
    sub_and_blanks(Seq::empty(), b);
    assert(Seq::<char>::empty() + b =~= b);
}

proof fn network_words()
    ensures
        plain_word("status"@, 6),
        plain_word("up"@, 2),
        plain_word("arp"@, 3),
        plain_word("dns"@, 3),
        plain_word("flush"@, 5),
        "arp"@[0] == 'a',
        "dns"@[0] == 'd',
        "net status "@ == "net "@ + "status"@ + " "@,
        "net up "@ == "net "@ + "up"@ + " "@,
        "net arp "@ == "net "@ + "arp"@ + " "@,
        "net dns "@ == "net "@ + "dns"@ + " "@,
        "net flush "@ == "net "@ + "flush"@ + " "@,
{
    reveal_strlit("net ");
    reveal_strlit(" ");
    reveal_strlit("status");
    reveal_strlit("up");
    reveal_strlit("arp");
    reveal_strlit("dns");
    reveal_strlit("flush");
    reveal_strlit("net status ");
    reveal_strlit("net up ");
    reveal_strlit("net arp ");
    reveal_strlit("net dns ");
    reveal_strlit("net flush ");
    assert("net status "@ =~= "net "@ + "status"@ + " "@);
    assert("net up "@ =~= "net "@ + "up"@ + " "@);
    assert("net arp "@ =~= "net "@ + "arp"@ + " "@);
    assert("net dns "@ =~= "net "@ + "dns"@ + " "@);
    assert("net flush "@ =~= "net "@ + "flush"@ + " "@);
}

/// The cache is flushed, and the interface brought up, only when a line says
/// so.
pub proof fn network_actions_need_their_words(args: Seq<char>)
    ensures
        net_asked(args) is Up ==> args == "up"@ || begins_with(args, "up"@),
        net_asked(args) is Arp ==> args == "arp"@ || begins_with(args, "arp"@),
        net_asked(args) is Dns ==> args == "dns"@ || begins_with(args, "dns"@),
        net_asked(args) is Flush ==> args == "flush"@ || begins_with(args, "flush"@),
{
    words::word_len_bounds(args);
}

// ── Commands with one argument ──────────────────────────────────────────────

/// The commands that take an address or a script take all of what follows
/// them, without the blanks around it.
pub proof fn addresses_are_taken_whole(x: Seq<char>)
    requires
        x.len() > 0,
        text::bare(x),
    ensures
        asked("ping "@ + x) == CommandModel::Ping(x),
        asked("host "@ + x) == CommandModel::Host(x),
        asked("nslookup "@ + x) == CommandModel::Host(x),
        asked("wget "@ + x) == CommandModel::Fetch(x),
        asked("curl "@ + x) == CommandModel::Fetch(x),
        asked("js "@ + x) == CommandModel::Script(x),
{
    reveal_strlit("ping ");
    reveal_strlit("host ");
    reveal_strlit("nslookup ");
    reveal_strlit("wget ");
    reveal_strlit("curl ");
    reveal_strlit("js ");
    head_letters();
    trimmed_already(x);
    line_parts("ping "@, x);
    plain_has_no_blank("ping "@ + x, 4);
    prefixes_share_letters("ping "@ + x);
    line_parts("host "@, x);
    plain_has_no_blank("host "@ + x, 4);
    prefixes_share_letters("host "@ + x);
    line_parts("nslookup "@, x);
    plain_has_no_blank("nslookup "@ + x, 8);
    prefixes_share_letters("nslookup "@ + x);
    line_parts("wget "@, x);
    plain_has_no_blank("wget "@ + x, 4);
    prefixes_share_letters("wget "@ + x);
    line_parts("curl "@, x);
    plain_has_no_blank("curl "@ + x, 4);
    prefixes_share_letters("curl "@ + x);
    line_parts("js "@, x);
    plain_has_no_blank("js "@ + x, 2);
    prefixes_share_letters("js "@ + x);
}

/// `echo` gives back what follows it, to the letter.
pub proof fn echo_gives_back_the_rest(x: Seq<char>)
    ensures
        asked("echo "@ + x) == CommandModel::Echo(x),
{
    reveal_strlit("echo ");
    head_letters();
    line_parts("echo "@, x);
    plain_has_no_blank("echo "@ + x, 4);
    prefixes_share_letters("echo "@ + x);
}

proof fn second_of(head: Seq<char>, c: char, x: Seq<char>)
    requires
        words::unspaced(head),
        head.len() > 0,
        text::white_space(c),
    ensures
        words::words(head + seq![c] + x) == seq![head] + words::words(x),
{
    words::words_are_parted_by_blanks(head, c, x);
}

proof fn path_heads()
    ensures
        "ls "@ == "ls"@ + seq![' '],
        "cat "@ == "cat"@ + seq![' '],
        "run "@ == "run"@ + seq![' '],
        "install "@ == "install"@ + seq![' '],
        plain_word("ls"@, 2),
        plain_word("cat"@, 3),
        plain_word("run"@, 3),
        plain_word("install"@, 7),
{
    reveal_strlit("ls ");
    reveal_strlit("cat ");
    reveal_strlit("run ");
    reveal_strlit("install ");
    reveal_strlit("ls");
    reveal_strlit("cat");
    reveal_strlit("run");
    reveal_strlit("install");
    assert("ls "@ =~= "ls"@ + seq![' ']);
    assert("cat "@ =~= "cat"@ + seq![' ']);
    assert("run "@ =~= "run"@ + seq![' ']);
    assert("install "@ =~= "install"@ + seq![' ']);
}

/// The commands on a path take the first word behind them, and without one
/// list the root or explain themselves.
pub proof fn paths_are_the_next_word(x: Seq<char>)
    ensures
        asked("ls "@ + x) == CommandModel::List(
            if words::words(x).len() > 0 {
                words::words(x)[0]
            } else {
                "/"@
            },
        ),
        words::words(x).len() > 0 ==> asked("cat "@ + x) == CommandModel::Print(
            words::words(x)[0],
        ),
        words::words(x).len() > 0 ==> asked("run "@ + x) == CommandModel::Run(words::words(x)[0]),
        words::words(x).len() == 0 ==> asked("cat "@ + x) is PrintUsage,
        words::words(x).len() == 0 ==> asked("run "@ + x) is RunUsage,
        asked("ls"@) == CommandModel::List("/"@),
{
    head_letters();
    path_heads();
    reveal_strlit("ls ");
    reveal_strlit("cat ");
    reveal_strlit("run ");
    line_parts("ls "@, x);
    plain_has_no_blank("ls "@ + x, 2);
    prefixes_share_letters("ls "@ + x);
    second_of("ls"@, ' ', x);
    line_parts("cat "@, x);
    plain_has_no_blank("cat "@ + x, 3);
    prefixes_share_letters("cat "@ + x);
    second_of("cat"@, ' ', x);
    line_parts("run "@, x);
    plain_has_no_blank("run "@ + x, 3);
    prefixes_share_letters("run "@ + x);
    second_of("run"@, ' ', x);
    one_word_list();
}

proof fn one_word_list()
    ensures
        asked("ls"@) == CommandModel::List("/"@),
{
    reveal_strlit("ls");
    reveal_strlit("help");
    reveal_strlit("clear");
    reveal_strlit("reboot");
    reveal_strlit("shutdown");
    reveal_strlit("poweroff");
    reveal_strlit("panic");
    reveal_strlit("uptime");
    reveal_strlit("ticks");
    reveal_strlit("date");
    reveal_strlit("whoami");
    reveal_strlit("version");
}

/// The compiler is given the words behind `cc`, in order.
pub proof fn compiler_arguments_are_words(ws: Seq<Seq<char>>)
    requires
        ws.len() > 0,
        forall|i: int| 0 <= i < ws.len() ==> words::unspaced(#[trigger] ws[i]) && ws[i].len() > 0,
    ensures
        asked("cc "@ + text::joined(ws, " "@)) == CommandModel::Compile(ws),
{
    let x = text::joined(ws, " "@);
    let s = "cc "@ + x;
    joined_is_bare(ws);
    head_letters();
    reveal_strlit("cc ");
    reveal_strlit("cc");
    line_parts("cc "@, x);
    plain_has_no_blank(s, 2);
    prefixes_share_letters(s);
    assert("cc"@ + " "@ =~= "cc "@);
    assert(s.skip(2) =~= seq![' '] + x);
    trimmed_already(x);
    words::words_come_apart_again(ws);
}

proof fn joined_is_bare(ws: Seq<Seq<char>>)
    requires
        ws.len() > 0,
        forall|i: int| 0 <= i < ws.len() ==> words::unspaced(#[trigger] ws[i]) && ws[i].len() > 0,
    ensures
        text::joined(ws, " "@).len() > 0,
        text::bare(text::joined(ws, " "@)),
    decreases ws.len(),
{
    reveal_strlit(" ");
    let w = ws[ws.len() - 1];
    assert(words::unspaced(w) && w.len() > 0);
    assert(!text::white_space(w[0]));
    assert(!text::white_space(w[w.len() - 1]));
    if ws.len() > 1 {
        joined_is_bare(ws.drop_last());
        let a = text::joined(ws.drop_last(), " "@);
        let s = text::joined(ws, " "@);
        assert(s[0] == a[0]);
        assert(s[s.len() - 1] == w[w.len() - 1]);
    }
}

// ── Installing ──────────────────────────────────────────────────────────────

/// The disk that is overwritten is the one that was named: a target is
/// installed to only by `to` and its own name, as the two words behind the
/// command.
pub proof fn targets_are_named(s: Seq<char>)
    ensures
        install_asked(s) == Install::<Seq<char>>::To(Target::Master) <==> (words::words(s).len()
            > 2 && words::words(s)[1] == "to"@ && words::words(s)[2] == "master"@),
        install_asked(s) == Install::<Seq<char>>::To(Target::Slave) <==> (words::words(s).len()
            > 2 && words::words(s)[1] == "to"@ && words::words(s)[2] == "slave"@),
        install_asked(s) == Install::<Seq<char>>::To(Target::Usb) <==> (words::words(s).len() > 2
            && words::words(s)[1] == "to"@ && words::words(s)[2] == "usb"@),
        install_asked(s) is ToUsage <==> (words::words(s).len() == 2 && words::words(s)[1]
            == "to"@),
        install_asked(s) is List <==> (words::words(s).len() < 2 || words::words(s)[1]
            == "list"@),
{
    reveal_strlit("to");
    reveal_strlit("list");
    reveal_strlit("master");
    reveal_strlit("slave");
    reveal_strlit("usb");
    let ws = words::words(s);
    if ws.len() > 1 {
        let sub = ws[1];
        assert(words::nth_word(s, 1) == Some(sub));
        if ws.len() > 2 {
            let t = ws[2];
            assert(words::nth_word(s, 2) == Some(t));
            assert(t.len() == 6 || t != "master"@);
            assert(t.len() == 5 || t != "slave"@);
            assert(t.len() == 3 || t != "usb"@);
        }
        assert(sub.len() == 2 || sub != "to"@);
        assert(sub.len() == 4 || sub != "list"@);
    }
}

/// An `install` line with anything behind it is read by its words.
pub proof fn install_lines_are_read_by_words(x: Seq<char>)
    ensures
        asked("install "@ + x) == CommandModel::Install(install_asked("install "@ + x)),
        words::words("install "@ + x) == seq!["install"@] + words::words(x),
{
    head_letters();
    path_heads();
    reveal_strlit("install ");
    line_parts("install "@, x);
    plain_has_no_blank("install "@ + x, 7);
    prefixes_share_letters("install "@ + x);
    second_of("install"@, ' ', x);
}

// ── Writing a file ──────────────────────────────────────────────────────────

/// `write` puts what follows the path into the file, to the letter but for the
/// marks of line ends, and ends it with a line end.
pub proof fn a_line_is_written_as_typed(path: Seq<char>, body: Seq<char>)
    requires
        words::unspaced(path),
        path.len() > 0,
        body.len() > 0,
        text::bare(body),
        forall|i: int|
            0 <= i < body.len() ==> !#[trigger] text::has_prefix(body.skip(i), "@n@"@),
    ensures
        asked("write "@ + path + " "@ + body) == (CommandModel::Write {
            path,
            text: body.push('\n'),
        }),
{
    let x = path + " "@ + body;
    let s = "write "@ + x;
    assert("write "@ + path + " "@ + body =~= s);
    head_letters();
    reveal_strlit("write ");
    reveal_strlit(" ");
    line_parts("write "@, x);
    plain_has_no_blank(s, 5);
    prefixes_share_letters(s);
    assert(x[0] == path[0]);
    assert(!text::white_space(path[0]));
    assert(x[x.len() - 1] == body[body.len() - 1]);
    trimmed_already(x);
    assert(" "@ =~= seq![' ']);
    words::cutting_takes_the_first_word(path, ' ', body);
    assert(text::trim_start(body) == body);
    words::replacing_nothing_changes_nothing(body, "@n@"@, "\n"@);
    assert(text::white_space('\n'));
    assert(body.last() != '\n');
}

/// Each mark becomes one line end, and a text that ends with one gets no
/// second.
pub proof fn marks_become_line_ends(a: Seq<char>, b: Seq<char>)
    requires
        forall|i: int|
            0 <= i < a.len() ==> !#[trigger] text::has_prefix((a + "@n@"@ + b).skip(i), "@n@"@),
    ensures
        written(a + "@n@"@ + b) == a + "\n"@ + (if b.len() == 0 {
            Seq::empty()
        } else {
            written(b)
        }),
{
    reveal_strlit("@n@");
    reveal_strlit("\n");
    words::replacing_goes_from_the_left(a, "@n@"@, b, "\n"@);
    let t = words::replaced(b, "@n@"@, "\n"@);
    let whole = a + "\n"@ + t;
    if b.len() == 0 {
        assert(t =~= Seq::empty());
        assert(whole.last() == '\n');
        assert(whole =~= a + "\n"@ + Seq::<char>::empty());
    } else {
        replaced_is_not_empty(b);
        assert(whole.last() == t.last());
        assert(whole.push('\n') =~= a + "\n"@ + t.push('\n'));
    }
}

proof fn replaced_is_not_empty(b: Seq<char>)
    requires
        b.len() > 0,
    ensures
        words::replaced(b, "@n@"@, "\n"@).len() > 0,
{
    reveal_strlit("\n");
}

} // verus!
