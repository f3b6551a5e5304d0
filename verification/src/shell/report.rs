//! What the shell prints about its commands.

use vstd::prelude::*;
use vstd::string::*;

use crate::color::Color;
use crate::shell::command::{Command, CommandModel, Install, Net, Pkg};
use crate::text;
use crate::text::{push_decimal, push_two_digits};
use crate::theme;
use crate::words;
use crate::words::{push_aligned, push_hex, push_padded};

verus! {

/// The list of commands.
pub open spec fn help() -> Seq<char> {
    "OS101 Help:\n help      - Show this message\n echo STR  - Echo arguments\n clear     - Clear the screen\n uptime    - Show kernel uptime\n ticks     - Show raw timer tick count\n date      - Show time since boot (HH:MM:SS)\n whoami    - Show current user\n version   - Show kernel version\n ls [PATH] - List VFS paths (/, /fat, /init, /disk, /usb)\n cat PATH  - Print a file from VFS\n write PATH TEXT - Write text (@n@ = newline; keeps \\n for C)\n cc SRC... - Compile C with the in-kernel TinyCC (-o, -I, -D)\n run PATH  - Run an ELF from disk (after cc, or any ELF file)\n cpuinfo   - Show CPU vendor and brand string\n mem       - Show memory info\n vm        - Show virtual address space layout\n pkg ...   - Install/list/remove applications\n pci       - List devices on the PCI bus\n usb       - USB UHCI / HID keyboard & mouse status\n install   - List disks / permanently install OS101 onto a disk\n net ...   - Network: up | status | arp | dns\n ping HOST - Send ICMP echo requests\n host NAME - Resolve a hostname via DNS\n wget URL  - Fetch a page over HTTP\n browse    - Open the web browser (GUI)\n js EXPR   - Evaluate a JavaScript expression\n gfx       - Demo 2D primitives (rect/line/circle)\n gui       - Enter windowed GUI mode (ESC to return)\n user      - Run userspace demo (ELF + ring3 + syscall)\n reboot    - Reboot the machine\n shutdown  - Power off (QEMU exit)\n panic     - Cause a kernel panic\n"@
}

/// What the shell prints for a command that needs nothing from the machine.
pub open spec fn said(c: CommandModel) -> Option<Seq<char>> {
    match c {
        CommandModel::Help => Some(help()),
        CommandModel::PrintUsage => Some("cat: missing path\n"@),
        CommandModel::WriteUsage => Some("usage: write <path> <text>\n"@),
        CommandModel::CompileUsage => Some("usage: cc [-o out] [-I dir] [-Dsym[=val]] <source.c>...\n"@),
        CommandModel::RunUsage => Some("run: missing path\n"@),
        CommandModel::PingUsage => Some("usage: ping HOST\n"@),
        CommandModel::HostUsage => Some("usage: host NAME\n"@),
        CommandModel::FetchUsage => Some("usage: wget URL\n"@),
        CommandModel::ScriptUsage => Some("usage: js EXPRESSION    (no document attached)\n"@),
        CommandModel::Whoami => Some("os101-user\n"@),
        CommandModel::Pkg(Pkg::InfoUsage) => Some("usage: pkg info <name>\n"@),
        CommandModel::Pkg(Pkg::InstallUsage) => Some("usage: pkg install <path-to-.opk>\n"@),
        CommandModel::Pkg(Pkg::RemoveUsage) => Some("usage: pkg remove <name>\n"@),
        CommandModel::Pkg(Pkg::RunUsage) => Some("usage: pkg run <name>\n"@),
        CommandModel::Install(Install::Usage) => Some("usage: install list\n       install to master|slave|usb\nCopies the live boot disk onto the target (destructive).\n"@),
        CommandModel::Install(Install::ToUsage) => Some("usage: install to master|slave|usb\n"@),
        CommandModel::Pkg(Pkg::Unknown(t)) => Some("pkg: unknown subcommand '"@ + t + "'\nTry: pkg list | info <name> | install <file> | remove <name> | run <name>\n"@),
        CommandModel::Net(Net::Unknown(t)) => Some("net: unknown subcommand '"@ + t + "'.\nTry: up | status | arp | dns | flush\n"@),
        CommandModel::Install(Install::UnknownTarget(t)) => Some("install: unknown target '"@ + t + "' (use master, slave, or usb)\n"@),
        CommandModel::Install(Install::Unknown(t)) => Some("install: unknown subcommand '"@ + t + "'\nusage: install list | install to master|slave|usb\n"@),
        CommandModel::Unknown(t) => Some("Unknown command: "@ + t + ". Try 'help'.\n"@),
        CommandModel::Echo(t) => Some(t + "\n"@),
        CommandModel::Idle => Some(Seq::empty()),
        _ => None,
    }
}

fn sentence(a: &str, b: &str, c: &str) -> (r: String)
    ensures
        r@ == a@ + b@ + c@,
{
    let mut s = a.to_owned();
    s.append(b);
    s.append(c);
    s
}

/// What to print for a command that is answered here; `None` for one that
/// has to be carried out first.
pub fn answer(c: &Command) -> (r: Option<String>)
    ensures
        (match r {
            Some(t) => Some(t@),
            None => None,
        }) == said(c@),
{
    match c {
        Command::Help => Some("OS101 Help:\n help      - Show this message\n echo STR  - Echo arguments\n clear     - Clear the screen\n uptime    - Show kernel uptime\n ticks     - Show raw timer tick count\n date      - Show time since boot (HH:MM:SS)\n whoami    - Show current user\n version   - Show kernel version\n ls [PATH] - List VFS paths (/, /fat, /init, /disk, /usb)\n cat PATH  - Print a file from VFS\n write PATH TEXT - Write text (@n@ = newline; keeps \\n for C)\n cc SRC... - Compile C with the in-kernel TinyCC (-o, -I, -D)\n run PATH  - Run an ELF from disk (after cc, or any ELF file)\n cpuinfo   - Show CPU vendor and brand string\n mem       - Show memory info\n vm        - Show virtual address space layout\n pkg ...   - Install/list/remove applications\n pci       - List devices on the PCI bus\n usb       - USB UHCI / HID keyboard & mouse status\n install   - List disks / permanently install OS101 onto a disk\n net ...   - Network: up | status | arp | dns\n ping HOST - Send ICMP echo requests\n host NAME - Resolve a hostname via DNS\n wget URL  - Fetch a page over HTTP\n browse    - Open the web browser (GUI)\n js EXPR   - Evaluate a JavaScript expression\n gfx       - Demo 2D primitives (rect/line/circle)\n gui       - Enter windowed GUI mode (ESC to return)\n user      - Run userspace demo (ELF + ring3 + syscall)\n reboot    - Reboot the machine\n shutdown  - Power off (QEMU exit)\n panic     - Cause a kernel panic\n".to_owned()),
        Command::PrintUsage => Some("cat: missing path\n".to_owned()),
        Command::WriteUsage => Some("usage: write <path> <text>\n".to_owned()),
        Command::CompileUsage => Some("usage: cc [-o out] [-I dir] [-Dsym[=val]] <source.c>...\n".to_owned()),
        Command::RunUsage => Some("run: missing path\n".to_owned()),
        Command::PingUsage => Some("usage: ping HOST\n".to_owned()),
        Command::HostUsage => Some("usage: host NAME\n".to_owned()),
        Command::FetchUsage => Some("usage: wget URL\n".to_owned()),
        Command::ScriptUsage => Some("usage: js EXPRESSION    (no document attached)\n".to_owned()),
        Command::Whoami => Some("os101-user\n".to_owned()),
        Command::Pkg(Pkg::InfoUsage) => Some("usage: pkg info <name>\n".to_owned()),
        Command::Pkg(Pkg::InstallUsage) => Some("usage: pkg install <path-to-.opk>\n".to_owned()),
        Command::Pkg(Pkg::RemoveUsage) => Some("usage: pkg remove <name>\n".to_owned()),
        Command::Pkg(Pkg::RunUsage) => Some("usage: pkg run <name>\n".to_owned()),
        Command::Install(Install::Usage) => Some("usage: install list\n       install to master|slave|usb\nCopies the live boot disk onto the target (destructive).\n".to_owned()),
        Command::Install(Install::ToUsage) => Some("usage: install to master|slave|usb\n".to_owned()),
        Command::Pkg(Pkg::Unknown(t)) => Some(sentence("pkg: unknown subcommand '", t.as_str(), "'\nTry: pkg list | info <name> | install <file> | remove <name> | run <name>\n")),
        Command::Net(Net::Unknown(t)) => Some(sentence("net: unknown subcommand '", t.as_str(), "'.\nTry: up | status | arp | dns | flush\n")),
        Command::Install(Install::UnknownTarget(t)) => Some(sentence("install: unknown target '", t.as_str(), "' (use master, slave, or usb)\n")),
        Command::Install(Install::Unknown(t)) => Some(sentence("install: unknown subcommand '", t.as_str(), "'\nusage: install list | install to master|slave|usb\n")),
        Command::Unknown(t) => Some(sentence("Unknown command: ", t.as_str(), ". Try 'help'.\n")),
        Command::Echo(t) => {
            let mut s = t.as_str().to_owned();
            s.append("\n");
            Some(s)
        },
        Command::Idle => {
            let s = String::new();
            assert(s@ =~= Seq::empty());
            Some(s)
        },
        _ => None,
    }
}

/// What the shell prints before it carries a command out.
pub open spec fn announced(c: CommandModel) -> Seq<char> {
    match c {
        CommandModel::Shutdown => "Shutting down...\n"@,
        CommandModel::Fetch(u) => "Fetching "@ + u + " ...\n"@,
        CommandModel::Graphics => "drew gfx demo — no flicker (double-buffered).\n"@,
        CommandModel::Net(Net::Flush) => "Resolver cache cleared.\n"@,
        _ => Seq::empty(),
    }
}

pub fn announcement(c: &Command) -> (r: String)
    ensures
        r@ == announced(c@),
{
    match c {
        Command::Shutdown => "Shutting down...\n".to_owned(),
        Command::Fetch(u) => sentence("Fetching ", u.as_str(), " ...\n"),
        Command::Graphics => "drew gfx demo — no flicker (double-buffered).\n".to_owned(),
        Command::Net(Net::Flush) => "Resolver cache cleared.\n".to_owned(),
        _ => {
            let s = String::new();
            assert(s@ =~= Seq::empty());
            s
        },
    }
}

/// What a command says that failed.
pub fn failure_line(command: &str, e: &str) -> (r: String)
    ensures
        r@ == command@ + ": "@ + e@ + "\n"@,
{
    let mut s = sentence(command, ": ", e);
    s.append("\n");
    s
}

// ── The clock and the machine ───────────────────────────────────────────────

/// The answer to `uptime`. There are eighteen ticks in a second.
pub fn uptime_line(ticks: u64) -> (r: String)
    ensures
        r@ == "Uptime: "@ + text::decimal(ticks as nat) + " ticks (~"@ + text::decimal(
            (ticks / 18) as nat,
        ) + " seconds)\n"@,
{
    let mut s = "Uptime: ".to_owned();
    push_decimal(&mut s, ticks);
    s.append(" ticks (~");
    push_decimal(&mut s, ticks / 18);
    s.append(" seconds)\n");
    s
}

/// The answer to `ticks`.
pub fn ticks_line(ticks: u64) -> (r: String)
    ensures
        r@ == text::decimal(ticks as nat) + "\n"@,
{
    let mut s = String::new();
    push_decimal(&mut s, ticks);
    s.append("\n");
    assert(s@ =~= text::decimal(ticks as nat) + "\n"@);
    s
}

/// The answer to `date`: the time since boot.
pub fn date_line(ticks: u64) -> (r: String)
    ensures
        r@ == "Boot+"@ + text::two_digits((ticks / 18 / 3600) as nat) + ":"@ + text::two_digits(
            ((ticks / 18 / 60) % 60) as nat,
        ) + ":"@ + text::two_digits(((ticks / 18) % 60) as nat) + "\n"@,
{
    let secs: u64 = ticks / 18;
    let mut s = "Boot+".to_owned();
    push_two_digits(&mut s, secs / 3600);
    s.append(":");
    push_two_digits(&mut s, (secs / 60) % 60);
    s.append(":");
    push_two_digits(&mut s, secs % 60);
    s.append("\n");
    s
}

/// The answer to `version`.
pub fn version_line(version: &str) -> (r: String)
    ensures
        r@ == "OS101 kernel v"@ + version@ + " (x86_64)\n"@,
{
    sentence("OS101 kernel v", version, " (x86_64)\n")
}

/// The answer to `cpuinfo`.
pub fn cpu_lines(vendor: &str, brand: &str) -> (r: String)
    ensures
        r@ == "Vendor: "@ + vendor@ + "\nBrand:  "@ + brand@ + "\n"@,
{
    let mut s = sentence("Vendor: ", vendor, "\nBrand:  ");
    s.append(brand);
    s.append("\n");
    s
}

/// The answer to `mem`: how full the heap is and how many frames are free, of
/// four kibibytes each.
pub fn memory_lines(used: u64, total: u64, frames: u64) -> (r: String)
    requires
        frames * 4 <= u64::MAX,
    ensures
        r@ == "Memory Info:\n Used structural:  "@ + text::decimal(used as nat)
            + " bytes\n Total available: "@ + text::decimal(total as nat)
            + " bytes\n Reclaimed frames: "@ + text::decimal(frames as nat) + " ("@ + text::decimal(
            (frames * 4) as nat,
        ) + " KiB)\n"@,
{
    let mut s = "Memory Info:\n Used structural:  ".to_owned();
    push_decimal(&mut s, used);
    s.append(" bytes\n Total available: ");
    push_decimal(&mut s, total);
    s.append(" bytes\n Reclaimed frames: ");
    push_decimal(&mut s, frames);
    s.append(" (");
    push_decimal(&mut s, frames * 4);
    s.append(" KiB)\n");
    s
}

/// An address in sixteen hexadecimal digits.
pub open spec fn address(n: u64) -> Seq<char> {
    "0x"@ + words::hex(n as nat, 16)
}

fn push_address(s: &mut String, n: u64)
    ensures
        final(s)@ == old(s)@ + address(n),
{
    s.append("0x");
    push_hex(s, n, 16);
    assert(s@ =~= old(s)@ + address(n));
}

/// One of the 512 parts of the address space that is in use.
#[derive(Clone, Copy, Debug, PartialEq, Eq, Structural)]
pub struct Slot {
    pub index: u64,
    pub base: u64,
    pub entry: u64,
}

pub open spec fn slot_line(s: Slot, user_slot: u64) -> Seq<char> {
    "    ["@ + words::aligned(s.index as nat, 3) + "] "@ + address(s.base) + "  entry="@ + address(
        s.entry,
    ) + (if s.index == user_slot {
        "  <- current process\n"@
    } else {
        "\n"@
    })
}

pub open spec fn slot_lines(v: Seq<Slot>, user_slot: u64) -> Seq<char>
    decreases v.len(),
{
    if v.len() == 0 {
        Seq::empty()
    } else {
        slot_lines(v.drop_last(), user_slot) + slot_line(v.last(), user_slot)
    }
}

fn push_slots(out: &mut String, v: &Vec<Slot>, user_slot: u64)
    ensures
        final(out)@ == old(out)@ + slot_lines(v@, user_slot),
{
    let mut i: usize = 0;
    assert(v@.take(0) =~= Seq::empty());
    assert(out@ =~= old(out)@ + slot_lines(v@.take(0), user_slot));
    while i < v.len()
        invariant
            i <= v@.len(),
            out@ == old(out)@ + slot_lines(v@.take(i as int), user_slot),
        decreases v@.len() - i,
    {
        let ghost before = out@;
        let slot = v[i];
        out.append("    [");
        push_aligned(out, slot.index, 3);
        out.append("] ");
        push_address(out, slot.base);
        out.append("  entry=");
        push_address(out, slot.entry);
        if slot.index == user_slot {
            out.append("  <- current process\n");
        } else {
            out.append("\n");
        }
        proof {
            assert(v@.take(i + 1).drop_last() =~= v@.take(i as int));
            assert(out@ =~= before + slot_line(slot, user_slot));
            assert(out@ =~= old(out)@ + slot_lines(v@.take(i + 1), user_slot));
        }
        i = i + 1;
    }
    assert(v@.take(i as int) =~= v@);
}

/// A frame buffer: its address, its length in bytes and its size.
pub type Screen = (u64, u64, u64, u64);

pub open spec fn screen_line(f: Option<Screen>) -> Seq<char> {
    match f {
        Some(b) => "  framebuffer            : "@ + address(b.0) + " .. "@ + address(
            (b.0 + b.1) as u64,
        ) + "  ("@ + text::decimal(b.2 as nat) + "x"@ + text::decimal(b.3 as nat) + ")\n"@,
        None => Seq::empty(),
    }
}

pub open spec fn space_lines(
    window: u64,
    user: (u64, u64),
    screen: Option<Screen>,
    slots: Seq<Slot>,
    live: u64,
    user_slot: u64,
) -> Seq<char> {
    "Virtual address space:\n  physical memory window : "@ + address(window)
        + "\n  user range             : "@ + address(user.0) + " .. "@ + address(user.1) + "\n"@
        + screen_line(screen) + "\n  Level-4 slots in use (each covers 512 GiB):\n"@ + slot_lines(
        slots,
        user_slot,
    ) + "\n  "@ + text::decimal(live as nat) + " live process address space(s); slot "@
        + text::decimal(user_slot as nat)
        + " is swapped on each\n  context switch, so only one is ever mapped at a time.\n"@
}

/// The answer to `vm`.
pub fn address_space_lines(
    window: u64,
    user: (u64, u64),
    screen: Option<Screen>,
    slots: &Vec<Slot>,
    live: u64,
    user_slot: u64,
) -> (r: String)
    requires
        screen matches Some(b) ==> b.0 + b.1 <= u64::MAX,
    ensures
        r@ == space_lines(window, user, screen, slots@, live, user_slot),
{
    let mut s = "Virtual address space:\n  physical memory window : ".to_owned();
    push_address(&mut s, window);
    s.append("\n  user range             : ");
    push_address(&mut s, user.0);
    s.append(" .. ");
    push_address(&mut s, user.1);
    s.append("\n");
    let ghost head = s@;
    if let Some(b) = screen {
        s.append("  framebuffer            : ");
        push_address(&mut s, b.0);
        s.append(" .. ");
        push_address(&mut s, b.0 + b.1);
        s.append("  (");
        push_decimal(&mut s, b.2);
        s.append("x");
        push_decimal(&mut s, b.3);
        s.append(")\n");
    }
    assert(s@ =~= head + screen_line(screen));
    s.append("\n  Level-4 slots in use (each covers 512 GiB):\n");
    push_slots(&mut s, slots, user_slot);
    s.append("\n  ");
    push_decimal(&mut s, live);
    s.append(" live process address space(s); slot ");
    push_decimal(&mut s, user_slot);
    s.append(" is swapped on each\n  context switch, so only one is ever mapped at a time.\n");
    s
}

// ── Files and programs ──────────────────────────────────────────────────────

/// Each text on a line of its own.
pub open spec fn lines(v: Seq<Seq<char>>) -> Seq<char>
    decreases v.len(),
{
    if v.len() == 0 {
        Seq::empty()
    } else {
        lines(v.drop_last()) + v.last() + "\n"@
    }
}

fn push_lines(out: &mut String, v: &Vec<String>)
    ensures
        final(out)@ == old(out)@ + lines(text::strings(v@)),
{
    let mut i: usize = 0;
    let ghost all = text::strings(v@);
    assert(all.take(0) =~= Seq::empty());
    assert(out@ =~= old(out)@ + lines(all.take(0)));
    while i < v.len()
        invariant
            i <= v@.len(),
            all == text::strings(v@),
            out@ == old(out)@ + lines(all.take(i as int)),
        decreases v@.len() - i,
    {
        out.append(v[i].as_str());
        out.append("\n");
        proof {
            assert(all.take(i + 1).drop_last() =~= all.take(i as int));
            assert(all.take(i + 1).last() == v@[i as int]@);
            assert(out@ =~= old(out)@ + lines(all.take(i + 1)));
        }
        i = i + 1;
    }
    assert(all.take(i as int) =~= all);
}

/// The answer to `ls`.
pub fn listing(list: &Result<Vec<String>, String>) -> (r: String)
    ensures
        r@ == (match *list {
            Ok(v) => lines(text::strings(v@)),
            Err(e) => "ls: "@ + e@ + "\n"@,
        }),
{
    match list {
        Ok(v) => {
            let mut s = String::new();
            push_lines(&mut s, v);
            assert(s@ =~= lines(text::strings(v@)));
            s
        },
        Err(e) => sentence("ls: ", e.as_str(), "\n"),
    }
}

/// The answer to `cat`: the text of the file as it is, or how long it is.
pub fn file_contents(read: &Result<Vec<u8>, String>) -> (r: String)
    ensures
        r@ == (match *read {
            Ok(v) => if vstd::utf8::valid_utf8(v@) {
                vstd::utf8::decode_utf8(v@)
            } else {
                "cat: binary file ("@ + text::decimal(v@.len()) + " bytes)\n"@
            },
            Err(e) => "cat: "@ + e@ + "\n"@,
        }),
{
    match read {
        Ok(v) => match text::decode_text(v.as_slice()) {
            Some(t) => t,
            None => {
                let mut s = "cat: binary file (".to_owned();
                push_decimal(&mut s, v.len() as u64);
                s.append(" bytes)\n");
                s
            },
        },
        Err(e) => sentence("cat: ", e.as_str(), "\n"),
    }
}

/// The answer to `write`.
pub fn write_line(path: &str, failure: &Option<String>) -> (r: String)
    ensures
        r@ == (match *failure {
            None => "wrote "@ + path@ + "\n"@,
            Some(e) => "write: "@ + e@ + "\n"@,
        }),
{
    match failure {
        None => sentence("wrote ", path, "\n"),
        Some(e) => sentence("write: ", e.as_str(), "\n"),
    }
}

pub open spec fn compiled(ok: bool, output: Option<Seq<char>>, diagnostics: Seq<char>) -> Seq<char> {
    (if diagnostics.len() > 0 {
        diagnostics + "\n"@
    } else {
        Seq::empty()
    }) + (if ok {
        match output {
            Some(o) => "cc: wrote "@ + o + "\n"@,
            None => "cc: ok\n"@,
        }
    } else if diagnostics.len() == 0 {
        "cc: failed\n"@
    } else {
        Seq::empty()
    })
}

/// The answer to `cc`.
pub fn compile_lines(ok: bool, output: &Option<String>, diagnostics: &str) -> (r: String)
    ensures
        r@ == compiled(
            ok,
            match *output {
                Some(o) => Some(o@),
                None => None,
            },
            diagnostics@,
        ),
{
    let mut s = String::new();
    let silent = diagnostics.unicode_len() == 0;
    if !silent {
        s.append(diagnostics);
        s.append("\n");
    }
    if ok {
        match output {
            Some(o) => {
                s.append("cc: wrote ");
                s.append(o.as_str());
                s.append("\n");
            },
            None => s.append("cc: ok\n"),
        }
    } else if silent {
        s.append("cc: failed\n");
    }
    assert(s@ =~= compiled(
        ok,
        match *output {
            Some(o) => Some(o@),
            None => None,
        },
        diagnostics@,
    ));
    s
}

/// Whether the bytes begin like an ELF file.
pub fn is_elf(data: &Vec<u8>) -> (r: bool)
    ensures
        r == (data@.len() >= 4 && data@.take(4) == seq![0x7fu8, 0x45u8, 0x4cu8, 0x46u8]),
{
    let r = data.len() >= 4 && data[0] == 0x7f && data[1] == 0x45 && data[2] == 0x4c && data[3]
        == 0x46;
    proof {
        if data@.len() >= 4 {
            let m = seq![0x7fu8, 0x45u8, 0x4cu8, 0x46u8];
            if r {
                assert(data@.take(4) =~= m);
            } else if data@.take(4) == m {
                assert(data@.take(4)[0] == m[0] && data@.take(4)[1] == m[1]);
                assert(data@.take(4)[2] == m[2] && data@.take(4)[3] == m[3]);
            }
        }
    }
    r
}

/// What came of starting a program.
pub enum Started<T = String> {
    /// It runs under this number; whether the scheduler had a process to run.
    Process { pid: u64, ran: bool },
    /// The file could not be read, or the program not started.
    Failed(T),
    /// The file is no program.
    NotElf,
}

impl View for Started {
    type V = Started<Seq<char>>;

    open spec fn view(&self) -> Started<Seq<char>> {
        match *self {
            Started::Process { pid, ran } => Started::Process { pid, ran },
            Started::Failed(e) => Started::Failed(e@),
            Started::NotElf => Started::NotElf,
        }
    }
}

pub open spec fn run_said(s: Started<Seq<char>>) -> Seq<char> {
    match s {
        Started::NotElf => "run: not an ELF file\n"@,
        Started::Failed(e) => "run: "@ + e + "\n"@,
        Started::Process { pid, ran } => "spawned userspace process pid="@ + text::decimal(
            pid as nat,
        ) + (if ran {
            "\n"@
        } else {
            "\nscheduler had no runnable process\n"@
        }),
    }
}

/// The answer to `run`.
pub fn run_lines(s: &Started) -> (r: String)
    ensures
        r@ == run_said(s@),
{
    match s {
        Started::NotElf => "run: not an ELF file\n".to_owned(),
        Started::Failed(e) => sentence("run: ", e.as_str(), "\n"),
        Started::Process { pid, ran } => {
            let mut t = "spawned userspace process pid=".to_owned();
            push_decimal(&mut t, *pid);
            if *ran {
                t.append("\n");
            } else {
                t.append("\nscheduler had no runnable process\n");
            }
            t
        },
    }
}

pub open spec fn demo_said(spawned: Result<u64, Seq<char>>, ran: bool) -> Seq<char> {
    match spawned {
        Ok(pid) => "spawned userspace process pid="@ + text::decimal(pid as nat) + (if ran {
            "\nuserspace process returned to kernel\n"@
        } else {
            "\nscheduler had no runnable process\n"@
        }),
        Err(e) => "userspace spawn failed: "@ + e + "\n"@,
    }
}

/// The answer to `user`.
pub fn demo_lines(spawned: &Result<u64, String>, ran: bool) -> (r: String)
    ensures
        r@ == demo_said(
            match *spawned {
                Ok(p) => Ok(p),
                Err(e) => Err(e@),
            },
            ran,
        ),
{
    match spawned {
        Ok(pid) => {
            let mut t = "spawned userspace process pid=".to_owned();
            push_decimal(&mut t, *pid);
            if ran {
                t.append("\nuserspace process returned to kernel\n");
            } else {
                t.append("\nscheduler had no runnable process\n");
            }
            t
        },
        Err(e) => sentence("userspace spawn failed: ", e.as_str(), "\n"),
    }
}

/// The answer to `calc`.
pub fn calculator_line(spawned: &Result<u64, String>) -> (r: String)
    ensures
        r@ == (match *spawned {
            Ok(pid) => "calc spawned pid="@ + text::decimal(pid as nat) + "\n"@,
            Err(e) => "calc spawn failed: "@ + e@ + "\n"@,
        }),
{
    match spawned {
        Ok(pid) => {
            let mut s = "calc spawned pid=".to_owned();
            push_decimal(&mut s, *pid);
            s.append("\n");
            s
        },
        Err(e) => sentence("calc spawn failed: ", e.as_str(), "\n"),
    }
}

/// The answer to `browse`.
pub fn browse_line(failure: &Option<String>) -> (r: String)
    ensures
        r@ == (match *failure {
            None => "Opening the browser. Type 'gui' to see it.\n"@,
            Some(e) => "browse: "@ + e@ + "\n"@,
        }),
{
    match failure {
        None => "Opening the browser. Type 'gui' to see it.\n".to_owned(),
        Some(e) => sentence("browse: ", e.as_str(), "\n"),
    }
}

// ── Devices ─────────────────────────────────────────────────────────────────

/// A device on the PCI bus.
pub struct PciDevice {
    pub bus: u8,
    pub slot: u8,
    pub func: u8,
    pub vendor_id: u16,
    pub device_id: u16,
    pub class: String,
}

pub open spec fn pci_line(d: PciDevice) -> Seq<char> {
    "  "@ + words::hex(d.bus as nat, 2) + ":"@ + words::hex(d.slot as nat, 2) + "."@ + text::decimal(
        d.func as nat,
    ) + "  "@ + words::hex(d.vendor_id as nat, 4) + ":"@ + words::hex(d.device_id as nat, 4) + "  "@
        + d.class@ + "\n"@
}

pub open spec fn pci_lines(v: Seq<PciDevice>) -> Seq<char>
    decreases v.len(),
{
    if v.len() == 0 {
        Seq::empty()
    } else {
        pci_lines(v.drop_last()) + pci_line(v.last())
    }
}

fn push_pci_line(s: &mut String, d: &PciDevice)
    ensures
        final(s)@ == old(s)@ + pci_line(*d),
{
    s.append("  ");
    push_hex(s, d.bus as u64, 2);
    s.append(":");
    push_hex(s, d.slot as u64, 2);
    s.append(".");
    push_decimal(s, d.func as u64);
    s.append("  ");
    push_hex(s, d.vendor_id as u64, 4);
    s.append(":");
    push_hex(s, d.device_id as u64, 4);
    s.append("  ");
    s.append(d.class.as_str());
    s.append("\n");
    assert(s@ =~= old(s)@ + pci_line(*d));
}

/// The answer to `pci`: what is on the bus.
pub fn pci_command(v: &Vec<PciDevice>) -> (r: String)
    ensures
        r@ == text::decimal(v@.len()) + " PCI device(s):\n"@ + pci_lines(v@),
{
    let mut s = String::new();
    push_decimal(&mut s, v.len() as u64);
    s.append(" PCI device(s):\n");
    let ghost head = s@;
    assert(head =~= text::decimal(v@.len()) + " PCI device(s):\n"@);
    let mut i: usize = 0;
    assert(v@.take(0) =~= Seq::empty());
    assert(s@ =~= head + pci_lines(v@.take(0)));
    while i < v.len()
        invariant
            i <= v@.len(),
            s@ == head + pci_lines(v@.take(i as int)),
        decreases v@.len() - i,
    {
        push_pci_line(&mut s, &v[i]);
        proof {
            assert(v@.take(i + 1).drop_last() =~= v@.take(i as int));
            assert(s@ =~= head + pci_lines(v@.take(i + 1)));
        }
        i = i + 1;
    }
    assert(v@.take(i as int) =~= v@);
    s
}

/// A disk that the installer found: how it is described and its number.
pub struct DiskLine {
    pub id: u8,
    pub text: String,
}

pub open spec fn disk_line(d: DiskLine, source: Option<u8>) -> Seq<char> {
    d.text@ + (if source == Some(d.id) {
        " (source)\n"@
    } else {
        "\n"@
    })
}

pub open spec fn disk_lines(v: Seq<DiskLine>, source: Option<u8>) -> Seq<char>
    decreases v.len(),
{
    if v.len() == 0 {
        Seq::empty()
    } else {
        disk_lines(v.drop_last(), source) + disk_line(v.last(), source)
    }
}

/// The answer to `install list`: the disks, with the one that would be copied
/// marked.
pub fn install_list(v: &Vec<DiskLine>, source: Option<u8>) -> (r: String)
    ensures
        r@ == (if v@.len() == 0 {
            "install: no disks detected\n"@
        } else {
            disk_lines(v@, source)
        }),
{
    if v.len() == 0 {
        return "install: no disks detected\n".to_owned();
    }
    let mut s = String::new();
    let mut i: usize = 0;
    assert(v@.take(0) =~= Seq::empty());
    assert(s@ =~= disk_lines(v@.take(0), source));
    while i < v.len()
        invariant
            i <= v@.len(),
            s@ == disk_lines(v@.take(i as int), source),
        decreases v@.len() - i,
    {
        let ghost before = s@;
        s.append(v[i].text.as_str());
        let marked = match source {
            Some(id) => id == v[i].id,
            None => false,
        };
        if marked {
            s.append(" (source)\n");
        } else {
            s.append("\n");
        }
        proof {
            assert(v@.take(i + 1).drop_last() =~= v@.take(i as int));
            assert(s@ =~= before + disk_line(v@[i as int], source));
        }
        i = i + 1;
    }
    assert(v@.take(i as int) =~= v@);
    s
}

/// The line before `install to` copies, or why it cannot.
pub fn install_begins(source: &Option<String>, target: &str) -> (r: String)
    ensures
        r@ == (match *source {
            Some(s) => "install: copying "@ + s@ + " -> "@ + target@ + " …\n"@,
            None => "install: no source disk\n"@,
        }),
{
    match source {
        Some(s) => {
            let mut t = sentence("install: copying ", s.as_str(), " -> ");
            t.append(target);
            t.append(" …\n");
            t
        },
        None => "install: no source disk\n".to_owned(),
    }
}

/// What `install to` says at the end.
pub fn install_ends(failure: &Option<String>) -> (r: String)
    ensures
        r@ == (match *failure {
            None => "install: done — reboot from the target disk\n"@,
            Some(e) => "install: "@ + e@ + "\n"@,
        }),
{
    match failure {
        None => "install: done — reboot from the target disk\n".to_owned(),
        Some(e) => sentence("install: ", e.as_str(), "\n"),
    }
}

// ── The network ─────────────────────────────────────────────────────────────

/// The addresses that an interface was given.
pub struct Addresses {
    pub ip: String,
    pub mask: String,
    pub gateway: String,
    pub dns: String,
}

/// A network interface as `net status` shows it.
pub struct Interface {
    pub mac: String,
    pub link: bool,
    pub addresses: Option<Addresses>,
    pub received: u64,
    pub sent: u64,
    pub dropped: u64,
}

pub open spec fn addresses_said(a: Option<Addresses>) -> Seq<char> {
    match a {
        Some(a) => "  IPv4        : "@ + a.ip@ + "\n  Netmask     : "@ + a.mask@
            + "\n  Gateway     : "@ + a.gateway@ + "\n  DNS         : "@ + a.dns@ + "\n"@,
        None => "  IPv4        : not configured — run 'net up'\n"@,
    }
}

pub open spec fn status_said(i: Interface) -> Seq<char> {
    "Interface eth0:\n  MAC address : "@ + i.mac@ + (if i.link {
        "\n  Link        : up\n"@
    } else {
        "\n  Link        : down\n"@
    }) + addresses_said(i.addresses) + "  Frames      : "@ + text::decimal(i.received as nat)
        + " received, "@ + text::decimal(i.sent as nat) + " sent, "@ + text::decimal(
        i.dropped as nat,
    ) + " dropped\n"@
}

/// The answer to `net status`.
pub fn net_status(i: &Option<Interface>) -> (r: String)
    ensures
        r@ == (match *i {
            Some(i) => status_said(i),
            None => "No network interface. The kernel found no supported NIC.\nStart QEMU with:  -netdev user,id=n0 -device e1000,netdev=n0\n"@,
        }),
{
    match i {
        None => "No network interface. The kernel found no supported NIC.\nStart QEMU with:  -netdev user,id=n0 -device e1000,netdev=n0\n".to_owned(),
        Some(i) => {
            let mut s = "Interface eth0:\n  MAC address : ".to_owned();
            s.append(i.mac.as_str());
            if i.link {
                s.append("\n  Link        : up\n");
            } else {
                s.append("\n  Link        : down\n");
            }
            let ghost head = s@;
            match &i.addresses {
                Some(a) => {
                    s.append("  IPv4        : ");
                    s.append(a.ip.as_str());
                    s.append("\n  Netmask     : ");
                    s.append(a.mask.as_str());
                    s.append("\n  Gateway     : ");
                    s.append(a.gateway.as_str());
                    s.append("\n  DNS         : ");
                    s.append(a.dns.as_str());
                    s.append("\n");
                },
                None => s.append("  IPv4        : not configured — run 'net up'\n"),
            }
            assert(s@ =~= head + addresses_said(i.addresses));
            s.append("  Frames      : ");
            push_decimal(&mut s, i.received);
            s.append(" received, ");
            push_decimal(&mut s, i.sent);
            s.append(" sent, ");
            push_decimal(&mut s, i.dropped);
            s.append(" dropped\n");
            s
        },
    }
}

/// What `net up` says of the card it found, or of its failure to find one.
pub fn card_line(found: &Result<String, String>) -> (r: String)
    ensures
        r@ == (match *found {
            Ok(mac) => "Found an e1000 NIC, MAC "@ + mac@ + ".\n"@,
            Err(e) => "net: "@ + e@ + "\n"@,
        }),
{
    match found {
        Ok(mac) => sentence("Found an e1000 NIC, MAC ", mac.as_str(), ".\n"),
        Err(e) => sentence("net: ", e.as_str(), "\n"),
    }
}

/// What `net up` says before it asks for an address. `found` is what came of
/// looking for a card, where none was up yet; without one nothing is asked for.
pub open spec fn up_begun(found: Option<Result<Seq<char>, Seq<char>>>) -> Seq<char> {
    match found {
        Some(Err(e)) => "net: "@ + e + "\n"@,
        Some(Ok(mac)) => "Found an e1000 NIC, MAC "@ + mac
            + ".\n"@ + "Requesting an address over DHCP...\n"@,
        None => "Requesting an address over DHCP...\n"@,
    }
}

/// The first lines of `net up`, and whether an address is then asked for.
pub fn net_up(found: &Option<Result<String, String>>) -> (r: (String, bool))
    ensures
        r.0@ == up_begun(
            match *found {
                Some(Ok(mac)) => Some(Ok(mac@)),
                Some(Err(e)) => Some(Err(e@)),
                None => None,
            },
        ),
        r.1 == !(found matches Some(Err(_))),
{
    match found {
        Some(card) => {
            let mut s = card_line(card);
            if card.is_err() {
                return (s, false);
            }
            s.append("Requesting an address over DHCP...\n");
            (s, true)
        },
        None => ("Requesting an address over DHCP...\n".to_owned(), true),
    }
}

/// What `net up` says once it has an address, or could not get one.
pub fn configured_line(a: &Result<Addresses, String>) -> (r: String)
    ensures
        r@ == (match *a {
            Ok(a) => "Configured: "@ + a.ip@ + " netmask "@ + a.mask@ + " gateway "@ + a.gateway@
                + " dns "@ + a.dns@ + "\n"@,
            Err(e) => "net: DHCP failed: "@ + e@ + "\n"@,
        }),
{
    match a {
        Ok(a) => {
            let mut s = sentence("Configured: ", a.ip.as_str(), " netmask ");
            s.append(a.mask.as_str());
            s.append(" gateway ");
            s.append(a.gateway.as_str());
            s.append(" dns ");
            s.append(a.dns.as_str());
            s.append("\n");
            s
        },
        Err(e) => sentence("net: DHCP failed: ", e.as_str(), "\n"),
    }
}

/// Two columns, the first one of a given width.
pub open spec fn pair_lines(v: Seq<(String, String)>, width: nat) -> Seq<char>
    decreases v.len(),
{
    if v.len() == 0 {
        Seq::empty()
    } else {
        pair_lines(v.drop_last(), width) + "  "@ + words::padded(v.last().0@, width) + "  "@
            + v.last().1@ + "\n"@
    }
}

fn push_pairs(out: &mut String, v: &Vec<(String, String)>, width: usize)
    ensures
        final(out)@ == old(out)@ + pair_lines(v@, width as nat),
{
    let mut i: usize = 0;
    assert(v@.take(0) =~= Seq::empty());
    assert(out@ =~= old(out)@ + pair_lines(v@.take(0), width as nat));
    while i < v.len()
        invariant
            i <= v@.len(),
            out@ == old(out)@ + pair_lines(v@.take(i as int), width as nat),
        decreases v@.len() - i,
    {
        out.append("  ");
        push_padded(out, v[i].0.as_str(), width);
        out.append("  ");
        out.append(v[i].1.as_str());
        out.append("\n");
        proof {
            assert(v@.take(i + 1).drop_last() =~= v@.take(i as int));
            assert(out@ =~= old(out)@ + pair_lines(v@.take(i + 1), width as nat));
        }
        i = i + 1;
    }
    assert(v@.take(i as int) =~= v@);
}

/// The answer to `net arp`.
pub fn arp_lines(v: &Vec<(String, String)>) -> (r: String)
    ensures
        r@ == (if v@.len() == 0 {
            "The ARP cache is empty.\n"@
        } else {
            "ARP cache:\n"@ + pair_lines(v@, 15)
        }),
{
    if v.len() == 0 {
        return "The ARP cache is empty.\n".to_owned();
    }
    let mut s = "ARP cache:\n".to_owned();
    push_pairs(&mut s, v, 15);
    s
}

/// The answer to `net dns`.
pub fn dns_lines(v: &Vec<(String, String)>) -> (r: String)
    ensures
        r@ == (if v@.len() == 0 {
            "No hostnames resolved yet.\n"@
        } else {
            "Resolver cache:\n"@ + pair_lines(v@, 30)
        }),
{
    if v.len() == 0 {
        return "No hostnames resolved yet.\n".to_owned();
    }
    let mut s = "Resolver cache:\n".to_owned();
    push_pairs(&mut s, v, 30);
    s
}

/// How many echo requests `ping` sends.
pub const PINGS: u64 = 4;

pub open spec fn echo_said(addr: Seq<char>, seq: nat, ticks: Option<u64>) -> Seq<char> {
    match ticks {
        Some(t) => "  reply from "@ + addr + ": seq="@ + text::decimal(seq) + " time~"@
            + text::decimal((t * 55) as nat) + "ms\n"@,
        None => "  no reply: seq="@ + text::decimal(seq) + " (timed out)\n"@,
    }
}

/// The line of one echo request. A tick of the clock is about 55 ms, which is
/// as fine as the time gets.
pub fn echo_line(addr: &str, seq: u64, ticks: Option<u64>) -> (r: String)
    requires
        ticks matches Some(t) ==> t * 55 <= u64::MAX,
    ensures
        r@ == echo_said(addr@, seq as nat, ticks),
{
    match ticks {
        Some(t) => {
            let mut s = sentence("  reply from ", addr, ": seq=");
            push_decimal(&mut s, seq);
            s.append(" time~");
            push_decimal(&mut s, t * 55);
            s.append("ms\n");
            s
        },
        None => {
            let mut s = "  no reply: seq=".to_owned();
            push_decimal(&mut s, seq);
            s.append(" (timed out)\n");
            s
        },
    }
}

/// How many of the requests were answered.
pub open spec fn answered(v: Seq<Option<u64>>) -> nat
    decreases v.len(),
{
    if v.len() == 0 {
        0
    } else {
        answered(v.drop_last()) + (if v.last() is Some {
            1nat
        } else {
            0
        })
    }
}

pub open spec fn echoes(addr: Seq<char>, v: Seq<Option<u64>>) -> Seq<char>
    decreases v.len(),
{
    if v.len() == 0 {
        Seq::empty()
    } else {
        echoes(addr, v.drop_last()) + echo_said(addr, v.len(), v.last())
    }
}

pub proof fn no_more_answers_than_requests(v: Seq<Option<u64>>)
    ensures
        answered(v) <= v.len(),
    decreases v.len(),
{
    if v.len() > 0 {
        no_more_answers_than_requests(v.drop_last());
    }
}

/// The whole answer to `ping`, from what became of each of the requests.
pub fn ping_command(target: &str, addr: &str, replies: &Vec<Option<u64>>) -> (r: String)
    requires
        replies@.len() == PINGS,
        forall|i: int|
            0 <= i < PINGS ==> (#[trigger] replies@[i] matches Some(t) ==> t * 55 <= u64::MAX),
    ensures
        r@ == "PING "@ + target@ + " ("@ + addr@ + "):\n"@ + echoes(addr@, replies@)
            + "4 sent, "@ + text::decimal(answered(replies@)) + " received, "@ + text::decimal(
            ((PINGS - answered(replies@)) * 25) as nat,
        ) + "% loss\n"@,
{
    let mut s = sentence("PING ", target, " (");
    s.append(addr);
    s.append("):\n");
    let ghost head = s@;
    let mut got: u64 = 0;
    let mut i: usize = 0;
    assert(replies@.take(0) =~= Seq::empty());
    assert(s@ =~= head + echoes(addr@, replies@.take(0)));
    while i < 4
        invariant
            i <= 4,
            replies@.len() == PINGS,
            forall|j: int|
                0 <= j < PINGS ==> (#[trigger] replies@[j] matches Some(t) ==> t * 55 <= u64::MAX),
            got <= i,
            got == answered(replies@.take(i as int)),
            s@ == head + echoes(addr@, replies@.take(i as int)),
        decreases 4 - i,
    {
        let ghost before = s@;
        let t = replies[i];
        assert(t == replies@[i as int]);
        let line = echo_line(addr, i as u64 + 1, t);
        s.append(line.as_str());
        if t.is_some() {
            got = got + 1;
        }
        proof {
            assert(replies@.take(i + 1).drop_last() =~= replies@.take(i as int));
            assert(replies@.take(i + 1).last() == replies@[i as int]);
            assert(s@ =~= head + echoes(addr@, replies@.take(i + 1)));
        }
        i = i + 1;
    }
    assert(replies@.take(4) =~= replies@);
    s.append("4 sent, ");
    push_decimal(&mut s, got);
    s.append(" received, ");
    push_decimal(&mut s, (4 - got) * 25);
    s.append("% loss\n");
    s
}

/// The answer to `host`.
pub fn host_command(name: &str, addr: &Result<String, String>) -> (r: String)
    ensures
        r@ == (match *addr {
            Ok(a) => name@ + " has address "@ + a@ + "\n"@,
            Err(e) => "host: "@ + e@ + "\n"@,
        }),
{
    match addr {
        Ok(a) => {
            let mut s = name.to_owned();
            s.append(" has address ");
            s.append(a.as_str());
            s.append("\n");
            s
        },
        Err(e) => sentence("host: ", e.as_str(), "\n"),
    }
}

/// How many lines of a page `wget` shows.
pub const SHOWN_LINES: usize = 24;

pub open spec fn page_said(status: u64, kind: Seq<char>, bytes: nat, page: Seq<Seq<char>>) -> Seq<char> {
    "HTTP "@ + text::decimal(status as nat) + " — "@ + (if kind.len() == 0 {
        "unknown type"@
    } else {
        kind
    }) + " ("@ + text::decimal(bytes) + " bytes)\n\n"@ + (if page.len() <= SHOWN_LINES {
        lines(page)
    } else {
        lines(page.take(SHOWN_LINES as int)) + "\n... "@ + text::decimal(
            (page.len() - SHOWN_LINES) as nat,
        ) + " more lines. Use the browser for the full page.\n"@
    })
}

fn push_some_lines(out: &mut String, v: &Vec<String>, n: usize)
    requires
        n <= v@.len(),
    ensures
        final(out)@ == old(out)@ + lines(text::strings(v@).take(n as int)),
{
    let mut i: usize = 0;
    let ghost all = text::strings(v@);
    assert(all.take(0) =~= Seq::empty());
    assert(out@ =~= old(out)@ + lines(all.take(0)));
    while i < n
        invariant
            i <= n <= v@.len(),
            all == text::strings(v@),
            out@ == old(out)@ + lines(all.take(i as int)),
        decreases n - i,
    {
        out.append(v[i].as_str());
        out.append("\n");
        proof {
            assert(all.take(i + 1).drop_last() =~= all.take(i as int));
            assert(all.take(i + 1).last() == v@[i as int]@);
            assert(out@ =~= old(out)@ + lines(all.take(i + 1)));
        }
        i = i + 1;
    }
}

/// The answer to `wget`, from the lines of the page. A whole page would
/// scroll the useful part away: the beginning is shown, and how much is left.
pub fn wget_command(status: u64, kind: &str, bytes: u64, page: &Vec<String>) -> (r: String)
    ensures
        r@ == page_said(status, kind@, bytes as nat, text::strings(page@)),
{
    let ghost all = text::strings(page@);
    let mut s = "HTTP ".to_owned();
    push_decimal(&mut s, status);
    s.append(" — ");
    if kind.unicode_len() == 0 {
        s.append("unknown type");
    } else {
        s.append(kind);
    }
    s.append(" (");
    push_decimal(&mut s, bytes);
    s.append(" bytes)\n\n");
    let ghost head = s@;
    if page.len() <= SHOWN_LINES {
        push_some_lines(&mut s, page, page.len());
        assert(all.take(page@.len() as int) =~= all);
    } else {
        push_some_lines(&mut s, page, SHOWN_LINES);
        s.append("\n... ");
        push_decimal(&mut s, (page.len() - SHOWN_LINES) as u64);
        s.append(" more lines. Use the browser for the full page.\n");
    }
    assert(s@ =~= page_said(status, kind@, bytes as nat, all));
    s
}

// ── Packages ────────────────────────────────────────────────────────────────

/// An application as `pkg` shows it.
pub struct AppLine {
    pub name: String,
    pub version: String,
    pub kind: String,
    pub description: String,
    /// The package file, for an application that came from one.
    pub path: Option<String>,
}

pub open spec fn app_line(a: AppLine) -> Seq<char> {
    "  "@ + words::padded(a.name@, 20) + " "@ + words::padded(a.version@, 8) + " "@ + words::padded(
        a.kind@,
        10,
    ) + " "@ + a.description@ + "\n"@
}

pub open spec fn app_lines(v: Seq<AppLine>) -> Seq<char>
    decreases v.len(),
{
    if v.len() == 0 {
        Seq::empty()
    } else {
        app_lines(v.drop_last()) + app_line(v.last())
    }
}

/// The answer to `pkg list`.
pub fn pkg_list(v: &Vec<AppLine>) -> (r: String)
    ensures
        r@ == text::decimal(v@.len()) + " application(s):\n"@ + app_lines(v@)
            + "\nInstall with: pkg install /fat/<file>.opk\n"@,
{
    let mut s = String::new();
    push_decimal(&mut s, v.len() as u64);
    s.append(" application(s):\n");
    let ghost head = s@;
    assert(head =~= text::decimal(v@.len()) + " application(s):\n"@);
    let mut i: usize = 0;
    assert(v@.take(0) =~= Seq::empty());
    assert(s@ =~= head + app_lines(v@.take(0)));
    while i < v.len()
        invariant
            i <= v@.len(),
            s@ == head + app_lines(v@.take(i as int)),
        decreases v@.len() - i,
    {
        let ghost before = s@;
        let a = &v[i];
        s.append("  ");
        push_padded(&mut s, a.name.as_str(), 20);
        s.append(" ");
        push_padded(&mut s, a.version.as_str(), 8);
        s.append(" ");
        push_padded(&mut s, a.kind.as_str(), 10);
        s.append(" ");
        s.append(a.description.as_str());
        s.append("\n");
        proof {
            assert(v@.take(i + 1).drop_last() =~= v@.take(i as int));
            assert(s@ =~= before + app_line(v@[i as int]));
            assert(s@ =~= head + app_lines(v@.take(i + 1)));
        }
        i = i + 1;
    }
    assert(v@.take(i as int) =~= v@);
    s.append("\nInstall with: pkg install /fat/<file>.opk\n");
    s
}

pub open spec fn app_info(name: Seq<char>, a: Option<AppLine>) -> Seq<char> {
    match a {
        Some(a) => "Name:        "@ + a.name@ + "\nVersion:     "@ + a.version@ + "\nType:        "@
            + a.kind@ + "\nDescription: "@ + a.description@ + "\nPackage:     "@ + (match a.path {
            Some(p) => p@,
            None => "(part of the kernel image)"@,
        }) + "\n"@,
        None => "pkg: no application named '"@ + name + "'\n"@,
    }
}

/// The answer to `pkg info`.
pub fn pkg_info(name: &str, a: &Option<AppLine>) -> (r: String)
    ensures
        r@ == app_info(name@, *a),
{
    match a {
        Some(a) => {
            let mut s = sentence("Name:        ", a.name.as_str(), "\nVersion:     ");
            s.append(a.version.as_str());
            s.append("\nType:        ");
            s.append(a.kind.as_str());
            s.append("\nDescription: ");
            s.append(a.description.as_str());
            s.append("\nPackage:     ");
            match &a.path {
                Some(p) => s.append(p.as_str()),
                None => s.append("(part of the kernel image)"),
            }
            s.append("\n");
            s
        },
        None => sentence("pkg: no application named '", name, "'\n"),
    }
}

/// The answer to `pkg install`.
pub fn pkg_installed(done: &Result<String, String>) -> (r: String)
    ensures
        r@ == (match *done {
            Ok(n) => "Installed '"@ + n@ + "'.\nIt is now in the Applications launcher.\n"@,
            Err(e) => "pkg: install failed: "@ + e@ + "\n"@,
        }),
{
    match done {
        Ok(n) => sentence(
            "Installed '",
            n.as_str(),
            "'.\nIt is now in the Applications launcher.\n",
        ),
        Err(e) => sentence("pkg: install failed: ", e.as_str(), "\n"),
    }
}

/// The answer to `pkg remove`.
pub fn pkg_removed(name: &str, failure: &Option<String>) -> (r: String)
    ensures
        r@ == (match *failure {
            None => "Removed '"@ + name@ + "'.\n"@,
            Some(e) => "pkg: "@ + e@ + "\n"@,
        }),
{
    match failure {
        None => sentence("Removed '", name, "'.\n"),
        Some(e) => sentence("pkg: ", e.as_str(), "\n"),
    }
}

/// The answer to `pkg run`.
pub fn pkg_launched(name: &str, failure: &Option<String>) -> (r: String)
    ensures
        r@ == (match *failure {
            None => "Launched '"@ + name@ + "'.\n"@,
            Some(e) => "pkg: "@ + e@ + "\n"@,
        }),
{
    match failure {
        None => sentence("Launched '", name, "'.\n"),
        Some(e) => sentence("pkg: ", e.as_str(), "\n"),
    }
}

// ── The graphics demo ───────────────────────────────────────────────────────

/// Something that the graphics demo draws.
#[derive(Clone, Copy, Debug, PartialEq, Eq, Structural)]
pub enum Shape {
    Gradient { x: usize, y: usize, w: usize, h: usize, from: Color, to: Color },
    Outline { x: usize, y: usize, w: usize, h: usize, color: Color },
    Filled { x: usize, y: usize, w: usize, h: usize, color: Color },
    Line { x0: usize, y0: usize, x1: usize, y1: usize, color: Color },
    Circle { x: usize, y: usize, r: usize, color: Color },
    Disc { x: usize, y: usize, r: usize, color: Color },
}

pub open spec fn demo(w: usize, h: usize, reserved: usize) -> Seq<Shape> {
    let x = (w / 2) as int;
    let cw = (w - x - 32) as usize;
    let ch = (if h > reserved + 116 {
        h - reserved - 116
    } else {
        0
    }) as usize;
    seq![
        Shape::Gradient {
            x: x as usize,
            y: 100,
            w: cw,
            h: ch,
            from: theme::DESKTOP_TOP,
            to: theme::DESKTOP_BOTTOM,
        },
        Shape::Outline { x: x as usize, y: 100, w: cw, h: ch, color: theme::ACCENT },
        Shape::Filled { x: (x + 20) as usize, y: 120, w: 120, h: 80, color: theme::ACCENT },
        Shape::Outline { x: (x + 20) as usize, y: 120, w: 120, h: 80, color: theme::ACCENT_HOVER },
        Shape::Line {
            x0: (x + 160) as usize,
            y0: 120,
            x1: (x + 300) as usize,
            y1: 200,
            color: theme::WARNING,
        },
        Shape::Line {
            x0: (x + 300) as usize,
            y0: 120,
            x1: (x + 160) as usize,
            y1: 200,
            color: theme::ERROR,
        },
        Shape::Circle { x: (x + 80) as usize, y: 280, r: 50, color: theme::SUCCESS },
        Shape::Disc { x: (x + 220) as usize, y: 280, r: 50, color: theme::INFO },
    ]
}

/// What `gfx` draws on a screen of the given size, to the right of the shell
/// and above the rows that are reserved at the bottom.
pub fn graphics_demo(w: usize, h: usize, reserved: usize) -> (r: Vec<Shape>)
    requires
        63 <= w,
        reserved <= usize::MAX - 116,
    ensures
        r@ == demo(w, h, reserved),
{
    let x: usize = w / 2;
    let cw: usize = w - x - 32;
    let ch: usize = if h > reserved + 116 {
        h - reserved - 116
    } else {
        0
    };
    let mut v: Vec<Shape> = Vec::new();
    v.push(
        Shape::Gradient {
            x,
            y: 100,
            w: cw,
            h: ch,
            from: theme::DESKTOP_TOP,
            to: theme::DESKTOP_BOTTOM,
        },
    );
    v.push(Shape::Outline { x, y: 100, w: cw, h: ch, color: theme::ACCENT });
    v.push(Shape::Filled { x: x + 20, y: 120, w: 120, h: 80, color: theme::ACCENT });
    v.push(Shape::Outline { x: x + 20, y: 120, w: 120, h: 80, color: theme::ACCENT_HOVER });
    v.push(Shape::Line { x0: x + 160, y0: 120, x1: x + 300, y1: 200, color: theme::WARNING });
    v.push(Shape::Line { x0: x + 300, y0: 120, x1: x + 160, y1: 200, color: theme::ERROR });
    v.push(Shape::Circle { x: x + 80, y: 280, r: 50, color: theme::SUCCESS });
    v.push(Shape::Disc { x: x + 220, y: 280, r: 50, color: theme::INFO });
    assert(v@ =~= demo(w, h, reserved));
    v
}
/// Lists are printed item by item, each on a line of its own and in order.
pub proof fn lists_are_printed_item_by_item(a: Seq<Seq<char>>, b: Seq<Seq<char>>, one: Seq<char>)
    ensures
        lines(seq![one]) == one + "\n"@,
        lines(a + b) == lines(a) + lines(b),
    decreases b.len(),
{
    let v = seq![one];
    assert(v.drop_last() =~= Seq::<Seq<char>>::empty());
    assert(lines(v.drop_last()) =~= Seq::<char>::empty());
    assert(lines(v) =~= one + "\n"@);
    if b.len() == 0 {
        assert(a + b =~= a);
        assert(lines(a) + lines(b) =~= lines(a));
    } else {
        lists_are_printed_item_by_item(a, b.drop_last(), one);
        assert((a + b).drop_last() =~= a + b.drop_last());
        assert(lines(a + b) =~= lines(a) + lines(b));
    }
}

/// Devices are listed one by one.
pub proof fn devices_are_listed_one_by_one(a: Seq<PciDevice>, b: Seq<PciDevice>, one: PciDevice)
    ensures
        pci_lines(seq![one]) == pci_line(one),
        pci_lines(a + b) == pci_lines(a) + pci_lines(b),
    decreases b.len(),
{
    let v = seq![one];
    assert(v.drop_last() =~= Seq::<PciDevice>::empty());
    assert(pci_lines(v.drop_last()) =~= Seq::<char>::empty());
    assert(pci_lines(v) =~= pci_line(one));
    if b.len() == 0 {
        assert(a + b =~= a);
        assert(pci_lines(a) + pci_lines(b) =~= pci_lines(a));
    } else {
        devices_are_listed_one_by_one(a, b.drop_last(), one);
        assert((a + b).drop_last() =~= a + b.drop_last());
        assert(pci_lines(a + b) =~= pci_lines(a) + pci_lines(b));
    }
}

/// Applications are listed one by one.
pub proof fn applications_are_listed_one_by_one(a: Seq<AppLine>, b: Seq<AppLine>, one: AppLine)
    ensures
        app_lines(seq![one]) == app_line(one),
        app_lines(a + b) == app_lines(a) + app_lines(b),
    decreases b.len(),
{
    let v = seq![one];
    assert(v.drop_last() =~= Seq::<AppLine>::empty());
    assert(app_lines(v.drop_last()) =~= Seq::<char>::empty());
    assert(app_lines(v) =~= app_line(one));
    if b.len() == 0 {
        assert(a + b =~= a);
        assert(app_lines(a) + app_lines(b) =~= app_lines(a));
    } else {
        applications_are_listed_one_by_one(a, b.drop_last(), one);
        assert((a + b).drop_last() =~= a + b.drop_last());
        assert(app_lines(a + b) =~= app_lines(a) + app_lines(b));
    }
}

/// Disks are listed one by one, and only the one that the system runs from is
/// marked.
pub proof fn only_the_source_is_marked(
    a: Seq<DiskLine>,
    b: Seq<DiskLine>,
    one: DiskLine,
    source: Option<u8>,
)
    ensures
        disk_lines(seq![one], source) == one.text@ + (if source == Some(one.id) {
            " (source)\n"@
        } else {
            "\n"@
        }),
        disk_lines(a + b, source) == disk_lines(a, source) + disk_lines(b, source),
    decreases b.len(),
{
    let v = seq![one];
    assert(v.drop_last() =~= Seq::<DiskLine>::empty());
    assert(disk_lines(v.drop_last(), source) =~= Seq::<char>::empty());
    assert(disk_lines(v, source) =~= disk_line(one, source));
    if b.len() == 0 {
        assert(a + b =~= a);
        assert(disk_lines(a, source) + disk_lines(b, source) =~= disk_lines(a, source));
    } else {
        only_the_source_is_marked(a, b.drop_last(), one, source);
        assert((a + b).drop_last() =~= a + b.drop_last());
        assert(disk_lines(a + b, source) =~= disk_lines(a, source) + disk_lines(b, source));
    }
}

/// The parts of the address space are listed one by one, and only that of
/// the process that runs is marked.
pub proof fn only_the_current_slot_is_marked(a: Seq<Slot>, b: Seq<Slot>, one: Slot, user_slot: u64)
    ensures
        slot_lines(seq![one], user_slot) == slot_line(one, user_slot),
        slot_lines(a + b, user_slot) == slot_lines(a, user_slot) + slot_lines(b, user_slot),
        text::has_suffix(slot_line(one, user_slot), "  <- current process\n"@) <==> one.index
            == user_slot,
    decreases b.len(),
{
    let v = seq![one];
    assert(v.drop_last() =~= Seq::<Slot>::empty());
    assert(slot_lines(v.drop_last(), user_slot) =~= Seq::<char>::empty());
    assert(slot_lines(v, user_slot) =~= slot_line(one, user_slot));
    if b.len() == 0 {
        assert(a + b =~= a);
        assert(slot_lines(a, user_slot) + slot_lines(b, user_slot) =~= slot_lines(a, user_slot));
    } else {
        only_the_current_slot_is_marked(a, b.drop_last(), one, user_slot);
        assert((a + b).drop_last() =~= a + b.drop_last());
        assert(slot_lines(a + b, user_slot) =~= slot_lines(a, user_slot) + slot_lines(b, user_slot));
    }
    let mark = "  <- current process\n"@;
    let l = slot_line(one, user_slot);
    reveal_strlit("  <- current process\n");
    reveal_strlit("\n");
    if one.index == user_slot {
        assert(l.skip(l.len() - mark.len()) =~= mark);
    } else if text::has_suffix(l, mark) {
        // The last digit of the entry stands where the mark would end.
        let e = words::hex(one.entry as nat, 16);
        words::hexadecimal_reads_back(one.entry as nat, 16);
        let at = l.len() - 2;
        assert(l.skip(l.len() - mark.len())[mark.len() - 2] == l[at]);
        assert(mark[mark.len() - 2] == 's');
        assert(l[at] == e[e.len() - 1]);
    }
}

/// Pairs are printed one by one.
pub proof fn pairs_are_listed_one_by_one(
    a: Seq<(String, String)>,
    b: Seq<(String, String)>,
    one: (String, String),
    width: nat,
)
    ensures
        pair_lines(seq![one], width) == "  "@ + words::padded(one.0@, width) + "  "@ + one.1@ + "\n"@,
        pair_lines(a + b, width) == pair_lines(a, width) + pair_lines(b, width),
    decreases b.len(),
{
    let v = seq![one];
    assert(v.drop_last() =~= Seq::<(String, String)>::empty());
    assert(pair_lines(v.drop_last(), width) =~= Seq::<char>::empty());
    assert(pair_lines(v, width) =~= "  "@ + words::padded(one.0@, width) + "  "@ + one.1@ + "\n"@);
    if b.len() == 0 {
        assert(a + b =~= a);
        assert(pair_lines(a, width) + pair_lines(b, width) =~= pair_lines(a, width));
    } else {
        pairs_are_listed_one_by_one(a, b.drop_last(), one, width);
        assert((a + b).drop_last() =~= a + b.drop_last());
        assert(pair_lines(a + b, width) =~= pair_lines(a, width) + pair_lines(b, width));
    }
}

/// An answered request counts once, and an unanswered one does not.
pub proof fn answers_are_counted(a: Seq<Option<u64>>, b: Seq<Option<u64>>, t: u64)
    ensures
        answered(seq![Some(t)]) == 1,
        answered(seq![None::<u64>]) == 0,
        answered(a + b) == answered(a) + answered(b),
    decreases b.len(),
{
    assert(seq![Some(t)].drop_last() =~= Seq::<Option<u64>>::empty());
    assert(seq![None::<u64>].drop_last() =~= Seq::<Option<u64>>::empty());
    assert(answered(Seq::<Option<u64>>::empty()) == 0);
    if b.len() == 0 {
        assert(a + b =~= a);
    } else {
        answers_are_counted(a, b.drop_last(), t);
        assert((a + b).drop_last() =~= a + b.drop_last());
    }
}

/// Each request has its line and its number, counted from one, and tells
/// what came of it.
pub proof fn requests_are_numbered(addr: Seq<char>, v: Seq<Option<u64>>, t: u64)
    ensures
        echoes(addr, v.push(Some(t))) == echoes(addr, v) + "  reply from "@ + addr + ": seq="@
            + text::decimal(v.len() + 1) + " time~"@ + text::decimal((55 * t) as nat) + "ms\n"@,
        echoes(addr, v.push(None)) == echoes(addr, v) + "  no reply: seq="@ + text::decimal(
            v.len() + 1,
        ) + " (timed out)\n"@,
{
    assert(v.push(Some(t)).drop_last() =~= v);
    assert(v.push(None).drop_last() =~= v);
    assert(t * 55 == 55 * t);
    assert(echoes(addr, v.push(Some(t))) =~= echoes(addr, v) + "  reply from "@ + addr + ": seq="@
        + text::decimal(v.len() + 1) + " time~"@ + text::decimal((55 * t) as nat) + "ms\n"@);
    assert(echoes(addr, v.push(None)) =~= echoes(addr, v) + "  no reply: seq="@ + text::decimal(
        v.len() + 1,
    ) + " (timed out)\n"@);
}

/// What was not understood is named, and an echo is the text and nothing else.
pub proof fn the_shell_names_what_it_did_not_understand(t: Seq<char>)
    ensures
        said(CommandModel::Echo(t)) == Some(t + "\n"@),
        said(CommandModel::Unknown(t)) matches Some(s) && text::occurs(s, t),
        said(CommandModel::Pkg(Pkg::Unknown(t))) matches Some(s) && text::occurs(s, t),
        said(CommandModel::Net(Net::Unknown(t))) matches Some(s) && text::occurs(s, t),
        said(CommandModel::Install(Install::Unknown(t))) matches Some(s) && text::occurs(s, t),
        said(CommandModel::Install(Install::UnknownTarget(t))) matches Some(s) && text::occurs(s, t),
        text::occurs(announced(CommandModel::Fetch(t)), t),
{
    let n = t.len() as int;
    let a = said(CommandModel::Unknown(t))->0;
    assert(a.skip("Unknown command: "@.len() as int).take(n) =~= t);
    let b = said(CommandModel::Pkg(Pkg::Unknown(t)))->0;
    assert(b.skip("pkg: unknown subcommand '"@.len() as int).take(n) =~= t);
    let c = said(CommandModel::Net(Net::Unknown(t)))->0;
    assert(c.skip("net: unknown subcommand '"@.len() as int).take(n) =~= t);
    let d = said(CommandModel::Install(Install::Unknown(t)))->0;
    assert(d.skip("install: unknown subcommand '"@.len() as int).take(n) =~= t);
    let e = said(CommandModel::Install(Install::UnknownTarget(t)))->0;
    assert(e.skip("install: unknown target '"@.len() as int).take(n) =~= t);
    let f = announced(CommandModel::Fetch(t));
    assert(f.skip("Fetching "@.len() as int).take(n) =~= t);
}

/// A compiler run tells what it complained of, where it wrote, and that it
/// failed where nothing else says so.
pub proof fn compiler_runs_are_reported(path: Seq<char>, diagnostics: Seq<char>)
    requires
        diagnostics.len() > 0,
    ensures
        compiled(true, Some(path), Seq::empty()) == "cc: wrote "@ + path + "\n"@,
        compiled(true, Some(path), diagnostics) == diagnostics + "\n"@ + "cc: wrote "@ + path + "\n"@,
        compiled(false, Some(path), Seq::empty()) == "cc: failed\n"@,
        compiled(false, Some(path), diagnostics) == diagnostics + "\n"@,
        compiled(true, None, Seq::empty()) == "cc: ok\n"@,
{
    let none = Seq::<char>::empty();
    assert(compiled(true, Some(path), none) =~= "cc: wrote "@ + path + "\n"@);
    assert(compiled(true, Some(path), diagnostics) =~= diagnostics + "\n"@ + "cc: wrote "@ + path
        + "\n"@);
    assert(compiled(false, Some(path), none) =~= "cc: failed\n"@);
    assert(compiled(false, Some(path), diagnostics) =~= diagnostics + "\n"@);
    assert(compiled(true, None, none) =~= "cc: ok\n"@);
}

/// A page is shown from its top, and what does not fit is counted.
pub proof fn pages_are_shown_from_the_top(status: u64, kind: Seq<char>, bytes: nat, page: Seq<Seq<char>>)
    requires
        kind.len() > 0,
    ensures
        ({
            let s = page_said(status, kind, bytes, page);
            let head = "HTTP "@ + text::decimal(status as nat) + " — "@ + kind + " ("@
                + text::decimal(bytes) + " bytes)\n\n"@;
            let shown = page.take(
                if page.len() <= 24 {
                    page.len() as int
                } else {
                    24
                },
            );
            &&& text::has_prefix(s, head + lines(shown))
            &&& page.len() <= 24 ==> s == head + lines(page)
            &&& page.len() > 24 ==> text::has_prefix(
                s.skip((head + lines(shown)).len() as int),
                "\n... "@ + text::decimal((page.len() - 24) as nat) + " more lines."@,
            )
        }),
{
    let s = page_said(status, kind, bytes, page);
    let head = "HTTP "@ + text::decimal(status as nat) + " — "@ + kind + " ("@ + text::decimal(bytes)
        + " bytes)\n\n"@;
    if page.len() <= 24 {
        assert(page.take(page.len() as int) =~= page);
        assert(s =~= head + lines(page));
        assert(s.take((head + lines(page)).len() as int) =~= head + lines(page));
    } else {
        let front = head + lines(page.take(24));
        let end = " more lines. Use the browser for the full page.\n"@;
        let n = text::decimal((page.len() - 24) as nat);
        let rest = "\n... "@ + n + end;
        assert(s =~= front + rest);
        assert(s.take(front.len() as int) =~= front);
        assert(s.skip(front.len() as int) =~= rest);
        reveal_strlit(" more lines. Use the browser for the full page.\n");
        reveal_strlit(" more lines.");
        assert(end.take(12) =~= " more lines."@);
        let p = "\n... "@ + n + " more lines."@;
        assert(rest.take(p.len() as int) =~= p);
    }
}
/// What came of starting a program is told by its number, or by what went
/// wrong.
pub proof fn started_programs_are_numbered(pid: u64, ran: bool, e: Seq<char>)
    ensures
        text::occurs(run_said(Started::Process { pid, ran }), "pid="@ + text::decimal(pid as nat)),
        run_said(Started::Failed(e)) == "run: "@ + e + "\n"@,
        text::occurs(demo_said(Ok(pid), ran), "pid="@ + text::decimal(pid as nat)),
        text::occurs(demo_said(Err(e), ran), e),
{
    reveal_strlit("spawned userspace process pid=");
    reveal_strlit("pid=");
    let head = "spawned userspace process pid="@;
    let p = "pid="@ + text::decimal(pid as nat);
    let at = head.len() - 4;
    assert(head.skip(at) =~= "pid="@);
    let s = run_said(Started::Process { pid, ran });
    assert(s.skip(at).take(p.len() as int) =~= p);
    let t = demo_said(Ok(pid), ran);
    assert(t.skip(at).take(p.len() as int) =~= p);
    let f = demo_said(Err(e), ran);
    assert(f.skip("userspace spawn failed: "@.len() as int).take(e.len() as int) =~= e);
}

/// An application is described by everything that is known of it, each on a
/// line of its own; one that is not there is named.
pub proof fn applications_are_described(name: Seq<char>, a: AppLine, path: String)
    requires
        a.path == Some(path),
    ensures
        app_info(name, Some(a)) == "Name:        "@ + a.name@ + "\nVersion:     "@ + a.version@
            + "\nType:        "@ + a.kind@ + "\nDescription: "@ + a.description@
            + "\nPackage:     "@ + path@ + "\n"@,
        text::occurs(app_info(name, None), name),
{
    let s = app_info(name, None);
    assert(s.skip("pkg: no application named '"@.len() as int).take(name.len() as int) =~= name);
}

/// The state of the network names the card's address, and an interface that
/// has addresses names each of them.
pub proof fn the_network_is_described(i: Interface, a: Addresses)
    requires
        i.addresses == Some(a),
    ensures
        text::occurs(status_said(i), "  MAC address : "@ + i.mac@),
        text::occurs(addresses_said(Some(a)), "IPv4        : "@ + a.ip@),
        text::occurs(addresses_said(Some(a)), "Netmask     : "@ + a.mask@),
        text::occurs(addresses_said(Some(a)), "Gateway     : "@ + a.gateway@),
        text::occurs(addresses_said(Some(a)), "DNS         : "@ + a.dns@),
        text::has_suffix(
            status_said(i),
            text::decimal(i.received as nat) + " received, "@ + text::decimal(i.sent as nat)
                + " sent, "@ + text::decimal(i.dropped as nat) + " dropped\n"@,
        ),
{
    reveal_strlit("Interface eth0:\n  MAC address : ");
    reveal_strlit("  MAC address : ");
    let s = status_said(i);
    let h = "Interface eth0:\n  MAC address : "@;
    let m = "  MAC address : "@;
    assert(h.skip(h.len() - m.len()) =~= m);
    let p = m + i.mac@;
    assert(s.skip(h.len() - m.len()).take(p.len() as int) =~= p);
    let e = text::decimal(i.received as nat) + " received, "@ + text::decimal(i.sent as nat)
        + " sent, "@ + text::decimal(i.dropped as nat) + " dropped\n"@;
    assert(s.skip(s.len() - e.len()) =~= e);
    let t = addresses_said(Some(a));
    reveal_strlit("  IPv4        : ");
    reveal_strlit("IPv4        : ");
    reveal_strlit("\n  Netmask     : ");
    reveal_strlit("Netmask     : ");
    reveal_strlit("\n  Gateway     : ");
    reveal_strlit("Gateway     : ");
    reveal_strlit("\n  DNS         : ");
    reveal_strlit("DNS         : ");
    assert("  IPv4        : "@.skip(2) =~= "IPv4        : "@);
    assert("\n  Netmask     : "@.skip(3) =~= "Netmask     : "@);
    assert("\n  Gateway     : "@.skip(3) =~= "Gateway     : "@);
    assert("\n  DNS         : "@.skip(3) =~= "DNS         : "@);
    let p1 = "IPv4        : "@ + a.ip@;
    assert(t.skip(2).take(p1.len() as int) =~= p1);
    let k1 = "  IPv4        : "@.len() + a.ip@.len();
    let p2 = "Netmask     : "@ + a.mask@;
    assert(t.skip((k1 + 3) as int).take(p2.len() as int) =~= p2);
    let k2 = k1 + "\n  Netmask     : "@.len() + a.mask@.len();
    let p3 = "Gateway     : "@ + a.gateway@;
    assert(t.skip((k2 + 3) as int).take(p3.len() as int) =~= p3);
    let k3 = k2 + "\n  Gateway     : "@.len() + a.gateway@.len();
    let p4 = "DNS         : "@ + a.dns@;
    assert(t.skip((k3 + 3) as int).take(p4.len() as int) =~= p4);
}

} // verus!
