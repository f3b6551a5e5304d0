//! The shell: its line, its history, its commands and what they say.

use os101::keys::{DecodedKey, KeyCode};
use os101::shell::command::{
    execute, install_command, net_command, pkg_command, Command, Install, Net, Pkg, Target,
};
use os101::shell::report;
use os101::shell::{command_of, cpuid_info, FixedStr, Shell};

fn typed(s: &mut Shell, line: &str) {
    for c in line.chars() {
        s.handle_key(DecodedKey::Unicode(c));
    }
}

fn entered(s: &mut Shell, line: &str) -> Option<String> {
    typed(s, line);
    s.handle_key(DecodedKey::Unicode('\n')).command
}

#[test]
fn a_line_becomes_a_command() {
    let mut s = Shell::new();
    assert_eq!(s.prompt(), "os101> ");
    let e = s.handle_key(DecodedKey::Unicode('l'));
    assert_eq!((e.erase, e.print.as_str(), e.enter), (0, "l", false));
    typed(&mut s, "x");
    let e = s.handle_key(DecodedKey::Unicode('\x08'));
    assert_eq!((e.erase, e.print.as_str()), (1, ""));
    assert_eq!(entered(&mut s, "s /"), Some("ls /".to_string()));
    let e = s.handle_key(DecodedKey::Unicode('\n'));
    assert!(e.enter && e.command.is_none());
}

#[test]
fn history_brings_lines_back_and_keeps_the_draft() {
    let mut s = Shell::new();
    entered(&mut s, "one");
    entered(&mut s, "two");
    typed(&mut s, "dra");
    let e = s.handle_key(DecodedKey::RawKey(KeyCode::ArrowUp));
    assert_eq!((e.erase, e.print.as_str()), (3, "two"));
    let e = s.handle_key(DecodedKey::RawKey(KeyCode::ArrowUp));
    assert_eq!((e.erase, e.print.as_str()), (3, "one"));
    let e = s.handle_key(DecodedKey::RawKey(KeyCode::ArrowUp));
    assert_eq!((e.erase, e.print.as_str()), (0, ""));
    s.handle_key(DecodedKey::RawKey(KeyCode::ArrowDown));
    let e = s.handle_key(DecodedKey::RawKey(KeyCode::ArrowDown));
    assert_eq!(e.print, "dra");
    assert_eq!(entered(&mut s, "ft"), Some("draft".to_string()));
}

#[test]
fn history_forgets_the_oldest_line() {
    let mut s = Shell::new();
    for i in 0..20 {
        entered(&mut s, &format!("c{}", i));
    }
    let mut last = String::new();
    for _ in 0..40 {
        let e = s.handle_key(DecodedKey::RawKey(KeyCode::ArrowUp));
        if !e.print.is_empty() {
            last = e.print;
        }
    }
    assert_eq!(last, "c4");
}

#[test]
fn long_lines_are_read_up_to_a_number_of_bytes() {
    let line: Vec<char> = "x".repeat(600).chars().collect();
    assert_eq!(command_of(&line).len(), 512);
    let mut line: Vec<char> = "x".repeat(511).chars().collect();
    line.push('é');
    assert_eq!(command_of(&line), "");
}

#[test]
fn commands_are_told_apart() {
    assert!(matches!(execute("help"), Command::Help));
    assert!(matches!(execute(""), Command::Idle));
    assert!(matches!(execute("echo a  b"), Command::Echo(s) if s == "a  b"));
    assert!(matches!(execute("cat /x"), Command::Print(s) if s == "/x"));
    assert!(matches!(execute("cat "), Command::PrintUsage));
    assert!(
        matches!(execute("write /a hello there"), Command::Write { path, text } if path == "/a" && text == "hello there\n")
    );
    assert!(matches!(execute("write "), Command::WriteUsage));
    assert!(matches!(execute("write /a x@n@y"), Command::Write { text, .. } if text == "x\ny\n"));
    assert!(matches!(execute("run "), Command::RunUsage));
    assert!(matches!(execute("cc"), Command::CompileUsage));
    assert!(matches!(execute("ping 10.0.2.2"), Command::Ping(s) if s == "10.0.2.2"));
    assert!(matches!(execute("frobnicate"), Command::Unknown(s) if s == "frobnicate"));
}

#[test]
fn package_commands_are_told_apart() {
    assert!(matches!(pkg_command("list"), Pkg::List));
    assert!(matches!(pkg_command("install /a.opk"), Pkg::Install(s) if s == "/a.opk"));
    assert!(matches!(pkg_command("install"), Pkg::InstallUsage));
    assert!(matches!(pkg_command("info"), Pkg::InfoUsage));
    assert!(matches!(pkg_command("remove"), Pkg::RemoveUsage));
    assert!(matches!(pkg_command("run"), Pkg::RunUsage));
    assert!(matches!(pkg_command("frob"), Pkg::Unknown(s) if s == "frob"));
}

#[test]
fn network_and_install_commands_are_told_apart() {
    assert!(matches!(net_command("up"), Net::Up));
    assert!(matches!(net_command("frob"), Net::Unknown(s) if s == "frob"));
    assert!(matches!(execute("install"), Command::Install(Install::Usage)));
    assert!(matches!(install_command("install"), Install::List));
    assert!(matches!(install_command("install list"), Install::List));
    assert!(matches!(install_command("install to usb"), Install::To(Target::Usb)));
    assert!(matches!(install_command("install to"), Install::ToUsage));
    assert!(matches!(install_command("install to moon"), Install::UnknownTarget(s) if s == "moon"));
    assert!(matches!(install_command("install frob"), Install::Unknown(s) if s == "frob"));
}

#[test]
fn files_are_shown_as_text_or_not_at_all() {
    let ok: Result<Vec<u8>, String> = Ok("grüße\n".as_bytes().to_vec());
    assert!(report::file_contents(&ok).contains("grüße"));
    let bad: Result<Vec<u8>, String> = Ok(vec![0xff, 0xfe, 0x00]);
    assert!(!report::file_contents(&bad).contains('\u{fffd}'));
    let gone: Result<Vec<u8>, String> = Err("no such file".to_string());
    assert!(report::file_contents(&gone).contains("no such file"));
}

#[test]
fn elf_files_are_recognised() {
    assert!(report::is_elf(&vec![0x7f, b'E', b'L', b'F', 0]));
    assert!(!report::is_elf(&vec![0x7f, b'E', b'L']));
}

#[test]
fn answers_to_pings_are_counted() {
    let s = report::ping_command("host", "1.2.3.4", &vec![Some(1), None, Some(2), Some(0)]);
    assert!(s.contains("4") && s.contains("3"));
}

#[test]
fn fixed_strings_hold_vendor_names() {
    let mut f = FixedStr::new();
    f.push_u32_le(0x756e_6547);
    assert_eq!(f.as_str(), "Genu");
    let vendor = (0, 0x756e_6547, 0x6c65_746e, 0x4965_6e69);
    let none = (0, 0, 0, 0);
    let (v, b) = cpuid_info(vendor, 0, none, none, none);
    assert_eq!(v.as_str(), "GenuineIntel");
    let _ = b.as_str();
}

#[test]
fn net_up_asks_only_with_a_card() {
    let (said, asks) = report::net_up(&None);
    assert_eq!((said.as_str(), asks), ("Requesting an address over DHCP...\n", true));
    let (said, asks) = report::net_up(&Some(Ok("52:54:00".to_string())));
    assert_eq!(
        said,
        "Found an e1000 NIC, MAC 52:54:00.\nRequesting an address over DHCP...\n"
    );
    assert!(asks);
    let (said, asks) = report::net_up(&Some(Err("no NIC".to_string())));
    assert_eq!((said.as_str(), asks), ("net: no NIC\n", false));
    assert_eq!(report::calculator_line(&Ok(7)), "calc spawned pid=7\n");
    assert_eq!(report::calculator_line(&Err("x".to_string())), "calc spawn failed: x\n");
}
