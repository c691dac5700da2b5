//! The command line: commands and menu choices, the pid file, and the
//! figures read from the system's process tables.
use vstd::prelude::*;
use vstd::string::*;

use crate::text::{
    parse_u32, parse_u32_seq, parse_u64, parse_u64_seq, piece_len, seq_starts_with, split_whitespace,
    split_ws_seq, starts_with, str_eq, trim, trim_seq, u64_to_decimal, nat_decimal,
};

verus! {

// ───────────────────────── commands and menus ─────────────────────────

/// A command given as the first argument.
#[derive(Clone, Copy, Debug, PartialEq, Eq)]
pub enum CliCommand {
    Start,
    Stop,
    Restart,
    Status,
    ResetPass,
    Version,
    Help,
    Menu,
    Unknown,
}

pub open spec fn command_of(arg: Seq<char>) -> CliCommand {
    if arg == "start"@ {
        CliCommand::Start
    } else if arg == "stop"@ {
        CliCommand::Stop
    } else if arg == "restart"@ {
        CliCommand::Restart
    } else if arg == "status"@ {
        CliCommand::Status
    } else if arg == "reset-pass"@ {
        CliCommand::ResetPass
    } else if arg == "version"@ || arg == "-v"@ || arg == "--version"@ {
        CliCommand::Version
    } else if arg == "help"@ || arg == "-h"@ || arg == "--help"@ {
        CliCommand::Help
    } else if arg == "menu"@ {
        CliCommand::Menu
    } else {
        CliCommand::Unknown
    }
}

/// Reads the command of the first argument.
pub fn parse_command(arg: &str) -> (r: CliCommand)
    ensures
        r == command_of(arg@),
{
    if str_eq(arg, "start") {
        CliCommand::Start
    } else if str_eq(arg, "stop") {
        CliCommand::Stop
    } else if str_eq(arg, "restart") {
        CliCommand::Restart
    } else if str_eq(arg, "status") {
        CliCommand::Status
    } else if str_eq(arg, "reset-pass") {
        CliCommand::ResetPass
    } else if str_eq(arg, "version") || str_eq(arg, "-v") || str_eq(arg, "--version") {
        CliCommand::Version
    } else if str_eq(arg, "help") || str_eq(arg, "-h") || str_eq(arg, "--help") {
        CliCommand::Help
    } else if str_eq(arg, "menu") {
        CliCommand::Menu
    } else {
        CliCommand::Unknown
    }
}

/// The commands as the help lists them: the word to give and what it does.
pub open spec fn help_entries() -> Seq<(Seq<char>, Seq<char>)> {
    seq![
        ("start"@, "启动服务"@),
        ("stop"@, "停止服务"@),
        ("restart"@, "重启服务"@),
        ("status"@, "查看状态"@),
        ("reset-pass"@, "重置管理员账密"@),
        ("version"@, "显示版本"@),
        ("help"@, "显示帮助"@),
        ("menu"@, "进入交互菜单"@),
    ]
}

/// What the help says a command does.
pub open spec fn command_name(c: CliCommand) -> Seq<char> {
    match c {
        CliCommand::Start => "启动服务"@,
        CliCommand::Stop => "停止服务"@,
        CliCommand::Restart => "重启服务"@,
        CliCommand::Status => "查看状态"@,
        CliCommand::ResetPass => "重置管理员账密"@,
        CliCommand::Version => "显示版本"@,
        CliCommand::Help => "显示帮助"@,
        CliCommand::Menu => "进入交互菜单"@,
        CliCommand::Unknown => Seq::empty(),
    }
}

/// Each word the help lists runs the command the help describes for it.
pub proof fn law_help_words_run_their_commands(i: int)
    requires
        0 <= i < help_entries().len(),
    ensures
        command_name(command_of(help_entries()[i].0)) == help_entries()[i].1,
{
    reveal_strlit("start");
    reveal_strlit("stop");
    reveal_strlit("restart");
    reveal_strlit("status");
    reveal_strlit("reset-pass");
    reveal_strlit("version");
    reveal_strlit("help");
    reveal_strlit("menu");
    reveal_strlit("-v");
    reveal_strlit("--version");
    reveal_strlit("-h");
    reveal_strlit("--help");
    let w = help_entries()[i].0;
    if i == 0 {
        assert(w == "start"@);
    } else if i == 1 {
        assert(w != "start"@) by { assert(w[2] != "start"@[2]); }
    } else if i == 2 {
        assert(w != "start"@ && w != "stop"@) by { assert(w.len() == 7); }
    } else if i == 3 {
        assert(w != "start"@) by { assert(w[4] != "start"@[4]); }
        assert(w != "stop"@ && w != "restart"@) by { assert(w.len() == 6); }
    } else if i == 4 {
        assert(w.len() == 10);
    } else if i == 5 {
        assert(w.len() == 7);
        assert(w != "restart"@) by { assert(w[0] != "restart"@[0]); }
    } else if i == 6 {
        assert(w.len() == 4);
        assert(w != "stop"@) by { assert(w[0] != "stop"@[0]); }
    } else {
        assert(w.len() == 4);
        assert(w != "stop"@) by { assert(w[0] != "stop"@[0]); }
        assert(w != "help"@) by { assert(w[0] != "help"@[0]); }
    }
}

/// An entry of the main menu.
#[derive(Clone, Copy, Debug, PartialEq, Eq)]
pub enum MenuChoice {
    Start,
    Restart,
    Stop,
    Status,
    Accounts,
    Update,
    Uninstall,
    Exit,
    /// No input at all: the menu is left and the service starts.
    EndOfInput,
    Invalid,
}

pub open spec fn menu_choice_of(input: Seq<char>) -> MenuChoice {
    if input == "1"@ {
        MenuChoice::Start
    } else if input == "2"@ {
        MenuChoice::Restart
    } else if input == "3"@ {
        MenuChoice::Stop
    } else if input == "4"@ {
        MenuChoice::Status
    } else if input == "5"@ {
        MenuChoice::Accounts
    } else if input == "6"@ {
        MenuChoice::Update
    } else if input == "7"@ {
        MenuChoice::Uninstall
    } else if input == "0"@ || input == "q"@ || input == "quit"@ || input == "exit"@ {
        MenuChoice::Exit
    } else if input.len() == 0 {
        MenuChoice::EndOfInput
    } else {
        MenuChoice::Invalid
    }
}

/// The entries of the main menu as it shows them: the key to type and the
/// name of what it does.
pub open spec fn main_menu_entries() -> Seq<(Seq<char>, Seq<char>)> {
    seq![
        ("1"@, "启动服务"@),
        ("2"@, "重启服务"@),
        ("3"@, "停止服务"@),
        ("4"@, "运行状态"@),
        ("5"@, "管理账密"@),
        ("6"@, "检查更新"@),
        ("7"@, "卸载程序"@),
        ("0"@, "退出"@),
    ]
}

/// The name under which the menu shows an action.
pub open spec fn action_name(c: MenuChoice) -> Seq<char> {
    match c {
        MenuChoice::Start => "启动服务"@,
        MenuChoice::Restart => "重启服务"@,
        MenuChoice::Stop => "停止服务"@,
        MenuChoice::Status => "运行状态"@,
        MenuChoice::Accounts => "管理账密"@,
        MenuChoice::Update => "检查更新"@,
        MenuChoice::Uninstall => "卸载程序"@,
        MenuChoice::Exit => "退出"@,
        _ => Seq::empty(),
    }
}

/// Typing the key of a menu entry chooses the action that entry names.
pub proof fn law_menu_keys_choose_their_entries(i: int)
    requires
        0 <= i < main_menu_entries().len(),
    ensures
        action_name(menu_choice_of(main_menu_entries()[i].0)) == main_menu_entries()[i].1,
{
    reveal_strlit("0");
    reveal_strlit("1");
    reveal_strlit("2");
    reveal_strlit("3");
    reveal_strlit("4");
    reveal_strlit("5");
    reveal_strlit("6");
    reveal_strlit("7");
    let k = main_menu_entries()[i].0;
    assert(k.len() == 1);
    assert(k[0] == ('0' as u32 + (if i == 7 { 0 } else { i + 1 })) as char);
}

/// Reads a choice of the main menu (the input already trimmed).
pub fn main_menu_choice(input: &str) -> (r: MenuChoice)
    ensures
        r == menu_choice_of(input@),
{
    if str_eq(input, "1") {
        MenuChoice::Start
    } else if str_eq(input, "2") {
        MenuChoice::Restart
    } else if str_eq(input, "3") {
        MenuChoice::Stop
    } else if str_eq(input, "4") {
        MenuChoice::Status
    } else if str_eq(input, "5") {
        MenuChoice::Accounts
    } else if str_eq(input, "6") {
        MenuChoice::Update
    } else if str_eq(input, "7") {
        MenuChoice::Uninstall
    } else if str_eq(input, "0") || str_eq(input, "q") || str_eq(input, "quit") || str_eq(input, "exit") {
        MenuChoice::Exit
    } else if input.unicode_len() == 0 {
        MenuChoice::EndOfInput
    } else {
        MenuChoice::Invalid
    }
}

/// An entry of the account menu.
#[derive(Clone, Copy, Debug, PartialEq, Eq)]
pub enum AccountChoice {
    ResetCredentials,
    ListAdmins,
    /// Back to the main menu (also on no input at all).
    Back,
    Invalid,
}

pub open spec fn account_choice_of(input: Seq<char>) -> AccountChoice {
    if input == "1"@ {
        AccountChoice::ResetCredentials
    } else if input == "2"@ {
        AccountChoice::ListAdmins
    } else if input == "0"@ || input == "q"@ || input.len() == 0 {
        AccountChoice::Back
    } else {
        AccountChoice::Invalid
    }
}

/// The entries of the account menu as it shows them: the key to type and
/// the name of what it does.
pub open spec fn account_menu_entries() -> Seq<(Seq<char>, Seq<char>)> {
    seq![("1"@, "重置管理员账密"@), ("2"@, "查看管理员列表"@), ("0"@, "返回"@)]
}

/// The name under which the account menu shows an action.
pub open spec fn account_action_name(c: AccountChoice) -> Seq<char> {
    match c {
        AccountChoice::ResetCredentials => "重置管理员账密"@,
        AccountChoice::ListAdmins => "查看管理员列表"@,
        AccountChoice::Back => "返回"@,
        AccountChoice::Invalid => Seq::empty(),
    }
}

/// Typing the key of an account-menu entry chooses the action that entry
/// names; the reset entry does what the `reset-pass` command does, under
/// the same name.
pub proof fn law_account_keys_choose_their_entries(i: int)
    requires
        0 <= i < account_menu_entries().len(),
    ensures
        account_action_name(account_choice_of(account_menu_entries()[i].0)) == account_menu_entries()[i].1,
        account_action_name(account_choice_of("1"@)) == command_name(command_of("reset-pass"@)),
{
    reveal_strlit("0");
    reveal_strlit("1");
    reveal_strlit("2");
    law_help_words_run_their_commands(4);
    let k = account_menu_entries()[i].0;
    assert(k.len() == 1);
    assert("0"@[0] != "1"@[0] && "0"@[0] != "2"@[0] && "1"@[0] != "2"@[0]);
    if i == 0 {
        assert(k == "1"@);
    } else if i == 1 {
        assert(k == "2"@);
        assert(k != "1"@);
    } else {
        assert(k == "0"@);
        assert(k != "1"@ && k != "2"@);
    }
}

/// Reads a choice of the account menu (the input already trimmed).
pub fn account_menu_choice(input: &str) -> (r: AccountChoice)
    ensures
        r == account_choice_of(input@),
{
    if str_eq(input, "1") {
        AccountChoice::ResetCredentials
    } else if str_eq(input, "2") {
        AccountChoice::ListAdmins
    } else if str_eq(input, "0") || str_eq(input, "q") || input.unicode_len() == 0 {
        AccountChoice::Back
    } else {
        AccountChoice::Invalid
    }
}

// ───────────────────────── pid file ─────────────────────────

/// The process id written in the pid file: its trimmed text read as a `u32`.
pub fn parse_pid(content: &str) -> (r: Option<u32>)
    ensures
        r == parse_u32_seq(trim_seq(content@)),
{
    parse_u32(trim(content))
}

// ───────────────────────── process tables ─────────────────────────

/// The value of a `/proc/<pid>/status` line with the given key (such as
/// `VmRSS:` or `Threads:`): the line's second word, when the line starts
/// with the key and has one.
pub open spec fn status_value_of(line: Seq<char>, key: Seq<char>) -> Option<Seq<char>> {
    if seq_starts_with(line, key) && split_ws_seq(line).len() > 1 {
        Some(split_ws_seq(line)[1])
    } else {
        None
    }
}

/// Reads the value of a status line with the given key.
pub fn status_value<'a>(line: &'a str, key: &str) -> (r: Option<&'a str>)
    ensures
        match r {
            Some(v) => status_value_of(line@, key@) == Some(v@),
            None => status_value_of(line@, key@) is None,
        },
{
    if !starts_with(line, key) {
        return None;
    }
    let words = split_whitespace(line);
    if words.len() > 1 {
        assert(words@.map_values(|w: &str| w@)[1] == words@[1]@);
        Some(words[1])
    } else {
        None
    }
}

/// A field read as a `u64`, or 0 when it is not one.
pub open spec fn u64_or_zero(field: Seq<char>) -> int {
    match parse_u64_seq(field) {
        Some(v) => v as int,
        None => 0,
    }
}

fn u64_or_zero_exec(field: &str) -> (r: u64)
    ensures
        r == u64_or_zero(field@),
{
    match parse_u64(field) {
        Some(v) => v,
        None => 0,
    }
}

/// The processor time of a process, from its `/proc/<pid>/stat` line: the
/// user and system ticks (fields 14 and 15), when the line has more than
/// fifteen fields; else 0.
pub open spec fn process_ticks_of(stat: Seq<char>) -> int {
    let f = split_ws_seq(stat);
    if f.len() > 15 {
        u64_or_zero(f[13]) + u64_or_zero(f[14])
    } else {
        0
    }
}

/// Reads the processor time of a process.
pub fn process_cpu_ticks(stat: &str) -> (r: u128)
    ensures
        r == process_ticks_of(stat@),
{
    let fields = split_whitespace(stat);
    if fields.len() > 15 {
        assert(fields@.map_values(|w: &str| w@)[13] == fields@[13]@);
        assert(fields@.map_values(|w: &str| w@)[14] == fields@[14]@);
        let a = u64_or_zero_exec(fields[13]);
        let b = u64_or_zero_exec(fields[14]);
        a as u128 + b as u128
    } else {
        0
    }
}

/// The sum of the fields that read as a `u64` (the others are skipped).
pub open spec fn sum_of_numbers(fields: Seq<Seq<char>>) -> int
    decreases fields.len(),
{
    if fields.len() == 0 {
        0
    } else {
        sum_of_numbers(fields.drop_last()) + u64_or_zero(fields.last())
    }
}

/// The processor time of the whole system, from `/proc/stat`: the numbers
/// of its first line after the leading `cpu` label, added up.
pub open spec fn system_ticks_of(stat: Seq<char>) -> int {
    let f = split_ws_seq(stat.subrange(0, piece_len(stat, '\n') as int));
    if f.len() == 0 {
        0
    } else {
        sum_of_numbers(f.drop_first())
    }
}

/// Reads the processor time of the whole system.
pub fn system_cpu_ticks(stat: &str) -> (r: u128)
    ensures
        r == system_ticks_of(stat@),
{
    let n = stat.unicode_len();
    let mut e: usize = 0;
    assert(stat@.subrange(0, n as int) =~= stat@);
    while e < n && stat.get_char(e) != '\n'
        invariant
            n == stat@.len(),
            e <= n,
            piece_len(stat@, '\n') == e + piece_len(stat@.subrange(e as int, n as int), '\n'),
        decreases n - e,
    {
        assert(stat@.subrange(e as int, n as int).drop_first() =~= stat@.subrange(e + 1, n as int));
        e += 1;
    }
    proof {
        if e < n {
            assert(stat@.subrange(e as int, n as int)[0] == stat@[e as int]);
        }
    }
    let line = stat.substring_char(0, e);
    let fields = split_whitespace(line);
    let ghost fs = fields@.map_values(|w: &str| w@);
    if fields.len() == 0 {
        return 0;
    }
    let mut total: u128 = 0;
    let mut i: usize = 1;
    assert(fs.drop_first().take(0) =~= Seq::<Seq<char>>::empty());
    while i < fields.len()
        invariant
            fs == fields@.map_values(|w: &str| w@),
            fs.len() == fields.len(),
            1 <= i <= fields.len(),
            total == sum_of_numbers(fs.drop_first().take(i - 1)),
            total <= (i - 1) * 0xffff_ffff_ffff_ffff,
        decreases fields.len() - i,
    {
        assert(fs[i as int] == fields@[i as int]@);
        let v = u64_or_zero_exec(fields[i]);
        proof {
            let t = fs.drop_first().take(i as int);
            assert(t.drop_last() =~= fs.drop_first().take(i - 1));
            assert(t.last() == fs[i as int]);
            assert((i - 1) * 0xffff_ffff_ffff_ffff + 0xffff_ffff_ffff_ffff == i * 0xffff_ffff_ffff_ffff)
                by (nonlinear_arith);
            assert(i * 0xffff_ffff_ffff_ffff <= 0xffff_ffff_ffff_ffff * 0xffff_ffff_ffff_ffff)
                by (nonlinear_arith)
                requires
                    i <= 0xffff_ffff_ffff_ffff,
            ;
        }
        total = total + v as u128;
        i += 1;
    }
    assert(fs.drop_first().take(fields.len() - 1) =~= fs.drop_first());
    total
}

/// When a process started, in ticks after boot: field 22 of its stat line,
/// 0 when it is not a number; `None` when the line is shorter.
pub open spec fn start_ticks_of(stat: Seq<char>) -> Option<int> {
    let f = split_ws_seq(stat);
    if f.len() > 21 {
        Some(u64_or_zero(f[21]))
    } else {
        None
    }
}

/// Reads when a process started.
pub fn process_start_ticks(stat: &str) -> (r: Option<u64>)
    ensures
        match r {
            Some(t) => start_ticks_of(stat@) == Some(t as int),
            None => start_ticks_of(stat@) is None,
        },
{
    let fields = split_whitespace(stat);
    if fields.len() > 21 {
        assert(fields@.map_values(|w: &str| w@)[21] == fields@[21]@);
        Some(u64_or_zero_exec(fields[21]))
    } else {
        None
    }
}

/// How long the service has run: days, hours and minutes when there are
/// days; hours and minutes when there are hours; else minutes.
pub open spec fn uptime_text_of(days: nat, hours: nat, minutes: nat) -> Seq<char> {
    if days > 0 {
        nat_decimal(days) + "天 "@ + nat_decimal(hours) + "小时 "@ + nat_decimal(minutes) + "分钟"@
    } else if hours > 0 {
        nat_decimal(hours) + "小时 "@ + nat_decimal(minutes) + "分钟"@
    } else {
        nat_decimal(minutes) + "分钟"@
    }
}

/// Writes how long the service has run.
pub fn uptime_text(days: u64, hours: u64, minutes: u64) -> (r: String)
    ensures
        r@ == uptime_text_of(days as nat, hours as nat, minutes as nat),
{
    let mut s = String::new();
    if days > 0 {
        s.append(u64_to_decimal(days).as_str());
        s.append("天 ");
    }
    if days > 0 || hours > 0 {
        s.append(u64_to_decimal(hours).as_str());
        s.append("小时 ");
    }
    s.append(u64_to_decimal(minutes).as_str());
    s.append("分钟");
    proof {
        if days > 0 {
            assert(s@ =~= uptime_text_of(days as nat, hours as nat, minutes as nat));
        } else if hours > 0 {
            assert(s@ =~= uptime_text_of(days as nat, hours as nat, minutes as nat));
        } else {
            assert(s@ =~= uptime_text_of(days as nat, hours as nat, minutes as nat));
        }
    }
    s
}

// ───────────────────────── starting and stopping ─────────────────────────

/// How the service is started.
#[derive(Clone, Copy, Debug, PartialEq, Eq)]
pub enum StartPlan {
    /// It already runs: only its pid is reported.
    AlreadyRunning,
    /// Through the Android service script, which the system knows.
    ViaScript,
    /// By launching the binary from the install directory.
    ViaBinary,
}

/// How to start the service: not at all when it runs, else through the
/// service script when there is one, else by launching the binary.
pub fn start_plan(running: bool, script_exists: bool) -> (r: StartPlan)
    ensures
        running ==> r == StartPlan::AlreadyRunning,
        !running && script_exists ==> r == StartPlan::ViaScript,
        !running && !script_exists ==> r == StartPlan::ViaBinary,
{
    if running {
        StartPlan::AlreadyRunning
    } else if script_exists {
        StartPlan::ViaScript
    } else {
        StartPlan::ViaBinary
    }
}

/// How the service is stopped.
#[derive(Clone, Copy, Debug, PartialEq, Eq)]
pub enum StopPlan {
    /// Through the Android service script.
    ViaScript,
    /// No live process is recorded.
    NotRunning,
    /// By signalling the recorded process.
    Signal(u32),
}

/// How to stop the service: through the service script when there is one,
/// else by signalling the live process of the pid file, if any.
pub fn stop_plan(script_exists: bool, pid: Option<u32>) -> (r: StopPlan)
    ensures
        script_exists ==> r == StopPlan::ViaScript,
        !script_exists && pid is None ==> r == StopPlan::NotRunning,
        !script_exists ==> (pid matches Some(p) ==> r == StopPlan::Signal(p)),
{
    if script_exists {
        StopPlan::ViaScript
    } else {
        match pid {
            Some(p) => StopPlan::Signal(p),
            None => StopPlan::NotRunning,
        }
    }
}

// ───────────────────────── confirmations ─────────────────────────

/// Whether an answer confirms the update: `y`, in either case.
pub fn update_confirmed(answer: &str) -> (r: bool)
    ensures
        r == (answer@ == "y"@ || answer@ == "Y"@),
{
    str_eq(answer, "y") || str_eq(answer, "Y")
}

/// Whether an answer confirms the uninstall: exactly `yes`.
pub fn uninstall_confirmed(answer: &str) -> (r: bool)
    ensures
        r == (answer@ == "yes"@),
{
    str_eq(answer, "yes")
}

} // verus!
