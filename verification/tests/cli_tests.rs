use unicom::cli::{
    account_menu_choice, main_menu_choice, parse_command, parse_pid, process_cpu_ticks,
    process_start_ticks, start_plan, status_value, stop_plan, system_cpu_ticks, uninstall_confirmed,
    update_confirmed, uptime_text, AccountChoice, CliCommand, MenuChoice, StartPlan, StopPlan,
};
use unicom::static_files::{static_choice, StaticChoice};

#[test]
fn commands() {
    assert_eq!(parse_command("start"), CliCommand::Start);
    assert_eq!(parse_command("reset-pass"), CliCommand::ResetPass);
    assert_eq!(parse_command("-v"), CliCommand::Version);
    assert_eq!(parse_command("--help"), CliCommand::Help);
    assert_eq!(parse_command("menu"), CliCommand::Menu);
    assert_eq!(parse_command("Start"), CliCommand::Unknown);
}

#[test]
fn menus() {
    assert_eq!(main_menu_choice("1"), MenuChoice::Start);
    assert_eq!(main_menu_choice("7"), MenuChoice::Uninstall);
    assert_eq!(main_menu_choice("quit"), MenuChoice::Exit);
    assert_eq!(main_menu_choice(""), MenuChoice::EndOfInput);
    assert_eq!(main_menu_choice("8"), MenuChoice::Invalid);
    assert_eq!(account_menu_choice("2"), AccountChoice::ListAdmins);
    assert_eq!(account_menu_choice(""), AccountChoice::Back);
    assert_eq!(account_menu_choice("q"), AccountChoice::Back);
    assert_eq!(account_menu_choice("x"), AccountChoice::Invalid);
}

#[test]
fn pid_files() {
    assert_eq!(parse_pid("1234\n"), Some(1234));
    assert_eq!(parse_pid(" 42 "), Some(42));
    assert_eq!(parse_pid("-1"), None);
    assert_eq!(parse_pid(""), None);
}

#[test]
fn status_lines() {
    assert_eq!(status_value("VmRSS:\t  10240 kB", "VmRSS:"), Some("10240"));
    assert_eq!(status_value("Threads:\t7", "Threads:"), Some("7"));
    assert_eq!(status_value("Threads:", "Threads:"), None);
    assert_eq!(status_value("VmHWM: 1 kB", "VmRSS:"), None);
}

#[test]
fn process_figures() {
    let stat = "1234 (unicom) S 1 1234 1234 0 -1 4194560 100 0 0 0 250 75 0 0 20 0 8 0 98765 0 0";
    assert_eq!(process_cpu_ticks(stat), 325);
    assert_eq!(process_start_ticks(stat), Some(98765));
    assert_eq!(process_cpu_ticks("1 2 3"), 0);
    assert_eq!(process_start_ticks("1 2 3"), None);
    assert_eq!(system_cpu_ticks("cpu  10 20 x 30\ncpu0 1 1 1\n"), 60);
    assert_eq!(system_cpu_ticks(""), 0);
    let big = format!("cpu {} {}", u64::MAX, u64::MAX);
    assert_eq!(system_cpu_ticks(&big), 2 * u64::MAX as u128);
}

#[test]
fn uptimes() {
    assert_eq!(uptime_text(2, 3, 4), "2天 3小时 4分钟");
    assert_eq!(uptime_text(0, 3, 0), "3小时 0分钟");
    assert_eq!(uptime_text(0, 0, 9), "9分钟");
}

#[test]
fn service_plans() {
    assert_eq!(start_plan(true, true), StartPlan::AlreadyRunning);
    assert_eq!(start_plan(false, true), StartPlan::ViaScript);
    assert_eq!(start_plan(false, false), StartPlan::ViaBinary);
    assert_eq!(stop_plan(true, Some(3)), StopPlan::ViaScript);
    assert_eq!(stop_plan(false, Some(3)), StopPlan::Signal(3));
    assert_eq!(stop_plan(false, None), StopPlan::NotRunning);
}

#[test]
fn confirmations() {
    assert!(update_confirmed("y"));
    assert!(update_confirmed("Y"));
    assert!(!update_confirmed("yes"));
    assert!(uninstall_confirmed("yes"));
    assert!(!uninstall_confirmed("YES"));
}

#[test]
fn static_choices() {
    assert_eq!(static_choice(true, false), StaticChoice::Requested);
    assert_eq!(static_choice(false, true), StaticChoice::Index);
    assert_eq!(static_choice(false, false), StaticChoice::NotFound);
}
