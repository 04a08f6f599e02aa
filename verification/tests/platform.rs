use petsona::platform::{
    menu_command_from_id, poll_commands, ChromeStep, MacHost, MenuCommand, PortableHost,
    WindowsHost,
};

#[test]
fn menu_ids_map_to_commands() {
    assert_eq!(menu_command_from_id(1), Some(MenuCommand::OpenSettings));
    assert_eq!(menu_command_from_id(4), Some(MenuCommand::Quit));
    assert_eq!(menu_command_from_id(9), None);
    assert_eq!(
        poll_commands(&vec![3, 0, 2, 7]),
        vec![MenuCommand::TogglePet, MenuCommand::ChangePet]
    );
}

#[test]
fn chrome_is_applied_once_and_rechecked_after_a_resize_settles() {
    let mut host = WindowsHost::new();
    assert_eq!(host.chrome_step(1000), ChromeStep::FirstApply);
    assert_eq!(host.chrome_step(1016), ChromeStep::Steady);
    host.notify_window_resize(2000);
    assert_eq!(host.chrome_step(2100), ChromeStep::Steady);
    assert_eq!(host.chrome_step(2200), ChromeStep::Settled);
    assert_eq!(host.chrome_step(2300), ChromeStep::Steady);
}

#[test]
fn hosts_name_themselves_and_their_fonts() {
    assert_eq!(PortableHost.name(), "portable");
    assert_eq!(MacHost::new().name(), "macos");
    assert_eq!(MacHost::new().cjk_font_candidates()[0], "/System/Library/Fonts/PingFang.ttc");
    let windows = WindowsHost::new();
    assert_eq!(windows.name(), "windows");
    assert_eq!(windows.cjk_font_candidates().len(), 6);
}
