use petsona::autostart::{command_line, escape_xml, render_plist, value_name, wide};

#[test]
fn launch_agent_plist_embeds_executable_and_working_directory() {
    let plist = render_plist(
        "/Applications/Petsona.app/Contents/MacOS/Petsona",
        "/Applications/Petsona.app/Contents/MacOS",
    );

    assert!(plist.contains("<string>com.petsona.desktop</string>"));
    assert!(plist.contains("<string>/Applications/Petsona.app/Contents/MacOS/Petsona</string>"));
    assert!(plist.contains("<string>/Applications/Petsona.app/Contents/MacOS</string>"));
    assert!(plist.contains("<key>RunAtLoad</key>\n\t<true/>"));
    assert!(!plist.contains('@'));
}

#[test]
fn launch_agent_paths_are_xml_escaped() {
    let plist = render_plist("/Applications/A&B <Pets>/Petsona", "/Applications/A&B <Pets>");

    assert!(plist.contains("/Applications/A&amp;B &lt;Pets&gt;/Petsona"));
    assert!(!plist.contains("/Applications/A&B <Pets>"));
    assert_eq!(escape_xml("a'b\"c"), "a&apos;b&quot;c");
}

#[test]
fn every_xml_special_character_is_escaped_once() {
    assert_eq!(escape_xml("&<>\"'x"), "&amp;&lt;&gt;&quot;&apos;x");
    assert_eq!(escape_xml("&amp;"), "&amp;amp;");
    assert_eq!(escape_xml(""), "");
}

#[test]
fn login_item_name_defaults_when_blank() {
    assert_eq!(value_name(None), "Petsona");
    assert_eq!(value_name(Some("   ".to_string())), "Petsona");
    assert_eq!(value_name(Some(" PetsonaDev ".to_string())), "PetsonaDev");
}

#[test]
fn windows_strings_are_nul_terminated_utf16() {
    assert_eq!(wide("A"), vec![0x41, 0]);
    assert_eq!(wide("宠"), vec![0x5BA0, 0]);
    assert_eq!(wide("😀"), vec![0xD83D, 0xDE00, 0]);
    assert_eq!(wide(""), vec![0]);
    let text = "C:\\Program Files\\Petsona\\宠物.exe";
    let mut expected: Vec<u16> = text.encode_utf16().collect();
    expected.push(0);
    assert_eq!(wide(text), expected);
}

#[test]
fn login_command_quotes_the_path() {
    assert_eq!(command_line("C:\\Apps\\Petsona.exe"), "\"C:\\Apps\\Petsona.exe\"");
}

#[test]
fn escaped_paths_hold_no_markup() {
    let escaped = escape_xml("/Users/o'neil/\"Pets\" <beta> & more");
    assert!(!escaped.contains(['<', '>', '"', '\'']));
    assert_eq!(escaped, "/Users/o&apos;neil/&quot;Pets&quot; &lt;beta&gt; &amp; more");
}
