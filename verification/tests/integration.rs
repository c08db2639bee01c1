use lan_cat::integration::{
    install_action, remove_action, share_workflow, shell_quote, workflow, xml_escape,
    IntegrationError,
};
use lan_cat::service::{launchd_plist, systemd_unit};

#[test]
fn quoting_is_safe_for_shell_and_xml() {
    assert_eq!(shell_quote("a'b"), "'a'\\''b'");
    assert_eq!(xml_escape("a&<b>"), "a&amp;&lt;b&gt;");
}

#[test]
fn workflow_is_valid_plist() {
    let value = workflow("/tmp/lan-cat share -- &quot;$@&quot;");
    assert!(value.contains("com.apple.Automator.fileSystemObject"));
    assert!(value.contains("Run Shell Script.action"));
}

#[test]
fn every_markup_character_is_escaped() {
    assert_eq!(xml_escape("\"'&amp;"), "&quot;&apos;&amp;amp;");
    assert_eq!(shell_quote(""), "''");
    assert_eq!(shell_quote("''"), "''\\'''\\'''");
}

#[test]
fn an_action_is_installed_once_and_removed() {
    let first = install_action(None, "/opt/it's/lan-cat").unwrap().unwrap();
    assert!(first.starts_with("<?xml version=\"1.0\" encoding=\"UTF-8\"?>\n<actions>\n<action>\n"));
    assert!(first.contains("<unique-id>lan-cat-share-action</unique-id>"));
    assert!(first.contains("&apos;/opt/it&apos;\\&apos;&apos;s/lan-cat&apos; share -- %F"));
    assert!(first.ends_with("</action>\n</actions>\n"));
    assert_eq!(install_action(Some(first.clone()), "/other"), Ok(None));
    assert_eq!(
        remove_action(&first).unwrap(),
        "<?xml version=\"1.0\" encoding=\"UTF-8\"?>\n<actions>\n\n</actions>\n"
    );
}

#[test]
fn other_actions_are_kept() {
    let others = "<actions>\n<action><unique-id>x</unique-id></action>\n</actions>\n";
    let installed = install_action(Some(others.into()), "/bin/lan-cat").unwrap().unwrap();
    assert!(installed.contains("<unique-id>x</unique-id>"));
    assert_eq!(
        remove_action(&installed).unwrap(),
        "<actions>\n<action><unique-id>x</unique-id></action>\n\n</actions>\n"
    );
    assert_eq!(remove_action(others), None);
    assert_eq!(
        install_action(Some("<nothing/>".into()), "/bin/lan-cat"),
        Err(IntegrationError::NoActions)
    );
}

#[test]
fn the_finder_action_runs_the_program() {
    let value = share_workflow("/usr/local/bin/lan-cat");
    assert!(value.contains(
        "<string>exec &apos;/usr/local/bin/lan-cat&apos; share -- &quot;$@&quot;</string>"
    ));
}

#[test]
fn services_run_the_daemon() {
    assert!(systemd_unit("/bin/lan-cat").contains("\nExecStart=/bin/lan-cat daemon\n"));
    assert!(systemd_unit("/bin/lan-cat").contains("\nRestartSec=3\n"));
    assert!(launchd_plist("/a&'b").contains("<string>/a&amp;'b</string><string>daemon</string>"));
}
