use traybridge::notifications::toast_xml;

#[test]
fn toast_document_composition() {
    let actions = vec![
        String::from("default"),
        String::from("Open"),
        String::from("cancel"),
        String::from("Cancel <now>"),
    ];
    let toast = toast_xml("Song & Title", "line <2>", Some("C:\\img.png"), &actions);
    assert!(toast.launch_default);
    assert_eq!(
        toast.xml,
        "<toast duration=\"long\" launch=\"default\"><visual><binding template=\"ToastGeneric\"><text id=\"1\">Song &amp; Title</text><text id=\"2\">line &lt;2&gt;</text><image placement=\"appLogoOverride\" src=\"file://C:\\img.png\" /></binding></visual><audio src=\"ms-winsoundevent:Notification.Default\" /><actions><action content=\"Cancel &lt;now&gt;\" arguments=\"cancel\" /></actions></toast>"
    );
}

#[test]
fn toast_without_default_action_or_image() {
    let actions = vec![String::from("a\"b"), String::from("Show")];
    let toast = toast_xml("s", "b", None, &actions);
    assert!(!toast.launch_default);
    assert!(toast.xml.contains("launch=\"\""));
    assert!(toast
        .xml
        .contains("<action content=\"Show\" arguments=\"a&quot;b\" />"));
    // an unpaired trailing action is ignored
    let odd = vec![String::from("only")];
    let toast2 = toast_xml("s", "b", None, &odd);
    assert!(toast2.xml.contains("<actions></actions>"));
}
