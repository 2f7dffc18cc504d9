//! The toast bridge's protocol data and its toast composition: the server
//! identification it reports, the raw image a notification may carry, and
//! the translation of a notification (summary, body, image, flat action
//! list) into the XML document the native toast API displays.

use crate::text::str_eq;
use vstd::prelude::*;
use vstd::string::StringExecFns;

verus! {

/// The answer to the notification protocol's server-information request.
pub struct ServerInformation<'a> {
    /// The product name of the server.
    pub name: &'a str,
    /// The vendor name.
    pub vendor: &'a str,
    /// The server's version number.
    pub version: &'a str,
    /// The specification version the server is compliant with.
    pub spec_version: &'a str,
}

impl<'a> ServerInformation<'a> {
    pub fn get() -> (r: ServerInformation<'static>)
        ensures
            r.name@ == "master"@,
            r.vendor@ == "John Ingve Olsen"@,
            r.version@ == "0.1"@,
            r.spec_version@ == "1.2"@,
    {
        ServerInformation {
            name: "master",
            vendor: "John Ingve Olsen",
            version: "0.1",
            spec_version: "1.2",
        }
    }
}

/// A raw notification image, as the protocol's image hint carries it.
pub struct Image {
    pub width: i32,
    pub height: i32,
    pub rowstride: i32,
    pub has_alpha: bool,
    pub bits_per_sample: i32,
    pub channels: i32,
    pub data: Vec<u8>,
}

/// XML escaping of one character inside an attribute value.
pub open spec fn attr_escape_char(c: char) -> Seq<char> {
    if c == '<' {
        "&lt;"@
    } else if c == '>' {
        "&gt;"@
    } else if c == '"' {
        "&quot;"@
    } else if c == '\'' {
        "&apos;"@
    } else if c == '&' {
        "&amp;"@
    } else if c == '\n' {
        "&#xA;"@
    } else if c == '\r' {
        "&#xD;"@
    } else {
        seq![c]
    }
}

/// XML escaping of an attribute value.
pub open spec fn attr_escaped(s: Seq<char>) -> Seq<char>
    decreases s.len(),
{
    if s.len() == 0 {
        Seq::empty()
    } else {
        attr_escape_char(s[0]) + attr_escaped(s.drop_first())
    }
}

/// XML escaping of one character inside character data.
pub open spec fn pcdata_escape_char(c: char) -> Seq<char> {
    if c == '<' {
        "&lt;"@
    } else if c == '>' {
        "&gt;"@
    } else if c == '&' {
        "&amp;"@
    } else {
        seq![c]
    }
}

/// XML escaping of character data.
pub open spec fn pcdata_escaped(s: Seq<char>) -> Seq<char>
    decreases s.len(),
{
    if s.len() == 0 {
        Seq::empty()
    } else {
        pcdata_escape_char(s[0]) + pcdata_escaped(s.drop_first())
    }
}

/// Relies on xml::escape::escape_str_attribute: replaces `<`, `>`, `"`,
/// `'`, `&`, newline and carriage return with their XML character
/// references and keeps every other character.
#[verifier::external_body]
fn escape_attribute(s: &str) -> (r: String)
    ensures
        r@ == attr_escaped(s@),
{
    xml::escape::escape_str_attribute(s).into_owned()
}

/// Relies on xml::escape::escape_str_pcdata: replaces `<`, `>` and `&` with
/// their XML character references and keeps every other character.
#[verifier::external_body]
fn escape_pcdata(s: &str) -> (r: String)
    ensures
        r@ == pcdata_escaped(s@),
{
    xml::escape::escape_str_pcdata(s).into_owned()
}

/// The image element of a toast, when the notification carries an image.
pub open spec fn toast_image_xml(image: Option<Seq<char>>) -> Seq<char> {
    match image {
        Some(p) => "<image placement=\"appLogoOverride\" src=\"file://"@ + pcdata_escaped(p)
            + "\" />"@,
        None => Seq::empty(),
    }
}

/// The action buttons of a toast. The flat action list pairs an action name
/// with its display string; the "default" action becomes the toast's launch
/// action rather than a button, and a trailing unpaired element is ignored.
pub open spec fn toast_action_buttons(a: Seq<Seq<char>>) -> Seq<char>
    decreases a.len(),
{
    if a.len() < 2 {
        Seq::empty()
    } else if a[0] == "default"@ {
        toast_action_buttons(a.skip(2))
    } else {
        "<action content=\""@ + attr_escaped(a[1]) + "\" arguments=\""@ + attr_escaped(a[0])
            + "\" />"@ + toast_action_buttons(a.skip(2))
    }
}

/// Whether the action list names the "default" action.
pub open spec fn toast_launch_default(a: Seq<Seq<char>>) -> bool
    decreases a.len(),
{
    if a.len() < 2 {
        false
    } else {
        a[0] == "default"@ || toast_launch_default(a.skip(2))
    }
}

/// The toast document for a notification.
pub open spec fn toast_xml_spec(
    summary: Seq<char>,
    body: Seq<char>,
    image: Option<Seq<char>>,
    actions: Seq<Seq<char>>,
) -> Seq<char> {
    "<toast duration=\"long\" launch=\""@ + (if toast_launch_default(actions) {
        "default"@
    } else {
        Seq::<char>::empty()
    }) + "\"><visual><binding template=\"ToastGeneric\"><text id=\"1\">"@ + pcdata_escaped(summary)
        + "</text><text id=\"2\">"@ + pcdata_escaped(body) + "</text>"@ + toast_image_xml(image)
        + "</binding></visual><audio src=\"ms-winsoundevent:Notification.Default\" /><actions>"@
        + toast_action_buttons(actions) + "</actions></toast>"@
}

/// A composed toast: the document to load and whether activating the toast
/// body itself carries the "default" action.
pub struct ToastContent {
    pub launch_default: bool,
    pub xml: String,
}

/// Composes the toast document for a notification: summary and body as the
/// two text lines, the image when one is given, and one button per action
/// pair except the "default" action, which becomes the launch action.
#[verifier::loop_isolation(false)]
pub fn toast_xml(summary: &str, body: &str, image_path: Option<&str>, actions: &Vec<String>) -> (r:
    ToastContent)
    ensures
        ({
            let av = actions@.map_values(|s: String| s@);
            let iv = match image_path {
                Some(p) => Some(p@),
                None => None,
            };
            &&& r.launch_default == toast_launch_default(av)
            &&& r.xml@ == toast_xml_spec(summary@, body@, iv, av)
        }),
{
    let ghost av = actions@.map_values(|s: String| s@);
    let n = actions.len();

    let mut launch_default = false;
    let mut i: usize = 0;
    proof {
        assert(av.skip(0) =~= av);
    }
    while i < n && i + 1 < n
        invariant
            n == actions@.len(),
            av == actions@.map_values(|s: String| s@),
            i <= n,
            toast_launch_default(av) == (launch_default || toast_launch_default(
                av.skip(i as int),
            )),
        decreases n - i,
    {
        let ghost t = av.skip(i as int);
        proof {
            assert(t[0] == av[i as int] && t[1] == av[i as int + 1]);
            assert(t.skip(2) =~= av.skip(i as int + 2));
        }
        if str_eq(actions[i].as_str(), "default") {
            launch_default = true;
        }
        i = i + 2;
    }
    proof {
        assert(av.skip(i as int).len() < 2);
    }

    let mut buttons = String::new();
    let mut k: usize = 0;
    proof {
        assert(buttons@ + toast_action_buttons(av) =~= toast_action_buttons(av));
    }
    while k < n && k + 1 < n
        invariant
            n == actions@.len(),
            av == actions@.map_values(|s: String| s@),
            k <= n,
            buttons@ + toast_action_buttons(av.skip(k as int)) == toast_action_buttons(av),
        decreases n - k,
    {
        let ghost t = av.skip(k as int);
        let ghost b0 = buttons@;
        proof {
            assert(t[0] == av[k as int] && t[1] == av[k as int + 1]);
            assert(t.skip(2) =~= av.skip(k as int + 2));
        }
        if !str_eq(actions[k].as_str(), "default") {
            buttons.append("<action content=\"");
            let content = escape_attribute(actions[k + 1].as_str());
            buttons.append(content.as_str());
            buttons.append("\" arguments=\"");
            let name = escape_attribute(actions[k].as_str());
            buttons.append(name.as_str());
            buttons.append("\" />");
            proof {
                assert(buttons@ + toast_action_buttons(av.skip(k as int + 2)) =~= b0
                    + toast_action_buttons(t));
            }
        }
        k = k + 2;
    }
    proof {
        assert(av.skip(k as int).len() < 2);
        assert(buttons@ =~= toast_action_buttons(av));
    }

    let mut xml = "<toast duration=\"long\" launch=\"".to_owned();
    if launch_default {
        xml.append("default");
    }
    xml.append("\"><visual><binding template=\"ToastGeneric\"><text id=\"1\">");
    let heading = escape_pcdata(summary);
    xml.append(heading.as_str());
    xml.append("</text><text id=\"2\">");
    let content = escape_pcdata(body);
    xml.append(content.as_str());
    xml.append("</text>");
    if let Some(p) = image_path {
        xml.append("<image placement=\"appLogoOverride\" src=\"file://");
        let src = escape_pcdata(p);
        xml.append(src.as_str());
        xml.append("\" />");
    }
    xml.append("</binding></visual><audio src=\"ms-winsoundevent:Notification.Default\" /><actions>");
    xml.append(buttons.as_str());
    xml.append("</actions></toast>");
    proof {
        let iv = match image_path {
            Some(p) => Some(p@),
            None => None,
        };
        assert(xml@ =~= toast_xml_spec(summary@, body@, iv, av));
    }
    ToastContent { launch_default, xml }
}

} // verus!
