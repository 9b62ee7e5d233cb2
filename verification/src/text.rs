//! The texts the tool writes: desktop entries, file names and notifications.
use vstd::prelude::*;

verus! {

pub open spec fn entry_head() -> Seq<char> {
    "[Desktop Entry]\nType=Application\nName=Screamshot\nExec="@
}

pub open spec fn entry_tail() -> Seq<char> {
    "\nIcon=camera-photo\nComment=Region-Based Scrolling Capture\nTerminal=false\n"@
}

/// The desktop entry that starts the tool on login, running `exe`.
pub fn autostart_entry(exe: &str) -> (r: String)
    ensures
        r@ == entry_head() + exe@ + entry_tail(),
{
    let mut s = String::from_str("[Desktop Entry]\nType=Application\nName=Screamshot\nExec=");
    s.append(exe);
    s.append("\nIcon=camera-photo\nComment=Region-Based Scrolling Capture\nTerminal=false\n");
    s
}

/// The application-menu entry for the tool, running `exe`: the start-on-login
/// entry with the menu category added.
pub fn launcher_entry(exe: &str) -> (r: String)
    ensures
        r@ == entry_head() + exe@ + entry_tail() + "Categories=Utility;\n"@,
{
    let mut s = autostart_entry(exe);
    s.append("Categories=Utility;\n");
    s
}

/// Whether an entry file has to be written: when it could not be read, or
/// when what it holds differs from `content`.
pub fn needs_rewrite(existing: &Option<String>, content: &String) -> (r: bool)
    ensures
        r == match existing {
            Some(e) => e@ != content@,
            None => true,
        },
{
    match existing {
        Some(e) => !e.eq(content),
        None => true,
    }
}

/// The file name of a capture: the prefix, an underscore, the time stamp and
/// the PNG extension.
pub fn capture_file_name(prefix: &str, timestamp: &str) -> (r: String)
    ensures
        r@ == prefix@ + "_"@ + timestamp@ + ".png"@,
{
    let mut s = String::from_str(prefix);
    s.append("_");
    s.append(timestamp);
    s.append(".png");
    s
}

/// The title of the notification after a capture with the given file prefix.
pub fn notification_summary(prefix: &str) -> (r: String)
    ensures
        r@ == if prefix@ == "scroll"@ {
            "Scrolling Capture Done"@
        } else {
            "Screen Capture Done"@
        },
{
    let given = String::from_str(prefix);
    let scroll = String::from_str("scroll");
    if given == scroll {
        String::from_str("Scrolling Capture Done")
    } else {
        String::from_str("Screen Capture Done")
    }
}

/// The text of the notification after saving `file_name`, saying whether the
/// image was also copied to the clipboard.
pub fn notification_body(file_name: &str, copied: bool) -> (r: String)
    ensures
        r@ == "Image saved to "@ + file_name@ + if copied {
            " and copied to clipboard!"@
        } else {
            ""@
        },
{
    let mut s = String::from_str("Image saved to ");
    s.append(file_name);
    if copied {
        s.append(" and copied to clipboard!");
    } else {
        proof {
            reveal_strlit("");
        }
        assert(s@ + ""@ =~= s@);
    }
    s
}

} // verus!
