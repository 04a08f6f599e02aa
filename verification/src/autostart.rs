//! Start at login: the macOS launch agent property list and the Windows
//! `Run` registry value. Writing them is the host's; what they say is
//! decided here.
use vstd::prelude::*;

use crate::text::{chars_of, owned, replace, replace_spec, string_from_chars, trim_spec};

verus! {

// ------------------------------------------------------------------------------------------
// macOS launch agent
// ------------------------------------------------------------------------------------------
/// Label of the launch agent.
pub const LABEL: &'static str = "com.petsona.desktop";

/// The launch agent property list; `@EXECUTABLE@` and `@WORKING_DIRECTORY@`
/// stand for the escaped paths.
pub const PLIST_TEMPLATE: &'static str = "<?xml version=\"1.0\" encoding=\"UTF-8\"?>\n<!DOCTYPE plist PUBLIC \"-//Apple//DTD PLIST 1.0//EN\" \"http://www.apple.com/DTDs/PropertyList-1.0.dtd\">\n<plist version=\"1.0\">\n<dict>\n\t<key>Label</key>\n\t<string>com.petsona.desktop</string>\n\t<key>ProgramArguments</key>\n\t<array>\n\t\t<string>@EXECUTABLE@</string>\n\t</array>\n\t<key>WorkingDirectory</key>\n\t<string>@WORKING_DIRECTORY@</string>\n\t<key>RunAtLoad</key>\n\t<true/>\n\t<key>ProcessType</key>\n\t<string>Interactive</string>\n</dict>\n</plist>\n";

/// Placeholder for the executable's path.
pub const EXECUTABLE_PLACEHOLDER: &'static str = "@EXECUTABLE@";

/// Placeholder for the working directory.
pub const WORKING_DIRECTORY_PLACEHOLDER: &'static str = "@WORKING_DIRECTORY@";

/// One character as it is written inside XML text or attributes.
pub open spec fn xml_escape_char(c: char) -> Seq<char> {
    if c == '&' {
        "&amp;"@
    } else if c == '<' {
        "&lt;"@
    } else if c == '>' {
        "&gt;"@
    } else if c == '"' {
        "&quot;"@
    } else if c == '\'' {
        "&apos;"@
    } else {
        seq![c]
    }
}

/// Every character escaped for XML.
pub open spec fn escape_xml_spec(s: Seq<char>) -> Seq<char>
    decreases s.len(),
{
    if s.len() == 0 {
        Seq::empty()
    } else {
        escape_xml_spec(s.drop_last()) + xml_escape_char(s.last())
    }
}

/// Escape `&`, `<`, `>`, `"` and `'` for XML.
pub fn escape_xml(value: &str) -> (r: String)
    ensures
        r@ == escape_xml_spec(value@),
{
    let v = chars_of(value);
    let mut out: Vec<char> = Vec::new();
    let mut i: usize = 0;
    while i < v.len()
        invariant
            i <= v.len(),
            out@ == escape_xml_spec(v@.subrange(0, i as int)),
        decreases v.len() - i,
    {
        let c = v[i];
        let ghost before = out@;
        if c == '&' {
            crate::text::append_str(&mut out, "&amp;");
        } else if c == '<' {
            crate::text::append_str(&mut out, "&lt;");
        } else if c == '>' {
            crate::text::append_str(&mut out, "&gt;");
        } else if c == '"' {
            crate::text::append_str(&mut out, "&quot;");
        } else if c == '\'' {
            crate::text::append_str(&mut out, "&apos;");
        } else {
            out.push(c);
        }
        assert(v@.subrange(0, i + 1).drop_last() =~= v@.subrange(0, i as int));
        assert(out@ =~= before + xml_escape_char(v@[i as int]));
        i = i + 1;
    }
    assert(v@.subrange(0, v.len() as int) =~= v@);
    string_from_chars(&out)
}

/// A character with a meaning in XML markup, other than `&`.
pub open spec fn is_markup(c: char) -> bool {
    c == '<' || c == '>' || c == '"' || c == '\''
}

/// Escaped text holds no markup character: no `<`, `>`, `"` or `'` of a
/// path survives into the property list.
pub proof fn lemma_escaped_has_no_markup(s: Seq<char>)
    ensures
        forall|i: int| 0 <= i < escape_xml_spec(s).len() ==> !is_markup(#[trigger] escape_xml_spec(s)[i]),
    decreases s.len(),
{
    reveal_strlit("&amp;");
    reveal_strlit("&lt;");
    reveal_strlit("&gt;");
    reveal_strlit("&quot;");
    reveal_strlit("&apos;");
    if s.len() > 0 {
        lemma_escaped_has_no_markup(s.drop_last());
        let a = escape_xml_spec(s.drop_last());
        let b = xml_escape_char(s.last());
        assert(escape_xml_spec(s) == a + b);
        assert forall|j: int| 0 <= j < b.len() implies !is_markup(#[trigger] b[j]) by {
            if s.last() == '&' {
                assert(b == seq!['&', 'a', 'm', 'p', ';']);
            } else if s.last() == '<' {
                assert(b == seq!['&', 'l', 't', ';']);
            } else if s.last() == '>' {
                assert(b == seq!['&', 'g', 't', ';']);
            } else if s.last() == '"' {
                assert(b == seq!['&', 'q', 'u', 'o', 't', ';']);
            } else if s.last() == '\'' {
                assert(b == seq!['&', 'a', 'p', 'o', 's', ';']);
            }
        }
        assert forall|i: int| 0 <= i < escape_xml_spec(s).len() implies !is_markup(
            #[trigger] escape_xml_spec(s)[i],
        ) by {
            if i < a.len() {
                assert(escape_xml_spec(s)[i] == a[i]);
            } else {
                assert(escape_xml_spec(s)[i] == b[i - a.len()]);
            }
        }
    }
}

/// The launch agent for an executable and its working directory.
pub open spec fn plist_spec(executable: Seq<char>, working_directory: Seq<char>) -> Seq<char> {
    replace_spec(
        replace_spec(PLIST_TEMPLATE@, EXECUTABLE_PLACEHOLDER@, escape_xml_spec(executable)),
        WORKING_DIRECTORY_PLACEHOLDER@,
        escape_xml_spec(working_directory),
    )
}

/// The launch agent that starts `executable` in `working_directory` at login.
pub fn render_plist(executable: &str, working_directory: &str) -> (r: String)
    ensures
        r@ == plist_spec(executable@, working_directory@),
{
    let template = chars_of(PLIST_TEMPLATE);
    let exe_placeholder = chars_of(EXECUTABLE_PLACEHOLDER);
    let dir_placeholder = chars_of(WORKING_DIRECTORY_PLACEHOLDER);
    let exe = chars_of(escape_xml(executable).as_str());
    let dir = chars_of(escape_xml(working_directory).as_str());
    let once = replace(&template, &exe_placeholder, &exe);
    let twice = replace(&once, &dir_placeholder, &dir);
    string_from_chars(&twice)
}

// ------------------------------------------------------------------------------------------
// Windows Run value
// ------------------------------------------------------------------------------------------
/// Registry key holding per-user login items.
pub const RUN_KEY: &'static str = "Software\\Microsoft\\Windows\\CurrentVersion\\Run";

/// Name of the login item when none is configured.
pub const DEFAULT_VALUE_NAME: &'static str = "Petsona";

/// The login item's name: the configured name (trimmed) unless it is blank.
pub open spec fn value_name_spec(configured: Option<Seq<char>>) -> Seq<char> {
    match configured {
        Some(n) => if trim_spec(n).len() > 0 {
            trim_spec(n)
        } else {
            DEFAULT_VALUE_NAME@
        },
        None => DEFAULT_VALUE_NAME@,
    }
}

/// The login item's name, from the configured name (the environment's
/// `PETSONA_AUTOSTART_VALUE_NAME`, when it is set).
pub fn value_name(configured: Option<String>) -> (r: String)
    ensures
        r@ == value_name_spec(
            match configured {
                Some(n) => Some(n@),
                None => None,
            },
        ),
{
    match configured {
        Some(n) => {
            let t = crate::text::trim(n.as_str());
            if t.as_str().is_empty() {
                owned(DEFAULT_VALUE_NAME)
            } else {
                t
            }
        },
        None => owned(DEFAULT_VALUE_NAME),
    }
}

/// The UTF-16 code units of one character.
pub open spec fn utf16_units(c: char) -> Seq<u16> {
    let v = c as u32;
    if v < 0x10000 {
        seq![v as u16]
    } else {
        let w = (v - 0x10000) as u32;
        seq![(0xD800 + w / 1024) as u16, (0xDC00 + w % 1024) as u16]
    }
}

/// UTF-16 of a text.
pub open spec fn utf16_spec(s: Seq<char>) -> Seq<u16>
    decreases s.len(),
{
    if s.len() == 0 {
        Seq::empty()
    } else {
        utf16_spec(s.drop_last()) + utf16_units(s.last())
    }
}

/// A text as the Windows API takes it: UTF-16, terminated by a zero unit.
pub fn wide(text: &str) -> (r: Vec<u16>)
    ensures
        r@ == utf16_spec(text@).push(0u16),
{
    let v = chars_of(text);
    let mut out: Vec<u16> = Vec::new();
    let mut i: usize = 0;
    while i < v.len()
        invariant
            i <= v.len(),
            out@ == utf16_spec(v@.subrange(0, i as int)),
        decreases v.len() - i,
    {
        let c = v[i];
        let code = c as u32;
        let ghost before = out@;
        if code < 0x10000 {
            out.push(code as u16);
        } else {
            let w: u32 = code - 0x10000;
            out.push((0xD800 + w / 1024) as u16);
            out.push((0xDC00 + w % 1024) as u16);
        }
        assert(v@.subrange(0, i + 1).drop_last() =~= v@.subrange(0, i as int));
        assert(out@ =~= before + utf16_units(v@[i as int]));
        i = i + 1;
    }
    assert(v@.subrange(0, v.len() as int) =~= v@);
    out.push(0u16);
    out
}

/// The command line registered for login: the executable's path in quotes.
pub fn command_line(executable: &str) -> (r: String)
    ensures
        r@ == "\""@ + executable@ + "\""@,
{
    let mut v = chars_of("\"");
    crate::text::append_str(&mut v, executable);
    crate::text::append_str(&mut v, "\"");
    string_from_chars(&v)
}

} // verus!
