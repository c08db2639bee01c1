//! File manager actions: what is written so that a file manager offers to share
//! files.

use vstd::prelude::*;

use crate::text;

pub mod laws;

verus! {

/// Why an action is not installed.
#[derive(Clone, Copy, Debug, PartialEq, Eq, Structural)]
pub enum IntegrationError {
    /// The list of actions has no end.
    NoActions,
}

/// Whether one text stands in another at a place.
pub open spec fn stands_at(hay: Seq<char>, needle: Seq<char>, i: int) -> bool {
    0 <= i && i + needle.len() <= hay.len() && hay.subrange(i, i + needle.len()) == needle
}

/// The first place, from some place on, where one text stands in another.
pub open spec fn first_from(hay: Seq<char>, needle: Seq<char>, i: int) -> Option<int>
    decreases hay.len() - i,
{
    if i >= hay.len() || i + needle.len() > hay.len() {
        None
    } else if stands_at(hay, needle, i) {
        Some(i)
    } else {
        first_from(hay, needle, i + 1)
    }
}

/// The last place, up to some place, where one text stands in another.
pub open spec fn last_upto(hay: Seq<char>, needle: Seq<char>, i: int) -> Option<int>
    decreases i + 1,
{
    if i < 0 {
        None
    } else if stands_at(hay, needle, i) {
        Some(i)
    } else {
        last_upto(hay, needle, i - 1)
    }
}

/// Whether one text stands in another at a place.
fn matches_at(hay: &Vec<char>, needle: &Vec<char>, i: usize) -> (found: bool)
    requires
        i + needle@.len() <= hay.len(),
    ensures
        found == stands_at(hay@, needle@, i as int),
{
    let ghost part = hay@.subrange(i as int, i + needle@.len());
    let mut k: usize = 0;
    while k < needle.len()
        invariant
            k <= needle@.len(),
            i + needle@.len() <= hay.len(),
            part == hay@.subrange(i as int, i + needle@.len()),
            forall|j: int| 0 <= j < k ==> #[trigger] part[j] == needle@[j],
        decreases needle@.len() - k,
    {
        let here = hay[i + k];
        assert(part[k as int] == here);
        if here != needle[k] {
            return false;
        }
        k = k + 1;
    }
    assert(part =~= needle@);
    true
}

/// The first place, from some place on, where one text stands in another.
fn find_from(hay: &Vec<char>, needle: &Vec<char>, from: usize) -> (found: Option<usize>)
    requires
        from <= hay@.len(),
        needle@.len() > 0,
    ensures
        match found {
            Some(i) => first_from(hay@, needle@, from as int) == Some(i as int),
            None => first_from(hay@, needle@, from as int) is None,
        },
        found matches Some(i) ==> from <= i && i + needle@.len() <= hay@.len(),
{
    let mut i: usize = from;
    while hay.len() - i >= needle.len()
        invariant
            from <= i <= hay@.len(),
            needle@.len() > 0,
            first_from(hay@, needle@, from as int) == first_from(hay@, needle@, i as int),
        decreases hay@.len() - i,
    {
        if matches_at(hay, needle, i) {
            return Some(i);
        }
        i = i + 1;
    }
    None
}

/// The last place before some place where one text stands in another.
fn find_last(hay: &Vec<char>, needle: &Vec<char>, end: usize) -> (found: Option<usize>)
    requires
        end <= hay@.len(),
        needle@.len() > 0,
    ensures
        match found {
            Some(i) => last_upto(hay@, needle@, end - needle@.len()) == Some(i as int),
            None => last_upto(hay@, needle@, end - needle@.len()) is None,
        },
        found matches Some(i) ==> i + needle@.len() <= end,
{
    if end < needle.len() {
        return None;
    }
    let mut i: usize = end - needle.len() + 1;
    while i > 0
        invariant
            i + needle@.len() <= end + 1,
            end <= hay@.len(),
            needle@.len() > 0,
            last_upto(hay@, needle@, end - needle@.len()) == last_upto(hay@, needle@, i - 1),
        decreases i,
    {
        i = i - 1;
        if matches_at(hay, needle, i) {
            return Some(i);
        }
    }
    None
}

/// What a character is inside single quotes of a shell.
pub open spec fn quoted_char(c: char) -> Seq<char> {
    if c == '\'' {
        seq!['\'', '\\', '\'', '\'']
    } else {
        seq![c]
    }
}

/// What a text is inside single quotes of a shell.
pub open spec fn quoted_inside(value: Seq<char>) -> Seq<char>
    decreases value.len(),
{
    if value.len() == 0 {
        Seq::empty()
    } else {
        quoted_inside(value.drop_last()) + quoted_char(value.last())
    }
}

/// A text as one word of a shell.
pub open spec fn quoted(value: Seq<char>) -> Seq<char> {
    seq!['\''] + quoted_inside(value) + seq!['\'']
}

/// A text as one word of a shell.
pub fn shell_quote(value: &str) -> (word: String)
    ensures
        word@ == quoted(value@),
{
    let chars = text::chars_of(value);
    let mut out: Vec<char> = Vec::new();
    out.push('\'');
    let mut i: usize = 0;
    assert(chars@.take(0) =~= Seq::empty());
    assert(out@ =~= seq!['\''] + quoted_inside(chars@.take(0)));
    while i < chars.len()
        invariant
            i <= chars@.len(),
            out@ == seq!['\''] + quoted_inside(chars@.take(i as int)),
        decreases chars@.len() - i,
    {
        let ghost before = out@;
        let c = chars[i];
        assert(chars@.take(i + 1).drop_last() =~= chars@.take(i as int));
        if c == '\'' {
            out.push('\'');
            out.push('\\');
            out.push('\'');
            out.push('\'');
        } else {
            out.push(c);
        }
        assert(out@ =~= before + quoted_char(c));
        assert(out@ =~= seq!['\''] + quoted_inside(chars@.take(i + 1)));
        i = i + 1;
    }
    assert(chars@.take(i as int) =~= chars@);
    out.push('\'');
    assert(out@ =~= quoted(value@));
    text::text_of(out.as_slice())
}

/// What a character is in XML text. The apostrophe is escaped on request.
pub open spec fn escaped_char(c: char, apostrophe: bool) -> Seq<char> {
    if c == '&' {
        "&amp;"@
    } else if c == '<' {
        "&lt;"@
    } else if c == '>' {
        "&gt;"@
    } else if c == '"' {
        "&quot;"@
    } else if c == '\'' && apostrophe {
        "&apos;"@
    } else {
        seq![c]
    }
}

/// A text in XML.
pub open spec fn escaped(value: Seq<char>, apostrophe: bool) -> Seq<char>
    decreases value.len(),
{
    if value.len() == 0 {
        Seq::empty()
    } else {
        escaped(value.drop_last(), apostrophe) + escaped_char(value.last(), apostrophe)
    }
}

/// A text in XML, with or without the apostrophe escaped.
pub fn escape(value: &str, apostrophe: bool) -> (words: String)
    ensures
        words@ == escaped(value@, apostrophe),
{
    let chars = text::chars_of(value);
    let mut words = String::new();
    let mut i: usize = 0;
    assert(chars@.take(0) =~= Seq::empty());
    assert(words@ =~= escaped(chars@.take(0), apostrophe));
    while i < chars.len()
        invariant
            i <= chars@.len(),
            words@ == escaped(chars@.take(i as int), apostrophe),
        decreases chars@.len() - i,
    {
        let ghost before = words@;
        let c = chars[i];
        assert(chars@.take(i + 1).drop_last() =~= chars@.take(i as int));
        if c == '&' {
            words.append("&amp;");
        } else if c == '<' {
            words.append("&lt;");
        } else if c == '>' {
            words.append("&gt;");
        } else if c == '"' {
            words.append("&quot;");
        } else if c == '\'' && apostrophe {
            words.append("&apos;");
        } else {
            words.push(c);
        }
        assert(words@ =~= before + escaped_char(c, apostrophe));
        i = i + 1;
    }
    assert(chars@.take(i as int) =~= chars@);
    words
}

/// A text in XML.
pub fn xml_escape(value: &str) -> (words: String)
    ensures
        words@ == escaped(value@, true),
{
    escape(value, true)
}

/// The mark by which the action is known.
pub open spec fn marker() -> Seq<char> {
    "<unique-id>lan-cat-share-action</unique-id>"@
}

/// What comes before the mark in the action.
pub open spec fn action_head() -> Seq<char> {
    "<action>\n  <icon>folder-remote</icon>\n  <name>Share with lan-cat</name>\n  <submenu></submenu>\n  "@
}

/// What comes between the mark and the command in the action.
pub open spec fn action_command() -> Seq<char> {
    "\n  <command>"@
}

/// What comes behind the command in the action, up to its end.
pub open spec fn action_rest() -> Seq<char> {
    "</command>\n  <description>Securely share selected files with a paired lan-cat device</description>\n  <range>*</range>\n  <patterns>*</patterns>\n  <audio-files/>\n  <image-files/>\n  <other-files/>\n  <text-files/>\n  <video-files/>\n"@
}

/// The command that shares the selected files, in XML.
pub open spec fn share_command(executable: Seq<char>) -> Seq<char> {
    escaped(quoted(executable) + " share -- %F"@, true)
}

/// The action that shares the selected files.
pub open spec fn action_of(executable: Seq<char>) -> Seq<char> {
    action_head() + marker() + action_command() + share_command(executable) + action_rest()
        + "</action>"@ + "\n"@
}

/// The actions of a file manager that has none.
pub open spec fn no_actions() -> Seq<char> {
    "<?xml version=\"1.0\" encoding=\"UTF-8\"?>\n<actions>\n</actions>\n"@
}

/// The actions of a file manager.
pub open spec fn actions_of(contents: Option<Seq<char>>) -> Seq<char> {
    match contents {
        Some(contents) => contents,
        None => no_actions(),
    }
}

/// Whether the action is among the actions of a file manager.
pub open spec fn has_action(contents: Seq<char>) -> bool {
    first_from(contents, marker(), 0) is Some
}

/// Where the actions of a file manager end.
pub open spec fn actions_end(contents: Seq<char>) -> Option<int> {
    last_upto(contents, "</actions>"@, contents.len() - "</actions>"@.len())
}

/// A text with another put in.
pub open spec fn inserted(contents: Seq<char>, at: int, part: Seq<char>) -> Seq<char> {
    contents.take(at) + part + contents.skip(at)
}

/// Whether the action that shares files is put into the actions of a file manager.
pub open spec fn installs(
    contents: Option<Seq<char>>,
    executable: Seq<char>,
    result: Result<Option<String>, IntegrationError>,
) -> bool {
    let actions = actions_of(contents);
    if has_action(actions) {
        result == Ok::<Option<String>, IntegrationError>(None)
    } else {
        match actions_end(actions) {
            Some(at) => result matches Ok(Some(words)) && words@ == inserted(
                actions,
                at,
                action_of(executable),
            ),
            None => result == Err::<Option<String>, IntegrationError>(IntegrationError::NoActions),
        }
    }
}

/// The action that shares the selected files.
fn action(executable: &str) -> (words: String)
    ensures
        words@ == action_of(executable@),
{
    let mut command = shell_quote(executable);
    command.append(" share -- %F");
    let command = xml_escape(command.as_str());
    let mut words = "<action>\n  <icon>folder-remote</icon>\n  <name>Share with lan-cat</name>\n  <submenu></submenu>\n  ".to_owned();
    words.append("<unique-id>lan-cat-share-action</unique-id>");
    words.append("\n  <command>");
    words.append(command.as_str());
    words.append("</command>\n  <description>Securely share selected files with a paired lan-cat device</description>\n  <range>*</range>\n  <patterns>*</patterns>\n  <audio-files/>\n  <image-files/>\n  <other-files/>\n  <text-files/>\n  <video-files/>\n");
    words.append("</action>");
    words.append("\n");
    words
}

/// Two texts, one behind the other.
fn put_in(contents: &Vec<char>, at: usize, part: &str) -> (words: String)
    requires
        at <= contents@.len(),
    ensures
        words@ == inserted(contents@, at as int, part@),
{
    let mut words = text::text_of(vstd::slice::slice_subrange(contents.as_slice(), 0, at));
    words.append(part);
    words.append(
        text::text_of(
            vstd::slice::slice_subrange(contents.as_slice(), at, contents.len()),
        ).as_str(),
    );
    assert(contents@.subrange(0, at as int) =~= contents@.take(at as int));
    assert(contents@.subrange(at as int, contents@.len() as int) =~= contents@.skip(at as int));
    words
}

/// The actions of a file manager with the action that shares files put in at
/// their end, or nothing if it is there already. A list of actions without an
/// end is refused.
pub fn install_action(contents: Option<String>, executable: &str) -> (result: Result<
    Option<String>,
    IntegrationError,
>)
    ensures
        installs(
            match contents {
                Some(contents) => Some(contents@),
                None => None,
            },
            executable@,
            result,
        ),
{
    let contents = match contents {
        Some(contents) => contents,
        None => "<?xml version=\"1.0\" encoding=\"UTF-8\"?>\n<actions>\n</actions>\n".to_owned(),
    };
    proof {
        reveal_strlit("<unique-id>lan-cat-share-action</unique-id>");
        reveal_strlit("</actions>");
    }
    let chars = text::chars_of(contents.as_str());
    let mark = text::chars_of("<unique-id>lan-cat-share-action</unique-id>");
    if find_from(&chars, &mark, 0).is_some() {
        return Ok(None);
    }
    let closing = text::chars_of("</actions>");
    match find_last(&chars, &closing, chars.len()) {
        Some(at) => {
            let action = action(executable);
            Ok(Some(put_in(&chars, at, action.as_str())))
        },
        None => Err(IntegrationError::NoActions),
    }
}

/// The actions of a file manager without the action that shares files, if it is
/// there.
pub open spec fn removed(contents: Seq<char>) -> Option<Seq<char>> {
    match first_from(contents, marker(), 0) {
        None => None,
        Some(mark) => match (
            last_upto(contents, "<action>"@, mark - "<action>"@.len()),
            first_from(contents, "</action>"@, mark),
        ) {
            (Some(start), Some(end)) => Some(
                contents.take(start) + contents.skip(end + "</action>"@.len()),
            ),
            _ => None,
        },
    }
}

/// The actions of a file manager without the action that shares files, if it is
/// there.
pub fn remove_action(contents: &str) -> (updated: Option<String>)
    ensures
        match updated {
            Some(updated) => removed(contents@) == Some(updated@),
            None => removed(contents@) is None,
        },
{
    proof {
        reveal_strlit("<unique-id>lan-cat-share-action</unique-id>");
        reveal_strlit("<action>");
        reveal_strlit("</action>");
    }
    let chars = text::chars_of(contents);
    let mark = text::chars_of("<unique-id>lan-cat-share-action</unique-id>");
    let at = match find_from(&chars, &mark, 0) {
        Some(at) => at,
        None => return None,
    };
    let opening = text::chars_of("<action>");
    let closing = text::chars_of("</action>");
    let start = find_last(&chars, &opening, at);
    let end = find_from(&chars, &closing, at);
    match (start, end) {
        (Some(start), Some(end)) => {
            let mut words = text::text_of(
                vstd::slice::slice_subrange(chars.as_slice(), 0, start),
            );
            assert(end + closing@.len() <= chars.len());
            let next: usize = end + closing.len();
            words.append(
                text::text_of(
                    vstd::slice::slice_subrange(chars.as_slice(), next, chars.len()),
                ).as_str(),
            );
            assert(chars@.subrange(0, start as int) =~= chars@.take(start as int));
            assert(chars@.subrange(next as int, chars@.len() as int) =~= chars@.skip(next as int));
            Some(words)
        },
        _ => None,
    }
}

/// What comes before the command in the Finder action.
pub open spec fn workflow_head() -> Seq<char> {
    "<?xml version=\"1.0\" encoding=\"UTF-8\"?>\n<!DOCTYPE plist PUBLIC \"-//Apple//DTD PLIST 1.0//EN\" \"http://www.apple.com/DTDs/PropertyList-1.0.dtd\">\n<plist version=\"1.0\"><dict>\n<key>AMApplicationBuild</key><string>521</string>\n<key>AMApplicationVersion</key><string>2.10</string>\n<key>AMDocumentVersion</key><string>2</string>\n<key>actions</key><array><dict><key>action</key><dict>\n<key>ActionBundlePath</key><string>/System/Library/Automator/Run Shell Script.action</string>\n<key>ActionName</key><string>Run Shell Script</string>\n<key>ActionParameters</key><dict>\n<key>COMMAND_STRING</key><string>"@
}

/// What comes behind the command in the Finder action.
pub open spec fn workflow_tail() -> Seq<char> {
    "</string>\n<key>CheckedForUserDefaultShell</key><true/>\n<key>inputMethod</key><integer>1</integer>\n<key>shell</key><string>/bin/zsh</string>\n</dict>\n</dict></dict></array>\n<key>connectors</key><dict/>\n<key>workflowMetaData</key><dict>\n<key>serviceApplicationBundleID</key><string>com.apple.finder</string>\n<key>serviceApplicationPath</key><string>/System/Library/CoreServices/Finder.app</string>\n<key>serviceInputTypeIdentifier</key><string>com.apple.Automator.fileSystemObject</string>\n<key>serviceOutputTypeIdentifier</key><string>com.apple.Automator.nothing</string>\n<key>serviceProcessesInput</key><integer>0</integer>\n</dict></dict></plist>\n"@
}

/// The Finder action that runs a command, which is given in XML.
pub open spec fn workflow_of(command: Seq<char>) -> Seq<char> {
    workflow_head() + command + workflow_tail()
}

/// The script that shares the selected files.
pub open spec fn share_script(executable: Seq<char>) -> Seq<char> {
    "exec "@ + quoted(executable) + " share -- \"$@\""@
}

/// The Finder action that runs a command.
pub fn workflow(command: &str) -> (words: String)
    ensures
        words@ == workflow_of(command@),
{
    let mut words = "<?xml version=\"1.0\" encoding=\"UTF-8\"?>\n<!DOCTYPE plist PUBLIC \"-//Apple//DTD PLIST 1.0//EN\" \"http://www.apple.com/DTDs/PropertyList-1.0.dtd\">\n<plist version=\"1.0\"><dict>\n<key>AMApplicationBuild</key><string>521</string>\n<key>AMApplicationVersion</key><string>2.10</string>\n<key>AMDocumentVersion</key><string>2</string>\n<key>actions</key><array><dict><key>action</key><dict>\n<key>ActionBundlePath</key><string>/System/Library/Automator/Run Shell Script.action</string>\n<key>ActionName</key><string>Run Shell Script</string>\n<key>ActionParameters</key><dict>\n<key>COMMAND_STRING</key><string>".to_owned();
    words.append(command);
    words.append("</string>\n<key>CheckedForUserDefaultShell</key><true/>\n<key>inputMethod</key><integer>1</integer>\n<key>shell</key><string>/bin/zsh</string>\n</dict>\n</dict></dict></array>\n<key>connectors</key><dict/>\n<key>workflowMetaData</key><dict>\n<key>serviceApplicationBundleID</key><string>com.apple.finder</string>\n<key>serviceApplicationPath</key><string>/System/Library/CoreServices/Finder.app</string>\n<key>serviceInputTypeIdentifier</key><string>com.apple.Automator.fileSystemObject</string>\n<key>serviceOutputTypeIdentifier</key><string>com.apple.Automator.nothing</string>\n<key>serviceProcessesInput</key><integer>0</integer>\n</dict></dict></plist>\n");
    words
}

/// The Finder action that shares the selected files.
pub fn share_workflow(executable: &str) -> (words: String)
    ensures
        words@ == workflow_of(escaped(share_script(executable@), true)),
{
    let mut command = "exec ".to_owned();
    command.append(shell_quote(executable).as_str());
    command.append(" share -- \"$@\"");
    workflow(xml_escape(command.as_str()).as_str())
}

} // verus!
