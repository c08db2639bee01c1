//! What holds of the file manager actions as a whole.

use vstd::prelude::*;

use crate::integration;
use crate::integration::IntegrationError;

verus! {

/// What a shell reads of a text: a single quote begins and ends a part that is
/// taken as it is, and outside of such parts a backslash takes the next
/// character as it is. Nothing, where a part does not end or where a character
/// outside would not stand for itself.
pub open spec fn shell_reads(words: Seq<char>, inside: bool) -> Option<Seq<char>>
    decreases words.len(),
{
    if words.len() == 0 {
        if inside {
            None
        } else {
            Some(Seq::empty())
        }
    } else if words[0] == '\'' {
        shell_reads(words.skip(1), !inside)
    } else if inside {
        match shell_reads(words.skip(1), true) {
            Some(rest) => Some(seq![words[0]] + rest),
            None => None,
        }
    } else if words[0] == '\\' && words.len() > 1 {
        match shell_reads(words.skip(2), false) {
            Some(rest) => Some(seq![words[1]] + rest),
            None => None,
        }
    } else {
        None
    }
}

/// A shell reads a quoted text as one word, the text itself, whatever is in it.
pub proof fn law_shell_reads_the_value(value: Seq<char>)
    ensures
        shell_reads(integration::quoted(value), false) == Some(value),
{
    let tail = seq!['\''];
    assert(tail.skip(1) =~= Seq::empty());
    assert(shell_reads(tail.skip(1), false) == Some(Seq::<char>::empty()));
    assert(shell_reads(tail, true) == Some(Seq::<char>::empty()));
    lemma_reads_inside(value, tail, Seq::empty());
    let all = integration::quoted(value);
    assert(all.skip(1) =~= integration::quoted_inside(value) + tail);
    assert(value + Seq::<char>::empty() =~= value);
}

proof fn lemma_reads_inside(value: Seq<char>, tail: Seq<char>, rest: Seq<char>)
    requires
        shell_reads(tail, true) == Some(rest),
    ensures
        shell_reads(integration::quoted_inside(value) + tail, true) == Some(value + rest),
    decreases value.len(),
{
    if value.len() == 0 {
        assert(integration::quoted_inside(value) + tail =~= tail);
        assert(value + rest =~= rest);
    } else {
        let c = value.last();
        let part = integration::quoted_char(c);
        let longer = part + tail;
        if c == '\'' {
            assert(longer.skip(1).skip(2) =~= seq!['\''] + tail);
            assert((seq!['\''] + tail).skip(1) =~= tail);
            assert(shell_reads(seq!['\''] + tail, false) == Some(rest));
            assert(longer.skip(1)[0] == '\\' && longer.skip(1)[1] == '\'');
            assert(shell_reads(longer.skip(1), false) == Some(seq!['\''] + rest));
            assert(longer[0] == '\'');
        } else {
            assert(longer.skip(1) =~= tail);
        }
        assert(shell_reads(longer, true) == Some(seq![c] + rest));
        lemma_reads_inside(value.drop_last(), longer, seq![c] + rest);
        assert(integration::quoted_inside(value) + tail =~= integration::quoted_inside(
            value.drop_last(),
        ) + longer);
        assert(value.drop_last() + (seq![c] + rest) =~= value + rest);
    }
}

/// What XML reads of a text without markup.
pub open spec fn xml_reads(words: Seq<char>) -> Seq<char>
    decreases words.len(),
{
    if words.len() == 0 {
        Seq::empty()
    } else if words.len() >= 5 && "&amp;"@.is_prefix_of(words) {
        seq!['&'] + xml_reads(words.skip(5))
    } else if words.len() >= 4 && "&lt;"@.is_prefix_of(words) {
        seq!['<'] + xml_reads(words.skip(4))
    } else if words.len() >= 4 && "&gt;"@.is_prefix_of(words) {
        seq!['>'] + xml_reads(words.skip(4))
    } else if words.len() >= 6 && "&quot;"@.is_prefix_of(words) {
        seq!['"'] + xml_reads(words.skip(6))
    } else if words.len() >= 6 && "&apos;"@.is_prefix_of(words) {
        seq!['\''] + xml_reads(words.skip(6))
    } else {
        seq![words[0]] + xml_reads(words.skip(1))
    }
}

/// XML reads an escaped text as the text itself, and there is no markup in it.
pub proof fn law_xml_reads_the_value(value: Seq<char>, apostrophe: bool)
    ensures
        xml_reads(integration::escaped(value, apostrophe)) == value,
        forall|i: int|
            0 <= i < integration::escaped(value, apostrophe).len() ==> {
                let c = #[trigger] integration::escaped(value, apostrophe)[i];
                &&& c != '<'
                &&& c != '>'
                &&& c != '"'
                &&& apostrophe ==> c != '\''
            },
{
    lemma_xml(value, Seq::empty(), apostrophe);
    lemma_no_markup(value, apostrophe);
    let all = integration::escaped(value, apostrophe);
    assert(all + Seq::<char>::empty() =~= all);
    assert(value + xml_reads(Seq::<char>::empty()) =~= value);
}

proof fn lemma_xml(value: Seq<char>, tail: Seq<char>, apostrophe: bool)
    ensures
        xml_reads(integration::escaped(value, apostrophe) + tail) == value + xml_reads(tail),
    decreases value.len(),
{
    if value.len() == 0 {
        assert(integration::escaped(value, apostrophe) + tail =~= tail);
        assert(value + xml_reads(tail) =~= xml_reads(tail));
    } else {
        let c = value.last();
        let part = integration::escaped_char(c, apostrophe);
        let longer = part + tail;
        lemma_xml_char(c, tail, apostrophe);
        lemma_xml(value.drop_last(), longer, apostrophe);
        assert(integration::escaped(value, apostrophe) + tail =~= integration::escaped(
            value.drop_last(),
            apostrophe,
        ) + longer);
        assert(value.drop_last() + (seq![c] + xml_reads(tail)) =~= value + xml_reads(tail));
    }
}

proof fn lemma_xml_char(c: char, tail: Seq<char>, apostrophe: bool)
    ensures
        xml_reads(integration::escaped_char(c, apostrophe) + tail) == seq![c] + xml_reads(tail),
{
    reveal_strlit("&amp;");
    reveal_strlit("&lt;");
    reveal_strlit("&gt;");
    reveal_strlit("&quot;");
    reveal_strlit("&apos;");
    let part = integration::escaped_char(c, apostrophe);
    let all = part + tail;
    assert(all.skip(part.len() as int) =~= tail);
    assert forall|k: int| 0 <= k < part.len() implies all[k] == part[k] by {
    }
    if c == '&' {
        assert("&amp;"@.is_prefix_of(all));
    } else if c == '<' {
        assert(all[1] != "&amp;"@[1]);
        assert("&lt;"@.is_prefix_of(all));
    } else if c == '>' {
        assert(all[1] != "&amp;"@[1]);
        assert(all[1] != "&lt;"@[1]);
        assert("&gt;"@.is_prefix_of(all));
    } else if c == '"' {
        assert(all[1] != "&amp;"@[1]);
        assert(all[1] != "&lt;"@[1]);
        assert(all[1] != "&gt;"@[1]);
        assert("&quot;"@.is_prefix_of(all));
    } else if c == '\'' && apostrophe {
        assert(all[2] != "&amp;"@[2]);
        assert(all[1] != "&lt;"@[1]);
        assert(all[1] != "&gt;"@[1]);
        assert(all[1] != "&quot;"@[1]);
        assert("&apos;"@.is_prefix_of(all));
    } else {
        assert(all[0] == c);
        assert(all[0] != "&amp;"@[0]);
        assert(all[0] != "&lt;"@[0]);
        assert(all[0] != "&gt;"@[0]);
        assert(all[0] != "&quot;"@[0]);
        assert(all[0] != "&apos;"@[0]);
    }
}

proof fn lemma_no_markup(value: Seq<char>, apostrophe: bool)
    ensures
        forall|i: int|
            0 <= i < integration::escaped(value, apostrophe).len() ==> {
                let c = #[trigger] integration::escaped(value, apostrophe)[i];
                &&& c != '<'
                &&& c != '>'
                &&& c != '"'
                &&& apostrophe ==> c != '\''
            },
    decreases value.len(),
{
    if value.len() > 0 {
        lemma_no_markup(value.drop_last(), apostrophe);
        reveal_strlit("&amp;");
        reveal_strlit("&lt;");
        reveal_strlit("&gt;");
        reveal_strlit("&quot;");
        reveal_strlit("&apos;");
        let before = integration::escaped(value.drop_last(), apostrophe);
        let part = integration::escaped_char(value.last(), apostrophe);
        let all = integration::escaped(value, apostrophe);
        assert forall|i: int| 0 <= i < all.len() implies {
            let c = #[trigger] all[i];
            &&& c != '<'
            &&& c != '>'
            &&& c != '"'
            &&& apostrophe ==> c != '\''
        } by {
            if i < before.len() {
                assert(all[i] == before[i]);
            } else {
                assert(all[i] == part[i - before.len()]);
            }
        }
    }
}

proof fn lemma_first(hay: Seq<char>, needle: Seq<char>, from: int, at: int)
    requires
        0 <= from <= at < hay.len(),
        integration::stands_at(hay, needle, at),
        forall|j: int| from <= j < at ==> !#[trigger] integration::stands_at(hay, needle, j),
    ensures
        integration::first_from(hay, needle, from) == Some(at),
    decreases at - from,
{
    if from < at {
        assert(!integration::stands_at(hay, needle, from));
        lemma_first(hay, needle, from + 1, at);
    }
}

proof fn lemma_none(hay: Seq<char>, needle: Seq<char>, from: int, at: int)
    requires
        0 <= from <= at < hay.len(),
        integration::first_from(hay, needle, from) is None,
    ensures
        !integration::stands_at(hay, needle, at),
    decreases at - from,
{
    if from < at {
        if from + needle.len() <= hay.len() {
            lemma_none(hay, needle, from + 1, at);
        }
    }
}

proof fn lemma_last(hay: Seq<char>, needle: Seq<char>, upto: int, at: int)
    requires
        0 <= at <= upto,
        integration::stands_at(hay, needle, at),
        forall|j: int| at < j <= upto ==> !#[trigger] integration::stands_at(hay, needle, j),
    ensures
        integration::last_upto(hay, needle, upto) == Some(at),
    decreases upto - at,
{
    if at < upto {
        assert(!integration::stands_at(hay, needle, upto));
        lemma_last(hay, needle, upto - 1, at);
    }
}

proof fn lemma_last_stands(hay: Seq<char>, needle: Seq<char>, upto: int)
    ensures
        integration::last_upto(hay, needle, upto) matches Some(at) ==> 0 <= at <= upto
            && integration::stands_at(hay, needle, at),
    decreases upto + 1,
{
    if upto >= 0 && !integration::stands_at(hay, needle, upto) {
        lemma_last_stands(hay, needle, upto - 1);
    }
}

/// Whether the tags among the first characters of a text are none of those that
/// begin with three characters.
spec fn avoids(s: Seq<char>, n: nat, from: int, first: char, second: char) -> bool
    decreases n,
{
    n == 0 || (avoids(s, (n - 1) as nat, from, first, second) && ((n - 1) >= from && s[n - 1] == '<'
        ==> n + 1 < s.len() && !(s[n as int] == first && (second == ' ' || s[n as int + 1] == second))))
}

proof fn lemma_avoids(s: Seq<char>, n: nat, from: int, first: char, second: char, i: int)
    requires
        avoids(s, n, from, first, second),
        0 <= i < n,
        from <= i,
        s[i] == '<',
    ensures
        i + 2 < s.len(),
        !(s[i + 1] == first && (second == ' ' || s[i + 2] == second)),
    decreases n,
{
    if i < n - 1 {
        lemma_avoids(s, (n - 1) as nat, from, first, second, i);
    }
}

proof fn lemma_constants()
    ensures
        avoids(integration::action_head(), integration::action_head().len(), 0, 'u', ' '),
        avoids(integration::action_head(), integration::action_head().len(), 1, 'a', ' '),
        avoids(integration::marker(), integration::marker().len(), 0, '/', 'a'),
        avoids(integration::action_command(), integration::action_command().len(), 0, '/', 'a'),
{
    reveal_strlit(
        "<action>\n  <icon>folder-remote</icon>\n  <name>Share with lan-cat</name>\n  <submenu></submenu>\n  ",
    );
    reveal_strlit("<unique-id>lan-cat-share-action</unique-id>");
    reveal_strlit("\n  <command>");
    reveal_with_fuel(avoids, 26);
    let head = integration::action_head();
    assert(avoids(head, 20, 0, 'u', ' '));
    assert(avoids(head, 40, 0, 'u', ' '));
    assert(avoids(head, 60, 0, 'u', ' '));
    assert(avoids(head, 80, 0, 'u', ' '));
    assert(avoids(head, 20, 1, 'a', ' '));
    assert(avoids(head, 40, 1, 'a', ' '));
    assert(avoids(head, 60, 1, 'a', ' '));
    assert(avoids(head, 80, 1, 'a', ' '));
    let mark = integration::marker();
    assert(avoids(mark, 20, 0, '/', 'a'));
}

proof fn lemma_rest_constant()
    ensures
        avoids(integration::action_rest(), integration::action_rest().len(), 0, '/', 'a'),
{
    reveal_strlit(
        "</command>\n  <description>Securely share selected files with a paired lan-cat device</description>\n  <range>*</range>\n  <patterns>*</patterns>\n  <audio-files/>\n  <image-files/>\n  <other-files/>\n  <text-files/>\n  <video-files/>\n",
    );
    reveal_with_fuel(avoids, 26);
    let rest = integration::action_rest();
    assert(avoids(rest, 20, 0, '/', 'a'));
    assert(avoids(rest, 40, 0, '/', 'a'));
    assert(avoids(rest, 60, 0, '/', 'a'));
    assert(avoids(rest, 80, 0, '/', 'a'));
    assert(avoids(rest, 100, 0, '/', 'a'));
    assert(avoids(rest, 120, 0, '/', 'a'));
    assert(avoids(rest, 140, 0, '/', 'a'));
    assert(avoids(rest, 160, 0, '/', 'a'));
    assert(avoids(rest, 180, 0, '/', 'a'));
    assert(avoids(rest, 200, 0, '/', 'a'));
    assert(avoids(rest, 220, 0, '/', 'a'));
}

/// The command has no tag in it.
proof fn lemma_command(executable: Seq<char>, i: int)
    requires
        0 <= i < integration::share_command(executable).len(),
    ensures
        integration::share_command(executable)[i] != '<',
{
    law_xml_reads_the_value(integration::quoted(executable) + " share -- %F"@, true);
}

/// Where the action stands in the actions of a file manager after it was put
/// in, and where its parts are.
spec fn action_at(contents: Seq<char>, words: Seq<char>, at: int, executable: Seq<char>) -> bool {
    &&& 0 <= at <= contents.len()
    &&& words == integration::inserted(contents, at, integration::action_of(executable))
}

/// What stands between the mark and the end of the action.
spec fn behind_mark(executable: Seq<char>) -> Seq<char> {
    integration::action_command() + integration::share_command(executable)
        + integration::action_rest()
}

proof fn lemma_parts(contents: Seq<char>, words: Seq<char>, at: int, executable: Seq<char>)
    requires
        action_at(contents, words, at, executable),
    ensures
        ({
            let head = integration::action_head();
            let mark = integration::marker();
            let behind = behind_mark(executable);
            let m = at + head.len();
            let b = m + mark.len();
            let e = b + behind.len();
            &&& words.len() == contents.len() + integration::action_of(executable).len()
            &&& integration::action_of(executable).len() == head.len() + mark.len() + behind.len()
                + 10
            &&& forall|j: int| 0 <= j < at ==> #[trigger] words[j] == contents[j]
            &&& forall|j: int| at <= j < m ==> #[trigger] words[j] == head[j - at]
            &&& forall|j: int| m <= j < b ==> #[trigger] words[j] == mark[j - m]
            &&& forall|j: int| b <= j < e ==> #[trigger] words[j] == behind[j - b]
            &&& forall|j: int| e <= j < e + 9 ==> #[trigger] words[j] == "</action>"@[j - e]
            &&& words[e + 9] == '\n'
            &&& forall|j: int|
                e + 10 <= j < words.len() ==> #[trigger] words[j] == contents[j - (e + 10) + at]
        }),
{
    reveal_strlit("</action>");
    reveal_strlit("\n");
    let head = integration::action_head();
    let mark = integration::marker();
    let behind = behind_mark(executable);
    let action = integration::action_of(executable);
    assert(action =~= head + mark + behind + "</action>"@ + "\n"@);
}

proof fn lemma_behind(executable: Seq<char>, i: int)
    requires
        0 <= i < behind_mark(executable).len(),
        behind_mark(executable)[i] == '<',
    ensures
        i + 2 < behind_mark(executable).len(),
        !(behind_mark(executable)[i + 1] == '/' && behind_mark(executable)[i + 2] == 'a'),
{
    let open = integration::action_command();
    let command = integration::share_command(executable);
    let rest = integration::action_rest();
    let behind = behind_mark(executable);
    lemma_constants();
    lemma_rest_constant();
    if i < open.len() {
        assert(behind[i] == open[i]);
        lemma_avoids(open, open.len(), 0, '/', 'a', i);
        assert(behind[i + 1] == open[i + 1] && behind[i + 2] == open[i + 2]);
    } else if i < open.len() + command.len() {
        assert(behind[i] == command[i - open.len()]);
        lemma_command(executable, i - open.len());
    } else {
        let k = i - open.len() - command.len();
        assert(behind[i] == rest[k]);
        lemma_avoids(rest, rest.len(), 0, '/', 'a', k);
        assert(behind[i + 1] == rest[k + 1] && behind[i + 2] == rest[k + 2]);
    }
}

/// The mark stands nowhere before its place in the action.
proof fn lemma_no_earlier_mark(
    contents: Seq<char>,
    words: Seq<char>,
    at: int,
    executable: Seq<char>,
    j: int,
)
    requires
        action_at(contents, words, at, executable),
        !integration::has_action(contents),
        0 <= j < at + integration::action_head().len(),
    ensures
        !integration::stands_at(words, integration::marker(), j),
{
    let head = integration::action_head();
    let mark = integration::marker();
    lemma_parts(contents, words, at, executable);
    lemma_constants();
    reveal_strlit(
        "<action>\n  <icon>folder-remote</icon>\n  <name>Share with lan-cat</name>\n  <submenu></submenu>\n  ",
    );
    reveal_strlit("<unique-id>lan-cat-share-action</unique-id>");
    if integration::stands_at(words, mark, j) {
        let part = words.subrange(j, j + mark.len());
        assert forall|k: int| 0 <= k < mark.len() implies #[trigger] mark[k] == words[j + k] by {
            assert(part[k] == words[j + k]);
        }
        if j + mark.len() <= at {
            assert(contents.subrange(j, j + mark.len()) =~= mark) by {
                assert forall|k: int| 0 <= k < mark.len() implies contents[j + k] == mark[k] by {
                    assert(words[j + k] == contents[j + k]);
                }
            }
            lemma_none(contents, mark, 0, j);
        } else if j < at {
            let k = at - j;
            assert(mark[k] == words[at]);
            assert(words[at] == head[0]);
            lemma_avoids(mark, mark.len(), 0, '/', 'a', k);
            assert(mark[k + 1] == words[at + 1]);
            assert(words[at + 1] == head[1]);
            lemma_second_tag(k);
        } else {
            let i = j - at;
            assert(mark[0] == words[j]);
            assert(words[j] == head[i]);
            lemma_avoids(head, head.len(), 0, 'u', ' ', i);
            assert(mark[1] == words[j + 1]);
            assert(words[j + 1] == head[i + 1]);
        }
    }
}

/// The mark has a second tag, and it is a closing one.
proof fn lemma_second_tag(k: int)
    requires
        0 < k < integration::marker().len(),
        integration::marker()[k] == '<',
    ensures
        k + 1 < integration::marker().len(),
        integration::marker()[k + 1] == '/',
{
    reveal_strlit("<unique-id>lan-cat-share-action</unique-id>");
    let mark = integration::marker();
    let front = mark.subrange(1, 31);
    let back = mark.subrange(32, 43);
    assert(front =~= seq![
        'u', 'n', 'i', 'q', 'u', 'e', '-', 'i', 'd', '>', 'l', 'a', 'n', '-', 'c', 'a', 't', '-',
        's', 'h', 'a', 'r', 'e', '-', 'a', 'c', 't', 'i', 'o', 'n',
    ]);
    if k < 31 {
        lemma_letters(front, front.len(), k - 1);
        assert(front[k - 1] == mark[k]);
    } else if k > 31 {
        lemma_letters(back, back.len(), k - 32);
        assert(back[k - 32] == mark[k]);
    }
}

/// Whether there is no tag among the first characters of a text.
spec fn untagged(s: Seq<char>, n: nat) -> bool
    decreases n,
{
    n == 0 || (untagged(s, (n - 1) as nat) && s[n - 1] != '<')
}

proof fn lemma_letters(s: Seq<char>, n: nat, i: int)
    requires
        s == integration::marker().subrange(1, 31) || s == integration::marker().subrange(32, 43),
        n == s.len(),
        0 <= i < n,
    ensures
        s[i] != '<',
{
    reveal_strlit("<unique-id>lan-cat-share-action</unique-id>");
    assert(untagged(s, n)) by {
        reveal_with_fuel(untagged, 32);
    }
    lemma_untagged(s, n, i);
}

proof fn lemma_untagged(s: Seq<char>, n: nat, i: int)
    requires
        untagged(s, n),
        0 <= i < n,
    ensures
        s[i] != '<',
    decreases n,
{
    if i < n - 1 {
        lemma_untagged(s, (n - 1) as nat, i);
    }
}

/// Removing the action undoes installing it, but for the line break behind the
/// action: whatever else the list holds is as it was.
pub proof fn law_removing_undoes_installing(
    contents: Seq<char>,
    words: Seq<char>,
    executable: Seq<char>,
)
    requires
        !integration::has_action(contents),
        integration::actions_end(contents) is Some,
        words == integration::inserted(
            contents,
            integration::actions_end(contents)->0,
            integration::action_of(executable),
        ),
    ensures
        integration::has_action(words),
        integration::removed(words) == Some(
            integration::inserted(contents, integration::actions_end(contents)->0, "\n"@),
        ),
{
    let at = integration::actions_end(contents)->0;
    reveal_strlit("</actions>");
    lemma_last_stands(contents, "</actions>"@, contents.len() - "</actions>"@.len());
    lemma_parts(contents, words, at, executable);
    lemma_constants();
    reveal_strlit("<action>");
    reveal_strlit("</action>");
    reveal_strlit("\n");
    reveal_strlit(
        "<action>\n  <icon>folder-remote</icon>\n  <name>Share with lan-cat</name>\n  <submenu></submenu>\n  ",
    );
    reveal_strlit("<unique-id>lan-cat-share-action</unique-id>");
    let head = integration::action_head();
    let mark = integration::marker();
    let behind = behind_mark(executable);
    let m = at + head.len();
    let b = m + mark.len();
    let e = b + behind.len();
    assert(words.subrange(m, m + mark.len()) =~= mark);
    assert forall|j: int| 0 <= j < m implies !#[trigger] integration::stands_at(words, mark, j) by {
        lemma_no_earlier_mark(contents, words, at, executable, j);
    }
    lemma_first(words, mark, 0, m);
    let opening = "<action>"@;
    assert(words.subrange(at, at + 8) =~= opening);
    assert forall|j: int| at < j <= m - 8 implies !#[trigger] integration::stands_at(
        words,
        opening,
        j,
    ) by {
        if integration::stands_at(words, opening, j) {
            let part = words.subrange(j, j + 8);
            assert(part[0] == words[j] && part[1] == words[j + 1]);
            assert(words[j] == head[j - at] && words[j + 1] == head[j + 1 - at]);
            lemma_avoids(head, head.len(), 1, 'a', ' ', j - at);
        }
    }
    lemma_last(words, opening, m - 8, at);
    let closing = "</action>"@;
    assert(words.subrange(e, e + 9) =~= closing);
    assert forall|j: int| m <= j < e implies !#[trigger] integration::stands_at(
        words,
        closing,
        j,
    ) by {
        if integration::stands_at(words, closing, j) {
            let part = words.subrange(j, j + 9);
            assert(part[0] == words[j] && part[1] == words[j + 1] && part[2] == words[j + 2]);
            if j < b {
                assert(words[j] == mark[j - m]);
                lemma_avoids(mark, mark.len(), 0, '/', 'a', j - m);
                assert(words[j + 1] == mark[j + 1 - m] && words[j + 2] == mark[j + 2 - m]);
            } else {
                assert(words[j] == behind[j - b]);
                lemma_behind(executable, j - b);
                assert(words[j + 1] == behind[j + 1 - b] && words[j + 2] == behind[j + 2 - b]);
            }
        }
    }
    lemma_first(words, closing, m, e);
    let left = words.take(at) + words.skip(e + 9);
    let wanted = integration::inserted(contents, at, "\n"@);
    assert(left.len() == wanted.len());
    assert forall|j: int| 0 <= j < left.len() implies left[j] == wanted[j] by {
        if j < at {
            assert(left[j] == words[j]);
        } else if j == at {
            assert(left[j] == words[e + 9]);
        } else {
            let k = j - at + e + 9;
            assert(left[j] == words[k]);
            assert(words[k] == contents[k - (e + 10) + at]);
        }
    }
    assert(left =~= wanted);
}

proof fn lemma_found(hay: Seq<char>, needle: Seq<char>, from: int)
    requires
        0 <= from,
        needle.len() > 0,
    ensures
        match integration::first_from(hay, needle, from) {
            Some(at) => from <= at && integration::stands_at(hay, needle, at) && forall|j: int|
                from <= j < at ==> !#[trigger] integration::stands_at(hay, needle, j),
            None => forall|j: int| from <= j ==> !#[trigger] integration::stands_at(hay, needle, j),
        },
    decreases hay.len() - from,
{
    if from < hay.len() && from + needle.len() <= hay.len() && !integration::stands_at(
        hay,
        needle,
        from,
    ) {
        lemma_found(hay, needle, from + 1);
    }
}

proof fn lemma_found_last(hay: Seq<char>, needle: Seq<char>, upto: int)
    ensures
        match integration::last_upto(hay, needle, upto) {
            Some(at) => 0 <= at <= upto && integration::stands_at(hay, needle, at) && forall|j: int|
                at < j <= upto ==> !#[trigger] integration::stands_at(hay, needle, j),
            None => forall|j: int|
                0 <= j <= upto ==> !#[trigger] integration::stands_at(hay, needle, j),
        },
    decreases upto + 1,
{
    if upto >= 0 && !integration::stands_at(hay, needle, upto) {
        lemma_found_last(hay, needle, upto - 1);
    }
}

/// The action is installed once. Where its mark stands somewhere in the list nothing is
/// changed; where the list has no end it is refused; and else the action is put right before
/// the last end of the list, all else stays where it is, and installing it again changes
/// nothing.
pub proof fn law_action_is_installed_once(
    contents: Seq<char>,
    executable: Seq<char>,
    result: Result<Option<String>, IntegrationError>,
    again: Result<Option<String>, IntegrationError>,
)
    requires
        integration::installs(Some(contents), executable, result),
        result matches Ok(Some(words)) ==> integration::installs(Some(words@), executable, again),
    ensures
        ({
            let marked = exists|i: int| #[trigger]
                integration::stands_at(
                    contents,
                    "<unique-id>lan-cat-share-action</unique-id>"@,
                    i,
                );
            let ends = exists|i: int| #[trigger]
                integration::stands_at(contents, "</actions>"@, i);
            &&& marked <==> result == Ok::<Option<String>, IntegrationError>(None)
            &&& !marked && !ends <==> result == Err::<Option<String>, IntegrationError>(
                IntegrationError::NoActions,
            )
            &&& result matches Ok(Some(words)) ==> again == Ok::<Option<String>, IntegrationError>(
                None,
            ) && exists|at: int|
                0 <= at <= contents.len() && words@ == contents.take(at) + integration::action_of(
                    executable,
                ) + contents.skip(at) && #[trigger] integration::stands_at(
                    contents,
                    "</actions>"@,
                    at,
                ) && forall|j: int|
                    j > at ==> !#[trigger] integration::stands_at(contents, "</actions>"@, j)
        }),
{
    reveal_strlit("<unique-id>lan-cat-share-action</unique-id>");
    reveal_strlit("</actions>");
    let mark = integration::marker();
    let end = "</actions>"@;
    lemma_found(contents, mark, 0);
    lemma_found_last(contents, end, contents.len() - end.len());
    if let Ok(Some(words)) = result {
        law_removing_undoes_installing(contents, words@, executable);
        let at = integration::actions_end(contents)->0;
        assert(integration::stands_at(contents, end, at));
        assert forall|j: int| j > at implies !#[trigger] integration::stands_at(contents, end, j) by {
        }
    }
}

/// A list without the action's mark has nothing to remove.
pub proof fn law_nothing_is_removed_without_the_mark(contents: Seq<char>)
    ensures
        integration::removed(contents) is Some ==> exists|at: int| #[trigger]
            integration::stands_at(
                contents,
                "<unique-id>lan-cat-share-action</unique-id>"@,
                at,
            ),
{
    reveal_strlit("<unique-id>lan-cat-share-action</unique-id>");
    lemma_found(contents, integration::marker(), 0);
}

/// The action runs the program, whatever its path is, with the selected files: what XML reads
/// of the command is the program as one word of a shell and then `share -- %F`.
pub proof fn law_installed_command_runs_the_program(executable: Seq<char>)
    ensures
        xml_reads(integration::share_command(executable)) == integration::quoted(executable)
            + " share -- %F"@,
        shell_reads(integration::quoted(executable), false) == Some(executable),
        xml_reads(integration::escaped(integration::share_script(executable), true)) == "exec "@
            + integration::quoted(executable) + " share -- \"$@\""@,
{
    law_xml_reads_the_value(integration::quoted(executable) + " share -- %F"@, true);
    law_xml_reads_the_value(integration::share_script(executable), true);
    law_shell_reads_the_value(executable);
}

/// The command of an action stands in it between its tags, behind the mark.
pub proof fn law_action_holds_its_command(executable: Seq<char>)
    ensures
        ({
            let action = integration::action_of(executable);
            let before = integration::action_head() + integration::marker() + "\n  <command>"@;
            let n = before.len() as int;
            let command = integration::share_command(executable);
            &&& action.take(n) == before
            &&& action.subrange(n, n + command.len()) == command
            &&& integration::stands_at(action, "</command>"@, n + command.len())
            &&& integration::stands_at(action, "<action>"@, 0)
        }),
{
    let action = integration::action_of(executable);
    let before = integration::action_head() + integration::marker() + "\n  <command>"@;
    let n = before.len() as int;
    let command = integration::share_command(executable);
    assert(action.take(n) =~= before);
    assert(action.subrange(n, n + command.len()) =~= command);
    reveal_strlit("</command>");
    reveal_strlit("<action>");
    reveal_strlit(
        "<action>\n  <icon>folder-remote</icon>\n  <name>Share with lan-cat</name>\n  <submenu></submenu>\n  ",
    );
    reveal_strlit(
        "</command>\n  <description>Securely share selected files with a paired lan-cat device</description>\n  <range>*</range>\n  <patterns>*</patterns>\n  <audio-files/>\n  <image-files/>\n  <other-files/>\n  <text-files/>\n  <video-files/>\n",
    );
    let rest = integration::action_rest();
    let k = n + command.len();
    assert forall|i: int| 0 <= i < rest.len() implies #[trigger] rest[i] == action[k + i] by {
    }
    assert(action.subrange(k, k + 10) =~= "</command>"@);
    let head = integration::action_head();
    assert forall|i: int| 0 <= i < head.len() implies #[trigger] head[i] == action[i] by {
    }
    assert(action.subrange(0, 8) =~= "<action>"@);
}

/// The Finder action holds its command, as it is given, as the text of the entry that names
/// it.
pub proof fn law_finder_action_holds_its_command(command: Seq<char>)
    ensures
        ({
            let action = integration::workflow_of(command);
            exists|at: int|
                #![trigger action.subrange(at, at + command.len())]
                35 <= at && integration::stands_at(
                    action,
                    "<key>COMMAND_STRING</key><string>"@,
                    at - 33,
                ) && action.subrange(at, at + command.len()) == command && integration::stands_at(
                    action,
                    "</string>"@,
                    at + command.len(),
                )
        }),
{
    reveal_strlit("<key>COMMAND_STRING</key><string>");
    reveal_strlit("</string>");
    reveal_strlit(
        "<?xml version=\"1.0\" encoding=\"UTF-8\"?>\n<!DOCTYPE plist PUBLIC \"-//Apple//DTD PLIST 1.0//EN\" \"http://www.apple.com/DTDs/PropertyList-1.0.dtd\">\n<plist version=\"1.0\"><dict>\n<key>AMApplicationBuild</key><string>521</string>\n<key>AMApplicationVersion</key><string>2.10</string>\n<key>AMDocumentVersion</key><string>2</string>\n<key>actions</key><array><dict><key>action</key><dict>\n<key>ActionBundlePath</key><string>/System/Library/Automator/Run Shell Script.action</string>\n<key>ActionName</key><string>Run Shell Script</string>\n<key>ActionParameters</key><dict>\n<key>COMMAND_STRING</key><string>",
    );
    reveal_strlit(
        "</string>\n<key>CheckedForUserDefaultShell</key><true/>\n<key>inputMethod</key><integer>1</integer>\n<key>shell</key><string>/bin/zsh</string>\n</dict>\n</dict></dict></array>\n<key>connectors</key><dict/>\n<key>workflowMetaData</key><dict>\n<key>serviceApplicationBundleID</key><string>com.apple.finder</string>\n<key>serviceApplicationPath</key><string>/System/Library/CoreServices/Finder.app</string>\n<key>serviceInputTypeIdentifier</key><string>com.apple.Automator.fileSystemObject</string>\n<key>serviceOutputTypeIdentifier</key><string>com.apple.Automator.nothing</string>\n<key>serviceProcessesInput</key><integer>0</integer>\n</dict></dict></plist>\n",
    );
    let head = integration::workflow_head();
    let tail = integration::workflow_tail();
    let action = integration::workflow_of(command);
    let at = head.len() as int;
    assert(action.subrange(at, at + command.len()) =~= command);
    assert(action.subrange(at - 33, at) =~= head.subrange(at - 33, at));
    assert(head.subrange(at - 33, at) =~= "<key>COMMAND_STRING</key><string>"@);
    let k = at + command.len();
    assert(action.subrange(k, k + 9) =~= tail.subrange(0, 9));
    assert(tail.subrange(0, 9) =~= "</string>"@);
}

} // verus!
