//! What is set for sessions: how long to listen, when to say goodbye, and the
//! words that end a conversation.
use crate::env::{or_text, or_uint, uint_or, Env};
use crate::text::{
    collect, is_white_space, lemma_run_len, lemma_run_len_unique, lemma_without_suffix,
    lemma_without_suffix_step, lowered, opt_text, run_len, same, texts, to_ascii_lowercase, to_chars,
    trim, trim_end, trimmed, trimmed_end, trimmed_start, white, without_suffix,
};
use crate::time::duration_nanos;
use std::time::Duration;
use vstd::prelude::*;

verus! {

/// How long a device may listen without being heard.
pub fn listen_max_timeout(env: &Env) -> (r: Duration)
    ensures
        match env.var("XIAOZHI_LISTEN_MAX_TIMEOUT_MS"@) {
            Some(s) => match crate::text::parsed_uint(s, u64::MAX as nat) {
                Some(n) => duration_nanos(r) == n * 1_000_000,
                None => duration_nanos(r) == 120_000_000_000,
            },
            None => duration_nanos(r) == 120_000_000_000,
        },
{
    match env.get("XIAOZHI_LISTEN_MAX_TIMEOUT_MS") {
        Some(s) => match crate::text::parse_uint(s.as_str(), u64::MAX) {
            Some(n) => Duration::from_millis(n),
            None => Duration::from_secs(120),
        },
        None => Duration::from_secs(120),
    }
}

/// After how many seconds without a voice the server says goodbye. Zero is not a
/// time to wait: it stands for the default.
pub open spec fn idle_close_secs(env: Env) -> nat {
    let n = or_uint(env.var("XIAOZHI_IDLE_CLOSE_SECONDS"@), u64::MAX as nat, 90);
    if n == 0 {
        90
    } else {
        n
    }
}

/// After how long without a voice the server says goodbye.
pub fn idle_close_after(env: &Env) -> (r: Duration)
    ensures
        duration_nanos(r) == idle_close_secs(*env) * 1_000_000_000,
{
    let n: u64 = uint_or(env.get("XIAOZHI_IDLE_CLOSE_SECONDS"), u64::MAX, 90);
    if n == 0 {
        Duration::from_secs(90)
    } else {
        Duration::from_secs(n)
    }
}

/// Characters that separate commands: the comma and the enumeration comma.
pub open spec fn is_separator(c: char) -> bool {
    c == ',' || c == '\u{3001}'
}

/// Anything but a separator, as a predicate.
pub open spec fn no_separator() -> spec_fn(char) -> bool {
    |c: char| !is_separator(c)
}

/// The commands of a list: its parts without the white space around them. White
/// space does not separate, so that a command may have several words; parts that
/// are empty do not count.
pub open spec fn commands_of(s: Seq<char>) -> Seq<Seq<char>>
    decreases s.len(),
{
    let n = run_len(s, no_separator()) as int;
    let part = trimmed(s.take(n));
    let first = if part.len() > 0 {
        seq![part]
    } else {
        seq![]
    };
    if n < s.len() {
        first + commands_of(s.skip(n + 1))
    } else {
        first
    }
}

/// The commands that end a conversation where none are set.
pub open spec fn default_commands() -> Seq<Seq<char>> {
    seq!["退出"@, "关闭"@]
}

/// The commands that end a conversation.
pub open spec fn exit_command_texts(env: Env) -> Seq<Seq<char>> {
    match env.var("XIAOZHI_EXIT_COMMANDS"@) {
        Some(s) => if commands_of(s).len() > 0 {
            commands_of(s)
        } else {
            default_commands()
        },
        None => default_commands(),
    }
}

/// The commands of a list.
fn split_commands(s: &str) -> (r: Vec<String>)
    ensures
        texts(r@) == commands_of(s@),
{
    let chars = to_chars(s);
    let n: usize = chars.len();
    let mut r: Vec<String> = Vec::new();
    let mut start: usize = 0;
    proof {
        assert(chars@.skip(0) =~= chars@);
        assert(texts(r@) =~= seq![]);
        assert(texts(r@) + commands_of(s@) =~= commands_of(s@));
    }
    loop
        invariant
            chars@ == s@,
            n == chars@.len(),
            start <= n,
            texts(r@) + commands_of(chars@.skip(start as int)) == commands_of(s@),
        decreases n - start,
    {
        let ghost rest = chars@.skip(start as int);
        let mut end: usize = start;
        while end < n && chars[end] != ',' && chars[end] != '\u{3001}'
            invariant
                n == chars@.len(),
                start <= end <= n,
                rest == chars@.skip(start as int),
                forall|j: int| 0 <= j < end - start ==> no_separator()(#[trigger] rest[j]),
            decreases n - end,
        {
            proof {
                assert(rest[end - start] == chars@[end as int]);
            }
            end = end + 1;
        }
        proof {
            if end < n {
                assert(rest[end - start] == chars@[end as int]);
            }
            lemma_run_len_unique(rest, no_separator(), end - start);
            assert(rest.take(end - start) =~= chars@.subrange(start as int, end as int));
        }
        let part = collect(&chars, start, end);
        let part = trim(part.as_str());
        let ghost before = texts(r@);
        let ghost piece = part@;
        if !part.is_empty() {
            r.push(part.to_owned());
        }
        proof {
            let first = if piece.len() > 0 {
                seq![piece]
            } else {
                seq![]
            };
            assert(texts(r@) =~= before + first);
            if end < n {
                assert(rest.skip(end - start + 1) =~= chars@.skip(end + 1));
                let tail = commands_of(chars@.skip(end + 1));
                assert((before + first) + tail =~= before + (first + tail));
            }
        }
        if end == n {
            return r;
        }
        start = end + 1;
    }
}

/// The commands that end a conversation.
pub fn exit_commands(env: &Env) -> (r: Vec<String>)
    ensures
        texts(r@) == exit_command_texts(*env),
{
    match env.get("XIAOZHI_EXIT_COMMANDS") {
        Some(s) => {
            let commands = split_commands(s.as_str());
            proof {
                assert(texts(commands@).len() == commands@.len());
            }
            if commands.len() > 0 {
                return commands;
            }
        },
        None => {},
    }
    let r = vec!["退出".to_owned(), "关闭".to_owned()];
    proof {
        assert(texts(r@) =~= default_commands());
    }
    r
}

/// What the model is told to say goodbye with.
pub open spec fn end_prompt(env: Env) -> Seq<char> {
    let set = match env.var("XIAOZHI_END_PROMPT"@) {
        Some(s) => if trimmed(s).len() > 0 {
            Some(trimmed(s))
        } else {
            None
        },
        None => None,
    };
    or_text(
        set,
        "请你以\"时间过得真快\"开头，用富有感情、依依不舍的话来结束这场对话吧！"@,
    )
}

/// What the model is told to say goodbye with.
pub fn end_prompt_text(env: &Env) -> (r: String)
    ensures
        r@ == end_prompt(*env),
{
    match env.get("XIAOZHI_END_PROMPT") {
        Some(s) => {
            let t = trim(s.as_str());
            if !t.is_empty() {
                return t.to_owned();
            }
        },
        None => {},
    }
    "请你以\"时间过得真快\"开头，用富有感情、依依不舍的话来结束这场对话吧！".to_owned()
}

/// The spellings, in lower case, that keep the server from saying goodbye.
pub open spec fn is_refusal(s: Seq<char>) -> bool {
    s == "0"@ || s == "false"@ || s == "off"@ || s == "no"@ || s == "disabled"@
}

/// Whether the server says goodbye by itself.
pub open spec fn goodbye_enabled(env: Env) -> bool {
    match env.var("XIAOZHI_END_PROMPT_ENABLED"@) {
        Some(s) => !is_refusal(lowered(s)),
        None => true,
    }
}

/// Whether the server says goodbye by itself.
pub fn end_prompt_enabled(env: &Env) -> (r: bool)
    ensures
        r == goodbye_enabled(*env),
{
    match env.get("XIAOZHI_END_PROMPT_ENABLED") {
        Some(s) => {
            let t = to_ascii_lowercase(s.as_str());
            let t = t.as_str();
            !(same(t, "0") || same(t, "false") || same(t, "off") || same(t, "no") || same(
                t,
                "disabled",
            ))
        },
        None => true,
    }
}

/// Punctuation that may stand behind a command, in its ASCII and in its full-width
/// form, and blanks.
pub open spec fn is_closing(c: char) -> bool {
    ||| c == '.' || c == '。'
    ||| c == '!' || c == '！'
    ||| c == '?' || c == '？'
    ||| c == '~' || c == '～'
    ||| c == '…'
    ||| c == ' ' || c == '\t'
}

/// Such punctuation, as a predicate.
pub open spec fn closing() -> spec_fn(char) -> bool {
    |c: char| is_closing(c)
}

/// What is left of a text without the white space around it and the punctuation
/// behind it.
pub open spec fn command_core(text: Seq<char>) -> Seq<char> {
    trimmed_end(without_suffix(trimmed(text), closing()))
}

/// A text is a command if it is the command, with white space around it and
/// punctuation behind it at most.
pub open spec fn is_command(text: Seq<char>, command: Seq<char>) -> bool {
    trimmed(text).len() > 0 && (command_core(text) == command || trimmed(text) == command)
}

/// The first command from `i` on that a text is.
pub open spec fn matched_from(commands: Seq<Seq<char>>, text: Seq<char>, i: int) -> Option<Seq<char>>
    decreases commands.len() - i,
{
    if i < 0 || i >= commands.len() {
        None
    } else if is_command(text, commands[i]) {
        Some(commands[i])
    } else {
        matched_from(commands, text, i + 1)
    }
}

/// Whether a character may stand behind a command.
fn closes(c: char) -> (r: bool)
    ensures
        r == is_closing(c),
{
    c == '.' || c == '。' || c == '!' || c == '！' || c == '?' || c == '？' || c == '~' || c == '～'
        || c == '…' || c == ' ' || c == '\t'
}

/// Without the punctuation behind it.
fn trim_closing<'a>(s: &'a str) -> (r: &'a str)
    ensures
        r@ == without_suffix(s@, closing()),
{
    let chars = to_chars(s);
    let mut i: usize = chars.len();
    while i > 0 && closes(chars[i - 1])
        invariant
            i <= chars@.len(),
            chars@ == s@,
            forall|j: int| i <= j < s@.len() ==> closing()(#[trigger] s@[j]),
        decreases i,
    {
        i = i - 1;
    }
    proof {
        lemma_without_suffix_step(s@, closing(), i as int);
        let t = s@.take(i as int);
        assert(without_suffix(t, closing()) == t);
        assert(s@.subrange(0, i as int) =~= t);
    }
    s.substring_char(0, i)
}

/// The command that a text is, if it is exactly one of them after white space
/// around it and common punctuation behind it are removed. Upper and lower case
/// are told apart.
pub fn match_command(commands: &Vec<String>, text: &str) -> (r: Option<String>)
    ensures
        opt_text(r) == matched_from(texts(commands@), text@, 0),
{
    let trimmed = trim(text);
    let core = trim_end(trim_closing(trimmed));
    let ghost all = texts(commands@);
    let n: usize = commands.len();
    let mut i: usize = 0;
    while i < n
        invariant
            n == commands@.len(),
            i <= n,
            all == texts(commands@),
            all.len() == n,
            trimmed@ == crate::text::trimmed(text@),
            core@ == command_core(text@),
            matched_from(all, text@, 0) == matched_from(all, text@, i as int),
        decreases n - i,
    {
        proof {
            assert(all[i as int] == commands@[i as int]@);
        }
        if !trimmed.is_empty() && (same(core, commands[i].as_str()) || same(
            trimmed,
            commands[i].as_str(),
        )) {
            return Some(commands[i].clone());
        }
        i = i + 1;
    }
    None
}

/// The command to end the conversation that a text is, if it is one.
pub fn check_exit_command(env: &Env, text: &str) -> (r: Option<String>)
    ensures
        opt_text(r) == matched_from(exit_command_texts(*env), text@, 0),
{
    let commands = exit_commands(env);
    match_command(&commands, text)
}

/// A text that is one of the commands is found.
proof fn lemma_matched(commands: Seq<Seq<char>>, text: Seq<char>, i: int, j: int)
    requires
        0 <= i <= j < commands.len(),
        is_command(text, commands[j]),
    ensures
        matched_from(commands, text, i) is Some,
    decreases j - i,
{
    if i < j {
        lemma_matched(commands, text, i + 1, j);
    }
}

/// A command is recognised whatever white space stands before it and whatever closing
/// punctuation stands behind it, as long as it has neither itself.
pub proof fn law_closing_marks_are_tolerated(
    commands: Seq<Seq<char>>,
    j: int,
    space: Seq<char>,
    marks: Seq<char>,
)
    requires
        0 <= j < commands.len(),
        commands[j].len() > 0,
        !is_white_space(commands[j][0]),
        !is_white_space(commands[j].last()),
        !is_closing(commands[j].last()),
        forall|i: int| 0 <= i < space.len() ==> is_white_space(#[trigger] space[i]),
        forall|i: int| 0 <= i < marks.len() ==> is_closing(#[trigger] marks[i]),
    ensures
        is_command(space + commands[j] + marks, commands[j]),
        matched_from(commands, space + commands[j] + marks, 0) is Some,
{
    let command = commands[j];
    let n = command.len() as int;
    let text = space + command + marks;
    lemma_run_len(text, white());
    let r = run_len(text, white()) as int;
    assert(r == space.len()) by {
        if r < space.len() {
            assert(text[r] == space[r]);
        } else if r > space.len() {
            assert(text[space.len() as int] == command[0]);
        }
    }
    let behind = trimmed_start(text);
    assert(behind =~= command + marks);
    let kept = trimmed_end(behind);
    lemma_without_suffix(behind, white());
    assert(behind[n - 1] == command.last());
    assert(kept.len() >= n);
    assert forall|i: int| n <= i < kept.len() implies closing()(#[trigger] kept[i]) by {
        assert(kept[i] == marks[i - n]);
    }
    lemma_without_suffix_step(kept, closing(), n);
    assert(kept.take(n) =~= command);
    assert(without_suffix(command, closing()) == command);
    assert(trimmed_end(command) == command);
    lemma_matched(commands, text, 0, j);
}

/// A text that is white space throughout is no command.
pub proof fn law_blank_is_no_command(commands: Seq<Seq<char>>, text: Seq<char>, i: int)
    requires
        trimmed(text).len() == 0,
    ensures
        matched_from(commands, text, i) is None,
    decreases commands.len() - i,
{
    if 0 <= i < commands.len() {
        law_blank_is_no_command(commands, text, i + 1);
    }
}

/// The marks that may stand behind a command.
pub proof fn law_closing_marks(c: char)
    ensures
        is_closing(c) == (c == '.' || c == '。' || c == '!' || c == '！' || c == '?' || c == '？' || c
            == '~' || c == '～' || c == '…' || c == ' ' || c == '\t'),
{
}

/// Only a command is recognised: a text that is recognised as a command is that command,
/// with white space before it and white space and closing marks behind it at most.
pub proof fn law_only_commands_are_recognised(commands: Seq<Seq<char>>, text: Seq<char>, i: int)
    requires
        matched_from(commands, text, i) is Some,
        0 <= i,
    ensures
        ({
            let command = matched_from(commands, text, i)->0;
            &&& exists|k: int| i <= k < commands.len() && #[trigger] commands[k] == command
            &&& exists|a: int| #[trigger] stands_alone(text, command, a)
        }),
    decreases commands.len() - i,
{
    if is_command(text, commands[i]) {
        let command = commands[i];
        assert(commands[i] == matched_from(commands, text, i)->0);
        lemma_run_len(text, white());
        let a = run_len(text, white()) as int;
        let t = trimmed_start(text);
        lemma_without_suffix(t, white());
        let u = trimmed(text);
        lemma_without_suffix(u, closing());
        let v = without_suffix(u, closing());
        lemma_without_suffix(v, white());
        let n = command.len() as int;
        assert(n <= u.len() <= t.len());
        assert forall|k: int| 0 <= k < n implies text[a + k] == command[k] by {
            assert(text[a + k] == t[k]);
            assert(u[k] == t[k]);
            if command_core(text) == command {
                assert(v[k] == u[k]);
                assert(command[k] == v[k]);
            }
        }
        assert(text.subrange(a, a + n) =~= command);
        assert forall|k: int| 0 <= k < a implies is_white_space(#[trigger] text[k]) by {
            assert(white()(text[k]));
        }
        assert forall|k: int| a + n <= k < text.len() implies is_white_space(#[trigger] text[k])
            || is_closing(text[k]) by {
            assert(text[k] == t[k - a]);
            if k - a >= u.len() {
                assert(white()(t[k - a]));
            } else {
                assert(u[k - a] == t[k - a]);
                if command_core(text) == command {
                    if k - a >= v.len() {
                        assert(closing()(u[k - a]));
                    } else {
                        assert(v[k - a] == u[k - a]);
                        assert(white()(v[k - a]));
                    }
                }
            }
        }
        assert(stands_alone(text, command, a));
    } else {
        law_only_commands_are_recognised(commands, text, i + 1);
        let command = matched_from(commands, text, i)->0;
        let k = choose|k: int| i + 1 <= k < commands.len() && #[trigger] commands[k] == command;
        assert(commands[k] == command);
    }
}

/// A command stands at `a` in a text, with white space before it and white space and
/// closing marks behind it.
pub open spec fn stands_alone(text: Seq<char>, command: Seq<char>, a: int) -> bool {
    &&& 0 <= a <= a + command.len() <= text.len()
    &&& text.subrange(a, a + command.len()) == command
    &&& forall|k: int| 0 <= k < a ==> is_white_space(#[trigger] text[k])
    &&& forall|k: int|
        a + command.len() <= k < text.len() ==> is_white_space(#[trigger] text[k]) || is_closing(
            text[k],
        )
}

/// A list of commands is cut at the comma and at the enumeration comma, and nowhere else;
/// the white space around a command is left out, and so is a command that is empty.
pub proof fn law_commands_are_listed(a: Seq<char>, separator: char, b: Seq<char>)
    requires
        forall|i: int| 0 <= i < a.len() ==> #[trigger] a[i] != ',' && a[i] != '、',
        separator == ',' || separator == '、',
    ensures
        commands_of(a) == (if trimmed(a).len() > 0 {
            seq![trimmed(a)]
        } else {
            seq![]
        }),
        commands_of(a + seq![separator] + b) == commands_of(a) + commands_of(b),
{
    let n = a.len() as int;
    assert forall|i: int| 0 <= i < n implies no_separator()(#[trigger] a[i]) by {
        assert(a[i] != ',' && a[i] != '、');
    }
    lemma_run_len_unique(a, no_separator(), n);
    assert(a.take(n) =~= a);
    let s = a + seq![separator] + b;
    assert forall|i: int| 0 <= i < n implies no_separator()(#[trigger] s[i]) by {
        assert(s[i] == a[i]);
    }
    assert(s[n] == separator);
    lemma_run_len_unique(s, no_separator(), n);
    assert(s.take(n) =~= a);
    assert(s.skip(n + 1) =~= b);
}

/// Where no commands are set, two are; where some are, those are all.
pub proof fn law_exit_commands(env: Env, s: Seq<char>)
    ensures
        env.var("XIAOZHI_EXIT_COMMANDS"@) is None ==> exit_command_texts(env) == seq![
            "退出"@,
            "关闭"@,
        ],
        env.var("XIAOZHI_EXIT_COMMANDS"@) == Some(s) ==> exit_command_texts(env) == (if commands_of(
            s,
        ).len() > 0 {
            commands_of(s)
        } else {
            seq!["退出"@, "关闭"@]
        }),
{
}

/// The time without a voice after which goodbye is said is 90 seconds, unless another
/// number of seconds but 0 is set.
pub proof fn law_idle_time(env: Env, n: nat)
    ensures
        env.var("XIAOZHI_IDLE_CLOSE_SECONDS"@) is None ==> idle_close_secs(env) == 90,
        env.var("XIAOZHI_IDLE_CLOSE_SECONDS"@) == Some(crate::text::decimal_text(n))
            ==> idle_close_secs(env) == (if 0 < n <= u64::MAX {
            n
        } else {
            90
        }),
{
    crate::text::law_decimal_limit(n, u64::MAX as nat);
}

/// Goodbye is said unless that is refused in one of five spellings, in any case.
pub proof fn law_goodbye_can_be_refused(env: Env, s: Seq<char>)
    ensures
        env.var("XIAOZHI_END_PROMPT_ENABLED"@) is None ==> goodbye_enabled(env),
        env.var("XIAOZHI_END_PROMPT_ENABLED"@) == Some(s) ==> goodbye_enabled(env) == !(lowered(s)
            == "0"@ || lowered(s) == "false"@ || lowered(s) == "off"@ || lowered(s) == "no"@
            || lowered(s) == "disabled"@),
{
}

/// The goodbye that is set is told to the model without the white space around it; a
/// blank one counts as not set.
pub proof fn law_goodbye_prompt(env: Env, s: Seq<char>)
    ensures
        env.var("XIAOZHI_END_PROMPT"@) == Some(s) && trimmed(s).len() > 0 ==> end_prompt(env)
            == trimmed(s),
        env.var("XIAOZHI_END_PROMPT"@) is None || env.var("XIAOZHI_END_PROMPT"@) == Some(s)
            && trimmed(s).len() == 0 ==> end_prompt(env)
            == "请你以\"时间过得真快\"开头，用富有感情、依依不舍的话来结束这场对话吧！"@,
{
}

/// Of several commands that a text is, the first counts.
pub proof fn law_first_command_counts(commands: Seq<Seq<char>>, text: Seq<char>, i: int, j: int)
    requires
        0 <= i <= j < commands.len(),
        is_command(text, commands[j]),
        forall|k: int| i <= k < j ==> !is_command(text, #[trigger] commands[k]),
    ensures
        matched_from(commands, text, i) == Some(commands[j]),
    decreases j - i,
{
    if i < j {
        assert(!is_command(text, commands[i]));
        law_first_command_counts(commands, text, i + 1, j);
    }
}

/// A command that ends in a closing mark of its own is recognised as it stands, white
/// space around it or not.
pub proof fn law_commands_as_they_stand(
    before: Seq<char>,
    command: Seq<char>,
    after: Seq<char>,
)
    requires
        command.len() > 0,
        !is_white_space(command[0]),
        !is_white_space(command.last()),
        forall|i: int| 0 <= i < before.len() ==> is_white_space(#[trigger] before[i]),
        forall|i: int| 0 <= i < after.len() ==> is_white_space(#[trigger] after[i]),
    ensures
        is_command(before + command + after, command),
{
    crate::text::law_trimming(before, command, after);
}

/// White space behind a text makes no difference to the command that it is.
#[verifier::spinoff_prover]
pub proof fn law_white_space_behind(
    commands: Seq<Seq<char>>,
    text: Seq<char>,
    space: Seq<char>,
    i: int,
)
    requires
        forall|k: int| 0 <= k < space.len() ==> is_white_space(#[trigger] space[k]),
    ensures
        matched_from(commands, text + space, i) == matched_from(commands, text, i),
    decreases commands.len() - i,
{
    let all = text + space;
    assert(trimmed(all) == trimmed(text)) by {
        lemma_run_len(text, white());
        let n = run_len(text, white()) as int;
        if n == text.len() {
            assert forall|k: int| 0 <= k < all.len() implies is_white_space(#[trigger] all[k]) by {
                if k < n {
                    assert(white()(text[k]));
                    assert(all[k] == text[k]);
                } else {
                    assert(all[k] == space[k - n]);
                }
            }
            assert forall|k: int| 0 <= k < text.len() implies is_white_space(
                #[trigger] text[k],
            ) by {
                assert(white()(text[k]));
            }
            crate::text::law_blank(all);
            crate::text::law_blank(text);
            assert(trimmed(all) =~= trimmed(text));
        } else {
            assert forall|k: int| 0 <= k < n implies white()(#[trigger] all[k]) by {
                assert(all[k] == text[k]);
            }
            assert(all[n] == text[n]);
            lemma_run_len_unique(all, white(), n);
            let a = trimmed_start(all);
            let t = trimmed_start(text);
            let m = t.len() as int;
            assert(a =~= t + space);
            assert forall|k: int| m <= k < a.len() implies white()(#[trigger] a[k]) by {
                assert(a[k] == space[k - m]);
            }
            lemma_without_suffix_step(a, white(), m);
            assert(a.take(m) =~= t);
        }
    }
    if 0 <= i < commands.len() {
        law_white_space_behind(commands, text, space, i + 1);
    }
}

/// White space may stand between a command and the closing marks behind it.
#[verifier::spinoff_prover]
pub proof fn law_space_before_marks(
    before: Seq<char>,
    command: Seq<char>,
    gap: Seq<char>,
    marks: Seq<char>,
)
    requires
        command.len() > 0,
        !is_white_space(command[0]),
        !is_white_space(command.last()),
        !is_closing(command.last()),
        forall|i: int| 0 <= i < before.len() ==> is_white_space(#[trigger] before[i]),
        forall|i: int| 0 <= i < gap.len() ==> is_white_space(#[trigger] gap[i]),
        forall|i: int| 0 <= i < marks.len() ==> is_closing(#[trigger] marks[i]),
    ensures
        is_command(before + command + gap + marks, command),
{
    let n = command.len() as int;
    let m = n + gap.len() as int;
    let text = before + command + gap + marks;
    lemma_run_len(text, white());
    let r = run_len(text, white()) as int;
    assert(r == before.len()) by {
        if r < before.len() {
            assert(text[r] == before[r]);
        } else if r > before.len() {
            assert(text[before.len() as int] == command[0]);
        }
    }
    let behind = trimmed_start(text);
    assert(behind =~= command + gap + marks);
    let kept = trimmed(text);
    lemma_without_suffix(behind, white());
    assert(behind[n - 1] == command.last());
    assert(kept.len() >= n);
    assert forall|i: int| 0 <= i < kept.len() implies kept[i] == behind[i] by {}
    let core = without_suffix(kept, closing());
    lemma_without_suffix(kept, closing());
    assert(kept[n - 1] == command.last());
    assert(core.len() >= n);
    assert(core.len() <= m || core.len() == 0) by {
        if core.len() > m {
            let k = core.len() - 1;
            assert(core[k] == kept[k]);
            assert(kept[k] == marks[k - m]);
            assert(closing()(core.last()));
        }
    }
    assert forall|i: int| n <= i < core.len() implies white()(#[trigger] core[i]) by {
        assert(core[i] == kept[i]);
        assert(kept[i] == gap[i - n]);
    }
    lemma_without_suffix_step(core, white(), n);
    assert(core.take(n) =~= command);
    assert(command_core(text) == command);
}

} // verus!
