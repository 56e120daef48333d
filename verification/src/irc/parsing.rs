//! The grammar of bot commands and of `nick!user@host` prefixes.
//!
//! Every parser reads a prefix of its input and hands back what is left
//! of the input together with what it read.

use crate::text::{alpha, alphanumeric, chars_of, digit, hex_digit, string_of};
use crate::text::{is_alpha, is_alphanumeric, is_digit, is_hex_digit};
use vstd::prelude::*;
use vstd::string::StrSliceExecFns;

verus! {

/// The input does not start with what the parser reads.
#[derive(Debug, Clone, Copy, PartialEq, Eq)]
pub struct SyntaxError;

/// The length of the longest prefix of `s` whose characters all meet `p`.
pub open spec fn run_length(s: Seq<char>, p: spec_fn(char) -> bool) -> int
    decreases s.len(),
{
    if s.len() > 0 && p(s[0]) {
        1 + run_length(s.drop_first(), p)
    } else {
        0
    }
}

/// A run of `n` characters that meet `p`, ended by the end of `s` or by a
/// character that does not meet `p`, is the longest such prefix.
pub proof fn lemma_run_length(s: Seq<char>, p: spec_fn(char) -> bool, n: int)
    requires
        0 <= n <= s.len(),
        forall|j: int| 0 <= j < n ==> p(s[j]),
        n < s.len() ==> !p(s[n]),
    ensures
        run_length(s, p) == n,
    decreases n,
{
    if n > 0 {
        let t = s.drop_first();
        assert forall|j: int| 0 <= j < n - 1 implies p(t[j]) by {
            assert(t[j] == s[j + 1]);
        }
        lemma_run_length(t, p, n - 1);
    }
}

/// A character of a user name: printable ASCII other than the space and
/// `@`.
pub open spec fn is_user_char(c: char) -> bool {
    '!' <= c <= '~' && c != '@'
}

/// How many characters of `s` the parser `user` reads.
pub open spec fn user_length(s: Seq<char>) -> int {
    run_length(s, |c: char| is_user_char(c))
}

/// Splits `input` after its first `n` characters: what is left, then what
/// was read.
fn split_after<'a>(input: &'a str, n: usize, Ghost(len): Ghost<int>) -> (r: (&'a str, &'a str))
    requires
        n <= input@.len() == len,
    ensures
        r.0@ == input@.skip(n as int),
        r.1@ == input@.take(n as int),
{
    let total = input.unicode_len();
    let read = input.substring_char(0, n);
    let rest = input.substring_char(n, total);
    proof {
        assert(input@.subrange(0, n as int) == input@.take(n as int));
        assert(input@.subrange(n as int, total as int) == input@.skip(n as int));
    }
    (rest, read)
}

/// Reads a user name: one or more characters of printable ASCII other
/// than the space and `@`.
pub fn user<'a>(input: &'a str) -> (r: Result<(&'a str, &'a str), SyntaxError>)
    ensures
        match r {
            Ok((rest, name)) => user_length(input@) > 0 && name@ == input@.take(
                user_length(input@),
            ) && rest@ == input@.skip(user_length(input@)),
            Err(_) => user_length(input@) == 0,
        },
{
    let chars = chars_of(input);
    let mut n: usize = 0;
    while n < chars.len() && '!' <= chars[n] && chars[n] <= '~' && chars[n] != '@'
        invariant
            n <= chars@.len(),
            forall|j: int| 0 <= j < n ==> is_user_char(chars@[j]),
        decreases chars@.len() - n,
    {
        n += 1;
    }
    proof {
        lemma_run_length(chars@, |c: char| is_user_char(c), n as int);
    }
    if n == 0 {
        Err(SyntaxError)
    } else {
        Ok(split_after(input, n, Ghost(chars@.len() as int)))
    }
}

/// The first character of an identifier: an ASCII letter or `_`.
pub open spec fn is_identifier_start(c: char) -> bool {
    is_alpha(c) || c == '_'
}

/// A later character of an identifier: an ASCII letter, a digit or `_`.
pub open spec fn is_identifier_char(c: char) -> bool {
    is_alphanumeric(c) || c == '_'
}

/// How many characters of `s` the parser `identifier` reads.
pub open spec fn identifier_length(s: Seq<char>) -> int {
    if s.len() > 0 && is_identifier_start(s[0]) {
        1 + run_length(s.drop_first(), |c: char| is_identifier_char(c))
    } else {
        0
    }
}

/// The length of the identifier at `from` in `chars`.
fn identifier_end(chars: &Vec<char>, from: usize) -> (end: usize)
    requires
        from <= chars@.len(),
    ensures
        from <= end <= chars@.len(),
        end - from == identifier_length(chars@.skip(from as int)),
{
    let n = chars.len();
    let ghost s = chars@.skip(from as int);
    if from == n || !(alpha(chars[from]) || chars[from] == '_') {
        return from;
    }
    let mut end: usize = from + 1;
    while end < n && (alphanumeric(chars[end]) || chars[end] == '_')
        invariant
            from < end <= n == chars@.len(),
            s == chars@.skip(from as int),
            forall|j: int| 0 <= j < end - from - 1 ==> is_identifier_char(s.drop_first()[j]),
        decreases n - end,
    {
        proof {
            assert(s.drop_first()[end - from - 1] == chars@[end as int]);
        }
        end += 1;
    }
    proof {
        if end < n {
            assert(s.drop_first()[end - from - 1] == chars@[end as int]);
        }
        lemma_run_length(s.drop_first(), |c: char| is_identifier_char(c), end - from - 1);
    }
    end
}

/// Reads an identifier: an ASCII letter or `_`, then letters, digits and
/// `_` as far as they go.
pub fn identifier<'a>(input: &'a str) -> (r: Result<(&'a str, &'a str), SyntaxError>)
    ensures
        match r {
            Ok((rest, name)) => identifier_length(input@) > 0 && name@ == input@.take(
                identifier_length(input@),
            ) && rest@ == input@.skip(identifier_length(input@)),
            Err(_) => identifier_length(input@) == 0,
        },
{
    let chars = chars_of(input);
    proof {
        assert(chars@.skip(0) =~= chars@);
    }
    let n = identifier_end(&chars, 0);
    if n == 0 {
        Err(SyntaxError)
    } else {
        Ok(split_after(input, n, Ghost(chars@.len() as int)))
    }
}

/// The name of a command of the bot.
#[derive(Debug, Clone, PartialEq, Eq)]
pub enum CommandName {
    /// A command of the bot itself.
    Plain(String),
    /// An entry point of a module: the module, then the entry point.
    Namespaced(String, String),
}

/// A `CommandName` as plain values.
pub enum Name {
    Plain(Seq<char>),
    Namespaced(Seq<char>, Seq<char>),
}

impl View for CommandName {
    type V = Name;

    open spec fn view(&self) -> Name {
        match self {
            CommandName::Plain(x) => Name::Plain(x@),
            CommandName::Namespaced(ns, x) => Name::Namespaced(ns@, x@),
        }
    }
}

/// The name that `s` starts with, and how many characters it takes: two
/// identifiers with `.` between them, or else one identifier.
pub open spec fn name_of(s: Seq<char>) -> Option<(Name, int)> {
    let n = identifier_length(s);
    if n == 0 {
        None
    } else if n < s.len() && s[n] == '.' && identifier_length(s.skip(n + 1)) > 0 {
        let m = identifier_length(s.skip(n + 1));
        Some((Name::Namespaced(s.take(n), s.subrange(n + 1, n + 1 + m)), n + 1 + m))
    } else {
        Some((Name::Plain(s.take(n)), n))
    }
}

/// The command name at `from` in `chars`, and where it ends.
fn command_name_at(chars: &Vec<char>, from: usize) -> (r: Option<(CommandName, usize)>)
    requires
        from <= chars@.len(),
    ensures
        match r {
            Some((name, end)) => from < end <= chars@.len() && name_of(chars@.skip(from as int))
                == Some((name@, end - from)),
            None => name_of(chars@.skip(from as int)) is None,
        },
{
    let ghost s = chars@.skip(from as int);
    let mid = identifier_end(chars, from);
    if mid == from {
        return None;
    }
    proof {
        assert(s.take(mid - from) =~= chars@.subrange(from as int, mid as int));
        if mid < chars@.len() {
            assert(s[mid - from] == chars@[mid as int]);
            assert(s.skip(mid - from + 1) =~= chars@.skip(mid + 1));
        }
    }
    if mid < chars.len() && chars[mid] == '.' {
        let end = identifier_end(chars, mid + 1);
        if end > mid + 1 {
            proof {
                assert(s.subrange(mid - from + 1, end - from) =~= chars@.subrange(
                    mid + 1,
                    end as int,
                ));
            }
            return Some(
                (
                    CommandName::Namespaced(
                        string_of(chars, from, mid),
                        string_of(chars, mid + 1, end),
                    ),
                    end,
                ),
            );
        }
    }
    Some((CommandName::Plain(string_of(chars, from, mid)), mid))
}

/// Reads the name of a command: `module.entry_point`, or the name of a
/// command of the bot.
pub fn command_name<'a>(input: &'a str) -> (r: Result<(&'a str, CommandName), SyntaxError>)
    ensures
        match r {
            Ok((rest, name)) => name_of(input@) matches Some((found, n)) && found == name@
                && rest@ == input@.skip(n),
            Err(_) => name_of(input@) is None,
        },
{
    let chars = chars_of(input);
    proof {
        assert(chars@.skip(0) =~= chars@);
    }
    match command_name_at(&chars, 0) {
        Some((name, end)) => {
            let (rest, _) = split_after(input, end, Ghost(chars@.len() as int));
            Ok((rest, name))
        },
        None => Err(SyntaxError),
    }
}

/// A blank: the space or the tab.
pub open spec fn is_blank(c: char) -> bool {
    c == ' ' || c == '\t'
}

/// How many blanks `s` starts with.
pub open spec fn blanks(s: Seq<char>) -> int {
    run_length(s, |c: char| is_blank(c))
}

/// A command for the bot: its name and its arguments.
#[derive(Debug, Clone, PartialEq, Eq)]
pub struct BotCommand {
    pub command: CommandName,
    pub args: String,
}

/// The command that `s` holds: blanks, `!`, blanks, the name of the
/// command, blanks, and then the arguments, which are the rest of `s`.
pub open spec fn command_of(s: Seq<char>) -> Option<(Name, Seq<char>)> {
    let mark = blanks(s);
    if mark < s.len() && s[mark] == '!' {
        let start = mark + 1 + blanks(s.skip(mark + 1));
        match name_of(s.skip(start)) {
            Some((name, n)) => Some((name, s.skip(start + n + blanks(s.skip(start + n))))),
            None => None,
        }
    } else {
        None
    }
}

/// Where the blanks at `from` in `chars` end.
fn skip_blanks(chars: &Vec<char>, from: usize) -> (end: usize)
    requires
        from <= chars@.len(),
    ensures
        from <= end <= chars@.len(),
        end - from == blanks(chars@.skip(from as int)),
{
    let n = chars.len();
    let ghost s = chars@.skip(from as int);
    let mut end: usize = from;
    while end < n && (chars[end] == ' ' || chars[end] == '\t')
        invariant
            from <= end <= n == chars@.len(),
            s == chars@.skip(from as int),
            forall|j: int| 0 <= j < end - from ==> is_blank(s[j]),
        decreases n - end,
    {
        proof {
            assert(s[end - from] == chars@[end as int]);
        }
        end += 1;
    }
    proof {
        if end < n {
            assert(s[end - from] == chars@[end as int]);
        }
        lemma_run_length(s, |c: char| is_blank(c), end - from);
    }
    end
}

/// Reads a command for the bot.
pub fn command(input: &str) -> (r: Result<BotCommand, SyntaxError>)
    ensures
        match r {
            Ok(found) => command_of(input@) == Some((found.command@, found.args@)),
            Err(_) => command_of(input@) is None,
        },
{
    let chars = chars_of(input);
    proof {
        assert(chars@.skip(0) =~= chars@);
    }
    let mark = skip_blanks(&chars, 0);
    if mark == chars.len() || chars[mark] != '!' {
        return Err(SyntaxError);
    }
    let start = skip_blanks(&chars, mark + 1);
    match command_name_at(&chars, start) {
        None => Err(SyntaxError),
        Some((command, end)) => {
            let from = skip_blanks(&chars, end);
            proof {
                assert(chars@.skip(start as int).skip(end - start) =~= chars@.skip(end as int));
                assert(chars@.subrange(from as int, chars@.len() as int) =~= chars@.skip(
                    from as int,
                ));
            }
            Ok(BotCommand { command, args: string_of(&chars, from, chars.len()) })
        },
    }
}

impl BotCommand {
    /// Reads a command for the bot from the text of a message.
    pub fn parse(text: &str) -> (r: Result<BotCommand, SyntaxError>)
        ensures
            match r {
                Ok(found) => command_of(text@) == Some((found.command@, found.args@)),
                Err(_) => command_of(text@) is None,
            },
    {
        command(text)
    }

    pub fn command(&self) -> (r: &CommandName)
        ensures
            *r == self.command,
    {
        &self.command
    }

    pub fn args(&self) -> (r: &str)
        ensures
            r@ == self.args@,
    {
        self.args.as_str()
    }
}

/// One of the special characters of a nickname.
pub open spec fn is_special(c: char) -> bool {
    c == '[' || c == ']' || c == '\\' || c == '`' || c == '_' || c == '^' || c == '{' || c == '|'
        || c == '}'
}

/// A later character of a nickname: an ASCII letter, a digit or a special
/// character.
pub open spec fn is_nickname_char(c: char) -> bool {
    is_alphanumeric(c) || is_special(c)
}

/// How many characters of `s` the parser `nickname` reads: an ASCII
/// letter or a digit, then the characters of a nickname as far as they
/// go.
pub open spec fn nickname_length(s: Seq<char>) -> int {
    if s.len() > 0 && is_alphanumeric(s[0]) {
        1 + run_length(s.drop_first(), |c: char| is_nickname_char(c))
    } else {
        0
    }
}

/// Whether `c` is a special character of a nickname.
fn special(c: char) -> (r: bool)
    ensures
        r == is_special(c),
{
    c == '[' || c == ']' || c == '\\' || c == '`' || c == '_' || c == '^' || c == '{' || c == '|'
        || c == '}'
}

/// Where the nickname at the start of `chars` ends.
fn nickname_end(chars: &Vec<char>) -> (end: usize)
    ensures
        end <= chars@.len(),
        end == nickname_length(chars@),
{
    let n = chars.len();
    if n == 0 || !alphanumeric(chars[0]) {
        return 0;
    }
    let ghost tail = chars@.drop_first();
    let mut end: usize = 1;
    while end < n && (alphanumeric(chars[end]) || special(chars[end]))
        invariant
            1 <= end <= n == chars@.len(),
            tail == chars@.drop_first(),
            forall|j: int| 0 <= j < end - 1 ==> is_nickname_char(tail[j]),
        decreases n - end,
    {
        proof {
            assert(tail[end - 1] == chars@[end as int]);
        }
        end += 1;
    }
    proof {
        if end < n {
            assert(tail[end - 1] == chars@[end as int]);
        }
        lemma_run_length(tail, |c: char| is_nickname_char(c), end - 1);
    }
    end
}

/// Reads a nickname.
pub fn nickname<'a>(input: &'a str) -> (r: Result<(&'a str, &'a str), SyntaxError>)
    ensures
        match r {
            Ok((rest, name)) => nickname_length(input@) > 0 && name@ == input@.take(
                nickname_length(input@),
            ) && rest@ == input@.skip(nickname_length(input@)),
            Err(_) => nickname_length(input@) == 0,
        },
{
    let chars = chars_of(input);
    let n = nickname_end(&chars);
    if n == 0 {
        Err(SyntaxError)
    } else {
        Ok(split_after(input, n, Ghost(chars@.len() as int)))
    }
}

/// Whether the character at position `i` of a host name may stand there:
/// a label starts with an ASCII letter or a digit and goes on with
/// letters, digits and `-`, up to the `.` that ends it.
pub open spec fn host_char_ok(s: Seq<char>, i: int) -> bool {
    if i == 0 || s[i - 1] == '.' {
        is_alphanumeric(s[i])
    } else {
        is_alphanumeric(s[i]) || s[i] == '-' || s[i] == '.'
    }
}

/// Whether `s` is a host name: labels with `.` between them.
pub open spec fn is_hostname(s: Seq<char>) -> bool {
    &&& s.len() > 0
    &&& s.last() != '.'
    &&& forall|i: int| 0 <= i < s.len() ==> #[trigger] host_char_ok(s, i)
}

/// The number that a text of decimal digits stands for.
pub open spec fn number(s: Seq<char>) -> nat
    decreases s.len(),
{
    if s.len() == 0 {
        0
    } else {
        10 * number(s.drop_last()) + ((s.last() as u32) - 48) as nat
    }
}

/// Whether `s` is `count` numbers from 0 to 255 in decimal digits, with
/// `.` between them.
pub open spec fn is_octets(s: Seq<char>, count: nat) -> bool
    decreases count,
{
    let n = run_length(s, |c: char| is_digit(c));
    &&& n >= 1
    &&& number(s.take(n)) <= 255
    &&& if count <= 1 {
        n == s.len()
    } else {
        n < s.len() && s[n] == '.' && is_octets(s.skip(n + 1), (count - 1) as nat)
    }
}

/// Whether `s` is `count` groups of hexadecimal digits with `:` between
/// them.
pub open spec fn is_hex_groups(s: Seq<char>, count: nat) -> bool
    decreases count,
{
    let n = run_length(s, |c: char| is_hex_digit(c));
    &&& n >= 1
    &&& if count <= 1 {
        n == s.len()
    } else {
        n < s.len() && s[n] == ':' && is_hex_groups(s.skip(n + 1), (count - 1) as nat)
    }
}

/// Whether `s` is an IPv4 address within IPv6: `0:0:0:0:0:`, then `0` or
/// `ffff`, then the four numbers of the address.
pub open spec fn is_mapped(s: Seq<char>) -> bool {
    s.len() > 10 && s.take(10) == "0:0:0:0:0:"@ && if s[10] == '0' {
        is_octets(s.skip(11), 4)
    } else {
        s.len() >= 14 && s.subrange(10, 14) == "ffff"@ && is_octets(s.skip(14), 4)
    }
}

/// Whether `s` is a host: a host name, an IPv4 address, an IPv6 address
/// of eight groups, or an IPv4 address within IPv6.
pub open spec fn is_host(s: Seq<char>) -> bool {
    is_hostname(s) || is_octets(s, 4) || is_hex_groups(s, 8) || is_mapped(s)
}

/// A number does not get smaller by more digits.
proof fn lemma_number_grows(s: Seq<char>, i: int, n: int)
    requires
        0 <= i <= n <= s.len(),
        forall|j: int| 0 <= j < n ==> is_digit(s[j]),
    ensures
        number(s.take(i)) <= number(s.take(n)),
    decreases n - i,
{
    if i < n {
        lemma_number_grows(s, i, n - 1);
        assert(s.take(n).drop_last() =~= s.take(n - 1));
    }
}

/// Whether `chars` is a host name.
fn check_hostname(chars: &Vec<char>) -> (r: bool)
    ensures
        r == is_hostname(chars@),
{
    let n = chars.len();
    if n == 0 || chars[n - 1] == '.' {
        return false;
    }
    let mut i: usize = 0;
    while i < n
        invariant
            i <= n == chars@.len(),
            forall|j: int| 0 <= j < i ==> #[trigger] host_char_ok(chars@, j),
        decreases n - i,
    {
        let c = chars[i];
        let fine = if i == 0 || chars[i - 1] == '.' {
            alphanumeric(c)
        } else {
            alphanumeric(c) || c == '-' || c == '.'
        };
        if !fine {
            proof {
                assert(!host_char_ok(chars@, i as int));
            }
            return false;
        }
        i += 1;
    }
    true
}

/// Whether `chars` from `from` on is `count` numbers from 0 to 255 with
/// `.` between them.
fn check_octets(chars: &Vec<char>, from: usize, count: usize) -> (r: bool)
    requires
        from <= chars@.len(),
        count >= 1,
    ensures
        r == is_octets(chars@.skip(from as int), count as nat),
{
    let n = chars.len();
    let mut pos: usize = from;
    let mut left: usize = count;
    loop
        invariant
            from <= pos <= n == chars@.len(),
            1 <= left <= count,
            is_octets(chars@.skip(from as int), count as nat) == is_octets(
                chars@.skip(pos as int),
                left as nat,
            ),
        decreases left,
    {
        let ghost s = chars@.skip(pos as int);
        let mut end: usize = pos;
        let mut value: u32 = 0;
        while end < n && digit(chars[end]) && value <= 255
            invariant
                pos <= end <= n == chars@.len(),
                s == chars@.skip(pos as int),
                forall|j: int| 0 <= j < end - pos ==> is_digit(s[j]),
                value == number(s.take(end - pos)) || (value > 255 && number(s.take(end - pos))
                    > 255),
                value <= 2559,
            decreases n - end,
        {
            proof {
                assert(s[end - pos] == chars@[end as int]);
                assert(s.take(end - pos + 1).drop_last() =~= s.take(end - pos));
            }
            value = 10 * value + ((chars[end] as u32) - 48);
            end += 1;
        }
        let mut stop: usize = end;
        while stop < n && digit(chars[stop])
            invariant
                pos <= end <= stop <= n == chars@.len(),
                s == chars@.skip(pos as int),
                forall|j: int| 0 <= j < stop - pos ==> is_digit(s[j]),
            decreases n - stop,
        {
            proof {
                assert(s[stop - pos] == chars@[stop as int]);
            }
            stop += 1;
        }
        proof {
            if stop < n {
                assert(s[stop - pos] == chars@[stop as int]);
            }
            lemma_run_length(s, |c: char| is_digit(c), stop - pos);
            lemma_number_grows(s, end - pos, stop - pos);
            if value <= 255 && end < stop {
                assert(s[end - pos] == chars@[end as int]);
                assert(is_digit(s[end - pos]));
            }
            if stop < n {
                assert(s.skip(stop - pos + 1) =~= chars@.skip(stop + 1));
            }
        }
        if stop == pos || value > 255 {
            return false;
        }
        if left == 1 {
            return stop == n;
        }
        if stop == n || chars[stop] != '.' {
            return false;
        }
        pos = stop + 1;
        left -= 1;
    }
}

/// Whether `chars` is `count` groups of hexadecimal digits with `:`
/// between them.
fn check_hex_groups(chars: &Vec<char>, count: usize) -> (r: bool)
    requires
        count >= 1,
    ensures
        r == is_hex_groups(chars@, count as nat),
{
    let n = chars.len();
    let mut pos: usize = 0;
    let mut left: usize = count;
    proof {
        assert(chars@.skip(0) =~= chars@);
    }
    loop
        invariant
            pos <= n == chars@.len(),
            1 <= left <= count,
            is_hex_groups(chars@, count as nat) == is_hex_groups(
                chars@.skip(pos as int),
                left as nat,
            ),
        decreases left,
    {
        let ghost s = chars@.skip(pos as int);
        let mut stop: usize = pos;
        while stop < n && hex_digit(chars[stop])
            invariant
                pos <= stop <= n == chars@.len(),
                s == chars@.skip(pos as int),
                forall|j: int| 0 <= j < stop - pos ==> is_hex_digit(s[j]),
            decreases n - stop,
        {
            proof {
                assert(s[stop - pos] == chars@[stop as int]);
            }
            stop += 1;
        }
        proof {
            if stop < n {
                assert(s[stop - pos] == chars@[stop as int]);
                assert(s.skip(stop - pos + 1) =~= chars@.skip(stop + 1));
            }
            lemma_run_length(s, |c: char| is_hex_digit(c), stop - pos);
        }
        if stop == pos {
            return false;
        }
        if left == 1 {
            return stop == n;
        }
        if stop == n || chars[stop] != ':' {
            return false;
        }
        pos = stop + 1;
        left -= 1;
    }
}

/// The characters of the prefix of an IPv4 address within IPv6.
proof fn lemma_mapped_prefix()
    ensures
        "0:0:0:0:0:"@.len() == 10,
        forall|j: int|
            0 <= j < 10 ==> #[trigger] "0:0:0:0:0:"@[j] == (if j % 2 == 0 {
                '0'
            } else {
                ':'
            }),
{
    reveal_strlit("0:0:0:0:0:");
    let p = "0:0:0:0:0:"@;
    assert(p[0] == '0' && p[1] == ':' && p[2] == '0' && p[3] == ':' && p[4] == '0');
    assert(p[5] == ':' && p[6] == '0' && p[7] == ':' && p[8] == '0' && p[9] == ':');
}

/// Whether `chars` is an IPv4 address within IPv6.
fn check_mapped(chars: &Vec<char>) -> (r: bool)
    ensures
        r == is_mapped(chars@),
{
    let n = chars.len();
    proof {
        lemma_mapped_prefix();
        reveal_strlit("ffff");
    }
    if n <= 10 {
        return false;
    }
    let mut i: usize = 0;
    while i < 10
        invariant
            i <= 10 < n == chars@.len(),
            forall|j: int|
                0 <= j < i ==> chars@[j] == (if j % 2 == 0 {
                    '0'
                } else {
                    ':'
                }),
        decreases 10 - i,
    {
        let wanted = if i % 2 == 0 {
            '0'
        } else {
            ':'
        };
        if chars[i] != wanted {
            proof {
                lemma_mapped_prefix();
                assert(chars@.take(10)[i as int] == chars@[i as int]);
                assert("0:0:0:0:0:"@[i as int] == wanted);
            }
            return false;
        }
        i += 1;
    }
    proof {
        assert(chars@.take(10) =~= "0:0:0:0:0:"@);
    }
    if chars[10] == '0' {
        check_octets(chars, 11, 4)
    } else if n >= 14 && chars[10] == 'f' && chars[11] == 'f' && chars[12] == 'f' && chars[13]
        == 'f' {
        proof {
            assert(chars@.subrange(10, 14) =~= "ffff"@);
        }
        check_octets(chars, 14, 4)
    } else {
        proof {
            if n >= 14 && chars@.subrange(10, 14) == "ffff"@ {
                let t = chars@.subrange(10, 14);
                assert(t[0] == chars@[10] && t[1] == chars@[11] && t[2] == chars@[12] && t[3]
                    == chars@[13]);
            }
        }
        false
    }
}

/// Whether `chars` is a host.
fn check_host(chars: &Vec<char>) -> (r: bool)
    ensures
        r == is_host(chars@),
{
    proof {
        assert(chars@.skip(0) =~= chars@);
    }
    check_hostname(chars) || check_octets(chars, 0, 4) || check_hex_groups(chars, 8)
        || check_mapped(chars)
}

/// Reads a host, which is the whole input: nothing is left of it.
pub fn host<'a>(input: &'a str) -> (r: Result<(&'a str, &'a str), SyntaxError>)
    ensures
        match r {
            Ok((rest, name)) => is_host(input@) && name@ == input@ && rest@.len() == 0,
            Err(_) => !is_host(input@),
        },
{
    let chars = chars_of(input);
    if check_host(&chars) {
        let (rest, name) = split_after(input, chars.len(), Ghost(chars@.len() as int));
        proof {
            assert(input@.take(chars@.len() as int) =~= input@);
        }
        Ok((rest, name))
    } else {
        Err(SyntaxError)
    }
}

/// The nickname, the user and the host of the prefix `s`, which has the
/// form `nick!user@host`.
pub open spec fn prefix_of(s: Seq<char>) -> Option<(Seq<char>, Seq<char>, Seq<char>)> {
    let n = nickname_length(s);
    if n > 0 && n < s.len() && s[n] == '!' {
        let u = user_length(s.skip(n + 1));
        let at = n + 1 + u;
        if u > 0 && at < s.len() && s[at] == '@' && is_host(s.skip(at + 1)) {
            Some((s.take(n), s.subrange(n + 1, at), s.skip(at + 1)))
        } else {
            None
        }
    } else {
        None
    }
}

/// Reads a prefix of the form `nick!user@host`.
pub fn user_prefix<'a>(input: &'a str) -> (r: Result<(&'a str, &'a str, &'a str), SyntaxError>)
    ensures
        match r {
            Ok((nick, user, host)) => prefix_of(input@) == Some((nick@, user@, host@)),
            Err(_) => prefix_of(input@) is None,
        },
{
    let chars = chars_of(input);
    let total = chars.len();
    let n = nickname_end(&chars);
    if n == 0 || n == total || chars[n] != '!' {
        return Err(SyntaxError);
    }
    let ghost s = chars@.skip(n + 1);
    let mut at: usize = n + 1;
    while at < total && '!' <= chars[at] && chars[at] <= '~' && chars[at] != '@'
        invariant
            n + 1 <= at <= total == chars@.len(),
            s == chars@.skip(n + 1),
            forall|j: int| 0 <= j < at - n - 1 ==> is_user_char(s[j]),
        decreases total - at,
    {
        proof {
            assert(s[at - n - 1] == chars@[at as int]);
        }
        at += 1;
    }
    proof {
        if at < total {
            assert(s[at - n - 1] == chars@[at as int]);
        }
        lemma_run_length(s, |c: char| is_user_char(c), at - n - 1);
    }
    if at == n + 1 || at == total || chars[at] != '@' {
        return Err(SyntaxError);
    }
    let mut rest: Vec<char> = Vec::new();
    let mut i: usize = at + 1;
    while i < total
        invariant
            at + 1 <= i <= total == chars@.len(),
            rest@ == chars@.subrange(at + 1, i as int),
        decreases total - i,
    {
        rest.push(chars[i]);
        i += 1;
    }
    proof {
        assert(chars@.subrange(at + 1, total as int) =~= chars@.skip(at + 1));
    }
    if !check_host(&rest) {
        return Err(SyntaxError);
    }
    let nick = input.substring_char(0, n);
    let user = input.substring_char(n + 1, at);
    let host = input.substring_char(at + 1, total);
    proof {
        assert(input@.subrange(0, n as int) =~= input@.take(n as int));
        assert(input@.subrange(at + 1, total as int) =~= input@.skip(at + 1));
    }
    Ok((nick, user, host))
}

} // verus!
