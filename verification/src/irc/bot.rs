//! What the bot decides: whom it trusts, what a management command asks
//! for, and how an answer is cut into lines that fit a message.

use crate::error::Error;
use crate::irc::parsing::{prefix_of, user_prefix, BotCommand, CommandName, Name};
use crate::runtime::{fit, lemma_utf8_len_push, utf8_len, width};
use crate::text::{chars_of, decimal, push_decimal, same_text, space, string_of, word_bounds};
use crate::text::{is_space, words};
use crate::url::opt_text;
use vstd::prelude::*;
use vstd::string::StringExecFns;

verus! {

/// The longest message that the server relays, in bytes.
pub const MAX_SIZE: usize = 512;

/// The length that is taken for the bot's own prefix as long as the
/// prefix is not known.
pub const DEFAULT_IF_UNKNOWN: usize = 128;

/// A user as the server shows it: `nick!user@host`.
#[derive(Debug, PartialEq, Eq)]
pub struct UserMask {
    nick: String,
    user: String,
    host: String,
}

impl View for UserMask {
    type V = (Seq<char>, Seq<char>, Seq<char>);

    closed spec fn view(&self) -> (Seq<char>, Seq<char>, Seq<char>) {
        (self.nick@, self.user@, self.host@)
    }
}

impl Clone for UserMask {
    fn clone(&self) -> (r: Self)
        ensures
            r@ == self@,
    {
        UserMask { nick: self.nick.clone(), user: self.user.clone(), host: self.host.clone() }
    }
}

/// The length of a text in bytes, as far as it can be counted.
fn byte_len(text: &str) -> (n: usize)
    ensures
        n == utf8_len(text@),
{
    text.as_bytes().len()
}

impl UserMask {
    pub fn new(nick: String, user: String, host: String) -> (r: Self)
        ensures
            r@ == (nick@, user@, host@),
    {
        UserMask { nick, user, host }
    }

    pub fn from_parts(nick: &str, user: &str, host: &str) -> (r: Self)
        ensures
            r@ == (nick@, user@, host@),
    {
        UserMask { nick: nick.to_owned(), user: user.to_owned(), host: host.to_owned() }
    }

    pub fn nick(&self) -> (r: &str)
        ensures
            r@ == self@.0,
    {
        self.nick.as_str()
    }

    /// The length in bytes of the prefix `nick!user@host`; the greatest
    /// number where the length is beyond it.
    pub fn prefix_length(&self) -> (n: usize)
        ensures
            n == clamp(utf8_len(self@.0) + 1 + utf8_len(self@.1) + 1 + utf8_len(self@.2)),
    {
        byte_len(self.nick.as_str()).saturating_add(1).saturating_add(
            byte_len(self.user.as_str()),
        ).saturating_add(1).saturating_add(byte_len(self.host.as_str()))
    }

    /// Reads a mask of the form `nick!user@host`.
    pub fn from_str(s: &str) -> (r: Result<UserMask, ()>)
        ensures
            match r {
                Ok(mask) => prefix_of(s@) == Some(mask@),
                Err(_) => prefix_of(s@) is None,
            },
    {
        match user_prefix(s) {
            Ok((nick, user, host)) => Ok(UserMask::from_parts(nick, user, host)),
            Err(_) => Err(()),
        }
    }

    /// Whether two masks are the same in all three parts.
    pub fn same(&self, other: &UserMask) -> (r: bool)
        ensures
            r == (self@ == other@),
    {
        self.nick == other.nick && self.user == other.user && self.host == other.host
    }
}

/// A number of bytes, cut at the greatest number that can be counted.
pub open spec fn clamp(n: int) -> int {
    if n > usize::MAX {
        usize::MAX as int
    } else {
        n
    }
}

/// The users whose management commands the bot obeys.
#[derive(Debug)]
pub struct TrustedUsers {
    list: Vec<UserMask>,
}

/// The masks of a list, as plain values.
pub open spec fn masks(list: Seq<UserMask>) -> Seq<(Seq<char>, Seq<char>, Seq<char>)> {
    Seq::new(list.len(), |i: int| list[i]@)
}

impl View for TrustedUsers {
    type V = Seq<(Seq<char>, Seq<char>, Seq<char>)>;

    closed spec fn view(&self) -> Seq<(Seq<char>, Seq<char>, Seq<char>)> {
        masks(self.list@)
    }
}

impl TrustedUsers {
    /// The users that are trusted from the start: the one that the option
    /// `default_trust` of the configuration names, if it names one.
    pub fn from_config(default_trust: Option<&str>) -> (r: Self)
        ensures
            r@ == match default_trust {
                Some(text) => match prefix_of(text@) {
                    Some(mask) => seq![mask],
                    None => Seq::empty(),
                },
                None => Seq::empty(),
            },
    {
        let mut list: Vec<UserMask> = Vec::new();
        if let Some(text) = default_trust {
            if let Ok(mask) = UserMask::from_str(text) {
                list.push(mask);
            }
        }
        let r = TrustedUsers { list };
        proof {
            assert(r@ =~= match default_trust {
                Some(text) => match prefix_of(text@) {
                    Some(mask) => seq![mask],
                    None => Seq::empty(),
                },
                None => Seq::empty(),
            });
        }
        r
    }

    /// Whether `mask` is trusted.
    pub fn is_trusted(&self, mask: &UserMask) -> (r: bool)
        ensures
            r == self@.contains(mask@),
    {
        let mut i: usize = 0;
        while i < self.list.len()
            invariant
                i <= self.list@.len(),
                forall|j: int| 0 <= j < i ==> self@[j] != mask@,
            decreases self.list@.len() - i,
        {
            if self.list[i].same(mask) {
                proof {
                    assert(self@[i as int] == mask@);
                }
                return true;
            }
            i += 1;
        }
        false
    }

    /// Whether the sender of a message is trusted: it is a user, not a
    /// server nor nobody, and its mask is trusted.
    pub fn is_trusted_prefix(&self, prefix: Option<&UserMask>) -> (r: bool)
        ensures
            r == match prefix {
                Some(mask) => self@.contains(mask@),
                None => false,
            },
    {
        match prefix {
            Some(mask) => self.is_trusted(mask),
            None => false,
        }
    }

    /// Trusts `mask` from now on; tells whether it was not trusted
    /// before.
    pub fn add_trust(&mut self, mask: &UserMask) -> (r: bool)
        ensures
            r == !old(self)@.contains(mask@),
            final(self)@ == if r {
                old(self)@.push(mask@)
            } else {
                old(self)@
            },
    {
        if self.is_trusted(mask) {
            false
        } else {
            self.list.push(mask.clone());
            proof {
                assert(self@ =~= old(self)@.push(mask@));
            }
            true
        }
    }

    /// The trusted masks.
    pub fn list(&self) -> (r: &Vec<UserMask>)
        ensures
            masks(r@) == self@,
    {
        &self.list
    }
}

/// The text of a command's name: `name`, or `module.name`.
pub open spec fn name_text(name: Name) -> Seq<char> {
    match name {
        Name::Plain(x) => x,
        Name::Namespaced(ns, x) => ns + "."@ + x,
    }
}

impl CommandName {
    /// The name as text.
    pub fn to_string(&self) -> (r: String)
        ensures
            r@ == name_text(self@),
    {
        match self {
            CommandName::Plain(x) => x.clone(),
            CommandName::Namespaced(ns, x) => {
                let mut text = ns.clone();
                text.append(".");
                text.append(x.as_str());
                text
            },
        }
    }
}

/// `s` without the white space at its start and at its end.
pub open spec fn trimmed(s: Seq<char>) -> Seq<char>
    decreases s.len(),
{
    if s.len() > 0 && is_space(s[0]) {
        trimmed(s.drop_first())
    } else if s.len() > 0 && is_space(s.last()) {
        trimmed(s.drop_last())
    } else {
        s
    }
}

/// `text` without the white space at its start and at its end.
pub fn trim(text: &str) -> (r: String)
    ensures
        r@ == trimmed(text@),
{
    let chars = chars_of(text);
    let mut from: usize = 0;
    let mut to: usize = chars.len();
    proof {
        assert(chars@.subrange(0, chars@.len() as int) =~= chars@);
    }
    while from < to && space(chars[from])
        invariant
            from <= to == chars@.len(),
            trimmed(chars@) == trimmed(chars@.subrange(from as int, to as int)),
        decreases to - from,
    {
        proof {
            assert(chars@.subrange(from as int, to as int).drop_first() =~= chars@.subrange(
                from + 1,
                to as int,
            ));
        }
        from += 1;
    }
    while from < to && space(chars[to - 1])
        invariant
            from <= to <= chars@.len(),
            from < to ==> !is_space(chars@[from as int]),
            trimmed(chars@) == trimmed(chars@.subrange(from as int, to as int)),
        decreases to - from,
    {
        proof {
            assert(chars@.subrange(from as int, to as int).drop_last() =~= chars@.subrange(
                from as int,
                to - 1,
            ));
        }
        to -= 1;
    }
    string_of(&chars, from, to)
}

/// What the bot does for a management command.
#[derive(Debug, PartialEq, Eq)]
pub enum Management {
    /// Answer with this text.
    Reply(String),
    /// Join these channels, given with `,` between them.
    Join(String),
    /// Forget everyone who was trusted later than the configuration.
    ResetTrust,
    /// Write the trusted users to the log.
    ListTrust,
    /// Load the module at this URL.
    LoadUrl(String),
    /// Load again the module of this name.
    LoadName(String),
    /// Answer with the number of permits that are free.
    Permits,
    /// Leave the server.
    Quit,
    /// Write to the log that the mask cannot be read.
    InvalidMask,
    /// Write to the log that this is no management command.
    Unknown,
    /// Nothing: the sender is not trusted.
    Denied,
}

/// The words of `s` with `,` between each two.
pub open spec fn comma_joined(words: Seq<Seq<char>>) -> Seq<char>
    decreases words.len(),
{
    if words.len() == 0 {
        Seq::empty()
    } else if words.len() == 1 {
        words[0]
    } else {
        comma_joined(words.drop_last()) + seq![','] + words.last()
    }
}

/// The words of `text` with `,` between each two.
fn join_words(text: &str) -> (r: String)
    ensures
        r@ == comma_joined(words(text@, false)),
{
    let chars = chars_of(text);
    let bounds = word_bounds(&chars, false);
    let ghost w = words(chars@, false);
    let mut out = String::new();
    let mut i: usize = 0;
    proof {
        assert(w.take(0) =~= Seq::<Seq<char>>::empty());
    }
    while i < bounds.len()
        invariant
            i <= bounds@.len(),
            w == words(chars@, false),
            bounds@.len() == w.len(),
            forall|k: int|
                0 <= k < bounds@.len() ==> (#[trigger] bounds@[k]).0 < bounds@[k].1 <= chars@.len()
                    && chars@.subrange(bounds@[k].0 as int, bounds@[k].1 as int) == w[k],
            out@ == comma_joined(w.take(i as int)),
        decreases bounds@.len() - i,
    {
        let ghost done = w.take(i as int);
        let ghost next = w.take(i + 1);
        proof {
            assert(next.drop_last() =~= done);
            assert(next.last() == w[i as int]);
        }
        if i > 0 {
            out.push(',');
        }
        let ghost start = out@;
        let mut j: usize = bounds[i].0;
        while j < bounds[i].1
            invariant
                i < bounds@.len(),
                bounds@[i as int].0 <= j <= bounds@[i as int].1 <= chars@.len(),
                out@ == start + chars@.subrange(bounds@[i as int].0 as int, j as int),
            decreases bounds@[i as int].1 - j,
        {
            out.push(chars[j]);
            j += 1;
        }
        proof {
            if i == 0 {
                assert(start + w[i as int] =~= w[i as int]);
            } else {
                assert(start =~= comma_joined(done) + seq![',']);
            }
        }
        i += 1;
    }
    proof {
        assert(w.take(i as int) =~= w);
    }
    out
}

/// Whether `text` starts with `https://`.
pub open spec fn is_https(text: Seq<char>) -> bool {
    text.len() >= 8 && text.take(8) == "https://"@
}

/// Whether `text` starts with `https://`.
fn starts_with_https(text: &str) -> (r: bool)
    ensures
        r == is_https(text@),
{
    let chars = chars_of(text);
    if chars.len() < 8 {
        return false;
    }
    let head = string_of(&chars, 0, 8);
    proof {
        assert(chars@.subrange(0, 8) =~= chars@.take(8));
    }
    same_text(head.as_str(), "https://")
}

/// What a trusted sender's management command `name` with the arguments
/// `args` asks for, apart from `trust`, which changes whom the bot
/// trusts.
pub open spec fn asked(name: Seq<char>, args: Seq<char>, action: Management) -> bool {
    if name == "join"@ {
        action matches Management::Join(channels) && channels@ == comma_joined(words(args, false))
    } else if name == "untrust"@ {
        action == Management::ResetTrust
    } else if name == "trust-list"@ {
        action == Management::ListTrust
    } else if name == "load"@ {
        if is_https(trimmed(args)) {
            action matches Management::LoadUrl(url) && url@ == trimmed(args)
        } else {
            action matches Management::LoadName(module) && module@ == trimmed(args)
        }
    } else if name == "permits"@ {
        action == Management::Permits
    } else if name == "quit"@ {
        action == Management::Quit
    } else {
        action == Management::Unknown
    }
}

/// The answer to `trust` for a mask that was trusted before or was not.
pub open spec fn trust_answer(nick: Seq<char>, added: bool) -> Seq<char> {
    if added {
        "I now trust "@ + nick
    } else {
        "I already trust "@ + nick
    }
}

/// What the bot does for the management command `cmd` of `source`.
/// `ping` is answered for everyone. Every other command is obeyed only
/// for a trusted sender; `trust` then adds the mask that its arguments
/// name to the trusted users.
pub fn management_command(
    trusted: &mut TrustedUsers,
    source: Option<&UserMask>,
    cmd: &BotCommand,
) -> (r: Management)
    ensures
        match cmd.command@ {
            Name::Namespaced(_, _) => r == Management::Unknown && final(trusted)@ == old(trusted)@,
            Name::Plain(name) => if name == "ping"@ {
                (r matches Management::Reply(text) && text@ == "pong"@) && final(trusted)@
                    == old(trusted)@
            } else if !(source matches Some(mask) && old(trusted)@.contains(mask@)) {
                r == Management::Denied && final(trusted)@ == old(trusted)@
            } else if name == "trust"@ {
                match prefix_of(trimmed(cmd.args@)) {
                    Some(mask) => {
                        let added = !old(trusted)@.contains(mask);
                        &&& r matches Management::Reply(text) && text@ == trust_answer(
                            mask.0,
                            added,
                        )
                        &&& final(trusted)@ == if added {
                            old(trusted)@.push(mask)
                        } else {
                            old(trusted)@
                        }
                    },
                    None => r == Management::InvalidMask && final(trusted)@ == old(trusted)@,
                }
            } else {
                asked(name, cmd.args@, r) && final(trusted)@ == old(trusted)@
            },
        },
{
    let name = match &cmd.command {
        CommandName::Plain(name) => name.as_str(),
        CommandName::Namespaced(_, _) => { return Management::Unknown; },
    };
    proof {
        reveal_strlit("ping");
        reveal_strlit("join");
        reveal_strlit("trust");
        reveal_strlit("untrust");
        reveal_strlit("trust-list");
        reveal_strlit("load");
        reveal_strlit("permits");
        reveal_strlit("quit");
        assert("ping"@[0] == 'p' && "join"@[0] == 'j' && "load"@[0] == 'l' && "quit"@[0] == 'q');
        assert("trust"@.len() == 5 && "untrust"@.len() == 7 && "trust-list"@.len() == 10
            && "permits"@.len() == 7);
        assert("untrust"@[0] == 'u' && "permits"@[0] == 'p');
    }
    if same_text(name, "ping") {
        return Management::Reply("pong".to_owned());
    }
    if !trusted.is_trusted_prefix(source) {
        return Management::Denied;
    }
    if same_text(name, "join") {
        Management::Join(join_words(cmd.args.as_str()))
    } else if same_text(name, "trust") {
        let text = trim(cmd.args.as_str());
        match UserMask::from_str(text.as_str()) {
            Ok(mask) => {
                let mut answer = if trusted.add_trust(&mask) {
                    "I now trust ".to_owned()
                } else {
                    "I already trust ".to_owned()
                };
                answer.append(mask.nick());
                Management::Reply(answer)
            },
            Err(_) => Management::InvalidMask,
        }
    } else if same_text(name, "untrust") {
        Management::ResetTrust
    } else if same_text(name, "trust-list") {
        Management::ListTrust
    } else if same_text(name, "load") {
        let module = trim(cmd.args.as_str());
        if starts_with_https(module.as_str()) {
            Management::LoadUrl(module)
        } else {
            Management::LoadName(module)
        }
    } else if same_text(name, "permits") {
        Management::Permits
    } else if same_text(name, "quit") {
        Management::Quit
    } else {
        Management::Unknown
    }
}

/// The answer to `load`.
pub fn load_answer(result: &Result<String, Error>) -> (r: String)
    ensures
        r@ == match result {
            Ok(name) => "loaded module: "@ + name@,
            Err(_) => "cannot load module (check logs)"@,
        },
{
    match result {
        Ok(name) => {
            let mut text = "loaded module: ".to_owned();
            text.append(name.as_str());
            text
        },
        Err(_) => "cannot load module (check logs)".to_owned(),
    }
}

/// The answer to `permits`.
pub fn permits_answer(available: usize) -> (r: String)
    ensures
        r@ == "available permits: "@ + decimal(available as nat),
{
    let mut text = "available permits: ".to_owned();
    push_decimal(&mut text, available as u128);
    text
}

/// What the bot answers after it ran an entry point: the output; a
/// notice where the run was interrupted; nothing after another error,
/// which only goes to the log.
pub fn run_answer(result: Result<String, Error>, command: &CommandName) -> (r: Option<String>)
    ensures
        match result {
            Ok(output) => r == Some(output),
            Err(Error::TimedOut) => r matches Some(text) && text@ == name_text(command@)
                + " is taking too long to execute and has been interrupted."@,
            Err(_) => r is None,
        },
{
    match result {
        Ok(output) => Some(output),
        Err(Error::TimedOut) => {
            let mut text = command.to_string();
            text.append(" is taking too long to execute and has been interrupted.");
            Some(text)
        },
        Err(_) => None,
    }
}

/// Where the name at the start of a prefix ends: at its first `!` or
/// `@`, or at the end of the text where it holds neither.
pub open spec fn prefix_name_end(text: Seq<char>) -> int
    decreases text.len(),
{
    if text.len() == 0 || text[0] == '!' || text[0] == '@' {
        0
    } else {
        1 + prefix_name_end(text.drop_first())
    }
}

/// The nickname that the `irc` crate reads from a text that names the
/// origin or the target of a message: what stands before the first `!`
/// or `@`. A text with neither that holds `.` is read as the name of a
/// server, and has no nickname.
pub open spec fn prefix_nickname(target: Seq<char>) -> Option<Seq<char>> {
    let end = prefix_name_end(target);
    if end == target.len() && target.contains('.') {
        None
    } else {
        Some(target.take(end))
    }
}

/// Calls `irc::proto::Prefix::new_from_str` and hands back the nickname
/// of the result where it is a user. The contract says what the crate
/// reads: it collects the name up to the first `!` or `@`, and takes the
/// text for a server only where it has met `.` in the name and neither
/// of the two marks.
#[verifier::external_body]
fn nickname_with_irc_crate(target: &str) -> (r: Option<String>)
    ensures
        opt_text(r) == prefix_nickname(target@),
{
    match irc::proto::Prefix::new_from_str(target) {
        irc::proto::Prefix::Nickname(nickname, _, _) => Some(nickname),
        irc::proto::Prefix::ServerName(_) => None,
    }
}

/// The nickname of the bot that a numeric response of the server shows:
/// the response's first argument names its target, which is the bot.
pub fn response_nickname(args: &Vec<String>) -> (r: Option<String>)
    ensures
        opt_text(r) == if args@.len() > 0 {
            prefix_nickname(args@[0]@)
        } else {
            None
        },
{
    if args.len() > 0 {
        nickname_with_irc_crate(args[0].as_str())
    } else {
        None
    }
}

/// Takes note of the nickname that the server has shown for the bot, and
/// tells whether it is another than the one known before, if any was:
/// the bot then asks the server who it is.
pub fn set_last_known_nickname(known: &mut Option<String>, nickname: String) -> (changed: bool)
    ensures
        opt_text(*final(known)) == Some(nickname@),
        changed == (opt_text(*old(known)) != Some(nickname@)),
{
    let changed = match known {
        Some(previous) => !same_text(previous.as_str(), nickname.as_str()),
        None => true,
    };
    *known = Some(nickname);
    changed
}

/// The mask of the bot itself that an answer to `WHOIS` gives: the
/// answer has six arguments, of which the first, the client, is the
/// nickname that was asked for; then follow the user and the host.
pub fn whois_user(args: &Vec<String>) -> (r: Option<UserMask>)
    ensures
        match r {
            Some(mask) => args@.len() == 6 && args@[0]@ == args@[1]@ && mask@ == (
                args@[1]@,
                args@[2]@,
                args@[3]@,
            ),
            None => !(args@.len() == 6 && args@[0]@ == args@[1]@),
        },
{
    if args.len() == 6 && args[0] == args[1] {
        Some(UserMask::from_parts(args[1].as_str(), args[2].as_str(), args[3].as_str()))
    } else {
        None
    }
}

/// The name of a channel as the web surface gives it: the type `hash`
/// stands for `#`, any other type for itself.
pub fn channel_name(chan_type: &str, chan_name: &str) -> (r: String)
    ensures
        r@ == if chan_type@ == "hash"@ {
            "#"@ + chan_name@
        } else {
            chan_type@ + chan_name@
        },
{
    let mut text = if same_text(chan_type, "hash") {
        "#".to_owned()
    } else {
        chan_type.to_owned()
    };
    text.append(chan_name);
    text
}

/// An estimate of the bytes that a relayed message takes besides its
/// payload: `:nick!user@host COMMAND target :` and the line end. The
/// bot's own prefix counts with its length where it is known, and else
/// with `DEFAULT_IF_UNKNOWN`.
pub fn estimate_overhead(known_hostmask: Option<&UserMask>, command: &[u8], target: &str) -> (r:
    usize)
    ensures
        r == clamp(
            (match known_hostmask {
                Some(mask) => clamp(
                    utf8_len(mask@.0) + 1 + utf8_len(mask@.1) + 1 + utf8_len(mask@.2),
                ),
                None => DEFAULT_IF_UNKNOWN as int,
            }) + utf8_len(target@) + command@.len() + 7,
        ),
{
    let prefix_length = match known_hostmask {
        Some(mask) => mask.prefix_length(),
        None => DEFAULT_IF_UNKNOWN,
    };
    prefix_length.saturating_add(byte_len(target)).saturating_add(command.len()).saturating_add(7)
}

/// The mark that starts the first line of an answer.
pub open spec fn first_mark() -> Seq<char> {
    seq!['\x02', '>', '\x0f']
}

/// The mark that starts a later line of an answer.
pub open spec fn later_mark() -> Seq<char> {
    seq!['\x02', ':', '\x0f']
}

/// A line cut to `room` bytes: the line itself where it fits; else as
/// many of its characters as fit together with the sign `…`, which takes
/// three bytes, and then that sign.
pub open spec fn fitted(line: Seq<char>, room: int) -> Seq<char> {
    if utf8_len(line) <= room {
        line
    } else {
        line.take(fit(line, if room >= 3 {
            room - 3
        } else {
            0
        })).push('\u{2026}')
    }
}

/// Whether `c` ends a line.
pub open spec fn is_line_end(c: char) -> bool {
    c == '\r' || c == '\n'
}

/// The lines of `s` that are not empty, in order: its longest pieces
/// without a line end.
pub open spec fn lines(s: Seq<char>) -> Seq<Seq<char>>
    decreases s.len(),
{
    if s.len() == 0 {
        Seq::empty()
    } else if is_line_end(s[0]) {
        lines(s.drop_first())
    } else {
        proof {
            lemma_line_length(s);
        }
        seq![s.take(line_length(s))] + lines(s.skip(line_length(s)))
    }
}

/// The length of the longest prefix of `s` without a line end.
pub open spec fn line_length(s: Seq<char>) -> int
    decreases s.len(),
{
    if s.len() > 0 && !is_line_end(s[0]) {
        1 + line_length(s.drop_first())
    } else {
        0
    }
}

/// A line is no longer than the text, and not empty where the text starts
/// with a character of a line.
pub proof fn lemma_line_length(s: Seq<char>)
    ensures
        0 <= line_length(s) <= s.len(),
        s.len() > 0 && !is_line_end(s[0]) ==> line_length(s) >= 1,
    decreases s.len(),
{
    if s.len() > 0 && !is_line_end(s[0]) {
        lemma_line_length(s.drop_first());
    }
}

/// A run of characters without a line end, ended by a line end or by the
/// end of the text, is the first line.
proof fn lemma_line_is(s: Seq<char>, n: int)
    requires
        0 <= n <= s.len(),
        forall|j: int| 0 <= j < n ==> !is_line_end(s[j]),
        n < s.len() ==> is_line_end(s[n]),
    ensures
        line_length(s) == n,
    decreases n,
{
    if n > 0 {
        let t = s.drop_first();
        assert forall|j: int| 0 <= j < n - 1 implies !is_line_end(t[j]) by {
            assert(t[j] == s[j + 1]);
        }
        lemma_line_is(t, n - 1);
    }
}

/// The messages that carry an answer: one for each line of the answer
/// that is not empty, marked as the first line or as a later one, and
/// cut to the room that `overhead` leaves in a message.
pub open spec fn reply_lines(message: Seq<char>, overhead: int) -> Seq<Seq<char>> {
    let room = if overhead >= MAX_SIZE {
        0
    } else {
        MAX_SIZE - overhead
    };
    Seq::new(
        lines(message).len(),
        |i: int|
            fitted(
                if i == 0 {
                    first_mark()
                } else {
                    later_mark()
                } + lines(message)[i],
                room,
            ),
    )
}

/// The length of `chars` in bytes, as far as it matters: the length
/// itself where it is not above `limit`, and else some number above
/// `limit`.
fn bounded_len(chars: &Vec<char>, limit: usize) -> (n: usize)
    requires
        limit < usize::MAX - 4,
    ensures
        utf8_len(chars@) <= limit ==> n == utf8_len(chars@),
        utf8_len(chars@) > limit ==> n > limit,
{
    let mut n: usize = 0;
    let mut i: usize = 0;
    proof {
        assert(chars@.take(0) =~= Seq::<char>::empty());
        assert(vstd::utf8::encode_utf8(Seq::<char>::empty()) =~= Seq::<u8>::empty());
    }
    while i < chars.len() && n <= limit
        invariant
            i <= chars@.len(),
            limit < usize::MAX - 4,
            n <= limit + 4,
            n == utf8_len(chars@.take(i as int)),
        decreases chars@.len() - i,
    {
        proof {
            assert(chars@.take(i + 1) =~= chars@.take(i as int).push(chars@[i as int]));
            lemma_utf8_len_push(chars@.take(i as int), chars@[i as int]);
        }
        n += width(chars[i]);
        i += 1;
    }
    proof {
        if i < chars@.len() {
            lemma_utf8_len_grows(chars@, i as int);
        } else {
            assert(chars@.take(i as int) =~= chars@);
        }
    }
    n
}

/// A text is no shorter than its start.
proof fn lemma_utf8_len_grows(text: Seq<char>, i: int)
    requires
        0 <= i <= text.len(),
    ensures
        utf8_len(text.take(i)) <= utf8_len(text),
    decreases text.len() - i,
{
    if i < text.len() {
        lemma_utf8_len_grows(text, i + 1);
        assert(text.take(i + 1) =~= text.take(i).push(text[i]));
        lemma_utf8_len_push(text.take(i), text[i]);
    } else {
        assert(text.take(i) =~= text);
    }
}

/// `chars` cut to `room` bytes.
fn fit_line(chars: &Vec<char>, room: usize) -> (r: String)
    requires
        room <= MAX_SIZE,
    ensures
        r@ == fitted(chars@, room as int),
{
    if bounded_len(chars, room) <= room {
        return string_of(chars, 0, chars.len());
    }
    let mut left: usize = if room >= 3 {
        room - 3
    } else {
        0
    };
    let ghost whole = left as int;
    let mut k: usize = 0;
    proof {
        assert(chars@.skip(0) =~= chars@);
    }
    while k < chars.len() && width(chars[k]) <= left
        invariant
            k <= chars@.len(),
            fit(chars@, whole) == k + fit(chars@.skip(k as int), left as int),
        decreases chars@.len() - k,
    {
        proof {
            assert(chars@.skip(k as int)[0] == chars@[k as int]);
            assert(chars@.skip(k as int).drop_first() =~= chars@.skip(k + 1));
        }
        left -= width(chars[k]);
        k += 1;
    }
    proof {
        if k < chars@.len() {
            assert(chars@.skip(k as int)[0] == chars@[k as int]);
        }
        assert(chars@.subrange(0, k as int) =~= chars@.take(k as int));
    }
    let mut out = string_of(chars, 0, k);
    out.push('\u{2026}');
    out
}

/// Cuts an answer into the messages that carry it, given the overhead of
/// a message.
pub fn reply(message: &str, overhead: usize) -> (r: Vec<String>)
    ensures
        r@.len() == reply_lines(message@, overhead as int).len(),
        forall|i: int| 0 <= i < r@.len() ==> (#[trigger] r@[i])@ == reply_lines(
            message@,
            overhead as int,
        )[i],
{
    let room = MAX_SIZE.saturating_sub(overhead);
    let chars = chars_of(message);
    let n = chars.len();
    let ghost whole = lines(chars@);
    let mut out: Vec<String> = Vec::new();
    let mut pos: usize = 0;
    proof {
        assert(chars@.skip(0) =~= chars@);
    }
    while pos < n
        invariant
            pos <= n == chars@.len(),
            chars@ == message@,
            room <= MAX_SIZE,
            room == if overhead >= MAX_SIZE {
                0
            } else {
                MAX_SIZE - overhead
            },
            whole == lines(chars@),
            whole.len() == out@.len() + lines(chars@.skip(pos as int)).len(),
            forall|k: int|
                0 <= k < out@.len() ==> (#[trigger] out@[k])@ == reply_lines(
                    message@,
                    overhead as int,
                )[k],
            forall|k: int|
                0 <= k < whole.len() - out@.len() ==> #[trigger] whole[out@.len() + k] == lines(
                    chars@.skip(pos as int),
                )[k],
        decreases n - pos,
    {
        let ghost rest = chars@.skip(pos as int);
        if chars[pos] == '\r' || chars[pos] == '\n' {
            proof {
                assert(rest.drop_first() =~= chars@.skip(pos + 1));
            }
            pos += 1;
        } else {
            let start = pos;
            let mut end: usize = pos + 1;
            while end < n && chars[end] != '\r' && chars[end] != '\n'
                invariant
                    start < end <= n == chars@.len(),
                    forall|j: int| start <= j < end ==> !is_line_end(chars@[j]),
                decreases n - end,
            {
                end += 1;
            }
            let mut line: Vec<char> = Vec::new();
            line.push('\x02');
            line.push(if out.len() == 0 {
                '>'
            } else {
                ':'
            });
            line.push('\x0f');
            let mut j: usize = start;
            while j < end
                invariant
                    start <= j <= end <= chars@.len(),
                    line@ == (if out@.len() == 0 {
                        first_mark()
                    } else {
                        later_mark()
                    }) + chars@.subrange(start as int, j as int),
                decreases end - j,
            {
                line.push(chars[j]);
                j += 1;
            }
            let text = fit_line(&line, room);
            proof {
                let len = end - start;
                assert forall|j: int| 0 <= j < len implies !is_line_end(rest[j]) by {
                    assert(rest[j] == chars@[start + j]);
                }
                lemma_line_is(rest, len);
                let tail = lines(rest.skip(len));
                assert(lines(rest) == seq![rest.take(len)] + tail);
                assert(rest.take(len) =~= chars@.subrange(start as int, end as int));
                assert(rest.skip(len) =~= chars@.skip(end as int));
                assert(whole[out@.len() + 0int] == lines(rest)[0]);
                assert forall|k: int|
                    0 <= k < whole.len() - out@.len() - 1 implies #[trigger] whole[out@.len() + 1
                    + k] == tail[k] by {
                    assert(whole[out@.len() + (k + 1)] == lines(rest)[k + 1]);
                }
            }
            out.push(text);
            pos = end;
        }
    }
    out
}

/// A layer of the throttle on outgoing messages: a bucket of `max`
/// tokens that gains one token every `refill_every_millis` milliseconds.
#[derive(Debug, Clone, Copy, PartialEq, Eq)]
pub struct Layer {
    pub max: usize,
    pub refill_every_millis: u64,
}

/// The layers of the throttle on outgoing messages. A message goes out
/// when every layer has a token for it.
pub fn throttle_layers() -> (r: Vec<Layer>)
    ensures
        r@ == seq![
            Layer { max: 5, refill_every_millis: 2500 },
            Layer { max: 2, refill_every_millis: 150 },
            Layer { max: 1, refill_every_millis: 50 },
        ],
{
    let mut layers: Vec<Layer> = Vec::new();
    layers.push(Layer { max: 5, refill_every_millis: 2500 });
    layers.push(Layer { max: 2, refill_every_millis: 150 });
    layers.push(Layer { max: 1, refill_every_millis: 50 });
    layers
}

} // verus!
