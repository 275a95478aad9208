//! The authority program's command line: which subcommand is asked for,
//! the options of `recovery`, and the recovery confirmation answer.
use vstd::prelude::*;

use crate::text::{chars_of, copy_string, str_eq, str_starts_with, starts_with, trim, trim_chars};

verus! {

/// Whether `c` is an ASCII decimal digit.
pub open spec fn is_digit(c: char) -> bool {
    '0' <= c <= '9'
}

/// The value of a string of decimal digits.
pub open spec fn digits_value(s: Seq<char>) -> nat
    decreases s.len(),
{
    if s.len() == 0 {
        0
    } else {
        digits_value(s.drop_last()) * 10 + (s.last() as nat - '0' as nat) as nat
    }
}

/// The value that `str::parse::<u64>` reads from a text: an optional `+`,
/// then one or more decimal digits, of a value that fits in 64 bits.
pub open spec fn u64_text_value(s: Seq<char>) -> Option<nat> {
    let d = if s.len() > 0 && s[0] == '+' {
        s.drop_first()
    } else {
        s
    };
    if d.len() > 0 && (forall|i: int| 0 <= i < d.len() ==> is_digit(#[trigger] d[i]))
        && digits_value(d) <= u64::MAX {
        Some(digits_value(d))
    } else {
        None
    }
}

/// The text of the `ParseIntError` that `str::parse::<u64>` gives for a
/// text it refuses (its `Display`), a function of the text alone.
pub uninterp spec fn u64_error_text(s: Seq<char>) -> Seq<char>;

/// Parses an unsigned 64-bit integer (`str::parse::<u64>`), giving the
/// `ParseIntError` message on failure. The std documentation of `from_str`
/// accepts exactly an optional `+` and ASCII digits of a value in range; the
/// message is the one `u64_error_text` names for the text, its wording is
/// not stated.
#[verifier::external_body]
fn parse_u64(s: &str) -> (r: Result<u64, String>)
    ensures
        r is Ok <==> u64_text_value(s@) is Some,
        r matches Ok(v) ==> u64_text_value(s@) == Some(v as nat),
        r matches Err(m) ==> m@ == u64_error_text(s@),
{
    s.parse::<u64>().map_err(|e| e.to_string())
}

/// Options of the `recovery` subcommand.
#[derive(Debug)]
pub struct RecoveryArgs {
    pub root: Option<String>,
    pub list: bool,
    pub to_seq: Option<u64>,
    pub confirmed: bool,
}

/// What the command line asks for.
#[derive(Debug)]
pub enum Command {
    /// `auth instruction`: print the instruction text.
    AuthInstruction,
    /// `auth prompt [root]`: print the injected prompt.
    AuthPrompt { root: Option<String> },
    /// `recovery ...`
    Recovery(RecoveryArgs),
    /// Anything else: run the server on the given root.
    Serve { root: Option<String> },
}

/// A command line that cannot be used.
#[derive(Debug)]
pub enum ArgError {
    /// `--to-sequence` is the last argument.
    MissingSequence,
    /// The number after `--to-sequence` does not parse; the parse error's text.
    InvalidSequence(String),
    /// An option that `recovery` does not know.
    UnknownOption(String),
    /// A second positional argument of `recovery`.
    UnexpectedArgument(String),
}

/// The result of parsing `recovery`'s arguments from position `idx` on,
/// with the options gathered so far.
pub open spec fn recovery_parse(
    a: Seq<Seq<char>>,
    idx: int,
    root: Option<Seq<char>>,
    list: bool,
    to_seq: Option<nat>,
    confirmed: bool,
) -> Result<(Option<Seq<char>>, bool, Option<nat>, bool), ArgErrorView>
    decreases a.len() - idx,
{
    if idx >= a.len() {
        Ok((root, list, to_seq, confirmed))
    } else {
        let x = a[idx];
        if x == "--yes"@ || x == "-y"@ {
            recovery_parse(a, idx + 1, root, list, to_seq, true)
        } else if x == "--list"@ {
            recovery_parse(a, idx + 1, root, true, to_seq, confirmed)
        } else if x == "--to-sequence"@ {
            if idx + 1 >= a.len() {
                Err(ArgErrorView::MissingSequence)
            } else {
                match u64_text_value(a[idx + 1]) {
                    Some(v) => recovery_parse(a, idx + 2, root, list, Some(v), confirmed),
                    None => Err(ArgErrorView::InvalidSequence(u64_error_text(a[idx + 1]))),
                }
            }
        } else if starts_with(x, "-"@) {
            Err(ArgErrorView::UnknownOption(x))
        } else if root is None {
            recovery_parse(a, idx + 1, Some(x), list, to_seq, confirmed)
        } else {
            Err(ArgErrorView::UnexpectedArgument(x))
        }
    }
}

/// The plain value of an [`ArgError`].
pub enum ArgErrorView {
    MissingSequence,
    InvalidSequence(Seq<char>),
    UnknownOption(Seq<char>),
    UnexpectedArgument(Seq<char>),
}

/// The plain value of an [`ArgError`].
pub open spec fn arg_error_view(e: ArgError) -> ArgErrorView {
    match e {
        ArgError::MissingSequence => ArgErrorView::MissingSequence,
        ArgError::InvalidSequence(m) => ArgErrorView::InvalidSequence(m@),
        ArgError::UnknownOption(x) => ArgErrorView::UnknownOption(x@),
        ArgError::UnexpectedArgument(x) => ArgErrorView::UnexpectedArgument(x@),
    }
}

/// The plain value of an optional string.
pub open spec fn opt_view(o: Option<String>) -> Option<Seq<char>> {
    match o {
        Some(s) => Some(s@),
        None => None,
    }
}

/// The plain value of recovery options.
pub open spec fn recovery_view(r: RecoveryArgs) -> (Option<Seq<char>>, bool, Option<nat>, bool) {
    (
        opt_view(r.root),
        r.list,
        match r.to_seq {
            Some(v) => Some(v as nat),
            None => None,
        },
        r.confirmed,
    )
}

/// Parses `recovery`'s arguments, `args[2..]`.
fn parse_recovery(args: &Vec<String>) -> (r: Result<RecoveryArgs, ArgError>)
    requires
        args.len() >= 2,
    ensures
        match r {
            Ok(ra) => recovery_parse(args.deep_view(), 2, None, false, None, false) == Ok::<
                _,
                ArgErrorView,
            >(recovery_view(ra)),
            Err(e) => recovery_parse(args.deep_view(), 2, None, false, None, false) == Err::<
                (Option<Seq<char>>, bool, Option<nat>, bool),
                _,
            >(arg_error_view(e)),
        },
{
    let ghost a = args.deep_view();
    let mut root: Option<String> = None;
    let mut list = false;
    let mut to_seq: Option<u64> = None;
    let mut confirmed = false;
    let mut idx: usize = 2;
    proof {
        reveal_strlit("-");
    }
    while idx < args.len()
        invariant
            a == args.deep_view(),
            2 <= idx <= args.len(),
            "-"@ == seq!['-'],
            recovery_parse(a, idx as int, opt_view(root), list, match to_seq {
                Some(v) => Some(v as nat),
                None => None,
            }, confirmed) == recovery_parse(a, 2, None, false, None, false),
        decreases args.len() - idx,
    {
        assert(a[idx as int] == args@[idx as int]@);
        let x = args[idx].as_str();
        if str_eq(x, "--yes") || str_eq(x, "-y") {
            confirmed = true;
        } else if str_eq(x, "--list") {
            list = true;
        } else if str_eq(x, "--to-sequence") {
            idx += 1;
            if idx >= args.len() {
                return Err(ArgError::MissingSequence);
            }
            assert(a[idx as int] == args@[idx as int]@);
            match parse_u64(args[idx].as_str()) {
                Ok(v) => {
                    to_seq = Some(v);
                },
                Err(msg) => {
                    return Err(ArgError::InvalidSequence(msg));
                },
            }
        } else if str_starts_with(x, "-") {
            return Err(ArgError::UnknownOption(x.to_owned()));
        } else if root.is_none() {
            root = Some(x.to_owned());
        } else {
            return Err(ArgError::UnexpectedArgument(x.to_owned()));
        }
        idx += 1;
    }
    Ok(RecoveryArgs { root, list, to_seq, confirmed })
}

/// The plain value of a command.
pub enum CommandView {
    AuthInstruction,
    AuthPrompt(Option<Seq<char>>),
    Recovery((Option<Seq<char>>, bool, Option<nat>, bool)),
    Serve(Option<Seq<char>>),
}

/// The plain value of a [`Command`].
pub open spec fn command_view(c: Command) -> CommandView {
    match c {
        Command::AuthInstruction => CommandView::AuthInstruction,
        Command::AuthPrompt { root } => CommandView::AuthPrompt(opt_view(root)),
        Command::Recovery(ra) => CommandView::Recovery(recovery_view(ra)),
        Command::Serve { root } => CommandView::Serve(opt_view(root)),
    }
}

/// The argument at `i`, if there is one.
pub open spec fn arg_at(a: Seq<Seq<char>>, i: int) -> Option<Seq<char>> {
    if 0 <= i < a.len() {
        Some(a[i])
    } else {
        None
    }
}

/// What a command line (`args[0]` the program name) asks for.
pub open spec fn command_of(a: Seq<Seq<char>>) -> Result<CommandView, ArgErrorView> {
    if a.len() >= 3 && a[1] == "auth"@ && a[2] == "instruction"@ {
        Ok(CommandView::AuthInstruction)
    } else if a.len() >= 3 && a[1] == "auth"@ && a[2] == "prompt"@ {
        Ok(CommandView::AuthPrompt(arg_at(a, 3)))
    } else if a.len() >= 3 && a[1] == "recovery"@ {
        match recovery_parse(a, 2, None, false, None, false) {
            Ok(v) => Ok(CommandView::Recovery(v)),
            Err(e) => Err(e),
        }
    } else {
        Ok(CommandView::Serve(arg_at(a, 1)))
    }
}

proof fn lemma_parse_agrees(
    a: Seq<Seq<char>>,
    b: Seq<Seq<char>>,
    idx: int,
    root: Option<Seq<char>>,
    list: bool,
    to_seq: Option<nat>,
    confirmed: bool,
)
    requires
        a.len() == b.len(),
        0 <= idx,
        forall|k: int| idx <= k < a.len() ==> a[k] == b[k],
    ensures
        recovery_parse(a, idx, root, list, to_seq, confirmed) == recovery_parse(
            b,
            idx,
            root,
            list,
            to_seq,
            confirmed,
        ),
    decreases a.len() - idx,
{
    if idx < a.len() {
        let x = a[idx];
        assert(b[idx] == x);
        if x == "--yes"@ || x == "-y"@ {
            lemma_parse_agrees(a, b, idx + 1, root, list, to_seq, true);
        } else if x == "--list"@ {
            lemma_parse_agrees(a, b, idx + 1, root, true, to_seq, confirmed);
        } else if x == "--to-sequence"@ {
            if idx + 1 < a.len() {
                assert(b[idx + 1] == a[idx + 1]);
                match u64_text_value(a[idx + 1]) {
                    Some(v) => lemma_parse_agrees(a, b, idx + 2, root, list, Some(v), confirmed),
                    None => {},
                }
            }
        } else if starts_with(x, "-"@) {
        } else if root is None {
            lemma_parse_agrees(a, b, idx + 1, Some(x), list, to_seq, confirmed);
        }
    }
}

proof fn lemma_yes_swap(
    a: Seq<Seq<char>>,
    idx: int,
    root: Option<Seq<char>>,
    list: bool,
    to_seq: Option<nat>,
    confirmed: bool,
    i: int,
)
    requires
        0 <= idx <= i < a.len(),
        a[i] == "--yes"@,
        i == idx || a[i - 1] != "--to-sequence"@,
    ensures
        recovery_parse(a, idx, root, list, to_seq, confirmed) == recovery_parse(
            a.update(i, "-y"@),
            idx,
            root,
            list,
            to_seq,
            confirmed,
        ),
    decreases i - idx,
{
    let b = a.update(i, "-y"@);
    if idx == i {
        lemma_parse_agrees(a, b, i + 1, root, list, to_seq, true);
    } else {
        let x = a[idx];
        assert(b[idx] == x);
        if x == "--yes"@ || x == "-y"@ {
            lemma_yes_swap(a, idx + 1, root, list, to_seq, true, i);
        } else if x == "--list"@ {
            lemma_yes_swap(a, idx + 1, root, true, to_seq, confirmed, i);
        } else if x == "--to-sequence"@ {
            assert(idx + 1 != i);
            assert(b[idx + 1] == a[idx + 1]);
            match u64_text_value(a[idx + 1]) {
                Some(v) => lemma_yes_swap(a, idx + 2, root, list, Some(v), confirmed, i),
                None => {},
            }
        } else if starts_with(x, "-"@) {
        } else if root is None {
            lemma_yes_swap(a, idx + 1, Some(x), list, to_seq, confirmed, i);
        }
    }
}

/// `--yes` and `-y` are one option: either, read where an option is
/// expected, confirms the recovery and parsing goes on with the next
/// argument, whatever was read before.
pub proof fn law_yes_flag_confirms(
    a: Seq<Seq<char>>,
    idx: int,
    root: Option<Seq<char>>,
    list: bool,
    to_seq: Option<nat>,
    confirmed: bool,
)
    requires
        0 <= idx < a.len(),
        a[idx] == "--yes"@ || a[idx] == "-y"@,
    ensures
        recovery_parse(a, idx, root, list, to_seq, confirmed) == recovery_parse(
            a,
            idx + 1,
            root,
            list,
            to_seq,
            true,
        ),
{
}

/// Writing `-y` for `--yes` anywhere on a `recovery` command line (other
/// than as the value of `--to-sequence`) gives the same command, or the
/// same error.
pub proof fn law_yes_and_y_are_one_option(a: Seq<Seq<char>>, i: int)
    requires
        a.len() >= 3,
        a[1] == "recovery"@,
        2 <= i < a.len(),
        a[i] == "--yes"@,
        i == 2 || a[i - 1] != "--to-sequence"@,
    ensures
        command_of(a) == command_of(a.update(i, "-y"@)),
{
    reveal_strlit("recovery");
    reveal_strlit("auth");
    let b = a.update(i, "-y"@);
    assert(b[1] == a[1]);
    assert(a[1] != "auth"@);
    lemma_yes_swap(a, 2, None, false, None, false, i);
}

fn arg_copy(args: &Vec<String>, i: usize) -> (r: Option<String>)
    ensures
        opt_view(r) == arg_at(args.deep_view(), i as int),
{
    if i < args.len() {
        Some(copy_string(&args[i]))
    } else {
        None
    }
}

/// Reads the command line of the authority program.
pub fn parse_command(args: &Vec<String>) -> (r: Result<Command, ArgError>)
    ensures
        match r {
            Ok(c) => command_of(args.deep_view()) == Ok::<_, ArgErrorView>(command_view(c)),
            Err(e) => command_of(args.deep_view()) == Err::<CommandView, _>(arg_error_view(e)),
        },
{
    let ghost a = args.deep_view();
    if args.len() >= 3 {
        assert(a[1] == args@[1]@ && a[2] == args@[2]@);
    }
    if args.len() >= 3 && str_eq(args[1].as_str(), "auth") && str_eq(args[2].as_str(), "instruction") {
        Ok(Command::AuthInstruction)
    } else if args.len() >= 3 && str_eq(args[1].as_str(), "auth") && str_eq(args[2].as_str(), "prompt") {
        Ok(Command::AuthPrompt { root: arg_copy(args, 3) })
    } else if args.len() >= 3 && str_eq(args[1].as_str(), "recovery") {
        match parse_recovery(args) {
            Ok(ra) => Ok(Command::Recovery(ra)),
            Err(e) => Err(e),
        }
    } else {
        Ok(Command::Serve { root: arg_copy(args, 1) })
    }
}

/// What `recovery` does with its options.
#[derive(Debug, PartialEq, Eq, Structural)]
pub enum RecoveryAction {
    /// Print the record log, newest first.
    ListLog,
    /// Neither `--list` nor `--to-sequence` was given.
    MissingTarget,
    /// Recover to a sequence, asking the user first unless `--yes` was given.
    Recover { to_seq: u64, ask_first: bool },
}

/// Decides what `recovery` does with its options.
pub fn recovery_action(args: &RecoveryArgs) -> (r: RecoveryAction)
    ensures
        r == if args.list {
            RecoveryAction::ListLog
        } else {
            match args.to_seq {
                None => RecoveryAction::MissingTarget,
                Some(s) => RecoveryAction::Recover { to_seq: s, ask_first: !args.confirmed },
            }
        },
{
    if args.list {
        RecoveryAction::ListLog
    } else {
        match args.to_seq {
            None => RecoveryAction::MissingTarget,
            Some(s) => RecoveryAction::Recover { to_seq: s, ask_first: !args.confirmed },
        }
    }
}

/// Whether `c` lowercases (`to_ascii_lowercase`) to the letter whose two
/// cases are `lower` and `upper`.
pub open spec fn same_letter(c: char, lower: char, upper: char) -> bool {
    c == lower || c == upper
}

/// Whether an answer confirms recovery: `y` or `yes`, in any ASCII case,
/// around whitespace.
pub open spec fn confirms(input: Seq<char>) -> bool {
    let t = trim(input);
    (t.len() == 1 && same_letter(t[0], 'y', 'Y')) || (t.len() == 3 && same_letter(t[0], 'y', 'Y')
        && same_letter(t[1], 'e', 'E') && same_letter(t[2], 's', 'S'))
}

/// Whether the user's answer confirms a recovery.
pub fn is_confirmation(input: &str) -> (r: bool)
    ensures
        r == confirms(input@),
{
    let cs = chars_of(input);
    let t = trim_chars(&cs);
    if t.len() == 1 {
        t[0] == 'y' || t[0] == 'Y'
    } else if t.len() == 3 {
        (t[0] == 'y' || t[0] == 'Y') && (t[1] == 'e' || t[1] == 'E') && (t[2] == 's' || t[2] == 'S')
    } else {
        false
    }
}

} // verus!
