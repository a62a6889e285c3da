//! The actions that a device offers: a command line per operating system,
//! with `%1` / `$1` style placeholders for the arguments.
use vstd::prelude::*;

use crate::message::{copy_strings, strings_view, Action};
use crate::text::{
    chars_equal, chars_of, decimal, decimal_chars, digit_value, is_digit, replace_all,
    replace_chars, string_of,
};

verus! {

/// The operating systems an action can define a command for.
#[derive(Debug, Clone, Copy, PartialEq, Eq, Structural)]
pub enum Platform {
    Linux,
    MacOs,
    Windows,
    Other,
}

/// An action as the device's configuration defines it.
#[derive(Debug)]
pub struct ActionDefinition {
    pub name: String,
    pub linux: Option<String>,
    pub macos: Option<String>,
    pub windows: Option<String>,
}

/// A program and its arguments, ready to be started.
#[derive(Debug)]
pub struct CommandLine {
    pub program: String,
    pub args: Vec<String>,
}

/// Why an action could not be turned into a command line.
#[derive(Debug, Clone, Copy, PartialEq, Eq, Structural)]
pub enum CommandError {
    /// The action defines no command for this platform.
    NotDefined,
    /// The command's quoting is unbalanced.
    Unparsable,
    /// The command holds no word.
    Empty,
    /// Fewer arguments were given than the command's placeholders ask for.
    MissingArguments { required: usize, given: usize },
}

pub open spec fn opt_view(o: Option<String>) -> Option<Seq<char>> {
    match o {
        Some(s) => Some(s@),
        None => None,
    }
}

/// How far the scan for placeholders has come: the largest number seen, the
/// digits read after the last `%` or `$`, and whether digits are expected.
pub struct ArgScan {
    pub max: nat,
    pub value: nat,
    pub digits: bool,
    pub expect: bool,
}

/// The number that the digits read so far name; none, or too many to fit a
/// `usize`, count as 0.
pub open spec fn arg_number(st: ArgScan) -> nat {
    if st.digits && st.value <= usize::MAX {
        st.value
    } else {
        0
    }
}

pub open spec fn max_nat(a: nat, b: nat) -> nat {
    if a >= b {
        a
    } else {
        b
    }
}

/// One character of the scan. A `%` or `$` makes digits expected; expected
/// digits accumulate; any other character after them ends the number.
pub open spec fn scan_step(st: ArgScan, c: char) -> ArgScan {
    if c == '%' || c == '$' {
        ArgScan { expect: true, ..st }
    } else if st.expect && is_digit(c) {
        ArgScan { value: st.value * 10 + digit_value(c), digits: true, ..st }
    } else if st.expect {
        ArgScan { max: max_nat(st.max, arg_number(st)), value: 0, digits: false, expect: false }
    } else {
        st
    }
}

pub open spec fn scan_args(s: Seq<char>) -> ArgScan
    decreases s.len(),
{
    if s.len() == 0 {
        ArgScan { max: 0, value: 0, digits: false, expect: false }
    } else {
        scan_step(scan_args(s.drop_last()), s.last())
    }
}

/// The largest placeholder number in a command.
pub open spec fn required_args_in(s: Seq<char>) -> nat {
    max_nat(scan_args(s).max, arg_number(scan_args(s)))
}

/// The placeholder for argument `k` (counted from 1) with the given sigil.
pub open spec fn placeholder(sigil: char, k: nat) -> Seq<char> {
    seq![sigil] + decimal(k)
}

/// `w` with the placeholders of arguments `n` down to 1 replaced, in that
/// order, `%k` before `$k`.
pub open spec fn substitute(w: Seq<char>, args: Seq<Seq<char>>, n: nat) -> Seq<char>
    decreases n,
{
    if n == 0 || n > args.len() {
        w
    } else {
        let a = args[n - 1];
        substitute(
            replace_all(replace_all(w, placeholder('%', n), a), placeholder('$', n), a),
            args,
            (n - 1) as nat,
        )
    }
}

/// The command line for the words of a command, or why there is none.
pub open spec fn command_from_words_spec(
    words: Seq<Seq<char>>,
    required: nat,
    args: Seq<Seq<char>>,
) -> Result<(Seq<char>, Seq<Seq<char>>), CommandError> {
    if words.len() == 0 {
        Err(CommandError::Empty)
    } else if args.len() < required {
        Err(CommandError::MissingArguments { required: required as usize, given: args.len() as usize })
    } else {
        Ok((words[0], words.skip(1).map_values(|w: Seq<char>| substitute(w, args, args.len()))))
    }
}

/// A command line, or why there is none, as the contracts see it.
pub open spec fn command_view(r: Result<CommandLine, CommandError>) -> Result<
    (Seq<char>, Seq<Seq<char>>),
    CommandError,
> {
    match r {
        Ok(c) => Ok((c.program@, strings_view(c.args@))),
        Err(e) => Err(e),
    }
}

/// What running the definition `d` on `platform` with `args` comes to: no
/// command for the platform, unbalanced quoting, or the command line built
/// from the command's words.
pub open spec fn command_outcome(
    d: ActionDefinition,
    platform: Platform,
    args: Seq<Seq<char>>,
    out: Result<(Seq<char>, Seq<Seq<char>>), CommandError>,
) -> bool {
    match d.command_for(platform) {
        None => out == Err::<(Seq<char>, Seq<Seq<char>>), CommandError>(CommandError::NotDefined),
        Some(c) => match shell_split(c) {
            None => out == Err::<(Seq<char>, Seq<Seq<char>>), CommandError>(
                CommandError::Unparsable,
            ),
            Some(words) => out == command_from_words_spec(words, d.required_args_spec(platform), args),
        },
    }
}

/// The words of a command line under shell quoting rules, or `None` where
/// the quoting is unbalanced.
pub uninterp spec fn shell_split(s: Seq<char>) -> Option<Seq<Seq<char>>>;

/// Relies on `shell_words::split`: splits a command line into words under
/// shell quoting rules, failing on unbalanced quoting; the result depends on
/// the text alone.
#[verifier::external_body]
fn split_words(s: &str) -> (r: Option<Vec<String>>)
    ensures
        match r {
            Some(v) => shell_split(s@) == Some(strings_view(v@)),
            None => shell_split(s@).is_none(),
        },
{
    shell_words::split(s).ok()
}

fn copy_option(o: &Option<String>) -> (r: Option<String>)
    ensures
        opt_view(r) == opt_view(*o),
{
    match o {
        Some(s) => Some(s.clone()),
        None => None,
    }
}

/// Counts the placeholders of `s`: the largest number after a `%` or `$`.
fn scan_required_args(s: &str) -> (r: usize)
    ensures
        r == required_args_in(s@),
{
    let cs = chars_of(s);
    let mut max_arg: usize = 0;
    let mut value: usize = 0;
    let mut overflow = false;
    let mut digits = false;
    let mut expect = false;
    let mut i: usize = 0;
    while i < cs.len()
        invariant
            i <= cs@.len(),
            cs@ == s@,
            ({
                let st = scan_args(cs@.take(i as int));
                &&& max_arg == st.max
                &&& digits == st.digits
                &&& expect == st.expect
                &&& overflow == (st.value > usize::MAX)
                &&& !overflow ==> value == st.value
            }),
        decreases cs@.len() - i,
    {
        let c = cs[i];
        let ghost st = scan_args(cs@.take(i as int));
        proof {
            assert(cs@.take(i + 1).drop_last() =~= cs@.take(i as int));
        }
        if c == '%' || c == '$' {
            expect = true;
        } else if expect && '0' <= c && c <= '9' {
            let d = (c as u32 - '0' as u32) as usize;
            assert(d == digit_value(c));
            if !overflow {
                match value.checked_mul(10) {
                    Some(v) => match v.checked_add(d) {
                        Some(w) => {
                            value = w;
                        },
                        None => {
                            overflow = true;
                        },
                    },
                    None => {
                        overflow = true;
                        assert(st.value * 10 + d > usize::MAX) by (nonlinear_arith)
                            requires
                                st.value * 10 > usize::MAX,
                                d >= 0,
                        ;
                    },
                }
            } else {
                assert(st.value * 10 + d > usize::MAX) by (nonlinear_arith)
                    requires
                        st.value > usize::MAX,
                        d >= 0,
                ;
            }
            digits = true;
        } else if expect {
            let n = if digits && !overflow {
                value
            } else {
                0
            };
            if n > max_arg {
                max_arg = n;
            }
            value = 0;
            overflow = false;
            digits = false;
            expect = false;
        }
        i = i + 1;
    }
    proof {
        assert(cs@.take(cs@.len() as int) =~= cs@);
    }
    let n = if digits && !overflow {
        value
    } else {
        0
    };
    if n > max_arg {
        n
    } else {
        max_arg
    }
}

/// `word` with the placeholders of every argument replaced by its value.
fn substitute_word(word: &String, args: &Vec<String>) -> (r: String)
    ensures
        r@ == substitute(word@, strings_view(args@), args@.len() as nat),
{
    let ghost a = strings_view(args@);
    let mut cur = chars_of(word.as_str());
    let mut j: usize = args.len();
    while j > 0
        invariant
            j <= args@.len(),
            a == strings_view(args@),
            substitute(cur@, a, j as nat) == substitute(word@, a, args@.len() as nat),
        decreases j,
    {
        let value = chars_of(args[j - 1].as_str());
        let mut pct: Vec<char> = Vec::new();
        pct.push('%');
        let mut dollar: Vec<char> = Vec::new();
        dollar.push('$');
        let digits = decimal_chars(j);
        let mut k: usize = 0;
        while k < digits.len()
            invariant
                k <= digits@.len(),
                pct@ == seq!['%'] + digits@.take(k as int),
                dollar@ == seq!['$'] + digits@.take(k as int),
            decreases digits@.len() - k,
        {
            pct.push(digits[k]);
            dollar.push(digits[k]);
            k = k + 1;
            assert(pct@ =~= seq!['%'] + digits@.take(k as int));
            assert(dollar@ =~= seq!['$'] + digits@.take(k as int));
        }
        proof {
            assert(digits@.take(digits@.len() as int) =~= digits@);
            assert(value@ == a[j - 1]);
        }
        let once = replace_chars(&cur, &pct, &value);
        cur = replace_chars(&once, &dollar, &value);
        j = j - 1;
    }
    string_of(&cur)
}

impl ActionDefinition {
    /// The command this action defines for `platform`.
    pub open spec fn command_for(&self, platform: Platform) -> Option<Seq<char>> {
        match platform {
            Platform::Linux => opt_view(self.linux),
            Platform::MacOs => opt_view(self.macos),
            Platform::Windows => opt_view(self.windows),
            Platform::Other => None,
        }
    }

    /// The number of arguments this action needs on `platform`.
    pub open spec fn required_args_spec(&self, platform: Platform) -> nat {
        match self.command_for(platform) {
            Some(c) => required_args_in(c),
            None => 0,
        }
    }

    /// A copy of this definition.
    pub fn duplicate(&self) -> (r: ActionDefinition)
        ensures
            r.name@ == self.name@,
            opt_view(r.linux) == opt_view(self.linux),
            opt_view(r.macos) == opt_view(self.macos),
            opt_view(r.windows) == opt_view(self.windows),
    {
        ActionDefinition {
            name: self.name.clone(),
            linux: copy_option(&self.linux),
            macos: copy_option(&self.macos),
            windows: copy_option(&self.windows),
        }
    }

    /// The first definition named `name`, if any.
    pub fn find_by_name(name: &String, actions: &Vec<ActionDefinition>) -> (r: Option<
        ActionDefinition,
    >)
        ensures
            match r {
                Some(d) => exists|i: int|
                    0 <= i < actions@.len() && #[trigger] actions@[i].name@ == name@ && (forall|
                        k: int,
                    |
                        0 <= k < i ==> #[trigger] actions@[k].name@ != name@) && d.name@
                        == actions@[i].name@ && opt_view(d.linux) == opt_view(actions@[i].linux)
                        && opt_view(d.macos) == opt_view(actions@[i].macos) && opt_view(d.windows)
                        == opt_view(actions@[i].windows),
                None => forall|k: int| 0 <= k < actions@.len() ==> #[trigger] actions@[k].name@ != name@,
            },
    {
        let mut i: usize = 0;
        while i < actions.len()
            invariant
                i <= actions@.len(),
                forall|k: int| 0 <= k < i ==> #[trigger] actions@[k].name@ != name@,
            decreases actions@.len() - i,
        {
            if actions[i].name.eq(name) {
                return Some(actions[i].duplicate());
            }
            i = i + 1;
        }
        None
    }

    /// The command this action defines for `platform`, if any.
    pub fn command_string(&self, platform: Platform) -> (r: Option<&String>)
        ensures
            match r {
                Some(s) => self.command_for(platform) == Some(s@),
                None => self.command_for(platform).is_none(),
            },
    {
        match platform {
            Platform::Linux => self.linux.as_ref(),
            Platform::MacOs => self.macos.as_ref(),
            Platform::Windows => self.windows.as_ref(),
            Platform::Other => None,
        }
    }

    /// Whether this action defines a command for `platform`.
    pub fn is_available(&self, platform: Platform) -> (r: bool)
        ensures
            r == self.command_for(platform).is_some(),
    {
        self.command_string(platform).is_some()
    }

    /// The number of arguments the command for `platform` needs: the largest
    /// number that follows a `%` or `$` in it, 0 when there is no command.
    pub fn required_args(&self, platform: Platform) -> (r: usize)
        ensures
            r == self.required_args_spec(platform),
    {
        match self.command_string(platform) {
            Some(c) => scan_required_args(c.as_str()),
            None => 0,
        }
    }

    /// The command line for the words of this action's command and the given
    /// arguments: the first word is the program; in each other word the
    /// placeholders of the arguments are replaced by their values.
    pub fn command_from_words(&self, words: &Vec<String>, args: &Vec<String>, platform: Platform) -> (r:
        Result<CommandLine, CommandError>)
        ensures
            command_view(r) == command_from_words_spec(
                strings_view(words@),
                self.required_args_spec(platform),
                strings_view(args@),
            ),
    {
        if words.len() == 0 {
            return Err(CommandError::Empty);
        }
        let required = self.required_args(platform);
        if args.len() < required {
            return Err(CommandError::MissingArguments { required, given: args.len() });
        }
        let ghost a = strings_view(args@);
        let ghost w = strings_view(words@);
        let mut out: Vec<String> = Vec::new();
        let mut i: usize = 1;
        while i < words.len()
            invariant
                1 <= i <= words@.len(),
                a == strings_view(args@),
                w == strings_view(words@),
                out@.len() == i - 1,
                forall|k: int|
                    0 <= k < out@.len() ==> #[trigger] out@[k]@ == substitute(
                        w[k + 1],
                        a,
                        args@.len() as nat,
                    ),
            decreases words@.len() - i,
        {
            out.push(substitute_word(&words[i], args));
            i = i + 1;
        }
        proof {
            assert(strings_view(out@) =~= w.skip(1).map_values(
                |x: Seq<char>| substitute(x, a, a.len()),
            ));
        }
        Ok(CommandLine { program: words[0].clone(), args: out })
    }

    /// The command line that runs this action on `platform` with `args`.
    pub fn to_command(&self, args: &Vec<String>, platform: Platform) -> (r: Result<
        CommandLine,
        CommandError,
    >)
        ensures
            command_outcome(*self, platform, strings_view(args@), command_view(r)),
    {
        let command = match self.command_string(platform) {
            Some(c) => c,
            None => return Err(CommandError::NotDefined),
        };
        let words = match split_words(command.as_str()) {
            Some(w) => w,
            None => return Err(CommandError::Unparsable),
        };
        self.command_from_words(&words, args, platform)
    }
}

impl Platform {
    /// The platform that an operating system name, as Rust spells it
    /// (`linux`, `macos`, `windows`), stands for.
    pub fn from_os_name(name: &str) -> (r: Platform)
        ensures
            name@ == seq!['l', 'i', 'n', 'u', 'x'] ==> r == Platform::Linux,
            name@ == seq!['m', 'a', 'c', 'o', 's'] ==> r == Platform::MacOs,
            name@ == seq!['w', 'i', 'n', 'd', 'o', 'w', 's'] ==> r == Platform::Windows,
            r == Platform::Linux ==> name@ == seq!['l', 'i', 'n', 'u', 'x'],
            r == Platform::MacOs ==> name@ == seq!['m', 'a', 'c', 'o', 's'],
            r == Platform::Windows ==> name@ == seq!['w', 'i', 'n', 'd', 'o', 'w', 's'],
    {
        let cs = chars_of(name);
        let linux = chars_of("linux");
        let macos = chars_of("macos");
        let windows = chars_of("windows");
        proof {
            reveal_strlit("linux");
            reveal_strlit("macos");
            reveal_strlit("windows");
            assert(linux@ =~= seq!['l', 'i', 'n', 'u', 'x']);
            assert(macos@ =~= seq!['m', 'a', 'c', 'o', 's']);
            assert(windows@ =~= seq!['w', 'i', 'n', 'd', 'o', 'w', 's']);
        }
        if chars_equal(&cs, &linux) {
            Platform::Linux
        } else if chars_equal(&cs, &macos) {
            Platform::MacOs
        } else if chars_equal(&cs, &windows) {
            Platform::Windows
        } else {
            Platform::Other
        }
    }
}

/// The words of an action request as it is shown: the action's name, then
/// each argument after a space.
pub open spec fn describe_spec(action: Seq<char>, args: Seq<Seq<char>>) -> Seq<char>
    decreases args.len(),
{
    if args.len() == 0 {
        action
    } else {
        describe_spec(action, args.drop_last()) + seq![' '] + args.last()
    }
}

impl Action {
    /// The action's name followed by its arguments, separated by spaces.
    pub fn describe(&self) -> (r: String)
        ensures
            r@ == describe_spec(self.action@, strings_view(self.args@)),
    {
        let ghost a = strings_view(self.args@);
        let mut out = chars_of(self.action.as_str());
        let mut i: usize = 0;
        while i < self.args.len()
            invariant
                i <= self.args@.len(),
                a == strings_view(self.args@),
                out@ == describe_spec(self.action@, a.take(i as int)),
            decreases self.args@.len() - i,
        {
            let arg = chars_of(self.args[i].as_str());
            let ghost before = out@;
            out.push(' ');
            let mut k: usize = 0;
            while k < arg.len()
                invariant
                    k <= arg@.len(),
                    out@ == before + seq![' '] + arg@.take(k as int),
                decreases arg@.len() - k,
            {
                out.push(arg[k]);
                k = k + 1;
                assert(out@ =~= before + seq![' '] + arg@.take(k as int));
            }
            proof {
                assert(arg@.take(arg@.len() as int) =~= arg@);
                assert(a.take(i + 1).drop_last() =~= a.take(i as int));
            }
            i = i + 1;
        }
        proof {
            assert(a.take(a.len() as int) =~= a);
        }
        string_of(&out)
    }

    /// A request for `action` with a copy of `args`.
    pub fn new(action: &String, args: &Vec<String>) -> (r: Action)
        ensures
            r.action@ == action@,
            strings_view(r.args@) == strings_view(args@),
    {
        Action { action: action.clone(), args: copy_strings(args) }
    }
}

} // verus!
